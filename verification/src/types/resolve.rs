//! The type resolver: from a declaration of the module to the type it stands for.

use crate::error::ReflectError;
use crate::module::{SpvInstruction, InstructionView, SpvModule, ModuleView, Op, SpvOperand, OperandView};
use crate::text::{before_last, decimal, numbered, prefix_before_last};
use crate::types::structure::member::member_views;
use crate::types::structure::{composed, field_views, Field, FieldView};
use crate::types::{
    Array, ArrayView, Member, MemberView, Scalar, Structure, StructureView, Type, TypeView, Vector,
};
use crate::utilities::debug::{member_name_of, name_of};
use crate::utilities::decorations::member_offset;
use crate::utilities::id::definition;
use crate::utilities::{
    find_instruction_with_id, find_member_name, find_member_offset, find_name_for_id,
};
use vstd::prelude::*;

verus! {

/// How many declarations deep the resolver follows references from one
/// declaration to another.
pub const RESOLUTION_DEPTH: u32 = 64;

/// The scalar of `width` bits, unsigned, signed or floating point.
pub open spec fn integer_of(width: u32, signed: bool) -> Option<Scalar> {
    if width == 8 {
        Some(if signed { Scalar::I8 } else { Scalar::U8 })
    } else if width == 16 {
        Some(if signed { Scalar::I16 } else { Scalar::U16 })
    } else if width == 32 {
        Some(if signed { Scalar::I32 } else { Scalar::U32 })
    } else if width == 64 {
        Some(if signed { Scalar::I64 } else { Scalar::U64 })
    } else {
        None
    }
}

/// The scalar that `instruction` declares.
///
/// An integer type gives its width and its signedness, 0 or 1; a floating point
/// type gives its width. Widths other than 8, 16, 32 and 64 bits for integers,
/// and other than 32 and 64 bits for floating point, are failures, and so is
/// any other signedness. A declaration of another kind, or one without these
/// operands, declares no scalar.
pub open spec fn scalar_of(instruction: InstructionView) -> Result<Option<Scalar>, ReflectError> {
    match instruction.opcode {
        Op::TypeInt => match (instruction.operand(0), instruction.operand(1)) {
            (Some(OperandView::LiteralBit32(width)), Some(OperandView::LiteralBit32(signedness))) => {
                if signedness > 1 {
                    Err(ReflectError::InvalidSignedness { id: instruction.result_id, signedness })
                } else {
                    match integer_of(width, signedness == 1) {
                        Some(scalar) => Ok(Some(scalar)),
                        None => Err(
                            ReflectError::UnsupportedWidth { id: instruction.result_id, width },
                        ),
                    }
                }
            },
            _ => Ok(None),
        },
        Op::TypeFloat => match instruction.operand(0) {
            Some(OperandView::LiteralBit32(width)) => {
                if width == 32 {
                    Ok(Some(Scalar::F32))
                } else if width == 64 {
                    Ok(Some(Scalar::F64))
                } else {
                    Err(ReflectError::UnsupportedWidth { id: instruction.result_id, width })
                }
            },
            _ => Ok(None),
        },
        _ => Ok(None),
    }
}

/// The vector that `instruction` declares: its component type must be declared
/// as a scalar, and its component count is a literal.
pub open spec fn vector_of(module: ModuleView, instruction: InstructionView) -> Result<
    Option<Vector>,
    ReflectError,
> {
    match (instruction.opcode, instruction.operand(0)) {
        (Op::TypeVector, Some(OperandView::IdRef(component))) => match definition(module, component) {
            Some(declaration) => match scalar_of(declaration) {
                Ok(Some(component_type)) => match instruction.operand(1) {
                    Some(OperandView::LiteralBit32(component_count)) => Ok(
                        Some(Vector { component_type, component_count }),
                    ),
                    _ => Ok(None),
                },
                Ok(None) => Ok(None),
                Err(error) => Err(error),
            },
            None => Ok(None),
        },
        _ => Ok(None),
    }
}

/// The name of the structure declared as `id`: its debug name up to the last
/// `_std430` in it, or `Structure` and the id where it has no debug name.
pub open spec fn structure_name(module: ModuleView, id: u32) -> Seq<char> {
    match name_of(module, id) {
        Some(name) => before_last(name, "_std430"@),
        None => "Structure"@ + decimal(id as nat),
    }
}

/// The name of member `member` of the structure `structure`: its debug name, or
/// `field_` and its position where it has none.
pub open spec fn member_name(module: ModuleView, structure: u32, member: u32) -> Seq<char> {
    match member_name_of(module, structure, member) {
        Some(name) => name,
        None => "field_"@ + decimal(member as nat),
    }
}

/// The type that the declaration defining `id` stands for, followed `depth`
/// declarations deep; a failure where `depth` is used up.
pub open spec fn resolved_id(module: ModuleView, id: u32, from: Option<u32>, depth: nat) -> Result<
    Option<TypeView>,
    ReflectError,
>
    decreases depth, 0nat, 0nat,
{
    match definition(module, id) {
        Some(declaration) => {
            if depth == 0 {
                Err(ReflectError::TooDeep { id: from })
            } else {
                resolved(module, declaration, (depth - 1) as nat)
            }
        },
        None => Ok(None),
    }
}

/// The member that the operand at position `index` of the structure `structure`
/// declares, at its decorated offset.
///
/// The operand names the declaration of the member's type. A member whose type
/// is known but which has no `Offset` decoration is a failure.
pub open spec fn member_of(
    module: ModuleView,
    id: u32,
    structure: u32,
    index: u32,
    depth: nat,
) -> Result<Option<MemberView>, ReflectError>
    decreases depth, 1nat, 0nat,
{
    match resolved_id(module, id, Some(structure), depth) {
        Ok(Some(member_type)) => match member_offset(module, structure, index) {
            Some(offset) => Ok(
                Some(
                    MemberView {
                        member_type,
                        offset,
                        name: member_name(module, structure, index),
                        location: Some(index),
                    },
                ),
            ),
            None => Err(ReflectError::MissingOffset { structure, member: index }),
        },
        Ok(None) => Ok(None),
        Err(error) => Err(error),
    }
}

/// The field that stands for a member read from the module: its offset is declared.
pub open spec fn declared_field(member: MemberView) -> FieldView {
    FieldView {
        field_type: member.member_type,
        name: member.name,
        offset: Some(member.offset),
        location: member.location,
    }
}

/// The field that the operand at position `index` of the structure `structure`
/// declares: the operand names the declaration of the field's type.
pub open spec fn field_of(
    module: ModuleView,
    operand: OperandView,
    structure: u32,
    index: u32,
    depth: nat,
) -> Result<Option<FieldView>, ReflectError>
    decreases depth, 2nat, 0nat,
{
    match operand {
        OperandView::IdRef(id) => match member_of(module, id, structure, index, depth) {
            Ok(Some(member)) => Ok(Some(declared_field(member))),
            Ok(None) => Ok(None),
            Err(error) => Err(error),
        },
        _ => Ok(None),
    }
}

/// The fields that the first `count` operands of a structure declaration declare.
pub open spec fn fields_of(
    module: ModuleView,
    instruction: InstructionView,
    structure: u32,
    count: int,
    depth: nat,
) -> Result<Option<Seq<FieldView>>, ReflectError>
    decreases depth, 3nat, count,
{
    if count <= 0 || count > instruction.operands.len() || count > u32::MAX {
        Ok(Some(Seq::empty()))
    } else {
        match fields_of(module, instruction, structure, count - 1, depth) {
            Ok(Some(earlier)) => match field_of(
                module,
                instruction.operands[count - 1],
                structure,
                (count - 1) as u32,
                depth,
            ) {
                Ok(Some(field)) => Ok(Some(earlier.push(field))),
                Ok(None) => Ok(None),
                Err(error) => Err(error),
            },
            Ok(None) => Ok(None),
            Err(error) => Err(error),
        }
    }
}

/// The structure that `instruction` declares: its members stand at their
/// decorated offsets, with padding in the gaps and at the end.
pub open spec fn structure_of(module: ModuleView, instruction: InstructionView, depth: nat) -> Result<
    Option<StructureView>,
    ReflectError,
>
    decreases depth, 4nat, 0nat,
{
    match (instruction.opcode, instruction.result_id) {
        (Op::TypeStruct, Some(id)) => {
            if instruction.operands.len() > u32::MAX {
                Ok(None)
            } else {
                match fields_of(module, instruction, id, instruction.operands.len() as int, depth) {
                    Ok(Some(fields)) => match composed(fields, structure_name(module, id)) {
                        Ok(structure) => Ok(Some(structure)),
                        Err(error) => Err(ReflectError::Layout { structure: id, error }),
                    },
                    Ok(None) => Ok(None),
                    Err(error) => Err(error),
                }
            }
        },
        _ => Ok(None),
    }
}

/// The array that `instruction` declares: its element type is resolved, and its
/// length is a literal.
pub open spec fn array_of(module: ModuleView, instruction: InstructionView, depth: nat) -> Result<
    Option<ArrayView>,
    ReflectError,
>
    decreases depth, 4nat, 0nat,
{
    match (instruction.opcode, instruction.operand(0)) {
        (Op::TypeArray, Some(OperandView::IdRef(element))) => match resolved_id(
            module,
            element,
            instruction.result_id,
            depth,
        ) {
            Ok(Some(element_type)) => match instruction.operand(1) {
                Some(OperandView::LiteralBit32(length)) => Ok(
                    Some(ArrayView { element_type: Box::new(element_type), length }),
                ),
                _ => Ok(None),
            },
            Ok(None) => Ok(None),
            Err(error) => Err(error),
        },
        _ => Ok(None),
    }
}

/// The type that `instruction` stands for.
///
/// Integer and floating point declarations stand for scalars, vector, array and
/// structure declarations for vectors, arrays and structures. A pointer stands
/// for the type it points to, a variable for the type of its result. Any other
/// declaration stands for no type. References from one declaration to another
/// are followed `depth` declarations deep.
pub open spec fn resolved(module: ModuleView, instruction: InstructionView, depth: nat) -> Result<
    Option<TypeView>,
    ReflectError,
>
    decreases depth, 5nat, 0nat,
{
    match instruction.opcode {
        Op::TypeInt | Op::TypeFloat => match scalar_of(instruction) {
            Ok(Some(scalar)) => Ok(Some(TypeView::Scalar(scalar))),
            Ok(None) => Ok(None),
            Err(error) => Err(error),
        },
        Op::TypeVector => match vector_of(module, instruction) {
            Ok(Some(vector)) => Ok(Some(TypeView::Vector(vector))),
            Ok(None) => Ok(None),
            Err(error) => Err(error),
        },
        Op::TypeArray => match array_of(module, instruction, depth) {
            Ok(Some(array)) => Ok(Some(TypeView::Array(array))),
            Ok(None) => Ok(None),
            Err(error) => Err(error),
        },
        Op::TypeStruct => match structure_of(module, instruction, depth) {
            Ok(Some(structure)) => Ok(Some(TypeView::Struct(structure))),
            Ok(None) => Ok(None),
            Err(error) => Err(error),
        },
        Op::TypePointer => match instruction.operand(1) {
            Some(OperandView::IdRef(pointee)) => resolved_id(
                module,
                pointee,
                instruction.result_id,
                depth,
            ),
            _ => Ok(None),
        },
        Op::Variable => match instruction.result_type {
            Some(result_type) => resolved_id(module, result_type, instruction.result_id, depth),
            None => Ok(None),
        },
        _ => Ok(None),
    }
}

/// A structure that the resolver reaches as the type of a declaration is well formed.
pub proof fn lemma_resolved_id_well_formed(module: ModuleView, id: u32, from: Option<u32>, depth: nat)
    ensures
        resolved_id(module, id, from, depth) matches Ok(Some(TypeView::Struct(structure)))
            ==> structure.well_formed(),
    decreases depth, 0nat,
{
    match definition(module, id) {
        Some(declaration) => {
            if depth > 0 {
                lemma_resolved_well_formed(module, declaration, (depth - 1) as nat);
            }
        },
        None => {},
    }
}

/// A structure that the resolver reaches as the type of a declaration is well formed.
pub proof fn lemma_resolved_well_formed(module: ModuleView, instruction: InstructionView, depth: nat)
    ensures
        resolved(module, instruction, depth) matches Ok(Some(TypeView::Struct(structure)))
            ==> structure.well_formed(),
    decreases depth, 1nat,
{
    match instruction.opcode {
        Op::TypeStruct => {
            match (instruction.opcode, instruction.result_id) {
                (Op::TypeStruct, Some(id)) => {
                    if instruction.operands.len() <= u32::MAX {
                        match fields_of(
                            module,
                            instruction,
                            id,
                            instruction.operands.len() as int,
                            depth,
                        ) {
                            Ok(Some(fields)) => {
                                crate::types::structure::lemma_composed_well_formed(
                                    fields,
                                    structure_name(module, id),
                                );
                            },
                            _ => {},
                        }
                    }
                },
                _ => {},
            }
        },
        Op::TypePointer => match instruction.operand(1) {
            Some(OperandView::IdRef(pointee)) => {
                lemma_resolved_id_well_formed(module, pointee, instruction.result_id, depth);
            },
            _ => {},
        },
        Op::Variable => match instruction.result_type {
            Some(result_type) => {
                lemma_resolved_id_well_formed(module, result_type, instruction.result_id, depth);
            },
            None => {},
        },
        _ => {},
    }
}

/// The fields of a structure declaration are its operands, in order: the field
/// at a position has the type that its operand resolves to, the decorated
/// offset and the name of the member at that position, and the position as its
/// location.
pub proof fn lemma_fields_of(
    module: ModuleView,
    instruction: InstructionView,
    structure: u32,
    count: int,
    depth: nat,
)
    requires
        0 <= count <= instruction.operands.len() <= u32::MAX,
        fields_of(module, instruction, structure, count, depth) matches Ok(Some(_)),
    ensures
        ({
            let fields = fields_of(module, instruction, structure, count, depth)->Ok_0->0;
            &&& fields.len() == count
            &&& forall|i: int|
                0 <= i < count ==> {
                    &&& instruction.operands[i] is IdRef
                    &&& resolved_id(
                        module,
                        instruction.operands[i]->IdRef_0,
                        Some(structure),
                        depth,
                    ) == Ok::<Option<TypeView>, ReflectError>(Some((#[trigger] fields[i]).field_type))
                    &&& member_offset(module, structure, i as u32) == fields[i].offset
                    &&& fields[i].offset is Some
                    &&& fields[i].location == Some(i as u32)
                    &&& fields[i].name == member_name(module, structure, i as u32)
                }
        }),
    decreases count,
{
    if count > 0 {
        lemma_fields_of(module, instruction, structure, count - 1, depth);
        let earlier = fields_of(module, instruction, structure, count - 1, depth)->Ok_0->0;
        let fields = fields_of(module, instruction, structure, count, depth)->Ok_0->0;
        let field = field_of(
            module,
            instruction.operands[count - 1],
            structure,
            (count - 1) as u32,
            depth,
        )->Ok_0->0;
        assert(fields == earlier.push(field));
        assert forall|i: int| 0 <= i < count implies {
            &&& instruction.operands[i] is IdRef
            &&& resolved_id(module, instruction.operands[i]->IdRef_0, Some(structure), depth) == Ok::<
                Option<TypeView>,
                ReflectError,
            >(Some((#[trigger] fields[i]).field_type))
            &&& member_offset(module, structure, i as u32) == fields[i].offset
            &&& fields[i].offset is Some
            &&& fields[i].location == Some(i as u32)
            &&& fields[i].name == member_name(module, structure, i as u32)
        } by {
            if i < count - 1 {
                assert(fields[i] == earlier[i]);
            }
        }
    }
}

/// A structure that is read from its declaration holds its members in order at
/// exactly their decorated offsets, with padding only in the gaps between
/// them and after the last, and is well formed.
pub proof fn lemma_structure_of_keeps_offsets(
    module: ModuleView,
    instruction: InstructionView,
    depth: nat,
)
    requires
        structure_of(module, instruction, depth) matches Ok(Some(_)),
    ensures
        ({
            let structure = structure_of(module, instruction, depth)->Ok_0->0;
            let id = instruction.result_id->0;
            let count = instruction.operands.len() as int;
            let fields = fields_of(module, instruction, id, count, depth)->Ok_0->0;
            &&& structure.well_formed()
            &&& fields.len() == count
            &&& forall|i: int|
                0 <= i < count ==> (#[trigger] fields[i]).offset == member_offset(
                    module,
                    id,
                    i as u32,
                ) && fields[i].offset is Some
            &&& crate::types::structure::laws::keeps_declared(structure.members, fields, count)
            &&& structure.members.len() == count + crate::types::structure::laws::gaps(
                fields,
                count,
            ) + (if structure.layout.size > crate::types::structure::laws::declared_end(
                fields,
                count,
            ) {
                1int
            } else {
                0int
            })
        }),
{
    let id = instruction.result_id->0;
    let count = instruction.operands.len() as int;
    let fields = fields_of(module, instruction, id, count, depth)->Ok_0->0;
    lemma_fields_of(module, instruction, id, count, depth);
    crate::types::structure::lemma_composed_well_formed(fields, structure_name(module, id));
    crate::types::structure::laws::lemma_explicit_offsets_round_trip(
        fields,
        structure_name(module, id),
    );
}

/// Success is owed to a structure declaration whose members all resolve and
/// have offsets that fit: no member is declared below the end of the member
/// before it, and the structure fits in 32 bits.
pub proof fn lemma_structure_of_succeeds(module: ModuleView, instruction: InstructionView, depth: nat)
    requires
        instruction.opcode == Op::TypeStruct,
        instruction.result_id is Some,
        instruction.operands.len() <= u32::MAX,
        fields_of(
            module,
            instruction,
            instruction.result_id->0,
            instruction.operands.len() as int,
            depth,
        ) matches Ok(Some(fields)) && crate::types::structure::laws::declared_fit(fields),
    ensures
        structure_of(module, instruction, depth) matches Ok(Some(_)),
{
    let id = instruction.result_id->0;
    let fields = fields_of(module, instruction, id, instruction.operands.len() as int, depth)->Ok_0->0;
    crate::types::structure::laws::lemma_declared_fit_composes(fields, structure_name(module, id));
}

/// Whether an outcome with a value agrees with an outcome with the value's view.
pub open spec fn agrees<T: View>(
    outcome: Result<Option<T>, ReflectError>,
    expected: Result<Option<T::V>, ReflectError>,
) -> bool {
    match expected {
        Ok(Some(view)) => outcome matches Ok(Some(value)) && value@ == view,
        Ok(None) => outcome matches Ok(None),
        Err(error) => outcome matches Err(failure) && failure == error,
    }
}

/// A structure type has the view of its structure.
pub proof fn lemma_structure_type_view(structure: Structure)
    ensures
        Type::Struct(structure)@ == TypeView::Struct(structure@),
{
    let direct = Type::Struct(structure)@->Struct_0;
    assert(direct.members =~= member_views(structure.members@));
}

impl Scalar {
    /// Reads the scalar that `instruction` declares.
    pub fn from_instruction(instruction: &SpvInstruction) -> (outcome: Result<
        Option<Scalar>,
        ReflectError,
    >)
        ensures
            outcome == scalar_of(instruction@),
    {
        match instruction.opcode {
            Op::TypeInt => {
                let width: u32 = match instruction.literal_at(0) {
                    Some(value) => value,
                    None => {
                        return Ok(None);
                    },
                };
                let signedness: u32 = match instruction.literal_at(1) {
                    Some(value) => value,
                    None => {
                        return Ok(None);
                    },
                };
                if signedness > 1 {
                    return Err(
                        ReflectError::InvalidSignedness { id: instruction.result_id, signedness },
                    );
                }
                let signed: bool = signedness == 1;
                let scalar = match width {
                    8 => if signed { Scalar::I8 } else { Scalar::U8 },
                    16 => if signed { Scalar::I16 } else { Scalar::U16 },
                    32 => if signed { Scalar::I32 } else { Scalar::U32 },
                    64 => if signed { Scalar::I64 } else { Scalar::U64 },
                    _ => {
                        return Err(
                            ReflectError::UnsupportedWidth { id: instruction.result_id, width },
                        );
                    },
                };
                Ok(Some(scalar))
            },
            Op::TypeFloat => {
                let width: u32 = match instruction.literal_at(0) {
                    Some(value) => value,
                    None => {
                        return Ok(None);
                    },
                };
                match width {
                    32 => Ok(Some(Scalar::F32)),
                    64 => Ok(Some(Scalar::F64)),
                    _ => Err(ReflectError::UnsupportedWidth { id: instruction.result_id, width }),
                }
            },
            _ => Ok(None),
        }
    }
}

impl Vector {
    /// Reads the vector that `instruction` declares.
    pub fn from_instruction(instruction: &SpvInstruction, module: &SpvModule) -> (outcome: Result<
        Option<Vector>,
        ReflectError,
    >)
        ensures
            outcome == vector_of(module@, instruction@),
    {
        match instruction.opcode {
            Op::TypeVector => {},
            _ => {
                return Ok(None);
            },
        }
        let component: u32 = match instruction.id_ref_at(0) {
            Some(id) => id,
            None => {
                return Ok(None);
            },
        };
        let declaration = match find_instruction_with_id(component, module) {
            Some(found) => found,
            None => {
                return Ok(None);
            },
        };
        let component_type = match Scalar::from_instruction(declaration) {
            Ok(Some(scalar)) => scalar,
            Ok(None) => {
                return Ok(None);
            },
            Err(error) => {
                return Err(error);
            },
        };
        match instruction.literal_at(1) {
            Some(component_count) => Ok(Some(Vector { component_type, component_count })),
            None => Ok(None),
        }
    }
}

/// Gives the structure declared as `id` its name.
pub fn name_structure(id: u32, module: &SpvModule) -> (name: String)
    ensures
        name@ == structure_name(module@, id),
{
    match find_name_for_id(id, module) {
        Some(name) => prefix_before_last(name.as_str(), "_std430"),
        None => numbered("Structure", id),
    }
}

/// Gives member `member` of the structure `structure` its name.
pub fn name_member(structure: u32, member: u32, module: &SpvModule) -> (name: String)
    ensures
        name@ == member_name(module@, structure, member),
{
    match find_member_name(structure, member, module) {
        Some(name) => name,
        None => numbered("field_", member),
    }
}

impl Type {
    /// Resolves the type that `instruction` stands for, following references
    /// between declarations [`RESOLUTION_DEPTH`] deep.
    pub fn from_instruction(instruction: &SpvInstruction, module: &SpvModule) -> (outcome: Result<
        Option<Type>,
        ReflectError,
    >)
        ensures
            agrees(outcome, resolved(module@, instruction@, RESOLUTION_DEPTH as nat)),
    {
        Type::resolve(instruction, module, RESOLUTION_DEPTH)
    }

    /// Resolves the type that the declaration defining `id` stands for.
    pub fn resolve_id(id: u32, from: Option<u32>, module: &SpvModule, depth: u32) -> (outcome: Result<
        Option<Type>,
        ReflectError,
    >)
        ensures
            agrees(outcome, resolved_id(module@, id, from, depth as nat)),
        decreases depth, 0nat, 0nat,
    {
        match find_instruction_with_id(id, module) {
            Some(declaration) => {
                if depth == 0 {
                    Err(ReflectError::TooDeep { id: from })
                } else {
                    Type::resolve(declaration, module, depth - 1)
                }
            },
            None => Ok(None),
        }
    }

    /// Resolves the type that `instruction` stands for, following references
    /// between declarations `depth` deep.
    pub fn resolve(instruction: &SpvInstruction, module: &SpvModule, depth: u32) -> (outcome: Result<
        Option<Type>,
        ReflectError,
    >)
        ensures
            agrees(outcome, resolved(module@, instruction@, depth as nat)),
        decreases depth, 5nat, 0nat,
    {
        match instruction.opcode {
            Op::TypeInt | Op::TypeFloat => match Scalar::from_instruction(instruction) {
                Ok(Some(scalar)) => Ok(Some(Type::Scalar(scalar))),
                Ok(None) => Ok(None),
                Err(error) => Err(error),
            },
            Op::TypeVector => match Vector::from_instruction(instruction, module) {
                Ok(Some(vector)) => Ok(Some(Type::Vector(vector))),
                Ok(None) => Ok(None),
                Err(error) => Err(error),
            },
            Op::TypeArray => match Array::resolve(instruction, module, depth) {
                Ok(Some(array)) => Ok(Some(Type::Array(array))),
                Ok(None) => Ok(None),
                Err(error) => Err(error),
            },
            Op::TypeStruct => match Structure::resolve(instruction, module, depth) {
                Ok(Some(structure)) => {
                    proof {
                        lemma_structure_type_view(structure);
                    }
                    Ok(Some(Type::Struct(structure)))
                },
                Ok(None) => Ok(None),
                Err(error) => Err(error),
            },
            Op::TypePointer => match instruction.id_ref_at(1) {
                Some(pointee) => Type::resolve_id(pointee, instruction.result_id, module, depth),
                None => Ok(None),
            },
            Op::Variable => match instruction.result_type {
                Some(result_type) => Type::resolve_id(
                    result_type,
                    instruction.result_id,
                    module,
                    depth,
                ),
                None => Ok(None),
            },
            _ => Ok(None),
        }
    }
}

impl Array {
    /// Reads the array that `instruction` declares.
    pub fn from_instruction(instruction: &SpvInstruction, module: &SpvModule) -> (outcome: Result<
        Option<Array>,
        ReflectError,
    >)
        ensures
            agrees(outcome, array_of(module@, instruction@, RESOLUTION_DEPTH as nat)),
    {
        Array::resolve(instruction, module, RESOLUTION_DEPTH)
    }

    /// Reads the array that `instruction` declares, following references between
    /// declarations `depth` deep.
    pub fn resolve(instruction: &SpvInstruction, module: &SpvModule, depth: u32) -> (outcome: Result<
        Option<Array>,
        ReflectError,
    >)
        ensures
            agrees(outcome, array_of(module@, instruction@, depth as nat)),
        decreases depth, 4nat, 0nat,
    {
        match instruction.opcode {
            Op::TypeArray => {},
            _ => {
                return Ok(None);
            },
        }
        let element: u32 = match instruction.id_ref_at(0) {
            Some(id) => id,
            None => {
                return Ok(None);
            },
        };
        let element_type = match Type::resolve_id(element, instruction.result_id, module, depth) {
            Ok(Some(resolved)) => resolved,
            Ok(None) => {
                return Ok(None);
            },
            Err(error) => {
                return Err(error);
            },
        };
        match instruction.literal_at(1) {
            Some(length) => Ok(Some(Array::new(element_type, length))),
            None => Ok(None),
        }
    }
}

impl Member {
    /// Reads member `location` of the structure `struct_id`, whose type is
    /// declared as `id`, at its decorated offset.
    pub fn from_id(id: u32, struct_id: u32, location: u32, module: &SpvModule) -> (outcome: Result<
        Option<Member>,
        ReflectError,
    >)
        ensures
            agrees(outcome, member_of(module@, id, struct_id, location, RESOLUTION_DEPTH as nat)),
    {
        Member::resolve(id, struct_id, location, module, RESOLUTION_DEPTH)
    }

    /// Reads a member of a structure, following references between declarations
    /// `depth` deep.
    pub fn resolve(id: u32, struct_id: u32, location: u32, module: &SpvModule, depth: u32) -> (outcome:
        Result<Option<Member>, ReflectError>)
        ensures
            agrees(outcome, member_of(module@, id, struct_id, location, depth as nat)),
        decreases depth, 1nat, 0nat,
    {
        let member_type = match Type::resolve_id(id, Some(struct_id), module, depth) {
            Ok(Some(resolved)) => resolved,
            Ok(None) => {
                return Ok(None);
            },
            Err(error) => {
                return Err(error);
            },
        };
        let offset: u32 = match find_member_offset(module, struct_id, location) {
            Some(value) => value,
            None => {
                return Err(ReflectError::MissingOffset { structure: struct_id, member: location });
            },
        };
        let name = name_member(struct_id, location, module);
        Ok(Some(Member::new(member_type, offset, name, Some(location))))
    }
}

impl Field {
    /// Reads the field that the operand at position `index` of the structure
    /// `structure` declares, following references between declarations `depth` deep.
    pub fn resolve(operand: &SpvOperand, structure: u32, index: u32, module: &SpvModule, depth: u32) -> (outcome:
        Result<Option<Field>, ReflectError>)
        ensures
            agrees(outcome, field_of(module@, operand@, structure, index, depth as nat)),
        decreases depth, 2nat, 0nat,
    {
        match operand {
            SpvOperand::IdRef(id) => match Member::resolve(*id, structure, index, module, depth) {
                Ok(Some(member)) => {
                    let Member { member_type, offset, name, location } = member;
                    Ok(
                        Some(
                            Field { field_type: *member_type, name, offset: Some(offset), location },
                        ),
                    )
                },
                Ok(None) => Ok(None),
                Err(error) => Err(error),
            },
            _ => Ok(None),
        }
    }
}

impl Structure {
    /// Reads the structure that `instruction` declares.
    pub fn from_instruction(instruction: &SpvInstruction, module: &SpvModule) -> (outcome: Result<
        Option<Structure>,
        ReflectError,
    >)
        ensures
            agrees(outcome, structure_of(module@, instruction@, RESOLUTION_DEPTH as nat)),
            outcome matches Ok(Some(structure)) ==> structure@.well_formed(),
    {
        Structure::resolve(instruction, module, RESOLUTION_DEPTH)
    }

    /// Reads the fields that the operands of the structure declaration
    /// `instruction` declare.
    pub fn resolve_fields(instruction: &SpvInstruction, id: u32, module: &SpvModule, depth: u32) -> (outcome:
        Result<Option<Vec<Field>>, ReflectError>)
        requires
            instruction.operands.len() <= u32::MAX,
        ensures
            match fields_of(
                module@,
                instruction@,
                id,
                instruction@.operands.len() as int,
                depth as nat,
            ) {
                Ok(Some(views)) => outcome matches Ok(Some(fields)) && field_views(fields@) == views,
                Ok(None) => outcome matches Ok(None),
                Err(error) => outcome matches Err(failure) && failure == error,
            },
        decreases depth, 3nat, instruction.operands.len(),
    {
        let count: usize = instruction.operands.len();
        let mut fields: Vec<Field> = Vec::new();
        let mut index: usize = 0;
        assert(field_views(fields@) =~= Seq::<FieldView>::empty());
        while index < count
            invariant
                index <= count,
                count == instruction.operands.len(),
                count == instruction@.operands.len(),
                count <= u32::MAX,
                fields_of(module@, instruction@, id, index as int, depth as nat) == Ok::<
                    Option<Seq<FieldView>>,
                    ReflectError,
                >(Some(field_views(fields@))),
            decreases count - index,
        {
            let ghost earlier = field_views(fields@);
            assert(instruction@.operands[index as int] == instruction.operands[index as int]@);
            let read = Field::resolve(&instruction.operands[index], id, index as u32, module, depth);
            proof {
                if !(read matches Ok(Some(_))) {
                    lemma_fields_stop(module@, instruction@, id, index + 1, depth as nat);
                }
            }
            match read {
                Ok(Some(field)) => {
                    let ghost view = field@;
                    fields.push(field);
                    assert(field_views(fields@) =~= earlier.push(view));
                },
                Ok(None) => {
                    return Ok(None);
                },
                Err(error) => {
                    return Err(error);
                },
            }
            index = index + 1;
        }
        Ok(Some(fields))
    }

    /// Reads the structure that `instruction` declares, following references
    /// between declarations `depth` deep.
    pub fn resolve(instruction: &SpvInstruction, module: &SpvModule, depth: u32) -> (outcome: Result<
        Option<Structure>,
        ReflectError,
    >)
        ensures
            agrees(outcome, structure_of(module@, instruction@, depth as nat)),
            outcome matches Ok(Some(structure)) ==> structure@.well_formed(),
        decreases depth, 4nat, 0nat,
    {
        match instruction.opcode {
            Op::TypeStruct => {},
            _ => {
                return Ok(None);
            },
        }
        let id: u32 = match instruction.result_id {
            Some(value) => value,
            None => {
                return Ok(None);
            },
        };
        if instruction.operands.len() > u32::MAX as usize {
            return Ok(None);
        }
        let fields = match Structure::resolve_fields(instruction, id, module, depth) {
            Ok(Some(read)) => read,
            Ok(None) => {
                return Ok(None);
            },
            Err(error) => {
                return Err(error);
            },
        };
        let name = name_structure(id, module);
        match Structure::compose(fields, name) {
            Ok(structure) => Ok(Some(structure)),
            Err(error) => Err(ReflectError::Layout { structure: id, error }),
        }
    }
}

/// Once an operand declares no member, or fails, the fields of the structure
/// are the same however many operands follow.
pub proof fn lemma_fields_stop(
    module: ModuleView,
    instruction: InstructionView,
    structure: u32,
    count: int,
    depth: nat,
)
    requires
        0 < count <= instruction.operands.len() <= u32::MAX,
        !(fields_of(module, instruction, structure, count, depth) matches Ok(Some(_))),
    ensures
        fields_of(module, instruction, structure, instruction.operands.len() as int, depth)
            == fields_of(module, instruction, structure, count, depth),
{
    lemma_fields_stay(module, instruction, structure, count, instruction.operands.len() as int, depth);
}

proof fn lemma_fields_stay(
    module: ModuleView,
    instruction: InstructionView,
    structure: u32,
    count: int,
    later: int,
    depth: nat,
)
    requires
        0 < count <= later <= instruction.operands.len() <= u32::MAX,
        !(fields_of(module, instruction, structure, count, depth) matches Ok(Some(_))),
    ensures
        fields_of(module, instruction, structure, later, depth) == fields_of(
            module,
            instruction,
            structure,
            count,
            depth,
        ),
    decreases later - count,
{
    if count < later {
        lemma_fields_stay(module, instruction, structure, count, later - 1, depth);
    }
}

} // verus!
