//! Tests of the type resolver, of constant blocks and of whole modules.

use spirv_bindgen::components::{
    DescriptorBinding, Dispatch, EntryPoint, PushConstant, PushConstants, SpecializationConstant,
    SpecializationConstants, SpecializationMapEntry,
};
use spirv_bindgen::error::{LayoutError, ReflectError};
use spirv_bindgen::module::{
    Decoration, ExecutionMode, ExecutionModel, Op, SpvInstruction, SpvModule, SpvOperand, StorageClass,
};
use spirv_bindgen::types::resolve::RESOLUTION_DEPTH;
use spirv_bindgen::types::{Array, DescriptorType, Layout, Member, Scalar, Structure, Type, Vector};
use spirv_bindgen::Spirv;

fn instruction(opcode: Op, result_type: Option<u32>, result_id: Option<u32>, operands: Vec<SpvOperand>) -> SpvInstruction {
    SpvInstruction::new(opcode, result_type, result_id, operands)
}

fn text(value: &str) -> SpvOperand {
    SpvOperand::LiteralString(value.to_string())
}

fn integer(id: u32, width: u32, signedness: u32) -> SpvInstruction {
    instruction(Op::TypeInt, None, Some(id), vec![SpvOperand::LiteralBit32(width), SpvOperand::LiteralBit32(signedness)])
}

fn floating(id: u32, width: u32) -> SpvInstruction {
    instruction(Op::TypeFloat, None, Some(id), vec![SpvOperand::LiteralBit32(width)])
}

fn decorate(target: u32, decoration: Decoration, value: u32) -> SpvInstruction {
    instruction(
        Op::Decorate,
        None,
        None,
        vec![SpvOperand::IdRef(target), SpvOperand::Decoration(decoration), SpvOperand::LiteralBit32(value)],
    )
}

fn offset(structure: u32, member: u32, offset: u32) -> SpvInstruction {
    instruction(
        Op::MemberDecorate,
        None,
        None,
        vec![
            SpvOperand::IdRef(structure),
            SpvOperand::LiteralBit32(member),
            SpvOperand::Decoration(Decoration::Offset),
            SpvOperand::LiteralBit32(offset),
        ],
    )
}

fn structure(id: u32, members: Vec<u32>) -> SpvInstruction {
    instruction(Op::TypeStruct, None, Some(id), members.into_iter().map(SpvOperand::IdRef).collect())
}

fn pointer(id: u32, class: StorageClass, pointee: u32) -> SpvInstruction {
    instruction(Op::TypePointer, None, Some(id), vec![SpvOperand::StorageClass(class), SpvOperand::IdRef(pointee)])
}

fn variable(id: u32, pointer: u32, class: StorageClass) -> SpvInstruction {
    instruction(Op::Variable, Some(pointer), Some(id), vec![SpvOperand::StorageClass(class)])
}

fn entry_point(model: ExecutionModel, id: u32, name: &str, interface: Vec<u32>) -> SpvInstruction {
    let mut operands = vec![SpvOperand::ExecutionModel(model), SpvOperand::IdRef(id), text(name)];
    operands.extend(interface.into_iter().map(SpvOperand::IdRef));
    instruction(Op::EntryPoint, None, None, operands)
}

fn resolve(module: &SpvModule, id: u32) -> Result<Option<Type>, ReflectError> {
    let declaration = module.types_global_values.iter().find(|found| found.result_id == Some(id)).unwrap();
    Type::from_instruction(declaration, module)
}

#[test]
fn scalars_are_resolved_by_width_and_sign() {
    let cases = vec![
        (integer(1, 8, 0), Scalar::U8),
        (integer(1, 16, 0), Scalar::U16),
        (integer(1, 32, 0), Scalar::U32),
        (integer(1, 64, 0), Scalar::U64),
        (integer(1, 8, 1), Scalar::I8),
        (integer(1, 16, 1), Scalar::I16),
        (integer(1, 32, 1), Scalar::I32),
        (integer(1, 64, 1), Scalar::I64),
        (floating(1, 32), Scalar::F32),
        (floating(1, 64), Scalar::F64),
    ];
    for (declaration, expected) in cases {
        assert_eq!(Scalar::from_instruction(&declaration), Ok(Some(expected)));
        assert_eq!(Type::from_instruction(&declaration, &SpvModule::new()), Ok(Some(Type::Scalar(expected))));
    }
}

#[test]
fn unsupported_scalars_are_failures() {
    assert_eq!(Scalar::from_instruction(&integer(4, 24, 0)), Err(ReflectError::UnsupportedWidth { id: Some(4), width: 24 }));
    assert_eq!(Scalar::from_instruction(&integer(4, 128, 1)), Err(ReflectError::UnsupportedWidth { id: Some(4), width: 128 }));
    assert_eq!(Scalar::from_instruction(&floating(5, 16)), Err(ReflectError::UnsupportedWidth { id: Some(5), width: 16 }));
    assert_eq!(Scalar::from_instruction(&integer(6, 32, 2)), Err(ReflectError::InvalidSignedness { id: Some(6), signedness: 2 }));
    assert_eq!(Scalar::from_instruction(&integer(6, 24, 2)), Err(ReflectError::InvalidSignedness { id: Some(6), signedness: 2 }));
    let short = instruction(Op::TypeInt, None, Some(1), vec![SpvOperand::LiteralBit32(32)]);
    assert_eq!(Scalar::from_instruction(&short), Ok(None));
    assert_eq!(Scalar::from_instruction(&pointer(1, StorageClass::Input, 2)), Ok(None));
}

fn block() -> SpvModule {
    let mut module = SpvModule::new();
    module.types_global_values = vec![
        floating(1, 32),
        integer(2, 32, 0),
        instruction(Op::TypeVector, None, Some(3), vec![SpvOperand::IdRef(1), SpvOperand::LiteralBit32(4)]),
        instruction(Op::TypeArray, None, Some(4), vec![SpvOperand::IdRef(3), SpvOperand::LiteralBit32(3)]),
        structure(5, vec![3, 2, 4, 1]),
        pointer(6, StorageClass::PushConstant, 5),
        variable(7, 6, StorageClass::PushConstant),
        instruction(Op::TypeArray, None, Some(8), vec![SpvOperand::IdRef(1), SpvOperand::IdRef(2)]),
        instruction(Op::Other(19), None, Some(9), Vec::new()),
    ];
    module.annotations = vec![offset(5, 0, 0), offset(5, 1, 16), offset(5, 2, 32), offset(5, 3, 80)];
    module.debug_names = vec![
        instruction(Op::Name, None, None, vec![SpvOperand::IdRef(5), text("Params_std430")]),
        instruction(Op::MemberName, None, None, vec![SpvOperand::IdRef(5), SpvOperand::LiteralBit32(0), text("color")]),
        instruction(Op::MemberName, None, None, vec![SpvOperand::IdRef(5), SpvOperand::LiteralBit32(2), text("rows")]),
    ];
    module.entry_points = vec![
        entry_point(ExecutionModel::Vertex, 50, "vs", vec![7]),
        entry_point(ExecutionModel::Fragment, 51, "fs", vec![7]),
    ];
    module
}

fn vec4() -> Type {
    Type::Vector(Vector { component_type: Scalar::F32, component_count: 4 })
}

fn params() -> Structure {
    Structure {
        name: "Params".to_string(),
        members: vec![
            Member::new(vec4(), 0, "color".to_string(), Some(0)),
            Member::new(Type::Scalar(Scalar::U32), 16, "field_1".to_string(), Some(1)),
            Member::padding(20, 12, 0),
            Member::new(Type::Array(Array::new(vec4(), 3)), 32, "rows".to_string(), Some(2)),
            Member::new(Type::Scalar(Scalar::F32), 80, "field_3".to_string(), Some(3)),
        ],
        layout: Layout { size: 84, align: 4 },
    }
}

#[test]
fn types_are_resolved_through_references() {
    let module = block();
    assert_eq!(resolve(&module, 3), Ok(Some(vec4())));
    assert_eq!(resolve(&module, 4), Ok(Some(Type::Array(Array::new(vec4(), 3)))));
    assert_eq!(resolve(&module, 5), Ok(Some(Type::Struct(params()))));
    assert_eq!(resolve(&module, 6), Ok(Some(Type::Struct(params()))));
    assert_eq!(resolve(&module, 7), Ok(Some(Type::Struct(params()))));
    assert_eq!(resolve(&module, 8), Ok(None));
    assert_eq!(resolve(&module, 9), Ok(None));
    assert_eq!(Structure::from_instruction(&module.types_global_values[4], &module), Ok(Some(params())));
    assert_eq!(Structure::from_instruction(&module.types_global_values[0], &module), Ok(None));
    assert_eq!(Vector::from_instruction(&module.types_global_values[2], &module), Ok(Some(Vector { component_type: Scalar::F32, component_count: 4 })));
    assert_eq!(Array::from_instruction(&module.types_global_values[3], &module), Ok(Some(Array::new(vec4(), 3))));
    assert_eq!(
        Member::from_id(2, 5, 1, &module),
        Ok(Some(Member::new(Type::Scalar(Scalar::U32), 16, "field_1".to_string(), Some(1))))
    );
}

#[test]
fn structure_without_a_name_is_named_by_its_id() {
    let mut module = block();
    module.debug_names.remove(0);
    let found = Structure::from_instruction(&module.types_global_values[4], &module).unwrap().unwrap();
    assert_eq!(found.name, "Structure5");
}

#[test]
fn malformed_structures_are_failures() {
    let mut module = block();
    module.annotations.remove(1);
    assert_eq!(resolve(&module, 5), Err(ReflectError::MissingOffset { structure: 5, member: 1 }));
    assert_eq!(resolve(&module, 7), Err(ReflectError::MissingOffset { structure: 5, member: 1 }));

    let mut module = block();
    module.annotations[1] = offset(5, 1, 12);
    assert_eq!(
        resolve(&module, 5),
        Err(ReflectError::Layout { structure: 5, error: LayoutError::Overlap { index: 1, offset: 12, cursor: 16 } })
    );

    let mut module = block();
    module.types_global_values[1] = integer(2, 12, 0);
    assert_eq!(resolve(&module, 5), Err(ReflectError::UnsupportedWidth { id: Some(2), width: 12 }));

    let mut module = block();
    module.types_global_values[4] = structure(5, vec![3, 9]);
    assert_eq!(resolve(&module, 5), Ok(None));
    module.types_global_values[4] = structure(5, vec![3, 77]);
    assert_eq!(resolve(&module, 5), Ok(None));
}

#[test]
fn references_are_followed_to_a_bounded_depth() {
    let mut module = SpvModule::new();
    module.types_global_values = vec![pointer(1, StorageClass::Input, 2), pointer(2, StorageClass::Input, 1)];
    assert_eq!(resolve(&module, 1), Err(ReflectError::TooDeep { id: Some(1) }));
    assert_eq!(RESOLUTION_DEPTH, 64);
    let mut chain = SpvModule::new();
    chain.types_global_values.push(floating(1, 32));
    for id in 2..=65 {
        chain.types_global_values.push(pointer(id, StorageClass::Input, id - 1));
    }
    assert_eq!(resolve(&chain, 65), Ok(Some(Type::Scalar(Scalar::F32))));
    chain.types_global_values.push(pointer(66, StorageClass::Input, 65));
    assert_eq!(resolve(&chain, 66), Err(ReflectError::TooDeep { id: Some(2) }));
}

#[test]
fn push_constant_block_has_its_structure_and_stages() {
    let module = block();
    let expected = PushConstant { structure: params(), stages: vec![ExecutionModel::Vertex, ExecutionModel::Fragment] };
    assert_eq!(PushConstant::from_instruction(&module.types_global_values[6], &module), Ok(Some(expected)));
    assert_eq!(PushConstant::from_instruction(&module.types_global_values[5], &module), Ok(None));
    let found = PushConstants::from_spirv(&module).unwrap().unwrap();
    assert_eq!(found.push_constants.len(), 1);
    assert_eq!(found.push_constants[0].structure, params());
    assert_eq!(PushConstants::from_spirv(&SpvModule::new()), Ok(None));
}

#[test]
fn malformed_push_constants_are_failures() {
    let mut module = block();
    module.types_global_values.push(pointer(20, StorageClass::PushConstant, 5));
    module.types_global_values.push(variable(21, 20, StorageClass::PushConstant));
    assert_eq!(PushConstants::from_spirv(&module), Err(ReflectError::DuplicatePushConstant { variable: 21 }));

    let mut module = block();
    module.types_global_values[5] = pointer(6, StorageClass::PushConstant, 3);
    assert_eq!(PushConstants::from_spirv(&module), Err(ReflectError::PushConstantNotStruct { variable: 7 }));
    module.types_global_values[5] = pointer(6, StorageClass::PushConstant, 9);
    assert_eq!(PushConstants::from_spirv(&module), Err(ReflectError::PushConstantNotStruct { variable: 7 }));
    module.types_global_values[5] = pointer(60, StorageClass::PushConstant, 5);
    assert_eq!(PushConstants::from_spirv(&module), Err(ReflectError::PushConstantNotStruct { variable: 7 }));
}

fn constant(id: u32, type_id: u32) -> SpvInstruction {
    instruction(Op::SpecConstant, Some(type_id), Some(id), vec![SpvOperand::LiteralBit32(1)])
}

fn constants() -> SpvModule {
    let mut module = SpvModule::new();
    module.types_global_values = vec![
        floating(1, 32),
        integer(2, 8, 1),
        integer(3, 32, 0),
        floating(4, 64),
        integer(5, 8, 0),
        instruction(Op::TypeVector, None, Some(6), vec![SpvOperand::IdRef(1), SpvOperand::LiteralBit32(2)]),
        constant(13, 4),
        constant(10, 1),
        constant(14, 5),
        constant(12, 3),
        constant(11, 2),
        constant(15, 6),
        constant(16, 1),
    ];
    module.annotations = vec![
        decorate(10, Decoration::SpecId, 0),
        decorate(11, Decoration::SpecId, 1),
        decorate(12, Decoration::SpecId, 2),
        decorate(13, Decoration::SpecId, 3),
        decorate(14, Decoration::SpecId, 4),
        decorate(15, Decoration::SpecId, 5),
    ];
    for (id, name) in [(10, "name_a"), (11, "name_b"), (12, "name_c"), (13, "name_d")] {
        module.debug_names.push(instruction(Op::Name, None, None, vec![SpvOperand::IdRef(id), text(name)]));
    }
    module
}

#[test]
fn specialization_constants_are_laid_out_by_constant_id() {
    let module = constants();
    assert_eq!(
        SpecializationConstant::from_instruction(&module.types_global_values[6], &module),
        Ok(Some(SpecializationConstant { id: 3, constant_type: Type::Scalar(Scalar::F64), name: "name_d".to_string() }))
    );
    assert_eq!(SpecializationConstant::from_instruction(&module.types_global_values[11], &module), Ok(None));
    assert_eq!(SpecializationConstant::from_instruction(&module.types_global_values[12], &module), Ok(None));
    let found = SpecializationConstants::from_spirv(&module).unwrap().unwrap();
    assert_eq!(found.structure.name, "SpecializationConstants");
    assert_eq!(found.structure.layout, Layout { size: 32, align: 8 });
    let members: Vec<(&str, u32, Option<u32>)> =
        found.structure.members.iter().map(|member| (member.name.as_str(), member.offset, member.location)).collect();
    assert_eq!(
        members,
        vec![
            ("name_a", 0, Some(0)),
            ("name_b", 4, Some(1)),
            ("_padding_0", 5, None),
            ("name_c", 8, Some(2)),
            ("_padding_1", 12, None),
            ("name_d", 16, Some(3)),
            ("field_4", 24, Some(4)),
            ("_padding_2", 25, None),
        ]
    );
    assert_eq!(
        found.specialization_map(),
        vec![
            SpecializationMapEntry { constant_id: 0, offset: 0, size: 4 },
            SpecializationMapEntry { constant_id: 1, offset: 4, size: 1 },
            SpecializationMapEntry { constant_id: 2, offset: 8, size: 4 },
            SpecializationMapEntry { constant_id: 3, offset: 16, size: 8 },
            SpecializationMapEntry { constant_id: 4, offset: 24, size: 1 },
        ]
    );
    assert_eq!(SpecializationConstants::from_spirv(&SpvModule::new()), Ok(None));
}

#[test]
fn specialization_constant_of_unsupported_width_is_a_failure() {
    let mut module = constants();
    module.types_global_values[2] = integer(3, 48, 0);
    assert_eq!(SpecializationConstants::from_spirv(&module), Err(ReflectError::UnsupportedWidth { id: Some(3), width: 48 }));
}

fn compute() -> SpvModule {
    let mut module = SpvModule::new();
    module.types_global_values = vec![
        integer(1, 32, 0),
        structure(2, vec![1]),
        pointer(3, StorageClass::StorageBuffer, 2),
        variable(4, 3, StorageClass::StorageBuffer),
    ];
    module.annotations = vec![
        offset(2, 0, 0),
        decorate(4, Decoration::DescriptorSet, 0),
        decorate(4, Decoration::Binding, 0),
    ];
    module.entry_points = vec![entry_point(ExecutionModel::GLCompute, 9, "main", vec![4])];
    module.execution_modes = vec![instruction(
        Op::ExecutionMode,
        None,
        None,
        vec![
            SpvOperand::IdRef(9),
            SpvOperand::ExecutionMode(ExecutionMode::LocalSize),
            SpvOperand::LiteralBit32(8),
            SpvOperand::LiteralBit32(4),
            SpvOperand::LiteralBit32(1),
        ],
    )];
    module
}

fn check_compute(interface: &Spirv) {
    let entry_points = interface.entry_points.as_ref().unwrap();
    assert_eq!(
        entry_points.entry_points,
        vec![EntryPoint {
            name: "main".to_string(),
            execution_model: ExecutionModel::GLCompute,
            dispatch: Some(Dispatch { x: 8, y: 4, z: 1 }),
            vertex_inputs: None,
        }]
    );
    let sets = interface.descriptor_sets.as_ref().unwrap();
    assert_eq!(sets.sets.len(), 1);
    assert_eq!(sets.highest_set, 0);
    assert_eq!(
        sets.get(0),
        Some(&vec![DescriptorBinding {
            set: 0,
            binding: 0,
            binding_type: DescriptorType::StorageBuffer,
            stages: vec![ExecutionModel::GLCompute],
        }])
    );
    assert_eq!(interface.push_constants, None);
    assert_eq!(interface.specialization_constants, None);
}

#[test]
fn compute_module_is_reflected_end_to_end() {
    let interface = Spirv::reflect(&compute()).unwrap();
    check_compute(&interface);
}

#[test]
fn module_that_defines_an_id_twice_is_a_failure() {
    let mut module = compute();
    module.types_global_values.push(floating(3, 32));
    assert_eq!(Spirv::reflect(&module), Err(ReflectError::DuplicateId { id: 3 }));
}

#[test]
fn empty_module_has_no_interface() {
    let interface = Spirv::reflect(&SpvModule::new()).unwrap();
    assert_eq!(
        interface,
        Spirv { specialization_constants: None, entry_points: None, push_constants: None, descriptor_sets: None }
    );
}

#[test]
fn split_index_reaches_the_entry_points() {
    let mut module = SpvModule::new();
    module.types_global_values = vec![
        floating(1, 32),
        pointer(2, StorageClass::Input, 1),
        variable(3, 2, StorageClass::Input),
        variable(4, 2, StorageClass::Input),
    ];
    module.annotations = vec![decorate(3, Decoration::Location, 1), decorate(4, Decoration::Location, 0)];
    module.entry_points = vec![entry_point(ExecutionModel::Vertex, 9, "main", vec![3, 4])];
    let interface = Spirv::reflect_split(&module, Some(1)).unwrap();
    let entry_points = interface.entry_points.unwrap();
    let inputs = entry_points.entry_points[0].vertex_inputs.as_ref().unwrap();
    assert_eq!(inputs.vertex_inputs.as_ref().unwrap().structure.members[0].location, Some(0));
    assert_eq!(inputs.instance_inputs.as_ref().unwrap().structure.members[0].location, Some(1));
    let whole = Spirv::reflect(&module).unwrap().entry_points.unwrap();
    assert_eq!(whole.entry_points[0].vertex_inputs.as_ref().unwrap().instance_inputs, None);
}
