//! Debug names of ids and of structure members.

use crate::module::{SpvInstruction, InstructionView, SpvModule, ModuleView, Op, OperandView};
use vstd::prelude::*;

verus! {

/// The name that `instruction` gives to `id`, if it gives one.
pub open spec fn name_value(instruction: InstructionView, id: u32) -> Option<Seq<char>> {
    if instruction.opcode == Op::Name && instruction.operand(0) == Some(OperandView::IdRef(id)) {
        match instruction.operand(1) {
            Some(OperandView::LiteralString(name)) => Some(name),
            _ => None,
        }
    } else {
        None
    }
}

/// The name given to `id` by the first of `names`, from position `from` on, that gives one.
pub open spec fn name_from(names: Seq<InstructionView>, id: u32, from: int) -> Option<Seq<char>>
    decreases names.len() - from,
{
    if from < 0 || from >= names.len() {
        None
    } else if name_value(names[from], id) is Some {
        name_value(names[from], id)
    } else {
        name_from(names, id, from + 1)
    }
}

/// The debug name of `id`.
pub open spec fn name_of(module: ModuleView, id: u32) -> Option<Seq<char>> {
    name_from(module.debug_names, id, 0)
}

/// The name that `instruction` gives to member `member` of the structure `structure`.
pub open spec fn member_name_value(instruction: InstructionView, structure: u32, member: u32) -> Option<
    Seq<char>,
> {
    if instruction.opcode == Op::MemberName && instruction.operand(0) == Some(
        OperandView::IdRef(structure),
    ) && instruction.operand(1) == Some(OperandView::LiteralBit32(member)) {
        match instruction.operand(2) {
            Some(OperandView::LiteralString(name)) => Some(name),
            _ => None,
        }
    } else {
        None
    }
}

/// The name given to the member by the first of `names`, from position `from` on,
/// that gives one.
pub open spec fn member_name_from(
    names: Seq<InstructionView>,
    structure: u32,
    member: u32,
    from: int,
) -> Option<Seq<char>>
    decreases names.len() - from,
{
    if from < 0 || from >= names.len() {
        None
    } else if member_name_value(names[from], structure, member) is Some {
        member_name_value(names[from], structure, member)
    } else {
        member_name_from(names, structure, member, from + 1)
    }
}

/// The debug name of member `member` of the structure `structure`.
pub open spec fn member_name_of(module: ModuleView, structure: u32, member: u32) -> Option<
    Seq<char>,
> {
    member_name_from(module.debug_names, structure, member, 0)
}

fn read_name(instruction: &SpvInstruction, id: u32) -> (name: Option<String>)
    ensures
        match name_value(instruction@, id) {
            Some(value) => name is Some && name->0@ == value,
            None => name is None,
        },
{
    match instruction.opcode {
        Op::Name => {},
        _ => {
            return None;
        },
    }
    match instruction.id_ref_at(0) {
        Some(target) => {
            if target != id {
                return None;
            }
        },
        None => {
            return None;
        },
    }
    instruction.string_at(1)
}

fn read_member_name(instruction: &SpvInstruction, structure: u32, member: u32) -> (name: Option<String>)
    ensures
        match member_name_value(instruction@, structure, member) {
            Some(value) => name is Some && name->0@ == value,
            None => name is None,
        },
{
    match instruction.opcode {
        Op::MemberName => {},
        _ => {
            return None;
        },
    }
    match instruction.id_ref_at(0) {
        Some(target) => {
            if target != structure {
                return None;
            }
        },
        None => {
            return None;
        },
    }
    match instruction.literal_at(1) {
        Some(index) => {
            if index != member {
                return None;
            }
        },
        None => {
            return None;
        },
    }
    instruction.string_at(2)
}

/// Looks up the debug name of `id`.
pub fn find_name_for_id(id: u32, module: &SpvModule) -> (name: Option<String>)
    ensures
        match name_of(module@, id) {
            Some(value) => name is Some && name->0@ == value,
            None => name is None,
        },
{
    let mut index: usize = 0;
    while index < module.debug_names.len()
        invariant
            index <= module.debug_names.len(),
            name_of(module@, id) == name_from(module@.debug_names, id, index as int),
        decreases module.debug_names.len() - index,
    {
        let instruction = &module.debug_names[index];
        assert(module@.debug_names[index as int] == instruction@);
        let name = read_name(instruction, id);
        if name.is_some() {
            return name;
        }
        index = index + 1;
    }
    None
}

/// Looks up the debug name of member `member_index` of the structure `struct_id`.
pub fn find_member_name(struct_id: u32, member_index: u32, module: &SpvModule) -> (name: Option<String>)
    ensures
        match member_name_of(module@, struct_id, member_index) {
            Some(value) => name is Some && name->0@ == value,
            None => name is None,
        },
{
    let mut index: usize = 0;
    while index < module.debug_names.len()
        invariant
            index <= module.debug_names.len(),
            member_name_of(module@, struct_id, member_index) == member_name_from(
                module@.debug_names,
                struct_id,
                member_index,
                index as int,
            ),
        decreases module.debug_names.len() - index,
    {
        let instruction = &module.debug_names[index];
        assert(module@.debug_names[index as int] == instruction@);
        let name = read_member_name(instruction, struct_id, member_index);
        if name.is_some() {
            return name;
        }
        index = index + 1;
    }
    None
}

} // verus!
