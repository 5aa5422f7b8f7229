//! Decorations of ids and of structure members.

use crate::module::{Decoration, SpvInstruction, InstructionView, SpvModule, ModuleView, Op, OperandView};
use vstd::prelude::*;

verus! {

/// Whether `annotation` attaches `decoration` to the id `target`.
pub open spec fn decorates(annotation: InstructionView, target: u32, decoration: Decoration) -> bool {
    &&& annotation.opcode == Op::Decorate
    &&& annotation.operand(0) == Some(OperandView::IdRef(target))
    &&& annotation.operand(1) == Some(OperandView::Decoration(decoration))
}

/// The literal that `annotation` gives for `decoration` on `target`, if it gives one.
pub open spec fn decoration_value(
    annotation: InstructionView,
    target: u32,
    decoration: Decoration,
) -> Option<u32> {
    if decorates(annotation, target, decoration) {
        match annotation.operand(2) {
            Some(OperandView::LiteralBit32(value)) => Some(value),
            _ => None,
        }
    } else {
        None
    }
}

/// The literal of the first annotation, from position `from` on, that gives one
/// for `decoration` on `target`.
pub open spec fn decoration_from(
    annotations: Seq<InstructionView>,
    target: u32,
    decoration: Decoration,
    from: int,
) -> Option<u32>
    decreases annotations.len() - from,
{
    if from < 0 || from >= annotations.len() {
        None
    } else if decoration_value(annotations[from], target, decoration) is Some {
        decoration_value(annotations[from], target, decoration)
    } else {
        decoration_from(annotations, target, decoration, from + 1)
    }
}

/// The literal that the module gives for `decoration` on `target`.
pub open spec fn decoration_literal(module: ModuleView, target: u32, decoration: Decoration) -> Option<
    u32,
> {
    decoration_from(module.annotations, target, decoration, 0)
}

/// Whether the module attaches `decoration` to `target`.
pub open spec fn decorated(module: ModuleView, target: u32, decoration: Decoration) -> bool {
    exists|k: int|
        0 <= k < module.annotations.len() && decorates(
            #[trigger] module.annotations[k],
            target,
            decoration,
        )
}

/// Whether `annotation` gives member `member` of the structure `structure` a byte offset.
pub open spec fn member_offset_value(annotation: InstructionView, structure: u32, member: u32) -> Option<
    u32,
> {
    if annotation.opcode == Op::MemberDecorate && annotation.operand(0) == Some(
        OperandView::IdRef(structure),
    ) && annotation.operand(1) == Some(OperandView::LiteralBit32(member)) && annotation.operand(2)
        == Some(OperandView::Decoration(Decoration::Offset)) {
        match annotation.operand(3) {
            Some(OperandView::LiteralBit32(offset)) => Some(offset),
            _ => None,
        }
    } else {
        None
    }
}

/// The offset given by the first annotation, from position `from` on, that gives
/// one for member `member` of `structure`.
pub open spec fn member_offset_from(
    annotations: Seq<InstructionView>,
    structure: u32,
    member: u32,
    from: int,
) -> Option<u32>
    decreases annotations.len() - from,
{
    if from < 0 || from >= annotations.len() {
        None
    } else if member_offset_value(annotations[from], structure, member) is Some {
        member_offset_value(annotations[from], structure, member)
    } else {
        member_offset_from(annotations, structure, member, from + 1)
    }
}

/// The decorated byte offset of member `member` of the structure `structure`.
pub open spec fn member_offset(module: ModuleView, structure: u32, member: u32) -> Option<u32> {
    member_offset_from(module.annotations, structure, member, 0)
}

fn is_decoration(annotation: &SpvInstruction, target: u32, decoration: Decoration) -> (found: bool)
    ensures
        found == decorates(annotation@, target, decoration),
{
    match annotation.opcode {
        Op::Decorate => {},
        _ => {
            return false;
        },
    }
    match annotation.id_ref_at(0) {
        Some(id) => {
            if id != target {
                return false;
            }
        },
        None => {
            return false;
        },
    }
    match annotation.decoration_at(1) {
        Some(value) => value == decoration,
        None => false,
    }
}

/// Looks up the literal that the module gives for `decoration` on `target`.
pub fn find_decoration(module: &SpvModule, target: u32, decoration: Decoration) -> (value: Option<u32>)
    ensures
        value == decoration_literal(module@, target, decoration),
{
    let mut index: usize = 0;
    while index < module.annotations.len()
        invariant
            index <= module.annotations.len(),
            decoration_literal(module@, target, decoration) == decoration_from(
                module@.annotations,
                target,
                decoration,
                index as int,
            ),
        decreases module.annotations.len() - index,
    {
        let annotation = &module.annotations[index];
        assert(module@.annotations[index as int] == annotation@);
        if is_decoration(annotation, target, decoration) {
            match annotation.literal_at(2) {
                Some(value) => {
                    return Some(value);
                },
                None => {},
            }
        }
        index = index + 1;
    }
    None
}

/// Tells whether the module attaches `decoration` to `target`.
pub fn has_decoration(module: &SpvModule, target: u32, decoration: Decoration) -> (found: bool)
    ensures
        found == decorated(module@, target, decoration),
{
    let mut index: usize = 0;
    while index < module.annotations.len()
        invariant
            index <= module.annotations.len(),
            forall|k: int|
                0 <= k < index ==> !decorates(
                    #[trigger] module@.annotations[k],
                    target,
                    decoration,
                ),
        decreases module.annotations.len() - index,
    {
        let annotation = &module.annotations[index];
        assert(module@.annotations[index as int] == annotation@);
        if is_decoration(annotation, target, decoration) {
            return true;
        }
        index = index + 1;
    }
    false
}

/// Looks up the decorated byte offset of member `member` of the structure `structure`.
pub fn find_member_offset(module: &SpvModule, structure: u32, member: u32) -> (offset: Option<u32>)
    ensures
        offset == member_offset(module@, structure, member),
{
    let mut index: usize = 0;
    while index < module.annotations.len()
        invariant
            index <= module.annotations.len(),
            member_offset(module@, structure, member) == member_offset_from(
                module@.annotations,
                structure,
                member,
                index as int,
            ),
        decreases module.annotations.len() - index,
    {
        let annotation = &module.annotations[index];
        assert(module@.annotations[index as int] == annotation@);
        let value = read_member_offset(annotation, structure, member);
        if value.is_some() {
            return value;
        }
        index = index + 1;
    }
    None
}

fn read_member_offset(annotation: &SpvInstruction, structure: u32, member: u32) -> (offset: Option<u32>)
    ensures
        offset == member_offset_value(annotation@, structure, member),
{
    match annotation.opcode {
        Op::MemberDecorate => {},
        _ => {
            return None;
        },
    }
    match annotation.id_ref_at(0) {
        Some(id) => {
            if id != structure {
                return None;
            }
        },
        None => {
            return None;
        },
    }
    match annotation.literal_at(1) {
        Some(index) => {
            if index != member {
                return None;
            }
        },
        None => {
            return None;
        },
    }
    match annotation.decoration_at(2) {
        Some(Decoration::Offset) => {},
        _ => {
            return None;
        },
    }
    annotation.literal_at(3)
}

} // verus!
