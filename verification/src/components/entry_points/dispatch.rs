//! The workgroup size of a compute entry point.

use crate::module::{ExecutionMode, SpvInstruction, InstructionView, SpvModule, ModuleView, Op, OperandView};
use vstd::prelude::*;

verus! {

/// The local workgroup size of an entry point.
#[derive(Clone, Copy, Debug, PartialEq, Eq, Structural)]
pub struct Dispatch {
    pub x: u32,
    pub y: u32,
    pub z: u32,
}

/// The workgroup size that `mode` gives to the entry point `entry_point`, where
/// it is a `LocalSize` execution mode of that entry point with three literals.
pub open spec fn local_size_value(mode: InstructionView, entry_point: u32) -> Option<Dispatch> {
    if mode.opcode == Op::ExecutionMode && mode.operand(0) == Some(OperandView::IdRef(entry_point))
        && mode.operand(1) == Some(OperandView::ExecutionMode(ExecutionMode::LocalSize)) {
        match (mode.operand(2), mode.operand(3), mode.operand(4)) {
            (
                Some(OperandView::LiteralBit32(x)),
                Some(OperandView::LiteralBit32(y)),
                Some(OperandView::LiteralBit32(z)),
            ) => Some(Dispatch { x, y, z }),
            _ => None,
        }
    } else {
        None
    }
}

/// The workgroup size given by the first of `modes`, from position `from` on,
/// that gives one to `entry_point`.
pub open spec fn local_size_from(modes: Seq<InstructionView>, entry_point: u32, from: int) -> Option<
    Dispatch,
>
    decreases modes.len() - from,
{
    if from < 0 || from >= modes.len() {
        None
    } else if local_size_value(modes[from], entry_point) is Some {
        local_size_value(modes[from], entry_point)
    } else {
        local_size_from(modes, entry_point, from + 1)
    }
}

/// The workgroup size that the module declares for the entry point `entry_point`.
pub open spec fn local_size(module: ModuleView, entry_point: u32) -> Option<Dispatch> {
    local_size_from(module.execution_modes, entry_point, 0)
}

fn read_local_size(mode: &SpvInstruction, entry_point: u32) -> (size: Option<Dispatch>)
    ensures
        size == local_size_value(mode@, entry_point),
{
    match mode.opcode {
        Op::ExecutionMode => {},
        _ => {
            return None;
        },
    }
    match mode.id_ref_at(0) {
        Some(id) => {
            if id != entry_point {
                return None;
            }
        },
        None => {
            return None;
        },
    }
    match mode.execution_mode_at(1) {
        Some(ExecutionMode::LocalSize) => {},
        _ => {
            return None;
        },
    }
    let x: u32 = match mode.literal_at(2) {
        Some(value) => value,
        None => {
            return None;
        },
    };
    let y: u32 = match mode.literal_at(3) {
        Some(value) => value,
        None => {
            return None;
        },
    };
    match mode.literal_at(4) {
        Some(z) => Some(Dispatch { x, y, z }),
        None => None,
    }
}

impl Dispatch {
    /// Looks up the workgroup size that the module declares for the entry point
    /// `entry_point_id`.
    pub fn for_entrypoint(entry_point_id: u32, module: &SpvModule) -> (size: Option<Dispatch>)
        ensures
            size == local_size(module@, entry_point_id),
    {
        let mut index: usize = 0;
        while index < module.execution_modes.len()
            invariant
                index <= module.execution_modes.len(),
                local_size(module@, entry_point_id) == local_size_from(
                    module@.execution_modes,
                    entry_point_id,
                    index as int,
                ),
            decreases module.execution_modes.len() - index,
        {
            let mode = &module.execution_modes[index];
            assert(module@.execution_modes[index as int] == mode@);
            let size = read_local_size(mode, entry_point_id);
            if size.is_some() {
                return size;
            }
            index = index + 1;
        }
        None
    }
}

} // verus!
