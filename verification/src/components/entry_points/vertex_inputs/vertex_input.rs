//! One input variable of a vertex shader.

use crate::error::ReflectError;
use crate::module::{Decoration, SpvInstruction, InstructionView, SpvModule, ModuleView, Op, OperandView, StorageClass};
use crate::text::{after_last, decimal, numbered, suffix_after_last};
use crate::types::resolve::{agrees, resolved, RESOLUTION_DEPTH};
use crate::types::{Type, TypeView};
use crate::utilities::debug::name_of;
use crate::utilities::decorations::{decorated, decoration_literal};
use crate::utilities::{find_decoration, find_name_for_id, has_decoration};
use vstd::prelude::*;

verus! {

/// An input of a vertex shader: its location, its type and its name.
#[derive(Debug, PartialEq, Eq)]
pub struct VertexInput {
    pub location: u32,
    pub input_type: Type,
    pub name: String,
}

/// What a [`VertexInput`] holds.
pub struct VertexInputView {
    pub location: u32,
    pub input_type: TypeView,
    pub name: Seq<char>,
}

impl View for VertexInput {
    type V = VertexInputView;

    open spec fn view(&self) -> VertexInputView {
        VertexInputView { location: self.location, input_type: self.input_type@, name: self.name@ }
    }
}

/// The name of the input declared as `id` at `location`: the last component of
/// its debug name, after the last `.`, or `field_` and the location where it
/// has no debug name.
pub open spec fn input_name(module: ModuleView, id: u32, location: u32) -> Seq<char> {
    match name_of(module, id) {
        Some(name) => after_last(name, '.'),
        None => "field_"@ + decimal(location as nat),
    }
}

/// The variable and the location of the vertex input that `instruction`
/// declares: a variable of storage class `Input` that is not a built-in and has
/// a `Location` decoration.
pub open spec fn input_location(module: ModuleView, instruction: InstructionView) -> Option<(u32, u32)> {
    match (instruction.opcode, instruction.result_id, instruction.operand(0)) {
        (Op::Variable, Some(id), Some(OperandView::StorageClass(StorageClass::Input))) => {
            if decorated(module, id, Decoration::BuiltIn) {
                None
            } else {
                match decoration_literal(module, id, Decoration::Location) {
                    Some(location) => Some((id, location)),
                    None => None,
                }
            }
        },
        _ => None,
    }
}

/// The vertex input that `instruction` declares, with its resolved type.
pub open spec fn vertex_input_of(module: ModuleView, instruction: InstructionView) -> Result<
    Option<VertexInputView>,
    ReflectError,
> {
    match input_location(module, instruction) {
        Some((id, location)) => match resolved(module, instruction, RESOLUTION_DEPTH as nat) {
            Ok(Some(input_type)) => Ok(
                Some(VertexInputView { location, input_type, name: input_name(module, id, location) }),
            ),
            Ok(None) => Ok(None),
            Err(error) => Err(error),
        },
        None => Ok(None),
    }
}

fn read_input_location(instruction: &SpvInstruction, module: &SpvModule) -> (found: Option<(u32, u32)>)
    ensures
        found == input_location(module@, instruction@),
{
    match instruction.opcode {
        Op::Variable => {},
        _ => {
            return None;
        },
    }
    let id: u32 = match instruction.result_id {
        Some(value) => value,
        None => {
            return None;
        },
    };
    match instruction.storage_class_at(0) {
        Some(StorageClass::Input) => {},
        _ => {
            return None;
        },
    }
    if has_decoration(module, id, Decoration::BuiltIn) {
        return None;
    }
    match find_decoration(module, id, Decoration::Location) {
        Some(location) => Some((id, location)),
        None => None,
    }
}

/// Gives the input declared as `id` at `location` its name.
pub fn name_input(id: u32, location: u32, module: &SpvModule) -> (name: String)
    ensures
        name@ == input_name(module@, id, location),
{
    match find_name_for_id(id, module) {
        Some(name) => suffix_after_last(name.as_str(), '.'),
        None => numbered("field_", location),
    }
}

impl VertexInput {
    /// Reads the vertex input that `instruction` declares.
    pub fn from_instruction(instruction: &SpvInstruction, module: &SpvModule) -> (outcome: Result<
        Option<VertexInput>,
        ReflectError,
    >)
        ensures
            agrees(outcome, vertex_input_of(module@, instruction@)),
    {
        let (id, location) = match read_input_location(instruction, module) {
            Some(pair) => pair,
            None => {
                return Ok(None);
            },
        };
        let input_type = match Type::from_instruction(instruction, module) {
            Ok(Some(resolved)) => resolved,
            Ok(None) => {
                return Ok(None);
            },
            Err(error) => {
                return Err(error);
            },
        };
        let name = name_input(id, location, module);
        Ok(Some(VertexInput { location, input_type, name }))
    }
}

} // verus!
