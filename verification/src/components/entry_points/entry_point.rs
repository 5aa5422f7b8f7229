//! One entry point of a module.

use super::dispatch::{local_size, Dispatch};
use super::vertex_inputs::{vertex_inputs_of, VertexInputs, VertexInputsView};
use crate::error::ReflectError;
use crate::module::{ExecutionModel, SpvInstruction, InstructionView, SpvModule, ModuleView, Op, OperandView};
use crate::types::resolve::agrees;
use vstd::prelude::*;

verus! {

/// An entry point: its name and stage, its workgroup size if it declares one,
/// and its vertex inputs if it is a vertex shader with inputs.
#[derive(Debug, PartialEq, Eq)]
pub struct EntryPoint {
    pub name: String,
    pub execution_model: ExecutionModel,
    pub dispatch: Option<Dispatch>,
    pub vertex_inputs: Option<VertexInputs>,
}

/// What an [`EntryPoint`] holds.
pub struct EntryPointView {
    pub name: Seq<char>,
    pub execution_model: ExecutionModel,
    pub dispatch: Option<Dispatch>,
    pub vertex_inputs: Option<VertexInputsView>,
}

impl View for EntryPoint {
    type V = EntryPointView;

    open spec fn view(&self) -> EntryPointView {
        EntryPointView {
            name: self.name@,
            execution_model: self.execution_model,
            dispatch: self.dispatch,
            vertex_inputs: match self.vertex_inputs {
                Some(inputs) => Some(inputs@),
                None => None,
            },
        }
    }
}

/// The stage, the id and the name that `instruction` declares, where it is an
/// entry point declaration.
pub open spec fn entry_point_header(instruction: InstructionView) -> Option<
    (ExecutionModel, u32, Seq<char>),
> {
    match (
        instruction.opcode,
        instruction.operand(0),
        instruction.operand(1),
        instruction.operand(2),
    ) {
        (
            Op::EntryPoint,
            Some(OperandView::ExecutionModel(model)),
            Some(OperandView::IdRef(id)),
            Some(OperandView::LiteralString(name)),
        ) => Some((model, id, name)),
        _ => None,
    }
}

/// The entry point that `instruction` declares, with its vertex inputs split at `split`.
pub open spec fn entry_point_of(module: ModuleView, instruction: InstructionView, split: Option<usize>) -> Result<
    Option<EntryPointView>,
    ReflectError,
> {
    match entry_point_header(instruction) {
        Some((execution_model, id, name)) => match vertex_inputs_of(module, instruction, split) {
            Ok(vertex_inputs) => Ok(
                Some(
                    EntryPointView {
                        name,
                        execution_model,
                        dispatch: local_size(module, id),
                        vertex_inputs,
                    },
                ),
            ),
            Err(error) => Err(error),
        },
        None => Ok(None),
    }
}

impl EntryPoint {
    /// Reflects the entry point that `instruction` declares; all of its vertex
    /// inputs are read per vertex.
    pub fn from_instruction(instruction: &SpvInstruction, module: &SpvModule) -> (outcome: Result<
        Option<EntryPoint>,
        ReflectError,
    >)
        ensures
            agrees(outcome, entry_point_of(module@, instruction@, None)),
    {
        EntryPoint::from_instruction_split(instruction, module, None)
    }

    /// Reflects the entry point that `instruction` declares, with its vertex
    /// inputs split at `split_index`.
    pub fn from_instruction_split(
        instruction: &SpvInstruction,
        module: &SpvModule,
        split_index: Option<usize>,
    ) -> (outcome: Result<Option<EntryPoint>, ReflectError>)
        ensures
            agrees(outcome, entry_point_of(module@, instruction@, split_index)),
    {
        match instruction.opcode {
            Op::EntryPoint => {},
            _ => {
                return Ok(None);
            },
        }
        let execution_model = match instruction.execution_model_at(0) {
            Some(model) => model,
            None => {
                return Ok(None);
            },
        };
        let id: u32 = match instruction.id_ref_at(1) {
            Some(value) => value,
            None => {
                return Ok(None);
            },
        };
        let name = match instruction.string_at(2) {
            Some(text) => text,
            None => {
                return Ok(None);
            },
        };
        let dispatch = Dispatch::for_entrypoint(id, module);
        let vertex_inputs = match VertexInputs::from_instruction(instruction, module, split_index) {
            Ok(inputs) => inputs,
            Err(error) => {
                return Err(error);
            },
        };
        Ok(Some(EntryPoint { name, execution_model, dispatch, vertex_inputs }))
    }
}

} // verus!
