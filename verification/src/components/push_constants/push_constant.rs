//! The push constant block of a module.

use crate::error::ReflectError;
use crate::module::{ExecutionModel, SpvInstruction, InstructionView, SpvModule, ModuleView, Op, OperandView, StorageClass};
use crate::types::resolve::{agrees, lemma_structure_type_view, resolved_id, RESOLUTION_DEPTH};
use crate::types::{Structure, StructureView, Type, TypeView};
use crate::utilities::execution_model::stages_of;
use crate::utilities::variable_execution_models;
use vstd::prelude::*;

verus! {

/// A push constant block: its structure and the stages that use it.
#[derive(Debug, PartialEq, Eq)]
pub struct PushConstant {
    pub structure: Structure,
    pub stages: Vec<ExecutionModel>,
}

/// What a [`PushConstant`] holds.
pub struct PushConstantView {
    pub structure: StructureView,
    pub stages: Seq<ExecutionModel>,
}

impl View for PushConstant {
    type V = PushConstantView;

    open spec fn view(&self) -> PushConstantView {
        PushConstantView { structure: self.structure@, stages: self.stages@ }
    }
}

/// The id of the push constant variable that `instruction` declares: a variable
/// of storage class `PushConstant`.
pub open spec fn push_constant_variable(instruction: InstructionView) -> Option<u32> {
    match (instruction.opcode, instruction.operand(0), instruction.result_id) {
        (Op::Variable, Some(OperandView::StorageClass(StorageClass::PushConstant)), Some(id)) => Some(
            id,
        ),
        _ => None,
    }
}

/// The push constant block that `instruction` declares.
///
/// The variable must point to a structure: it is a failure if its type
/// resolves to anything else, or to nothing. The stages are those whose entry
/// points name the variable.
pub open spec fn push_constant_of(module: ModuleView, instruction: InstructionView) -> Result<
    Option<PushConstantView>,
    ReflectError,
> {
    match (push_constant_variable(instruction), instruction.result_type) {
        (Some(variable), Some(result_type)) => match resolved_id(
            module,
            result_type,
            Some(variable),
            RESOLUTION_DEPTH as nat,
        ) {
            Ok(Some(TypeView::Struct(structure))) => Ok(
                Some(PushConstantView { structure, stages: stages_of(module, variable) }),
            ),
            Ok(_) => Err(ReflectError::PushConstantNotStruct { variable }),
            Err(error) => Err(error),
        },
        _ => Ok(None),
    }
}

fn read_push_constant_variable(instruction: &SpvInstruction) -> (variable: Option<u32>)
    ensures
        variable == push_constant_variable(instruction@),
{
    match instruction.opcode {
        Op::Variable => {},
        _ => {
            return None;
        },
    }
    match instruction.storage_class_at(0) {
        Some(StorageClass::PushConstant) => {},
        _ => {
            return None;
        },
    }
    instruction.result_id
}

impl PushConstant {
    /// Reflects the push constant block that `instruction` declares.
    pub fn from_instruction(instruction: &SpvInstruction, module: &SpvModule) -> (outcome: Result<
        Option<PushConstant>,
        ReflectError,
    >)
        ensures
            agrees(outcome, push_constant_of(module@, instruction@)),
            outcome matches Ok(Some(block)) ==> block@.structure.well_formed(),
    {
        match PushConstant::read(instruction, module) {
            Ok(Some((_, block))) => Ok(Some(block)),
            Ok(None) => Ok(None),
            Err(error) => Err(error),
        }
    }

    /// Reflects the push constant block that `instruction` declares, together
    /// with the id of its variable.
    pub fn read(instruction: &SpvInstruction, module: &SpvModule) -> (outcome: Result<
        Option<(u32, PushConstant)>,
        ReflectError,
    >)
        ensures
            match push_constant_of(module@, instruction@) {
                Ok(Some(view)) => outcome matches Ok(Some(found)) && found.1@ == view && Some(
                    found.0,
                ) == push_constant_variable(instruction@) && view.structure.well_formed(),
                Ok(None) => outcome matches Ok(None),
                Err(error) => outcome matches Err(failure) && failure == error,
            },
    {
        let variable: u32 = match read_push_constant_variable(instruction) {
            Some(id) => id,
            None => {
                return Ok(None);
            },
        };
        let result_type: u32 = match instruction.result_type {
            Some(id) => id,
            None => {
                return Ok(None);
            },
        };
        let structure = match Type::resolve_id(result_type, Some(variable), module, RESOLUTION_DEPTH) {
            Ok(Some(Type::Struct(structure))) => {
                proof {
                    lemma_structure_type_view(structure);
                    crate::types::resolve::lemma_resolved_id_well_formed(
                        module@,
                        result_type,
                        Some(variable),
                        RESOLUTION_DEPTH as nat,
                    );
                }
                structure
            },
            Ok(_) => {
                return Err(ReflectError::PushConstantNotStruct { variable });
            },
            Err(error) => {
                return Err(error);
            },
        };
        let stages = variable_execution_models(variable, module);
        Ok(Some((variable, PushConstant { structure, stages })))
    }
}

} // verus!
