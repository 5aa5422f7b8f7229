//! One specialization constant of a module.

use crate::error::ReflectError;
use crate::module::{Decoration, SpvInstruction, InstructionView, SpvModule, ModuleView, Op};
use crate::text::{decimal, numbered};
use crate::types::resolve::{agrees, scalar_of};
use crate::types::{Scalar, Type, TypeView};
use crate::utilities::debug::name_of;
use crate::utilities::decorations::decoration_literal;
use crate::utilities::id::definition;
use crate::utilities::{find_decoration, find_instruction_with_id, find_name_for_id};
use vstd::prelude::*;

verus! {

/// A specialization constant: its constant id, its type and its name.
#[derive(Debug, PartialEq, Eq)]
pub struct SpecializationConstant {
    pub id: u32,
    pub constant_type: Type,
    pub name: String,
}

/// What a [`SpecializationConstant`] holds.
pub struct SpecializationConstantView {
    pub id: u32,
    pub constant_type: TypeView,
    pub name: Seq<char>,
}

impl View for SpecializationConstant {
    type V = SpecializationConstantView;

    open spec fn view(&self) -> SpecializationConstantView {
        SpecializationConstantView {
            id: self.id,
            constant_type: self.constant_type@,
            name: self.name@,
        }
    }
}

/// The name of the constant declared as `id` with constant id `constant`: its
/// debug name, or `field_` and the constant id where it has none.
pub open spec fn constant_name(module: ModuleView, id: u32, constant: u32) -> Seq<char> {
    match name_of(module, id) {
        Some(name) => name,
        None => "field_"@ + decimal(constant as nat),
    }
}

/// The specialization constant that `instruction` declares.
///
/// The constant must have a `SpecId` decoration and a scalar type; a constant
/// without the decoration, or of another type, is left out.
pub open spec fn specialization_constant_of(module: ModuleView, instruction: InstructionView) -> Result<
    Option<SpecializationConstantView>,
    ReflectError,
> {
    match (instruction.opcode, instruction.result_id, instruction.result_type) {
        (Op::SpecConstant, Some(id), Some(result_type)) => match (
            decoration_literal(module, id, Decoration::SpecId),
            definition(module, result_type),
        ) {
            (Some(constant), Some(declaration)) => match scalar_of(declaration) {
                Ok(Some(scalar)) => Ok(
                    Some(
                        SpecializationConstantView {
                            id: constant,
                            constant_type: TypeView::Scalar(scalar),
                            name: constant_name(module, id, constant),
                        },
                    ),
                ),
                Ok(None) => Ok(None),
                Err(error) => Err(error),
            },
            _ => Ok(None),
        },
        _ => Ok(None),
    }
}

impl SpecializationConstant {
    /// Reflects the specialization constant that `instruction` declares.
    pub fn from_instruction(instruction: &SpvInstruction, module: &SpvModule) -> (outcome: Result<
        Option<SpecializationConstant>,
        ReflectError,
    >)
        ensures
            agrees(outcome, specialization_constant_of(module@, instruction@)),
    {
        match instruction.opcode {
            Op::SpecConstant => {},
            _ => {
                return Ok(None);
            },
        }
        let id: u32 = match instruction.result_id {
            Some(value) => value,
            None => {
                return Ok(None);
            },
        };
        let result_type: u32 = match instruction.result_type {
            Some(value) => value,
            None => {
                return Ok(None);
            },
        };
        let constant: u32 = match find_decoration(module, id, Decoration::SpecId) {
            Some(value) => value,
            None => {
                return Ok(None);
            },
        };
        let declaration = match find_instruction_with_id(result_type, module) {
            Some(found) => found,
            None => {
                return Ok(None);
            },
        };
        let scalar = match Scalar::from_instruction(declaration) {
            Ok(Some(value)) => value,
            Ok(None) => {
                return Ok(None);
            },
            Err(error) => {
                return Err(error);
            },
        };
        let name = match find_name_for_id(id, module) {
            Some(text) => text,
            None => numbered("field_", constant),
        };
        Ok(Some(SpecializationConstant { id: constant, constant_type: Type::Scalar(scalar), name }))
    }
}

} // verus!
