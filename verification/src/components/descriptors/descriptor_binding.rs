//! One descriptor binding of a module.

use crate::module::{Decoration, ExecutionModel, SpvInstruction, InstructionView, SpvModule, ModuleView, Op, OperandView};
use crate::types::descriptor_types::descriptor_kind;
use crate::types::DescriptorType;
use crate::utilities::decorations::decoration_literal;
use crate::utilities::execution_model::stages_of;
use crate::utilities::id::definition;
use crate::utilities::{find_decoration, find_instruction_with_id, variable_execution_models};
use vstd::prelude::*;

verus! {

/// A resource bound at `binding` of descriptor set `set`, with the stages that use it.
#[derive(Clone, Debug, PartialEq, Eq)]
pub struct DescriptorBinding {
    pub set: u32,
    pub binding: u32,
    pub binding_type: DescriptorType,
    pub stages: Vec<ExecutionModel>,
}

/// What a [`DescriptorBinding`] holds.
pub struct DescriptorBindingView {
    pub set: u32,
    pub binding: u32,
    pub binding_type: DescriptorType,
    pub stages: Seq<ExecutionModel>,
}

impl View for DescriptorBinding {
    type V = DescriptorBindingView;

    open spec fn view(&self) -> DescriptorBindingView {
        DescriptorBindingView {
            set: self.set,
            binding: self.binding,
            binding_type: self.binding_type,
            stages: self.stages@,
        }
    }
}

/// The views of a list of bindings, in order.
pub open spec fn binding_views(bindings: Seq<DescriptorBinding>) -> Seq<DescriptorBindingView> {
    Seq::new(bindings.len(), |i: int| bindings[i]@)
}

/// The variable and the descriptor set that `annotation` names, where it is a
/// `DescriptorSet` decoration.
pub open spec fn set_decoration(annotation: InstructionView) -> Option<(u32, u32)> {
    match (
        annotation.opcode,
        annotation.operand(0),
        annotation.operand(1),
        annotation.operand(2),
    ) {
        (
            Op::Decorate,
            Some(OperandView::IdRef(variable)),
            Some(OperandView::Decoration(Decoration::DescriptorSet)),
            Some(OperandView::LiteralBit32(set)),
        ) => Some((variable, set)),
        _ => None,
    }
}

/// The descriptor binding that `annotation` declares.
///
/// The annotation gives a variable its descriptor set. The variable must also
/// have a `Binding` decoration and bind a resource of a known kind; the
/// stages are those whose entry points name the variable.
pub open spec fn binding_of(module: ModuleView, annotation: InstructionView) -> Option<
    DescriptorBindingView,
> {
    match set_decoration(annotation) {
        Some((variable, set)) => match (
            decoration_literal(module, variable, Decoration::Binding),
            definition(module, variable),
        ) {
            (Some(binding), Some(declaration)) => match descriptor_kind(module, declaration) {
                Some(binding_type) => Some(
                    DescriptorBindingView {
                        set,
                        binding,
                        binding_type,
                        stages: stages_of(module, variable),
                    },
                ),
                None => None,
            },
            _ => None,
        },
        None => None,
    }
}

fn read_set_decoration(annotation: &SpvInstruction) -> (found: Option<(u32, u32)>)
    ensures
        found == set_decoration(annotation@),
{
    match annotation.opcode {
        Op::Decorate => {},
        _ => {
            return None;
        },
    }
    let variable: u32 = match annotation.id_ref_at(0) {
        Some(id) => id,
        None => {
            return None;
        },
    };
    match annotation.decoration_at(1) {
        Some(Decoration::DescriptorSet) => {},
        _ => {
            return None;
        },
    }
    match annotation.literal_at(2) {
        Some(set) => Some((variable, set)),
        None => None,
    }
}

impl DescriptorBinding {
    /// Reads the descriptor binding that `instruction`, an annotation, declares.
    pub fn from_instruction(instruction: &SpvInstruction, module: &SpvModule) -> (found: Option<
        DescriptorBinding,
    >)
        ensures
            match binding_of(module@, instruction@) {
                Some(view) => found is Some && found->0@ == view,
                None => found is None,
            },
    {
        let (variable, set) = match read_set_decoration(instruction) {
            Some(pair) => pair,
            None => {
                return None;
            },
        };
        let binding: u32 = match find_decoration(module, variable, Decoration::Binding) {
            Some(value) => value,
            None => {
                return None;
            },
        };
        let declaration = match find_instruction_with_id(variable, module) {
            Some(found) => found,
            None => {
                return None;
            },
        };
        let binding_type = match DescriptorType::from_instruction(declaration, module) {
            Some(kind) => kind,
            None => {
                return None;
            },
        };
        let stages = variable_execution_models(variable, module);
        Some(DescriptorBinding { set, binding, binding_type, stages })
    }
}

} // verus!
