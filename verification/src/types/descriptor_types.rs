//! The kinds of resources that a descriptor can bind.

use crate::module::{
    Decoration, Dim, SpvInstruction, InstructionView, SpvModule, ModuleView, Op, OperandView, StorageClass,
};
use crate::utilities::decorations::decorated;
use crate::utilities::id::definition;
use crate::utilities::{find_instruction_with_id, has_decoration};
use vstd::prelude::*;

verus! {

/// The kind of resource behind a descriptor binding.
#[derive(Clone, Copy, Debug, PartialEq, Eq, Hash, Structural)]
pub enum DescriptorType {
    Sampler,
    SampledImage,
    StorageImage,
    CombinedImageSampler,
    UniformTexelBuffer,
    StorageTexelBuffer,
    UniformBuffer,
    StorageBuffer,
    InputAttachment,
    InlineUniformBlock,
    AccelerationStructure,
}

/// The kind of an image with dimensionality `dim` and the given `sampled` operand.
pub open spec fn image_kind(dim: Dim, sampled: u32) -> Option<DescriptorType> {
    match dim {
        Dim::DimBuffer => if sampled == 1 {
            Some(DescriptorType::UniformTexelBuffer)
        } else if sampled == 2 {
            Some(DescriptorType::StorageTexelBuffer)
        } else {
            None
        },
        Dim::DimSubpassData => Some(DescriptorType::InputAttachment),
        Dim::Other(_) => if sampled == 1 {
            Some(DescriptorType::SampledImage)
        } else if sampled == 2 {
            Some(DescriptorType::StorageImage)
        } else {
            None
        },
    }
}

/// The kind of resource that a variable of storage class `class` binds when it
/// points to the type declared by `pointee`.
pub open spec fn pointee_kind(module: ModuleView, pointee: InstructionView, class: StorageClass) -> Option<
    DescriptorType,
> {
    match pointee.opcode {
        Op::TypeSampler => Some(DescriptorType::Sampler),
        Op::TypeSampledImage => Some(DescriptorType::CombinedImageSampler),
        Op::TypeImage => match (pointee.operand(1), pointee.operand(5)) {
            (Some(OperandView::Dim(dim)), Some(OperandView::LiteralBit32(sampled))) => image_kind(
                dim,
                sampled,
            ),
            _ => None,
        },
        Op::TypeStruct => match pointee.result_id {
            Some(id) => if class == StorageClass::StorageBuffer || decorated(
                module,
                id,
                Decoration::BufferBlock,
            ) {
                Some(DescriptorType::StorageBuffer)
            } else {
                Some(DescriptorType::UniformBuffer)
            },
            None => None,
        },
        Op::TypeAccelerationStructureKHR => Some(DescriptorType::AccelerationStructure),
        _ => None,
    }
}

/// The declaration of the type that `variable` points to: the result type of a
/// variable is a pointer, whose second operand names the pointee.
pub open spec fn pointee_of(module: ModuleView, variable: InstructionView) -> Option<InstructionView> {
    match variable.result_type {
        Some(result_type) => match definition(module, result_type) {
            Some(pointer) => match (pointer.opcode, pointer.operand(1)) {
                (Op::TypePointer, Some(OperandView::IdRef(pointee))) => definition(module, pointee),
                _ => None,
            },
            None => None,
        },
        None => None,
    }
}

/// The kind of resource that `variable` binds, if it is a variable that binds one.
pub open spec fn descriptor_kind(module: ModuleView, variable: InstructionView) -> Option<
    DescriptorType,
> {
    match (variable.opcode, variable.operand(0)) {
        (Op::Variable, Some(OperandView::StorageClass(class))) => match pointee_of(module, variable) {
            Some(pointee) => pointee_kind(module, pointee, class),
            None => None,
        },
        _ => None,
    }
}

/// Looks up the declaration of the type that `variable` points to.
pub fn find_pointee<'a>(variable: &SpvInstruction, module: &'a SpvModule) -> (pointee: Option<
    &'a SpvInstruction,
>)
    ensures
        match pointee {
            Some(instruction) => pointee_of(module@, variable@) == Some(instruction@),
            None => pointee_of(module@, variable@) is None,
        },
{
    let result_type: u32 = match variable.result_type {
        Some(id) => id,
        None => {
            return None;
        },
    };
    let pointer = match find_instruction_with_id(result_type, module) {
        Some(found) => found,
        None => {
            return None;
        },
    };
    match pointer.opcode {
        Op::TypePointer => {},
        _ => {
            return None;
        },
    }
    match pointer.id_ref_at(1) {
        Some(pointee) => find_instruction_with_id(pointee, module),
        None => None,
    }
}

impl DescriptorType {
    /// The name of the Vulkan descriptor type of the kind.
    pub open spec fn vulkan(self) -> Seq<char> {
        match self {
            DescriptorType::Sampler => "SAMPLER"@,
            DescriptorType::SampledImage => "SAMPLED_IMAGE"@,
            DescriptorType::StorageImage => "STORAGE_IMAGE"@,
            DescriptorType::CombinedImageSampler => "COMBINED_IMAGE_SAMPLER"@,
            DescriptorType::UniformTexelBuffer => "UNIFORM_TEXEL_BUFFER"@,
            DescriptorType::StorageTexelBuffer => "STORAGE_TEXEL_BUFFER"@,
            DescriptorType::UniformBuffer => "UNIFORM_BUFFER"@,
            DescriptorType::StorageBuffer => "STORAGE_BUFFER"@,
            DescriptorType::InputAttachment => "INPUT_ATTACHMENT"@,
            DescriptorType::InlineUniformBlock => "INLINE_UNIFORM_BLOCK_EXT"@,
            DescriptorType::AccelerationStructure => "ACCELERATION_STRUCTURE_KHR"@,
        }
    }

    /// Names the Vulkan descriptor type of the kind.
    pub fn vulkan_name(&self) -> (name: &'static str)
        ensures
            name@ == self.vulkan(),
    {
        match self {
            DescriptorType::Sampler => "SAMPLER",
            DescriptorType::SampledImage => "SAMPLED_IMAGE",
            DescriptorType::StorageImage => "STORAGE_IMAGE",
            DescriptorType::CombinedImageSampler => "COMBINED_IMAGE_SAMPLER",
            DescriptorType::UniformTexelBuffer => "UNIFORM_TEXEL_BUFFER",
            DescriptorType::StorageTexelBuffer => "STORAGE_TEXEL_BUFFER",
            DescriptorType::UniformBuffer => "UNIFORM_BUFFER",
            DescriptorType::StorageBuffer => "STORAGE_BUFFER",
            DescriptorType::InputAttachment => "INPUT_ATTACHMENT",
            DescriptorType::InlineUniformBlock => "INLINE_UNIFORM_BLOCK_EXT",
            DescriptorType::AccelerationStructure => "ACCELERATION_STRUCTURE_KHR",
        }
    }

    /// Classifies the resource that the variable declared by `instruction` binds.
    pub fn from_instruction(instruction: &SpvInstruction, module: &SpvModule) -> (kind: Option<
        DescriptorType,
    >)
        ensures
            kind == descriptor_kind(module@, instruction@),
    {
        match instruction.opcode {
            Op::Variable => {},
            _ => {
                return None;
            },
        }
        let class = match instruction.storage_class_at(0) {
            Some(value) => value,
            None => {
                return None;
            },
        };
        let pointee = match find_pointee(instruction, module) {
            Some(found) => found,
            None => {
                return None;
            },
        };
        match pointee.opcode {
            Op::TypeSampler => Some(DescriptorType::Sampler),
            Op::TypeSampledImage => Some(DescriptorType::CombinedImageSampler),
            Op::TypeImage => {
                let dim = match pointee.dim_at(1) {
                    Some(value) => value,
                    None => {
                        return None;
                    },
                };
                let sampled: u32 = match pointee.literal_at(5) {
                    Some(value) => value,
                    None => {
                        return None;
                    },
                };
                match dim {
                    Dim::DimBuffer => match sampled {
                        1 => Some(DescriptorType::UniformTexelBuffer),
                        2 => Some(DescriptorType::StorageTexelBuffer),
                        _ => None,
                    },
                    Dim::DimSubpassData => Some(DescriptorType::InputAttachment),
                    Dim::Other(_) => match sampled {
                        1 => Some(DescriptorType::SampledImage),
                        2 => Some(DescriptorType::StorageImage),
                        _ => None,
                    },
                }
            },
            Op::TypeStruct => {
                let id: u32 = match pointee.result_id {
                    Some(value) => value,
                    None => {
                        return None;
                    },
                };
                let storage = match class {
                    StorageClass::StorageBuffer => true,
                    _ => false,
                };
                if storage || has_decoration(module, id, Decoration::BufferBlock) {
                    Some(DescriptorType::StorageBuffer)
                } else {
                    Some(DescriptorType::UniformBuffer)
                }
            },
            Op::TypeAccelerationStructureKHR => Some(DescriptorType::AccelerationStructure),
            _ => None,
        }
    }
}

} // verus!
