//! The reflection of a whole module.

use crate::components::descriptors::{reflected_sets, DescriptorSetsView};
use crate::components::entry_points::entry_point::EntryPointView;
use crate::components::entry_points::entry_points_of;
use crate::components::push_constants::push_constant::PushConstantView;
use crate::components::push_constants::push_constants_of;
use crate::components::specialization_constants::specialization_constants_of;
use crate::components::{DescriptorSets, EntryPoints, PushConstants, SpecializationConstants};
use crate::decode::{decode, decoded, DecodeError};
use crate::error::ReflectError;
use crate::module::{SpvModule, ModuleView};
use crate::types::StructureView;
use crate::utilities::find_duplicate_id;
use crate::utilities::id::duplicate_id;
use vstd::prelude::*;

verus! {

/// The interface of a shader module. A part that the module does not declare is absent.
#[derive(Debug, PartialEq, Eq)]
pub struct Spirv {
    /// The shader's specialization constants.
    pub specialization_constants: Option<SpecializationConstants>,
    /// The shader's entry points.
    pub entry_points: Option<EntryPoints>,
    /// The shader's push constants.
    pub push_constants: Option<PushConstants>,
    /// The shader's descriptor sets.
    pub descriptor_sets: Option<DescriptorSets>,
}

/// What a [`Spirv`] holds.
pub struct SpirvView {
    pub specialization_constants: Option<StructureView>,
    pub entry_points: Option<Seq<EntryPointView>>,
    pub push_constants: Option<Seq<PushConstantView>>,
    pub descriptor_sets: Option<DescriptorSetsView>,
}

impl View for Spirv {
    type V = SpirvView;

    open spec fn view(&self) -> SpirvView {
        SpirvView {
            specialization_constants: match self.specialization_constants {
                Some(constants) => Some(constants@),
                None => None,
            },
            entry_points: match self.entry_points {
                Some(entry_points) => Some(entry_points@),
                None => None,
            },
            push_constants: match self.push_constants {
                Some(blocks) => Some(blocks@),
                None => None,
            },
            descriptor_sets: match self.descriptor_sets {
                Some(sets) => Some(sets@),
                None => None,
            },
        }
    }
}

/// Why a binary could not be reflected: it could not be decoded, or the module
/// it decodes to is malformed.
#[derive(Clone, Copy, Debug, PartialEq, Eq, Structural)]
pub enum Error {
    Decode(DecodeError),
    Reflect(ReflectError),
}

/// The interface of the module, with the vertex inputs of every entry point
/// split at `split`.
///
/// A module that defines an id twice is a failure. Otherwise the parts are
/// reflected in the order specialization constants, entry points, push
/// constants and descriptor sets, and the first failure is the failure of the
/// whole.
pub open spec fn reflected(module: ModuleView, split: Option<usize>) -> Result<SpirvView, ReflectError> {
    match duplicate_id(module) {
        Some(id) => Err(ReflectError::DuplicateId { id }),
        None => match specialization_constants_of(module) {
            Ok(specialization_constants) => match entry_points_of(module, split) {
                Ok(entry_points) => match push_constants_of(module) {
                    Ok(push_constants) => Ok(
                        SpirvView {
                            specialization_constants,
                            entry_points,
                            push_constants,
                            descriptor_sets: reflected_sets(module),
                        },
                    ),
                    Err(error) => Err(error),
                },
                Err(error) => Err(error),
            },
            Err(error) => Err(error),
        },
    }
}

/// What reflecting `bytes` gives: the failure of the decoder, the failure of
/// reflection, or the interface of the module that the bytes decode to.
pub open spec fn reflected_bytes(bytes: Seq<u8>) -> Result<SpirvView, Error> {
    match decoded(bytes) {
        Ok(module) => match reflected(module, None) {
            Ok(interface) => Ok(interface),
            Err(error) => Err(Error::Reflect(error)),
        },
        Err(error) => Err(Error::Decode(error)),
    }
}

impl Spirv {
    /// Whether the descriptor sets, where there are any, reach from 0 to their
    /// highest set.
    pub open spec fn highest_set_holds(&self) -> bool {
        self.descriptor_sets matches Some(sets) ==> sets.is_highest(sets.highest_set) && forall|
            set: u32,
        | #[trigger] sets.sets@.contains_key(set) <==> set <= sets.highest_set
    }

    /// Reflects the interface of a SPIR-V binary.
    pub fn try_from_bytes(bytes: &[u8]) -> (result: Result<Spirv, Error>)
        ensures
            match reflected_bytes(bytes@) {
                Ok(view) => result matches Ok(interface) && interface@ == view,
                Err(error) => result matches Err(failure) && failure == error,
            },
            result matches Ok(interface) ==> interface.highest_set_holds(),
    {
        match decode(bytes) {
            Ok(module) => match Spirv::reflect(&module) {
                Ok(interface) => Ok(interface),
                Err(error) => Err(Error::Reflect(error)),
            },
            Err(error) => Err(Error::Decode(error)),
        }
    }

    /// Reflects the interface of a decoded module; all vertex inputs are read
    /// per vertex.
    pub fn reflect(module: &SpvModule) -> (result: Result<Spirv, ReflectError>)
        ensures
            match reflected(module@, None) {
                Ok(view) => result matches Ok(interface) && interface@ == view,
                Err(error) => result matches Err(failure) && failure == error,
            },
            result matches Ok(interface) ==> interface.highest_set_holds(),
    {
        Spirv::reflect_split(module, None)
    }

    /// Reflects the interface of a decoded module, with the vertex inputs of
    /// every entry point split at `split_index`.
    pub fn reflect_split(module: &SpvModule, split_index: Option<usize>) -> (result: Result<
        Spirv,
        ReflectError,
    >)
        ensures
            match reflected(module@, split_index) {
                Ok(view) => result matches Ok(interface) && interface@ == view,
                Err(error) => result matches Err(failure) && failure == error,
            },
            result matches Ok(interface) ==> interface.highest_set_holds(),
    {
        match find_duplicate_id(module) {
            Some(id) => {
                return Err(ReflectError::DuplicateId { id });
            },
            None => {},
        }
        let specialization_constants = match SpecializationConstants::from_spirv(module) {
            Ok(constants) => constants,
            Err(error) => {
                return Err(error);
            },
        };
        let entry_points = match EntryPoints::from_spirv_split(module, split_index) {
            Ok(found) => found,
            Err(error) => {
                return Err(error);
            },
        };
        let push_constants = match PushConstants::from_spirv(module) {
            Ok(found) => found,
            Err(error) => {
                return Err(error);
            },
        };
        let descriptor_sets = DescriptorSets::from_spirv(module);
        Ok(Spirv { specialization_constants, entry_points, push_constants, descriptor_sets })
    }
}

} // verus!
