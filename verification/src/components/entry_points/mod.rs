//! The entry points of a module.

pub mod dispatch;
pub mod entry_point;
pub mod vertex_inputs;

use crate::error::ReflectError;
use crate::module::{SpvModule, ModuleView};
use entry_point::{entry_point_of, EntryPoint, EntryPointView};
use vstd::prelude::*;

verus! {

/// The entry points of a module, in the order of their declarations.
#[derive(Debug, PartialEq, Eq)]
pub struct EntryPoints {
    pub entry_points: Vec<EntryPoint>,
}

/// The views of a list of entry points, in order.
pub open spec fn entry_point_views(entry_points: Seq<EntryPoint>) -> Seq<EntryPointView> {
    Seq::new(entry_points.len(), |i: int| entry_points[i]@)
}

impl View for EntryPoints {
    type V = Seq<EntryPointView>;

    open spec fn view(&self) -> Seq<EntryPointView> {
        entry_point_views(self.entry_points@)
    }
}

/// The entry points that the first `count` entry point declarations of the
/// module declare, or the failure of the first that fails.
pub open spec fn entry_points_among(module: ModuleView, split: Option<usize>, count: int) -> Result<
    Seq<EntryPointView>,
    ReflectError,
>
    decreases count,
{
    if count <= 0 || count > module.entry_points.len() {
        Ok(Seq::empty())
    } else {
        match entry_points_among(module, split, count - 1) {
            Ok(earlier) => match entry_point_of(module, module.entry_points[count - 1], split) {
                Ok(Some(entry_point)) => Ok(earlier.push(entry_point)),
                Ok(None) => Ok(earlier),
                Err(error) => Err(error),
            },
            Err(error) => Err(error),
        }
    }
}

/// The entry points of the module, with the vertex inputs of each split at
/// `split`; none where the module declares no entry point.
pub open spec fn entry_points_of(module: ModuleView, split: Option<usize>) -> Result<
    Option<Seq<EntryPointView>>,
    ReflectError,
> {
    match entry_points_among(module, split, module.entry_points.len() as int) {
        Ok(found) => if found.len() == 0 {
            Ok(None)
        } else {
            Ok(Some(found))
        },
        Err(error) => Err(error),
    }
}

/// Once an entry point fails, the failure stays whatever follows.
proof fn lemma_entry_points_fail(module: ModuleView, split: Option<usize>, count: int, later: int)
    requires
        0 < count <= later <= module.entry_points.len(),
        entry_points_among(module, split, count) is Err,
    ensures
        entry_points_among(module, split, later) == entry_points_among(module, split, count),
    decreases later - count,
{
    if count < later {
        lemma_entry_points_fail(module, split, count, later - 1);
    }
}

impl EntryPoints {
    /// Reflects the entry points of the module; all vertex inputs are read per vertex.
    pub fn from_spirv(module: &SpvModule) -> (outcome: Result<Option<EntryPoints>, ReflectError>)
        ensures
            crate::types::resolve::agrees(outcome, entry_points_of(module@, None)),
    {
        EntryPoints::from_spirv_split(module, None)
    }

    /// Reflects the entry points of the module, with the vertex inputs of each
    /// split at `split_index`.
    pub fn from_spirv_split(module: &SpvModule, split_index: Option<usize>) -> (outcome: Result<
        Option<EntryPoints>,
        ReflectError,
    >)
        ensures
            crate::types::resolve::agrees(outcome, entry_points_of(module@, split_index)),
    {
        let mut entry_points: Vec<EntryPoint> = Vec::new();
        let mut index: usize = 0;
        assert(entry_point_views(entry_points@) =~= Seq::<EntryPointView>::empty());
        while index < module.entry_points.len()
            invariant
                index <= module.entry_points.len(),
                entry_points_among(module@, split_index, index as int) == Ok::<
                    Seq<EntryPointView>,
                    ReflectError,
                >(entry_point_views(entry_points@)),
            decreases module.entry_points.len() - index,
        {
            let ghost earlier = entry_point_views(entry_points@);
            let instruction = &module.entry_points[index];
            assert(module@.entry_points[index as int] == instruction@);
            match EntryPoint::from_instruction_split(instruction, module, split_index) {
                Ok(Some(entry_point)) => {
                    let ghost view = entry_point@;
                    entry_points.push(entry_point);
                    assert(entry_point_views(entry_points@) =~= earlier.push(view));
                },
                Ok(None) => {},
                Err(error) => {
                    proof {
                        lemma_entry_points_fail(
                            module@,
                            split_index,
                            index + 1,
                            module@.entry_points.len() as int,
                        );
                    }
                    return Err(error);
                },
            }
            index = index + 1;
        }
        if entry_points.len() == 0 {
            Ok(None)
        } else {
            Ok(Some(EntryPoints { entry_points }))
        }
    }
}

} // verus!
