//! The push constants of a module.

pub mod push_constant;

use crate::error::ReflectError;
use crate::module::{SpvModule, ModuleView};
use push_constant::{push_constant_of, push_constant_variable, PushConstant, PushConstantView};
use vstd::prelude::*;

verus! {

/// The push constant block of a module. A module has at most one, so the list
/// holds exactly one block.
#[derive(Debug, PartialEq, Eq)]
pub struct PushConstants {
    pub push_constants: Vec<PushConstant>,
}

/// The views of a list of push constant blocks, in order.
pub open spec fn push_constant_views(blocks: Seq<PushConstant>) -> Seq<PushConstantView> {
    Seq::new(blocks.len(), |i: int| blocks[i]@)
}

impl View for PushConstants {
    type V = Seq<PushConstantView>;

    open spec fn view(&self) -> Seq<PushConstantView> {
        push_constant_views(self.push_constants@)
    }
}

/// The push constant block that the first `count` declarations of the module
/// declare: a second block is a failure, as is a block that fails.
pub open spec fn push_constant_among(module: ModuleView, count: int) -> Result<
    Option<PushConstantView>,
    ReflectError,
>
    decreases count,
{
    if count <= 0 || count > module.types_global_values.len() {
        Ok(None)
    } else {
        match push_constant_among(module, count - 1) {
            Ok(earlier) => match push_constant_of(module, module.types_global_values[count - 1]) {
                Ok(Some(block)) => match earlier {
                    Some(_) => Err(
                        ReflectError::DuplicatePushConstant {
                            variable: push_constant_variable(
                                module.types_global_values[count - 1],
                            )->0,
                        },
                    ),
                    None => Ok(Some(block)),
                },
                Ok(None) => Ok(earlier),
                Err(error) => Err(error),
            },
            Err(error) => Err(error),
        }
    }
}

/// The push constants of the module: its one block, or none.
pub open spec fn push_constants_of(module: ModuleView) -> Result<
    Option<Seq<PushConstantView>>,
    ReflectError,
> {
    match push_constant_among(module, module.types_global_values.len() as int) {
        Ok(Some(block)) => Ok(Some(seq![block])),
        Ok(None) => Ok(None),
        Err(error) => Err(error),
    }
}

/// Once a declaration fails, the failure stays whatever follows.
proof fn lemma_push_constant_fails(module: ModuleView, count: int, later: int)
    requires
        0 < count <= later <= module.types_global_values.len(),
        push_constant_among(module, count) is Err,
    ensures
        push_constant_among(module, later) == push_constant_among(module, count),
    decreases later - count,
{
    if count < later {
        lemma_push_constant_fails(module, count, later - 1);
    }
}

impl PushConstants {
    /// Reflects the push constants of the module.
    pub fn from_spirv(module: &SpvModule) -> (outcome: Result<Option<PushConstants>, ReflectError>)
        ensures
            crate::types::resolve::agrees(outcome, push_constants_of(module@)),
            outcome matches Ok(Some(blocks)) ==> blocks@.len() == 1
                && blocks@[0].structure.well_formed(),
    {
        let mut found: Option<PushConstant> = None;
        let mut index: usize = 0;
        let total: usize = module.types_global_values.len();
        while index < total
            invariant
                index <= total,
                total == module.types_global_values.len(),
                total == module@.types_global_values.len(),
                match push_constant_among(module@, index as int) {
                    Ok(Some(view)) => found matches Some(block) && block@ == view
                        && view.structure.well_formed(),
                    Ok(None) => found is None,
                    Err(_) => false,
                },
            decreases total - index,
        {
            let instruction = &module.types_global_values[index];
            assert(module@.types_global_values[index as int] == instruction@);
            match PushConstant::read(instruction, module) {
                Ok(Some((variable, block))) => {
                    if found.is_some() {
                        proof {
                            lemma_push_constant_fails(module@, index + 1, total as int);
                        }
                        return Err(ReflectError::DuplicatePushConstant { variable });
                    }
                    found = Some(block);
                },
                Ok(None) => {},
                Err(error) => {
                    proof {
                        lemma_push_constant_fails(module@, index + 1, total as int);
                    }
                    return Err(error);
                },
            }
            index = index + 1;
        }
        match found {
            Some(block) => {
                let ghost view = block@;
                let mut push_constants: Vec<PushConstant> = Vec::new();
                push_constants.push(block);
                assert(push_constant_views(push_constants@) =~= seq![view]);
                Ok(Some(PushConstants { push_constants }))
            },
            None => Ok(None),
        }
    }
}

} // verus!
