//! Declarations by id.

use crate::module::{SpvInstruction, InstructionView, SpvModule, ModuleView};
use vstd::prelude::*;

verus! {

/// The first of `declarations`, from position `from` on, that defines `id`.
pub open spec fn definition_from(declarations: Seq<InstructionView>, id: u32, from: int) -> Option<
    InstructionView,
>
    decreases declarations.len() - from,
{
    if from < 0 || from >= declarations.len() {
        None
    } else if declarations[from].result_id == Some(id) {
        Some(declarations[from])
    } else {
        definition_from(declarations, id, from + 1)
    }
}

/// The declaration of the module that defines `id`: the first one of its types,
/// constants and global variables whose result id is `id`.
pub open spec fn definition(module: ModuleView, id: u32) -> Option<InstructionView> {
    definition_from(module.types_global_values, id, 0)
}

/// Whether no two of `declarations` define the same id.
pub open spec fn unique_ids(declarations: Seq<InstructionView>) -> bool {
    forall|i: int, j: int|
        0 <= i < j < declarations.len() && declarations[i].result_id is Some
            ==> declarations[i].result_id != declarations[j].result_id
}

/// Whether the declaration at `position` defines an id that an earlier one defines too.
pub open spec fn repeats_earlier(declarations: Seq<InstructionView>, position: int) -> bool {
    declarations[position].result_id is Some && exists|i: int|
        0 <= i < position && declarations[i].result_id == declarations[position].result_id
}

/// The id of the first declaration, from position `from` on, that defines an id
/// which an earlier declaration defines too.
pub open spec fn duplicate_from(declarations: Seq<InstructionView>, from: int) -> Option<u32>
    decreases declarations.len() - from,
{
    if from < 0 || from >= declarations.len() {
        None
    } else if repeats_earlier(declarations, from) {
        declarations[from].result_id
    } else {
        duplicate_from(declarations, from + 1)
    }
}

/// The first id that the module defines twice, if there is one.
pub open spec fn duplicate_id(module: ModuleView) -> Option<u32> {
    duplicate_from(module.types_global_values, 0)
}

/// Looks up the declaration that defines `id`.
pub fn find_instruction_with_id(id: u32, module: &SpvModule) -> (found: Option<&SpvInstruction>)
    ensures
        match found {
            Some(instruction) => definition(module@, id) == Some(instruction@),
            None => definition(module@, id) is None,
        },
{
    let mut index: usize = 0;
    while index < module.types_global_values.len()
        invariant
            index <= module.types_global_values.len(),
            definition(module@, id) == definition_from(
                module@.types_global_values,
                id,
                index as int,
            ),
        decreases module.types_global_values.len() - index,
    {
        let instruction = &module.types_global_values[index];
        assert(module@.types_global_values[index as int] == instruction@);
        match instruction.result_id {
            Some(result_id) => {
                if result_id == id {
                    return Some(instruction);
                }
            },
            None => {},
        }
        index = index + 1;
    }
    None
}

fn defined_before(module: &SpvModule, id: u32, position: usize) -> (found: bool)
    requires
        position <= module.types_global_values.len(),
    ensures
        found == exists|i: int|
            0 <= i < position && module@.types_global_values[i].result_id == Some(id),
{
    let mut index: usize = 0;
    while index < position
        invariant
            index <= position,
            position <= module.types_global_values.len(),
            forall|i: int| 0 <= i < index ==> module@.types_global_values[i].result_id != Some(id),
        decreases position - index,
    {
        let instruction = &module.types_global_values[index];
        assert(module@.types_global_values[index as int] == instruction@);
        match instruction.result_id {
            Some(result_id) => {
                if result_id == id {
                    return true;
                }
            },
            None => {},
        }
        index = index + 1;
    }
    false
}

/// Looks for an id that the module defines twice.
pub fn find_duplicate_id(module: &SpvModule) -> (found: Option<u32>)
    ensures
        found == duplicate_id(module@),
        found is None <==> unique_ids(module@.types_global_values),
{
    let mut index: usize = 0;
    while index < module.types_global_values.len()
        invariant
            index <= module.types_global_values.len(),
            duplicate_id(module@) == duplicate_from(module@.types_global_values, index as int),
            forall|j: int| 0 <= j < index ==> !repeats_earlier(module@.types_global_values, j),
        decreases module.types_global_values.len() - index,
    {
        let instruction = &module.types_global_values[index];
        assert(module@.types_global_values[index as int] == instruction@);
        match instruction.result_id {
            Some(result_id) => {
                if defined_before(module, result_id, index) {
                    assert(repeats_earlier(module@.types_global_values, index as int));
                    return Some(result_id);
                }
            },
            None => {},
        }
        index = index + 1;
    }
    proof {
        let declarations = module@.types_global_values;
        assert forall|i: int, j: int|
            0 <= i < j < declarations.len()
                && declarations[i].result_id is Some implies declarations[i].result_id
            != declarations[j].result_id by {
            assert(!repeats_earlier(declarations, j));
        }
    }
    None
}

/// No id is reported as defined twice exactly where no declaration from
/// position `from` on defines an id that an earlier one defines too.
pub proof fn lemma_duplicate_from(declarations: Seq<InstructionView>, from: int)
    requires
        0 <= from <= declarations.len(),
    ensures
        duplicate_from(declarations, from) is None <==> forall|j: int|
            from <= j < declarations.len() ==> !repeats_earlier(declarations, j),
    decreases declarations.len() - from,
{
    if from < declarations.len() {
        lemma_duplicate_from(declarations, from + 1);
        if repeats_earlier(declarations, from) {
            assert(duplicate_from(declarations, from) is Some);
        } else {
            assert forall|j: int| from <= j < declarations.len() && (forall|k: int|
                from + 1 <= k < declarations.len() ==> !repeats_earlier(
                    declarations,
                    k,
                )) implies !repeats_earlier(declarations, j) by {
            }
        }
    }
}

/// A module has no id that is reported as defined twice exactly where no two of
/// its declarations define the same id.
pub proof fn lemma_duplicate_id(module: ModuleView)
    ensures
        duplicate_id(module) is None <==> unique_ids(module.types_global_values),
{
    let declarations = module.types_global_values;
    lemma_duplicate_from(declarations, 0);
    if unique_ids(declarations) {
        assert forall|j: int| 0 <= j < declarations.len() implies !repeats_earlier(
            declarations,
            j,
        ) by {
            if repeats_earlier(declarations, j) {
                let i = choose|i: int|
                    0 <= i < j && declarations[i].result_id == declarations[j].result_id;
                assert(declarations[i].result_id != declarations[j].result_id);
            }
        }
    }
    if forall|j: int| 0 <= j < declarations.len() ==> !repeats_earlier(declarations, j) {
        assert forall|i: int, j: int|
            0 <= i < j < declarations.len()
                && declarations[i].result_id is Some implies declarations[i].result_id
            != declarations[j].result_id by {
            assert(!repeats_earlier(declarations, j));
        }
    }
}

/// Where no id is defined twice, a declaration with result id `id` is the
/// definition of `id`, wherever it stands.
pub proof fn lemma_definition_is_unique(module: ModuleView, id: u32, position: int)
    requires
        unique_ids(module.types_global_values),
        0 <= position < module.types_global_values.len(),
        module.types_global_values[position].result_id == Some(id),
    ensures
        definition(module, id) == Some(module.types_global_values[position]),
{
    lemma_definition_scan(module.types_global_values, id, position, 0);
}

proof fn lemma_definition_scan(declarations: Seq<InstructionView>, id: u32, position: int, from: int)
    requires
        unique_ids(declarations),
        0 <= from <= position < declarations.len(),
        declarations[position].result_id == Some(id),
    ensures
        definition_from(declarations, id, from) == Some(declarations[position]),
    decreases position - from,
{
    if from < position {
        lemma_definition_scan(declarations, id, position, from + 1);
    }
}

} // verus!
