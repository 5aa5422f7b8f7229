//! What holds of merged descriptor bindings.

use super::descriptor_binding::DescriptorBindingView;
use super::{
    bindings_in, declared_in, descriptor_sets, holds_binding, joined_stages, merged, merged_among,
    stages_for, united,
};
use crate::module::ModuleView;
use crate::module::ExecutionModel;
use vstd::prelude::*;

verus! {

/// Whether one of the first `count` of `more` is `model`.
pub open spec fn listed(more: Seq<ExecutionModel>, count: int, model: ExecutionModel) -> bool {
    exists|i: int| 0 <= i < count && i < more.len() && more[i] == model
}

/// Whether one of the first `count` of `bindings` has the binding number
/// `binding` and the stage `model`.
pub open spec fn used_by(
    bindings: Seq<DescriptorBindingView>,
    binding: u32,
    count: int,
    model: ExecutionModel,
) -> bool {
    exists|i: int|
        0 <= i < count && i < bindings.len() && (#[trigger] bindings[i]).binding == binding
            && bindings[i].stages.contains(model)
}

/// Whether no two of `bindings` have the same binding number.
pub open spec fn distinct(bindings: Seq<DescriptorBindingView>) -> bool {
    forall|i: int, j: int|
        0 <= i < j < bindings.len() ==> (#[trigger] bindings[i]).binding != (
        #[trigger] bindings[j]).binding
}

/// Whether none of `bindings` lists a stage twice.
pub open spec fn tidy(bindings: Seq<DescriptorBindingView>) -> bool {
    forall|i: int| 0 <= i < bindings.len() ==> (#[trigger] bindings[i]).stages.no_duplicates()
}

/// Joining stages keeps those that were there, adds each new one once, and adds
/// nothing else.
pub proof fn lemma_joined_stages(stages: Seq<ExecutionModel>, more: Seq<ExecutionModel>, count: int)
    requires
        stages.no_duplicates(),
        0 <= count <= more.len(),
    ensures
        joined_stages(stages, more, count).no_duplicates(),
        forall|model: ExecutionModel|
            #[trigger] joined_stages(stages, more, count).contains(model) <==> stages.contains(model)
                || listed(more, count, model),
    decreases count,
{
    if count > 0 {
        lemma_joined_stages(stages, more, count - 1);
        let earlier = joined_stages(stages, more, count - 1);
        let now = joined_stages(stages, more, count);
        let last = more[count - 1];
        assert forall|model: ExecutionModel| #[trigger]
            now.contains(model) <==> stages.contains(model) || listed(more, count, model) by {
            if now.contains(model) {
                if earlier.contains(model) {
                    if listed(more, count - 1, model) {
                        let i = choose|i: int| 0 <= i < count - 1 && i < more.len() && more[i] == model;
                        assert(0 <= i < count && more[i] == model);
                    }
                } else {
                    let k = choose|k: int| 0 <= k < now.len() && now[k] == model;
                    assert(now == earlier.push(last));
                    if k < earlier.len() {
                        assert(earlier[k] == model);
                    }
                    assert(model == last);
                    assert(more[count - 1] == model);
                }
            }
            if stages.contains(model) || listed(more, count, model) {
                if earlier.contains(model) {
                    let k = choose|k: int| 0 <= k < earlier.len() && earlier[k] == model;
                    if now != earlier {
                        assert(now[k] == model);
                    }
                } else {
                    assert(listed(more, count, model));
                    let i = choose|i: int| 0 <= i < count && i < more.len() && more[i] == model;
                    if i < count - 1 {
                        assert(listed(more, count - 1, model));
                    }
                    assert(model == last);
                    assert(now == earlier.push(last));
                    assert(now[now.len() - 1] == model);
                }
            }
        }
    }
}

/// Joining stages that are all there already changes nothing.
pub proof fn lemma_joined_known(stages: Seq<ExecutionModel>, more: Seq<ExecutionModel>, count: int)
    requires
        0 <= count <= more.len(),
        forall|i: int| 0 <= i < count ==> stages.contains(#[trigger] more[i]),
    ensures
        joined_stages(stages, more, count) == stages,
    decreases count,
{
    if count > 0 {
        lemma_joined_known(stages, more, count - 1);
        assert(stages.contains(more[count - 1]));
    }
}

/// Joining stages without repetition to none gives those stages.
pub proof fn lemma_joined_fresh(more: Seq<ExecutionModel>, count: int)
    requires
        more.no_duplicates(),
        0 <= count <= more.len(),
    ensures
        joined_stages(Seq::empty(), more, count) == more.subrange(0, count),
    decreases count,
{
    if count > 0 {
        lemma_joined_fresh(more, count - 1);
        let earlier = more.subrange(0, count - 1);
        if earlier.contains(more[count - 1]) {
            let k = choose|k: int| 0 <= k < earlier.len() && earlier[k] == more[count - 1];
            assert(more[k] == more[count - 1]);
        }
        assert(earlier.push(more[count - 1]) =~= more.subrange(0, count));
    } else {
        assert(more.subrange(0, count) =~= Seq::<ExecutionModel>::empty());
    }
}

/// The stages collected for a binding number are those of the bindings with that
/// number, each once.
pub proof fn lemma_stages_for(bindings: Seq<DescriptorBindingView>, binding: u32, count: int)
    requires
        0 <= count <= bindings.len(),
    ensures
        stages_for(bindings, binding, count).no_duplicates(),
        forall|model: ExecutionModel|
            #[trigger] stages_for(bindings, binding, count).contains(model) <==> used_by(
                bindings,
                binding,
                count,
                model,
            ),
    decreases count,
{
    if count > 0 {
        lemma_stages_for(bindings, binding, count - 1);
        let earlier = stages_for(bindings, binding, count - 1);
        let now = stages_for(bindings, binding, count);
        let last = bindings[count - 1];
        if last.binding == binding {
            lemma_joined_stages(earlier, last.stages, last.stages.len() as int);
        }
        assert forall|model: ExecutionModel| #[trigger]
            now.contains(model) <==> used_by(bindings, binding, count, model) by {
            if now.contains(model) {
                if earlier.contains(model) {
                    let i = choose|i: int|
                        0 <= i < count - 1 && i < bindings.len() && (#[trigger] bindings[i]).binding
                            == binding && bindings[i].stages.contains(model);
                    assert(0 <= i < count && bindings[i].binding == binding);
                } else {
                    assert(last.binding == binding);
                    assert(listed(last.stages, last.stages.len() as int, model));
                    let i = choose|i: int|
                        0 <= i < last.stages.len() && i < last.stages.len() && last.stages[i]
                            == model;
                    assert(last.stages.contains(model));
                    assert(bindings[count - 1].binding == binding && bindings[count
                        - 1].stages.contains(model));
                }
            }
            if used_by(bindings, binding, count, model) {
                let i = choose|i: int|
                    0 <= i < count && i < bindings.len() && (#[trigger] bindings[i]).binding
                        == binding && bindings[i].stages.contains(model);
                if i < count - 1 {
                    assert(used_by(bindings, binding, count - 1, model));
                    assert(earlier.contains(model));
                } else {
                    let k = choose|k: int| 0 <= k < last.stages.len() && last.stages[k] == model;
                    assert(listed(last.stages, last.stages.len() as int, model));
                }
            }
        }
    }
}

/// Merged bindings have distinct binding numbers, and none lists a stage twice.
pub proof fn lemma_merged_distinct(bindings: Seq<DescriptorBindingView>, count: int)
    requires
        0 <= count <= bindings.len(),
    ensures
        distinct(merged_among(bindings, count)),
        tidy(merged_among(bindings, count)),
        merged_among(bindings, count).len() <= count,
    decreases count,
{
    if count > 0 {
        lemma_merged_distinct(bindings, count - 1);
        let earlier = merged_among(bindings, count - 1);
        let now = merged_among(bindings, count);
        let last = bindings[count - 1];
        if !holds_binding(earlier, last.binding) {
            lemma_stages_for(bindings, last.binding, bindings.len() as int);
            assert(now == earlier.push(united(bindings, last)));
            assert forall|i: int, j: int| 0 <= i < j < now.len() implies (
            #[trigger] now[i]).binding != (#[trigger] now[j]).binding by {
                assert(now[i] == earlier[i]);
                if j < earlier.len() {
                    assert(now[j] == earlier[j]);
                } else {
                    assert(earlier[i].binding != last.binding);
                }
            }
            assert forall|i: int| 0 <= i < now.len() implies (
            #[trigger] now[i]).stages.no_duplicates() by {
                if i < earlier.len() {
                    assert(now[i] == earlier[i]);
                }
            }
        }
    }
}

/// Among bindings with distinct numbers, the stages collected for the number of
/// one of them are its own stages.
pub proof fn lemma_stages_for_own(bindings: Seq<DescriptorBindingView>, position: int, count: int)
    requires
        distinct(bindings),
        tidy(bindings),
        0 <= position < bindings.len(),
        0 <= count <= bindings.len(),
    ensures
        stages_for(bindings, bindings[position].binding, count) == if count > position {
            bindings[position].stages
        } else {
            Seq::empty()
        },
    decreases count,
{
    if count > 0 {
        lemma_stages_for_own(bindings, position, count - 1);
        let own = bindings[position].stages;
        if bindings[count - 1].binding == bindings[position].binding {
            assert(count - 1 == position);
            lemma_joined_fresh(own, own.len() as int);
            assert(own.subrange(0, own.len() as int) =~= own);
        }
    }
}

/// Merging bindings with distinct numbers, none of which lists a stage twice,
/// changes nothing.
pub proof fn lemma_merged_of_distinct(bindings: Seq<DescriptorBindingView>, count: int)
    requires
        distinct(bindings),
        tidy(bindings),
        0 <= count <= bindings.len(),
    ensures
        merged_among(bindings, count) == bindings.subrange(0, count),
    decreases count,
{
    if count > 0 {
        lemma_merged_of_distinct(bindings, count - 1);
        let earlier = bindings.subrange(0, count - 1);
        let last = bindings[count - 1];
        if holds_binding(earlier, last.binding) {
            let k = choose|k: int|
                0 <= k < earlier.len() && (#[trigger] earlier[k]).binding == last.binding;
            assert(earlier[k] == bindings[k]);
            assert(bindings[k].binding != bindings[count - 1].binding);
        }
        lemma_stages_for_own(bindings, count - 1, bindings.len() as int);
        assert(united(bindings, last) == last);
        assert(earlier.push(last) =~= bindings.subrange(0, count));
    } else {
        assert(bindings.subrange(0, count) =~= Seq::<DescriptorBindingView>::empty());
    }
}

/// Merging is idempotent: merging merged bindings changes nothing.
pub proof fn lemma_merge_idempotent(bindings: Seq<DescriptorBindingView>)
    ensures
        merged(merged(bindings)) == merged(bindings),
{
    let once = merged(bindings);
    lemma_merged_distinct(bindings, bindings.len() as int);
    lemma_merged_of_distinct(once, once.len() as int);
    assert(once.subrange(0, once.len() as int) =~= once);
}

/// Among bindings with distinct numbers written down twice, the stages collected
/// for the number of one of them are still its own stages.
pub proof fn lemma_stages_for_doubled(bindings: Seq<DescriptorBindingView>, position: int, count: int)
    requires
        distinct(bindings),
        tidy(bindings),
        0 <= position < bindings.len(),
        0 <= count <= 2 * bindings.len(),
    ensures
        stages_for(bindings + bindings, bindings[position].binding, count) == if count > position {
            bindings[position].stages
        } else {
            Seq::empty()
        },
    decreases count,
{
    if count > 0 {
        lemma_stages_for_doubled(bindings, position, count - 1);
        let doubled = bindings + bindings;
        let own = bindings[position].stages;
        let index = count - 1;
        if index < bindings.len() {
            assert(doubled[index] == bindings[index]);
            if bindings[index].binding == bindings[position].binding {
                assert(index == position);
                lemma_joined_fresh(own, own.len() as int);
                assert(own.subrange(0, own.len() as int) =~= own);
            }
        } else {
            assert(doubled[index] == bindings[index - bindings.len()]);
            if bindings[index - bindings.len()].binding == bindings[position].binding {
                assert(index - bindings.len() == position);
                assert forall|i: int| 0 <= i < own.len() implies own.contains(#[trigger] own[i]) by {
                }
                lemma_joined_known(own, own, own.len() as int);
            }
        }
    }
}

/// Merging bindings with distinct numbers written down twice gives them once.
pub proof fn lemma_merged_of_doubled(bindings: Seq<DescriptorBindingView>, count: int)
    requires
        distinct(bindings),
        tidy(bindings),
        0 <= count <= 2 * bindings.len(),
    ensures
        merged_among(bindings + bindings, count) == if count <= bindings.len() {
            bindings.subrange(0, count)
        } else {
            bindings
        },
    decreases count,
{
    let doubled = bindings + bindings;
    if count > 0 {
        lemma_merged_of_doubled(bindings, count - 1);
        let index = count - 1;
        if index < bindings.len() {
            let earlier = bindings.subrange(0, index);
            let last = bindings[index];
            assert(doubled[index] == last);
            if holds_binding(earlier, last.binding) {
                let k = choose|k: int|
                    0 <= k < earlier.len() && (#[trigger] earlier[k]).binding == last.binding;
                assert(earlier[k] == bindings[k]);
                assert(bindings[k].binding != bindings[index].binding);
            }
            lemma_stages_for_doubled(bindings, index, doubled.len() as int);
            assert(united(doubled, last) == last);
            assert(earlier.push(last) =~= bindings.subrange(0, count));
            if count == bindings.len() {
                assert(bindings.subrange(0, count) =~= bindings);
            }
        } else {
            let last = bindings[index - bindings.len()];
            assert(doubled[index] == last);
            let earlier = merged_among(doubled, count - 1);
            assert(bindings.subrange(0, bindings.len() as int) =~= bindings);
            assert(earlier == bindings);
            assert(earlier[index - bindings.len()].binding == last.binding);
            assert(holds_binding(earlier, last.binding));
        }
    } else {
        assert(bindings.subrange(0, count) =~= Seq::<DescriptorBindingView>::empty());
    }
}

/// Merging merged bindings with themselves gives them back.
pub proof fn lemma_merge_with_itself(bindings: Seq<DescriptorBindingView>)
    ensures
        merged(merged(bindings) + merged(bindings)) == merged(bindings),
{
    let once = merged(bindings);
    lemma_merged_distinct(bindings, bindings.len() as int);
    lemma_merged_of_doubled(once, 2 * (once.len() as int));
    assert(once.subrange(0, once.len() as int) =~= once);
}

/// Whether all of `bindings` have the set and the binding number of the first.
pub open spec fn share_binding(bindings: Seq<DescriptorBindingView>) -> bool {
    forall|i: int|
        0 <= i < bindings.len() ==> (#[trigger] bindings[i]).set == bindings[0].set
            && bindings[i].binding == bindings[0].binding
}

/// Bindings that all have the same set and binding number merge into exactly one
/// binding: it has that set and number, the kind of the first, and as stages
/// the union of the stages of them all, each stage once.
pub proof fn lemma_merge_unites(bindings: Seq<DescriptorBindingView>)
    requires
        bindings.len() > 0,
        share_binding(bindings),
    ensures
        merged(bindings).len() == 1,
        merged(bindings)[0].set == bindings[0].set,
        merged(bindings)[0].binding == bindings[0].binding,
        merged(bindings)[0].binding_type == bindings[0].binding_type,
        merged(bindings)[0].stages.no_duplicates(),
        forall|model: ExecutionModel|
            #[trigger] merged(bindings)[0].stages.contains(model) <==> exists|i: int|
                0 <= i < bindings.len() && (#[trigger] bindings[i]).stages.contains(model),
{
    lemma_merge_unites_among(bindings, bindings.len() as int);
    let stages = merged(bindings)[0].stages;
    lemma_stages_for(bindings, bindings[0].binding, bindings.len() as int);
    assert forall|model: ExecutionModel| #[trigger]
        stages.contains(model) <==> exists|i: int|
            0 <= i < bindings.len() && (#[trigger] bindings[i]).stages.contains(model) by {
        if stages.contains(model) {
            assert(used_by(bindings, bindings[0].binding, bindings.len() as int, model));
            let i = choose|i: int|
                0 <= i < bindings.len() && i < bindings.len() && (#[trigger] bindings[i]).binding
                    == bindings[0].binding && bindings[i].stages.contains(model);
            assert(bindings[i].stages.contains(model));
        }
        if exists|i: int| 0 <= i < bindings.len() && (#[trigger] bindings[i]).stages.contains(model) {
            let i = choose|i: int|
                0 <= i < bindings.len() && (#[trigger] bindings[i]).stages.contains(model);
            assert(bindings[i].binding == bindings[0].binding);
            assert(used_by(bindings, bindings[0].binding, bindings.len() as int, model));
        }
    }
}

proof fn lemma_merge_unites_among(bindings: Seq<DescriptorBindingView>, count: int)
    requires
        bindings.len() > 0,
        share_binding(bindings),
        0 < count <= bindings.len(),
    ensures
        merged_among(bindings, count) == seq![united(bindings, bindings[0])],
    decreases count,
{
    if count > 1 {
        lemma_merge_unites_among(bindings, count - 1);
        let earlier = merged_among(bindings, count - 1);
        assert(earlier[0].binding == bindings[count - 1].binding);
        assert(holds_binding(earlier, bindings[count - 1].binding));
    } else {
        let earlier = merged_among(bindings, 0);
        assert(earlier =~= Seq::<DescriptorBindingView>::empty());
        assert(!holds_binding(earlier, bindings[0].binding));
        assert(earlier.push(united(bindings, bindings[0])) =~= seq![united(bindings, bindings[0])]);
    }
}

/// The bindings declared in a descriptor set all name that set.
pub proof fn lemma_bindings_in_set(module: ModuleView, set: u32, count: int)
    requires
        0 <= count <= module.annotations.len(),
    ensures
        forall|i: int|
            0 <= i < bindings_in(module, set, count).len() ==> (#[trigger] bindings_in(
                module,
                set,
                count,
            )[i]).set == set,
    decreases count,
{
    if count > 0 {
        lemma_bindings_in_set(module, set, count - 1);
        let earlier = bindings_in(module, set, count - 1);
        let now = bindings_in(module, set, count);
        assert forall|i: int| 0 <= i < now.len() implies (#[trigger] now[i]).set == set by {
            if i < earlier.len() {
                assert(now[i] == earlier[i]);
            }
        }
    }
}

/// Merged bindings keep the set of the bindings they were merged from, where all
/// of those name the same set.
pub proof fn lemma_merged_in_set(bindings: Seq<DescriptorBindingView>, set: u32, count: int)
    requires
        0 <= count <= bindings.len(),
        forall|i: int| 0 <= i < bindings.len() ==> (#[trigger] bindings[i]).set == set,
    ensures
        forall|i: int|
            0 <= i < merged_among(bindings, count).len() ==> (#[trigger] merged_among(
                bindings,
                count,
            )[i]).set == set,
    decreases count,
{
    if count > 0 {
        lemma_merged_in_set(bindings, set, count - 1);
        let earlier = merged_among(bindings, count - 1);
        let now = merged_among(bindings, count);
        assert forall|i: int| 0 <= i < now.len() implies (#[trigger] now[i]).set == set by {
            if i < earlier.len() {
                assert(now[i] == earlier[i]);
            } else {
                assert(now[i] == united(bindings, bindings[count - 1]));
            }
        }
    }
}

/// No two descriptor bindings of a reflected module share both their set and
/// their binding number: the bindings of a set all name that set, and their
/// binding numbers differ.
pub proof fn lemma_descriptor_sets_distinct(module: ModuleView, set: u32)
    requires
        descriptor_sets(module).contains_key(set),
    ensures
        distinct(descriptor_sets(module)[set]),
        tidy(descriptor_sets(module)[set]),
        forall|i: int|
            0 <= i < descriptor_sets(module)[set].len() ==> (#[trigger] descriptor_sets(
                module,
            )[set][i]).set == set,
{
    let declared = declared_in(module, set);
    assert(descriptor_sets(module)[set] == merged(declared));
    lemma_bindings_in_set(module, set, module.annotations.len() as int);
    lemma_merged_distinct(declared, declared.len() as int);
    lemma_merged_in_set(declared, set, declared.len() as int);
}

} // verus!
