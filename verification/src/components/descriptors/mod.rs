//! The descriptor sets of a module.

pub mod descriptor_binding;
pub mod laws;

use crate::module::{ExecutionModel, SpvModule, ModuleView};
use crate::utilities::execution_model::holds_stage;
use descriptor_binding::{binding_of, binding_views, DescriptorBinding, DescriptorBindingView};
use std::collections::HashMap;
use vstd::prelude::*;

verus! {

/// The descriptor bindings of a module, by descriptor set.
///
/// Every set up to the highest one that has a binding is in `sets`; a set
/// without bindings has an empty list.
#[derive(Debug, PartialEq, Eq)]
pub struct DescriptorSets {
    pub sets: HashMap<u32, Vec<DescriptorBinding>>,
    /// The highest descriptor set that has a binding.
    pub highest_set: u32,
}

/// What a [`DescriptorSets`] holds.
pub struct DescriptorSetsView {
    pub sets: Map<u32, Seq<DescriptorBindingView>>,
    pub highest_set: u32,
}

impl View for DescriptorSets {
    type V = DescriptorSetsView;

    open spec fn view(&self) -> DescriptorSetsView {
        DescriptorSetsView {
            sets: Map::new(
                |set: u32| self.sets@.contains_key(set),
                |set: u32| binding_views(self.sets@[set]@),
            ),
            highest_set: self.highest_set,
        }
    }
}

/// Whether one of `bindings` has the binding number `binding`.
pub open spec fn holds_binding(bindings: Seq<DescriptorBindingView>, binding: u32) -> bool {
    exists|k: int| 0 <= k < bindings.len() && (#[trigger] bindings[k]).binding == binding
}

/// The stages `stages` followed by those of the first `count` of `more` that are
/// not yet among them.
pub open spec fn joined_stages(stages: Seq<ExecutionModel>, more: Seq<ExecutionModel>, count: int) -> Seq<
    ExecutionModel,
>
    decreases count,
{
    if count <= 0 || count > more.len() {
        stages
    } else {
        let earlier = joined_stages(stages, more, count - 1);
        if earlier.contains(more[count - 1]) {
            earlier
        } else {
            earlier.push(more[count - 1])
        }
    }
}

/// The stages of those among the first `count` of `bindings` that have the
/// binding number `binding`, each stage once, in the order of first occurrence.
pub open spec fn stages_for(bindings: Seq<DescriptorBindingView>, binding: u32, count: int) -> Seq<
    ExecutionModel,
>
    decreases count,
{
    if count <= 0 || count > bindings.len() {
        Seq::empty()
    } else {
        let earlier = stages_for(bindings, binding, count - 1);
        if bindings[count - 1].binding == binding {
            joined_stages(
                earlier,
                bindings[count - 1].stages,
                bindings[count - 1].stages.len() as int,
            )
        } else {
            earlier
        }
    }
}

/// The binding that stands for all of `bindings` with the binding number of `first`:
/// it has the set and the kind of `first` and the stages of them all.
pub open spec fn united(bindings: Seq<DescriptorBindingView>, first: DescriptorBindingView) -> DescriptorBindingView {
    DescriptorBindingView {
        set: first.set,
        binding: first.binding,
        binding_type: first.binding_type,
        stages: stages_for(bindings, first.binding, bindings.len() as int),
    }
}

/// The first `count` of `bindings` with those of equal binding number merged.
pub open spec fn merged_among(bindings: Seq<DescriptorBindingView>, count: int) -> Seq<
    DescriptorBindingView,
>
    decreases count,
{
    if count <= 0 || count > bindings.len() {
        Seq::empty()
    } else {
        let earlier = merged_among(bindings, count - 1);
        if holds_binding(earlier, bindings[count - 1].binding) {
            earlier
        } else {
            earlier.push(united(bindings, bindings[count - 1]))
        }
    }
}

/// The bindings of one descriptor set with those of equal binding number
/// merged into one: it stands where the first of them stood, with the kind of
/// the first and the stages of all of them.
pub open spec fn merged(bindings: Seq<DescriptorBindingView>) -> Seq<DescriptorBindingView> {
    merged_among(bindings, bindings.len() as int)
}

/// The bindings of descriptor set `set` that the first `count` annotations declare.
pub open spec fn bindings_in(module: ModuleView, set: u32, count: int) -> Seq<DescriptorBindingView>
    decreases count,
{
    if count <= 0 || count > module.annotations.len() {
        Seq::empty()
    } else {
        let earlier = bindings_in(module, set, count - 1);
        match binding_of(module, module.annotations[count - 1]) {
            Some(binding) => if binding.set == set {
                earlier.push(binding)
            } else {
                earlier
            },
            None => earlier,
        }
    }
}

/// The bindings that the module declares in descriptor set `set`.
pub open spec fn declared_in(module: ModuleView, set: u32) -> Seq<DescriptorBindingView> {
    bindings_in(module, set, module.annotations.len() as int)
}

/// The highest descriptor set in which the first `count` annotations declare a
/// binding, if they declare one.
pub open spec fn highest_among(module: ModuleView, count: int) -> Option<u32>
    decreases count,
{
    if count <= 0 || count > module.annotations.len() {
        None
    } else {
        let earlier = highest_among(module, count - 1);
        match binding_of(module, module.annotations[count - 1]) {
            Some(binding) => match earlier {
                Some(highest) => if binding.set > highest {
                    Some(binding.set)
                } else {
                    Some(highest)
                },
                None => Some(binding.set),
            },
            None => earlier,
        }
    }
}

/// The highest descriptor set in which the module declares a binding.
pub open spec fn highest_declared(module: ModuleView) -> Option<u32> {
    highest_among(module, module.annotations.len() as int)
}

/// The descriptor sets of the module: every set up to the highest one in which
/// it declares a binding, each with its merged bindings. A set in which it
/// declares none has an empty list.
pub open spec fn descriptor_sets(module: ModuleView) -> Map<u32, Seq<DescriptorBindingView>> {
    match highest_declared(module) {
        Some(highest) => Map::new(
            |set: u32| set <= highest,
            |set: u32| merged(declared_in(module, set)),
        ),
        None => Map::empty(),
    }
}

/// The descriptor sets that reflection reports for the module; none where it
/// declares no binding.
pub open spec fn reflected_sets(module: ModuleView) -> Option<DescriptorSetsView> {
    match highest_declared(module) {
        Some(highest) => Some(
            DescriptorSetsView { sets: descriptor_sets(module), highest_set: highest },
        ),
        None => None,
    }
}

/// The highest declared set has a binding, and no set above it has one; where
/// there is no highest set, no set has a binding.
pub proof fn lemma_highest_among(module: ModuleView, count: int)
    requires
        0 <= count <= module.annotations.len(),
    ensures
        match highest_among(module, count) {
            Some(highest) => bindings_in(module, highest, count).len() > 0 && forall|set: u32|
                #[trigger] bindings_in(module, set, count).len() > 0 ==> set <= highest,
            None => forall|set: u32| #[trigger] bindings_in(module, set, count).len() == 0,
        },
    decreases count,
{
    if count > 0 {
        lemma_highest_among(module, count - 1);
        let earlier = highest_among(module, count - 1);
        match binding_of(module, module.annotations[count - 1]) {
            Some(binding) => {
                let highest = highest_among(module, count)->0;
                assert(bindings_in(module, binding.set, count) == bindings_in(
                    module,
                    binding.set,
                    count - 1,
                ).push(binding));
                if highest != binding.set {
                    assert(bindings_in(module, highest, count) == bindings_in(
                        module,
                        highest,
                        count - 1,
                    ));
                }
                assert forall|set: u32| #[trigger]
                    bindings_in(module, set, count).len() > 0 implies set <= highest by {
                    if set != binding.set {
                        assert(bindings_in(module, set, count) == bindings_in(
                            module,
                            set,
                            count - 1,
                        ));
                    }
                }
            },
            None => {
                assert forall|set: u32|
                    #[trigger] bindings_in(module, set, count) == bindings_in(
                        module,
                        set,
                        count - 1,
                    ) by {
                }
                match earlier {
                    Some(highest) => {
                        assert(bindings_in(module, highest, count) == bindings_in(
                            module,
                            highest,
                            count - 1,
                        ));
                    },
                    None => {},
                }
            },
        }
    }
}

/// The highest declared set has a binding, and no set above it has one; where
/// there is no highest set, no set has a binding.
pub proof fn lemma_highest_declared(module: ModuleView)
    ensures
        match highest_declared(module) {
            Some(highest) => declared_in(module, highest).len() > 0 && forall|set: u32|
                #[trigger] declared_in(module, set).len() > 0 ==> set <= highest,
            None => forall|set: u32| #[trigger] declared_in(module, set).len() == 0,
        },
{
    lemma_highest_among(module, module.annotations.len() as int);
    match highest_declared(module) {
        Some(highest) => {
            assert forall|set: u32| #[trigger]
                declared_in(module, set).len() > 0 implies set <= highest by {
                assert(bindings_in(module, set, module.annotations.len() as int).len() > 0);
            }
        },
        None => {
            assert forall|set: u32| #[trigger] declared_in(module, set).len() == 0 by {
                assert(bindings_in(module, set, module.annotations.len() as int).len() == 0);
            }
        },
    }
}

/// Adds to `stages` those of `more` that are not yet among them.
pub fn join_stages(stages: &mut Vec<ExecutionModel>, more: &Vec<ExecutionModel>)
    ensures
        final(stages)@ == joined_stages(old(stages)@, more@, more@.len() as int),
{
    let mut index: usize = 0;
    while index < more.len()
        invariant
            index <= more.len(),
            stages@ == joined_stages(old(stages)@, more@, index as int),
        decreases more.len() - index,
    {
        let model = more[index];
        if !holds_stage(stages, model) {
            stages.push(model);
        }
        index = index + 1;
    }
}

/// Collects the stages of those among `bindings` that have the binding number `binding`.
pub fn collect_stages(bindings: &Vec<DescriptorBinding>, binding: u32) -> (stages: Vec<
    ExecutionModel,
>)
    ensures
        stages@ == stages_for(binding_views(bindings@), binding, bindings@.len() as int),
{
    let mut stages: Vec<ExecutionModel> = Vec::new();
    let mut index: usize = 0;
    while index < bindings.len()
        invariant
            index <= bindings.len(),
            stages@ == stages_for(binding_views(bindings@), binding, index as int),
        decreases bindings.len() - index,
    {
        assert(binding_views(bindings@)[index as int] == bindings@[index as int]@);
        if bindings[index].binding == binding {
            join_stages(&mut stages, &bindings[index].stages);
        }
        index = index + 1;
    }
    stages
}

/// Tells whether one of `bindings` has the binding number `binding`.
pub fn has_binding(bindings: &Vec<DescriptorBinding>, binding: u32) -> (found: bool)
    ensures
        found == holds_binding(binding_views(bindings@), binding),
{
    let mut index: usize = 0;
    while index < bindings.len()
        invariant
            index <= bindings.len(),
            forall|k: int|
                0 <= k < index ==> (#[trigger] binding_views(bindings@)[k]).binding != binding,
        decreases bindings.len() - index,
    {
        assert(binding_views(bindings@)[index as int] == bindings@[index as int]@);
        if bindings[index].binding == binding {
            return true;
        }
        index = index + 1;
    }
    false
}

/// Merges the bindings of one descriptor set that have the same binding number.
pub fn merge_bindings(bindings: &Vec<DescriptorBinding>) -> (result: Vec<DescriptorBinding>)
    ensures
        binding_views(result@) == merged(binding_views(bindings@)),
{
    let mut result: Vec<DescriptorBinding> = Vec::new();
    let mut index: usize = 0;
    assert(binding_views(result@) =~= Seq::<DescriptorBindingView>::empty());
    while index < bindings.len()
        invariant
            index <= bindings.len(),
            binding_views(result@) == merged_among(binding_views(bindings@), index as int),
        decreases bindings.len() - index,
    {
        let ghost earlier = binding_views(result@);
        assert(binding_views(bindings@)[index as int] == bindings@[index as int]@);
        let binding: u32 = bindings[index].binding;
        if !has_binding(&result, binding) {
            let stages = collect_stages(bindings, binding);
            result.push(
                DescriptorBinding {
                    set: bindings[index].set,
                    binding,
                    binding_type: bindings[index].binding_type,
                    stages,
                },
            );
            assert(binding_views(result@) =~= earlier.push(
                united(binding_views(bindings@), bindings@[index as int]@),
            ));
        }
        index = index + 1;
    }
    result
}

impl DescriptorSets {
    /// Reflects the descriptor sets of the module; `None` where it declares no binding.
    ///
    /// The sets reach from 0 to the highest set in which the module declares a
    /// binding. Each has the bindings that the module declares in it, those of
    /// equal binding number merged into one; a set in which it declares none
    /// has an empty list.
    pub fn from_spirv(module: &SpvModule) -> (found: Option<DescriptorSets>)
        ensures
            match reflected_sets(module@) {
                Some(view) => found matches Some(sets) && sets@ == view,
                None => found is None,
            },
            found matches Some(sets) ==> {
                &&& forall|set: u32| #[trigger] sets.sets@.contains_key(set) <==> set <= sets.highest_set
                &&& forall|set: u32|
                    set <= sets.highest_set ==> binding_views(#[trigger] sets.sets@[set]@)
                        == merged(declared_in(module@, set))
                &&& declared_in(module@, sets.highest_set).len() > 0
                &&& sets.is_highest(sets.highest_set)
            },
    {
        broadcast use vstd::std_specs::hash::group_hash_axioms;

        let mut sets: HashMap<u32, Vec<DescriptorBinding>> = HashMap::new();
        let mut keys: Vec<u32> = Vec::new();
        let mut any: bool = false;
        let mut highest: u32 = 0;
        let mut index: usize = 0;
        while index < module.annotations.len()
            invariant
                index <= module.annotations.len(),
                forall|set: u32| #[trigger]
                    sets@.contains_key(set) <==> bindings_in(module@, set, index as int).len() > 0,
                forall|set: u32| #[trigger]
                    sets@.contains_key(set) ==> binding_views(sets@[set]@) == bindings_in(
                        module@,
                        set,
                        index as int,
                    ),
                forall|set: u32| #[trigger] sets@.contains_key(set) <==> keys@.contains(set),
                keys@.no_duplicates(),
                highest_among(module@, index as int) == if any {
                    Some(highest)
                } else {
                    None
                },
            decreases module.annotations.len() - index,
        {
            let annotation = &module.annotations[index];
            assert(module@.annotations[index as int] == annotation@);
            match DescriptorBinding::from_instruction(annotation, module) {
                Some(binding) => {
                    let set: u32 = binding.set;
                    let ghost view = binding@;
                    let ghost before = sets@;
                    let ghost known = keys@;
                    let mut list = match sets.remove(&set) {
                        Some(present) => present,
                        None => {
                            keys.push(set);
                            Vec::new()
                        },
                    };
                    let ghost earlier = binding_views(list@);
                    assert(earlier =~= bindings_in(module@, set, index as int));
                    list.push(binding);
                    assert(binding_views(list@) =~= earlier.push(view));
                    sets.insert(set, list);
                    if !any || set > highest {
                        highest = set;
                    }
                    any = true;
                    proof {
                        if before.contains_key(set) {
                            assert(keys@ == known);
                        } else {
                            assert(keys@ == known.push(set));
                            assert(keys@[keys@.len() - 1] == set);
                        }
                        assert forall|other: u32| #[trigger]
                            sets@.contains_key(other) <==> keys@.contains(other) by {
                            if other != set {
                                assert(sets@.contains_key(other) == before.contains_key(other));
                                if known.contains(other) {
                                    let k = choose|k: int| 0 <= k < known.len() && known[k] == other;
                                    assert(keys@[k] == other);
                                }
                                if keys@.contains(other) {
                                    let k = choose|k: int| 0 <= k < keys@.len() && keys@[k] == other;
                                    assert(known[k] == other);
                                }
                            } else {
                                if before.contains_key(set) {
                                    assert(known.contains(set));
                                }
                            }
                        }
                    }
                },
                None => {},
            }
            index = index + 1;
        }
        assert(module@.annotations.len() == index);
        assert forall|set: u32| #[trigger]
            sets@.contains_key(set) <==> declared_in(module@, set).len() > 0 by {
            assert(declared_in(module@, set) == bindings_in(module@, set, index as int));
        }
        proof {
            lemma_highest_declared(module@);
        }
        if !any {
            return None;
        }
        assert forall|k: int| 0 <= k < keys@.len() implies binding_views(
            sets@[#[trigger] keys@[k]]@,
        ) == declared_in(module@, keys@[k]) by {
            assert(keys@.contains(keys@[k]));
            assert(sets@.contains_key(keys@[k]));
            assert(declared_in(module@, keys@[k]) == bindings_in(module@, keys@[k], index as int));
        }
        let mut position: usize = 0;
        while position < keys.len()
            invariant
                position <= keys.len(),
                keys@.no_duplicates(),
                forall|set: u32| #[trigger] sets@.contains_key(set) <==> keys@.contains(set),
                forall|set: u32| #[trigger]
                    sets@.contains_key(set) <==> declared_in(module@, set).len() > 0,
                forall|k: int|
                    0 <= k < position ==> binding_views(sets@[#[trigger] keys@[k]]@) == merged(
                        declared_in(module@, keys@[k]),
                    ),
                forall|k: int|
                    position <= k < keys@.len() ==> binding_views(sets@[#[trigger] keys@[k]]@)
                        == declared_in(module@, keys@[k]),
            decreases keys.len() - position,
        {
            let set: u32 = keys[position];
            let ghost before = sets@;
            assert(keys@.contains(set));
            match sets.remove(&set) {
                Some(list) => {
                    let united = merge_bindings(&list);
                    sets.insert(set, united);
                    assert forall|k: int| 0 <= k < keys@.len() && k != position implies sets@[keys@[k]]
                        == before[keys@[k]] by {
                        assert(keys@[k] != set);
                    }
                    assert forall|other: u32| #[trigger]
                        sets@.contains_key(other) <==> keys@.contains(other) by {
                        if other != set {
                            assert(sets@.contains_key(other) == before.contains_key(other));
                        }
                    }
                },
                None => {},
            }
            position = position + 1;
        }
        assert forall|set: u32| #[trigger] sets@.contains_key(set) implies binding_views(
            sets@[set]@,
        ) == merged(declared_in(module@, set)) by {
            let k = choose|k: int| 0 <= k < keys@.len() && keys@[k] == set;
            assert(binding_views(sets@[keys@[k]]@) == merged(declared_in(module@, keys@[k])));
        }
        let mut set: u32 = 0;
        while set < highest
            invariant
                set <= highest,
                highest_declared(module@) == Some(highest),
                declared_in(module@, highest).len() > 0,
                forall|other: u32| #[trigger]
                    declared_in(module@, other).len() > 0 ==> other <= highest,
                forall|other: u32| #[trigger]
                    sets@.contains_key(other) <==> declared_in(module@, other).len() > 0 || other
                        < set,
                forall|other: u32| #[trigger]
                    sets@.contains_key(other) ==> binding_views(sets@[other]@) == merged(
                        declared_in(module@, other),
                    ),
            decreases highest - set,
        {
            if !sets.contains_key(&set) {
                let ghost before = sets@;
                let empty: Vec<DescriptorBinding> = Vec::new();
                assert(declared_in(module@, set) =~= Seq::<DescriptorBindingView>::empty());
                assert(binding_views(empty@) =~= merged(declared_in(module@, set)));
                sets.insert(set, empty);
                assert forall|other: u32| #[trigger] sets@.contains_key(other) implies binding_views(
                    sets@[other]@,
                ) == merged(declared_in(module@, other)) by {
                    if other != set {
                        assert(before.contains_key(other));
                    }
                }
            }
            set = set + 1;
        }
        let result = DescriptorSets { sets, highest_set: highest };
        proof {
            assert forall|other: u32| #[trigger]
                result.sets@.contains_key(other) <==> other <= highest by {
            }
            assert forall|other: u32| other <= highest implies binding_views(
                #[trigger] result.sets@[other]@,
            ) == merged(declared_in(module@, other)) by {
                assert(result.sets@.contains_key(other));
            }
            assert(result.sets@.contains_key(highest));
            assert(result.is_highest(highest));
            assert(result@.sets =~= descriptor_sets(module@));
        }
        Some(result)
    }

    /// Whether `set` is the highest descriptor set.
    pub open spec fn is_highest(&self, set: u32) -> bool {
        &&& self.sets@.contains_key(set)
        &&& forall|other: u32| #[trigger] self.sets@.contains_key(other) ==> other <= set
    }

    /// The bindings of descriptor set `set`, if it is among the sets.
    pub fn get(&self, set: u32) -> (bindings: Option<&Vec<DescriptorBinding>>)
        ensures
            match bindings {
                Some(list) => self@.sets.contains_key(set) && binding_views(list@)
                    == self@.sets[set],
                None => !self@.sets.contains_key(set),
            },
    {
        broadcast use vstd::std_specs::hash::group_hash_axioms;

        self.sets.get(&set)
    }
}

} // verus!
