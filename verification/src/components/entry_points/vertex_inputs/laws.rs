//! What holds of the groups of vertex inputs.

use super::vertex_input::VertexInputView;
use super::vertex_input_group::{group_of, input_fields, InputRate};
use super::{groups_of, inputs_between, interface_inputs, split_point, vertex_inputs_of};
use crate::module::{InstructionView, ModuleView};
use crate::types::structure::laws::{
    field_locations, fields_ascend, lemma_composed_ascends, lemma_composed_between,
    lemma_composed_locations, located_locations, locations_above, locations_ascend,
    locations_below,
};
use crate::utilities::sort::{ascending, lemma_sorted_keeps, lemma_stable_sorted, stable_sorted};
use vstd::prelude::*;

verus! {

/// Whether an input is keyed by its location.
pub open spec fn keyed_by_location(item: (u32, VertexInputView)) -> bool {
    item.0 == item.1.location
}

/// Every input read from the interface of an entry point is keyed by its location.
pub proof fn lemma_inputs_keyed(module: ModuleView, entry_point: InstructionView, count: int)
    requires
        0 <= count <= entry_point.operands.len(),
        interface_inputs(module, entry_point, count) is Ok,
    ensures
        forall|i: int|
            0 <= i < interface_inputs(module, entry_point, count)->Ok_0.len()
                ==> keyed_by_location(
                #[trigger] interface_inputs(module, entry_point, count)->Ok_0[i],
            ),
    decreases count,
{
    if count > 3 {
        lemma_inputs_keyed(module, entry_point, count - 1);
        let earlier = interface_inputs(module, entry_point, count - 1)->Ok_0;
        let now = interface_inputs(module, entry_point, count)->Ok_0;
        assert forall|i: int| 0 <= i < now.len() implies keyed_by_location(#[trigger] now[i]) by {
            if i < earlier.len() {
                assert(now[i] == earlier[i]);
            }
        }
    }
}

/// The fields of inputs that are keyed by their locations, in ascending order of
/// their keys, have ascending locations.
pub proof fn lemma_fields_between_ascend(sorted: Seq<(u32, VertexInputView)>, from: int, to: int)
    requires
        0 <= from <= to <= sorted.len(),
        ascending(sorted),
        forall|i: int| 0 <= i < sorted.len() ==> keyed_by_location(#[trigger] sorted[i]),
    ensures
        fields_ascend(input_fields(inputs_between(sorted, from, to))),
        input_fields(inputs_between(sorted, from, to)).len() == to - from,
        forall|i: int|
            0 <= i < to - from ==> (#[trigger] input_fields(
                inputs_between(sorted, from, to),
            )[i]).location == Some(sorted[from + i].0),
{
    let fields = input_fields(inputs_between(sorted, from, to));
    assert forall|i: int| 0 <= i < to - from implies (#[trigger] fields[i]).location == Some(
        sorted[from + i].0,
    ) by {
        assert(keyed_by_location(sorted[from + i]));
    }
    assert forall|i: int, j: int| 0 <= i < j < fields.len() implies (
    #[trigger] fields[i]).location->0 <= (#[trigger] fields[j]).location->0 by {
        assert(sorted[from + i].0 <= sorted[from + j].0);
    }
}

/// In the groups of the vertex inputs of an entry point the members stand in
/// ascending order of their locations, and no input read per vertex has a
/// location above that of an input read per instance.
pub proof fn lemma_groups_ascend(module: ModuleView, entry_point: InstructionView, split: Option<usize>)
    requires
        vertex_inputs_of(module, entry_point, split) matches Ok(Some(_)),
    ensures
        ({
            let groups = vertex_inputs_of(module, entry_point, split)->Ok_0->0;
            &&& groups.vertex_inputs matches Some(group) ==> locations_ascend(
                group.structure.members,
            )
            &&& groups.instance_inputs matches Some(group) ==> locations_ascend(
                group.structure.members,
            )
            &&& groups.vertex_inputs is Some && groups.instance_inputs is Some ==> exists|
                bound: u32,
            |
                locations_below(groups.vertex_inputs->0.structure.members, bound)
                    && locations_above(groups.instance_inputs->0.structure.members, bound)
        }),
{
    let found = interface_inputs(module, entry_point, entry_point.operands.len() as int)->Ok_0;
    let sorted = stable_sorted(found);
    let at = split_point(split, found.len());
    lemma_inputs_keyed(module, entry_point, entry_point.operands.len() as int);
    lemma_stable_sorted(found);
    lemma_sorted_keeps(found, |item: (u32, VertexInputView)| keyed_by_location(item), found.len() as int);
    let groups = groups_of(sorted, at)->Ok_0;
    let vertex = inputs_between(sorted, 0, at);
    let instance = inputs_between(sorted, at, sorted.len() as int);
    lemma_fields_between_ascend(sorted, 0, at);
    lemma_fields_between_ascend(sorted, at, sorted.len() as int);
    if vertex.len() > 0 {
        lemma_composed_ascends(input_fields(vertex), "Vertex"@);
        lemma_composed_between(input_fields(vertex), "Vertex"@);
    }
    if instance.len() > 0 {
        lemma_composed_ascends(input_fields(instance), "Instance"@);
        lemma_composed_between(input_fields(instance), "Instance"@);
    }
    if vertex.len() > 0 && instance.len() > 0 {
        let bound = sorted[at - 1].0;
        assert(sorted[at - 1].0 <= sorted[at].0);
        assert(input_fields(vertex).last().location == Some(sorted[at - 1].0));
        assert(input_fields(instance)[0].location == Some(sorted[at].0));
        assert(locations_below(groups.vertex_inputs->0.structure.members, bound));
        assert(locations_above(groups.instance_inputs->0.structure.members, bound));
    }
}

/// The keys of the items from position `from` up to position `to`.
pub open spec fn keys_between(items: Seq<(u32, VertexInputView)>, from: int, to: int) -> Seq<u32> {
    Seq::new((to - from) as nat, |i: int| items[from + i].0)
}

/// The group read per vertex holds the inputs with the lowest locations, as many
/// as the split index says, and the group read per instance holds the others:
/// the locations of the members of the groups are the locations of the inputs
/// in ascending order, those before the split in the first group and those
/// from the split on in the second.
pub proof fn lemma_groups_hold(module: ModuleView, entry_point: InstructionView, split: Option<usize>)
    requires
        vertex_inputs_of(module, entry_point, split) matches Ok(Some(_)),
    ensures
        ({
            let groups = vertex_inputs_of(module, entry_point, split)->Ok_0->0;
            let found = interface_inputs(
                module,
                entry_point,
                entry_point.operands.len() as int,
            )->Ok_0;
            let sorted = stable_sorted(found);
            let at = split_point(split, found.len());
            &&& sorted.len() == found.len()
            &&& ascending(sorted)
            &&& sorted.to_multiset() == found.to_multiset()
            &&& 0 <= at <= sorted.len()
            &&& groups.vertex_inputs is Some <==> at > 0
            &&& groups.instance_inputs is Some <==> at < sorted.len()
            &&& groups.vertex_inputs matches Some(group) ==> located_locations(
                group.structure.members,
                group.structure.members.len() as int,
            ) == keys_between(sorted, 0, at)
            &&& groups.instance_inputs matches Some(group) ==> located_locations(
                group.structure.members,
                group.structure.members.len() as int,
            ) == keys_between(sorted, at, sorted.len() as int)
        }),
{
    let found = interface_inputs(module, entry_point, entry_point.operands.len() as int)->Ok_0;
    let sorted = stable_sorted(found);
    let at = split_point(split, found.len());
    lemma_inputs_keyed(module, entry_point, entry_point.operands.len() as int);
    lemma_stable_sorted(found);
    lemma_sorted_keeps(found, |item: (u32, VertexInputView)| keyed_by_location(item), found.len() as int);
    let vertex = inputs_between(sorted, 0, at);
    let instance = inputs_between(sorted, at, sorted.len() as int);
    lemma_fields_between_ascend(sorted, 0, at);
    lemma_fields_between_ascend(sorted, at, sorted.len() as int);
    if vertex.len() > 0 {
        lemma_composed_locations(input_fields(vertex), "Vertex"@);
        assert(field_locations(input_fields(vertex), input_fields(vertex).len() as int)
            =~= keys_between(sorted, 0, at));
    }
    if instance.len() > 0 {
        lemma_composed_locations(input_fields(instance), "Instance"@);
        assert(field_locations(input_fields(instance), input_fields(instance).len() as int)
            =~= keys_between(sorted, at, sorted.len() as int));
    }
}

} // verus!
