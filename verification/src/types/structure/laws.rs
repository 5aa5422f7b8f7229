//! What holds of every structure that the layout engine makes.

use super::member::MemberView;
use super::{
    composed, contiguous, joined, layout_of, lemma_layout_sound, lemma_padded_contiguous, FieldView,
    Progress, StructureView,
};
use crate::types::layout::{lemma_round_up, round_up};
use vstd::prelude::*;

verus! {

/// Whether `member` holds the byte at `byte`.
pub open spec fn holds_byte(member: MemberView, byte: nat) -> bool {
    member.offset <= byte < member.end()
}

/// Whether one of `members` holds the byte at `byte`.
pub open spec fn held(members: Seq<MemberView>, byte: nat) -> bool {
    exists|i: int| 0 <= i < members.len() && #[trigger] holds_byte(members[i], byte)
}

/// Among contiguous members an earlier one ends before a later one starts.
pub proof fn lemma_members_ordered(members: Seq<MemberView>, end: nat, first: int, second: int)
    requires
        contiguous(members, end),
        0 <= first < second < members.len(),
    ensures
        members[first].end() <= members[second].offset,
        members[second].end() <= end,
    decreases second - first,
{
    lemma_member_within(members, end, second);
    if first + 1 < second {
        lemma_members_ordered(members, end, first + 1, second);
        assert(joined(members, first));
    } else {
        assert(joined(members, first));
    }
}

/// Every one of contiguous members ends at or before their common end.
pub proof fn lemma_member_within(members: Seq<MemberView>, end: nat, position: int)
    requires
        contiguous(members, end),
        0 <= position < members.len(),
    ensures
        members[position].end() <= end,
    decreases members.len() - position,
{
    if position < members.len() - 1 {
        lemma_member_within(members, end, position + 1);
        assert(joined(members, position));
    }
}

/// Every byte below the end of contiguous members lies in one of them, from
/// position `from` on if it does not lie before that member.
pub proof fn lemma_byte_held(members: Seq<MemberView>, end: nat, byte: nat, from: int) -> (position:
    int)
    requires
        contiguous(members, end),
        0 <= from < members.len(),
        members[from].offset <= byte < end,
    ensures
        from <= position < members.len(),
        holds_byte(members[position], byte),
    decreases members.len() - from,
{
    if byte < members[from].end() {
        from
    } else {
        assert(from < members.len() - 1);
        assert(joined(members, from));
        lemma_byte_held(members, end, byte, from + 1)
    }
}

/// The members of a well-formed structure part its bytes among them: the size is
/// a multiple of the alignment, no two members share a byte, no member reaches
/// beyond the size, and every byte below the size lies in a member.
pub proof fn lemma_well_formed_partition(structure: StructureView)
    requires
        structure.well_formed(),
    ensures
        structure.layout.size as nat % structure.layout.align as nat == 0,
        forall|i: int, j: int|
            0 <= i < j < structure.members.len() ==> (#[trigger] structure.members[i]).end() <= (
            #[trigger] structure.members[j]).offset,
        forall|i: int|
            0 <= i < structure.members.len() ==> (#[trigger] structure.members[i]).end()
                <= structure.layout.size,
        forall|byte: nat| byte < structure.layout.size ==> #[trigger] held(structure.members, byte),
{
    let members = structure.members;
    let end = structure.layout.size as nat;
    assert forall|i: int, j: int| 0 <= i < j < members.len() implies (#[trigger] members[i]).end()
        <= (#[trigger] members[j]).offset by {
        lemma_members_ordered(members, end, i, j);
    }
    assert forall|i: int| 0 <= i < members.len() implies (#[trigger] members[i]).end() <= end by {
        lemma_member_within(members, end, i);
    }
    assert forall|byte: nat| byte < end implies #[trigger] held(members, byte) by {
        let position = lemma_byte_held(members, end, byte, 0);
        assert(holds_byte(members[position], byte));
    }
}

/// The members of a layout stay where they are when more fields are placed,
/// and every field adds at least one member.
pub proof fn lemma_layout_grows(fields: Seq<FieldView>, fewer: int, more: int)
    requires
        0 <= fewer <= more <= fields.len(),
        layout_of(fields, more) is Ok,
    ensures
        layout_of(fields, fewer) is Ok,
        ({
            let short = layout_of(fields, fewer)->Ok_0;
            let long = layout_of(fields, more)->Ok_0;
            &&& short.members.len() + (more - fewer) <= long.members.len()
            &&& short.cursor <= long.cursor
            &&& forall|k: int| 0 <= k < short.members.len() ==> long.members[k] == short.members[k]
        }),
    decreases more - fewer,
{
    if fewer < more {
        lemma_layout_grows(fields, fewer, more - 1);
        let short = layout_of(fields, fewer)->Ok_0;
        let before = layout_of(fields, more - 1)->Ok_0;
        let long = layout_of(fields, more)->Ok_0;
        let field = fields[more - 1];
        let offset = field.placement(before.cursor);
        assert(long.members == before.padded_to(offset).push(field.member_at(offset)));
        assert forall|k: int| 0 <= k < short.members.len() implies long.members[k]
            == short.members[k] by {
            assert(before.members[k] == short.members[k]);
            assert(before.padded_to(offset)[k] == before.members[k]);
        }
    }
}

/// Where the field at `position` stands among the members of a layout: it is
/// the last member once it is placed.
pub open spec fn field_slot(fields: Seq<FieldView>, position: int) -> int {
    layout_of(fields, position + 1)->Ok_0.members.len() - 1
}

/// The offset at which the field at `position` is placed.
pub open spec fn field_offset(fields: Seq<FieldView>, position: int) -> nat {
    fields[position].placement(layout_of(fields, position)->Ok_0.cursor)
}

/// Every field of a layout stands in it as a member of its own, with its type,
/// name and location, straight after the members of the fields before it, or
/// after one padding member that fills the gap up to its offset. A field without
/// a declared offset stands at the smallest multiple of its alignment from the
/// end of the field before it.
pub proof fn lemma_field_placement(fields: Seq<FieldView>, position: int, count: int)
    requires
        0 <= position < count <= fields.len(),
        layout_of(fields, count) is Ok,
    ensures
        layout_of(fields, position) is Ok,
        ({
            let before = layout_of(fields, position)->Ok_0;
            let members = layout_of(fields, count)->Ok_0.members;
            let field = fields[position];
            let offset = field_offset(fields, position);
            let slot = field_slot(fields, position);
            &&& before.cursor <= offset <= u32::MAX
            &&& 0 <= slot < members.len()
            &&& members[slot] == field.member_at(offset)
            &&& offset == before.cursor ==> slot == before.members.len()
            &&& offset > before.cursor ==> slot == before.members.len() + 1 && members[slot - 1]
                == MemberView::padding(
                before.cursor as u32,
                (offset - before.cursor) as u32,
                before.paddings as u32,
            )
            &&& field.offset is None ==> offset % field.field_type.alignment() == 0 && offset
                < before.cursor + field.field_type.alignment()
        }),
{
    lemma_layout_grows(fields, position + 1, count);
    lemma_layout_grows(fields, position, position + 1);
    let before = layout_of(fields, position)->Ok_0;
    let after = layout_of(fields, position + 1)->Ok_0;
    let field = fields[position];
    let offset = field_offset(fields, position);
    assert(after == before.place(field, position)->Ok_0);
    assert(after.members == before.padded_to(offset).push(field.member_at(offset)));
    if field.offset is None {
        lemma_round_up(before.cursor, field.field_type.alignment());
    }
    let slot = field_slot(fields, position);
    assert(after.members[slot] == field.member_at(offset));
    if offset > before.cursor {
        assert(after.members[slot - 1] == before.padded_to(offset)[slot - 1]);
    }
}

/// The members of a structure that the engine makes are those of the layout of
/// its fields, followed by closing padding where the size lies beyond the end
/// of the last field.
pub proof fn lemma_composed_members(fields: Seq<FieldView>, name: Seq<char>)
    requires
        composed(fields, name) is Ok,
    ensures
        ({
            let progress = layout_of(fields, fields.len() as int)->Ok_0;
            let structure = composed(fields, name)->Ok_0;
            &&& structure.name == name
            &&& structure.layout.size == round_up(progress.cursor, progress.align)
            &&& structure.layout.align == progress.align
            &&& forall|k: int|
                0 <= k < progress.members.len() ==> structure.members[k] == progress.members[k]
            &&& structure.layout.size == progress.cursor ==> structure.members.len()
                == progress.members.len()
            &&& structure.layout.size > progress.cursor ==> structure.members.len()
                == progress.members.len() + 1 && structure.members.last() == MemberView::padding(
                progress.cursor as u32,
                (structure.layout.size - progress.cursor) as u32,
                progress.paddings as u32,
            )
        }),
{
    let count = fields.len() as int;
    lemma_layout_sound(fields, count);
    let progress = layout_of(fields, count)->Ok_0;
    lemma_round_up(progress.cursor, progress.align);
    let size = round_up(progress.cursor, progress.align);
    lemma_padded_contiguous(progress, size);
}

/// Whether the locations of the members that have one ascend.
pub open spec fn locations_ascend(members: Seq<MemberView>) -> bool {
    forall|i: int, j: int|
        0 <= i < j < members.len() && (#[trigger] members[i]).location is Some && (
        #[trigger] members[j]).location is Some ==> members[i].location->0
            <= members[j].location->0
}

/// Whether every field has a location, and the locations ascend.
pub open spec fn fields_ascend(fields: Seq<FieldView>) -> bool {
    &&& forall|i: int| 0 <= i < fields.len() ==> (#[trigger] fields[i]).location is Some
    &&& forall|i: int, j: int|
        0 <= i < j < fields.len() ==> (#[trigger] fields[i]).location->0 <= (
        #[trigger] fields[j]).location->0
}

/// Whether no member has a location above `bound`.
pub open spec fn locations_below(members: Seq<MemberView>, bound: u32) -> bool {
    forall|k: int|
        0 <= k < members.len() && (#[trigger] members[k]).location is Some
            ==> members[k].location->0 <= bound
}

/// Where the locations of the fields ascend, so do those of the members of
/// their layout.
pub proof fn lemma_layout_ascends(fields: Seq<FieldView>, count: int)
    requires
        fields_ascend(fields),
        0 <= count <= fields.len(),
        layout_of(fields, count) is Ok,
    ensures
        locations_ascend(layout_of(fields, count)->Ok_0.members),
        count > 0 ==> locations_below(
            layout_of(fields, count)->Ok_0.members,
            fields[count - 1].location->0,
        ),
        count == 0 ==> layout_of(fields, count)->Ok_0.members.len() == 0,
    decreases count,
{
    if count > 0 {
        lemma_layout_ascends(fields, count - 1);
        let before = layout_of(fields, count - 1)->Ok_0;
        let after = layout_of(fields, count)->Ok_0;
        let field = fields[count - 1];
        let top = field.location->0;
        let offset = field.placement(before.cursor);
        let padded = before.padded_to(offset);
        assert(after.members == padded.push(field.member_at(offset)));
        assert forall|k: int| 0 <= k < padded.len() && (
        #[trigger] padded[k]).location is Some implies k < before.members.len() && padded[k]
            == before.members[k] && padded[k].location->0 <= top by {
            if k < before.members.len() {
                assert(padded[k] == before.members[k]);
                if count > 1 {
                    assert(fields[count - 2].location->0 <= fields[count - 1].location->0);
                }
            }
        }
        assert forall|k: int| 0 <= k < after.members.len() && (
        #[trigger] after.members[k]).location is Some implies after.members[k].location->0
            <= top by {
            if k < padded.len() {
                assert(after.members[k] == padded[k]);
            }
        }
        assert forall|i: int, j: int|
            0 <= i < j < after.members.len() && (#[trigger] after.members[i]).location is Some && (
            #[trigger] after.members[j]).location is Some implies after.members[i].location->0
            <= after.members[j].location->0 by {
            assert(after.members[i] == padded[i]);
            if j < padded.len() {
                assert(after.members[j] == padded[j]);
                assert(padded[i] == before.members[i]);
                assert(padded[j] == before.members[j]);
            }
        }
    }
}

/// Whether no member has a location below `bound`.
pub open spec fn locations_above(members: Seq<MemberView>, bound: u32) -> bool {
    forall|k: int|
        0 <= k < members.len() && (#[trigger] members[k]).location is Some
            ==> members[k].location->0 >= bound
}

/// Where the locations of the fields ascend, no member of their layout has a
/// location below that of the first field.
pub proof fn lemma_layout_above(fields: Seq<FieldView>, count: int)
    requires
        fields_ascend(fields),
        0 < count <= fields.len(),
        layout_of(fields, count) is Ok,
    ensures
        locations_above(layout_of(fields, count)->Ok_0.members, fields[0].location->0),
    decreases count,
{
    let before = layout_of(fields, count - 1)->Ok_0;
    let after = layout_of(fields, count)->Ok_0;
    let field = fields[count - 1];
    let offset = field.placement(before.cursor);
    let padded = before.padded_to(offset);
    assert(after.members == padded.push(field.member_at(offset)));
    if count > 1 {
        lemma_layout_above(fields, count - 1);
        assert(fields[0].location->0 <= fields[count - 1].location->0);
    } else {
        assert(before.members.len() == 0);
    }
    assert forall|k: int| 0 <= k < after.members.len() && (
    #[trigger] after.members[k]).location is Some implies after.members[k].location->0
        >= fields[0].location->0 by {
        if k < padded.len() {
            assert(after.members[k] == padded[k]);
            if k < before.members.len() {
                assert(padded[k] == before.members[k]);
            }
        }
    }
}

/// Where the locations of the fields ascend, the locations of the members of
/// the structure that the engine makes of them lie between those of the first
/// and of the last field.
pub proof fn lemma_composed_between(fields: Seq<FieldView>, name: Seq<char>)
    requires
        fields_ascend(fields),
        fields.len() > 0,
        composed(fields, name) is Ok,
    ensures
        locations_above(composed(fields, name)->Ok_0.members, fields[0].location->0),
        locations_below(composed(fields, name)->Ok_0.members, fields.last().location->0),
{
    let count = fields.len() as int;
    lemma_layout_ascends(fields, count);
    lemma_layout_above(fields, count);
    lemma_composed_members(fields, name);
    let progress = layout_of(fields, count)->Ok_0;
    let members = composed(fields, name)->Ok_0.members;
    assert forall|k: int| 0 <= k < members.len() && (#[trigger] members[k]).location is Some implies {
        &&& members[k].location->0 >= fields[0].location->0
        &&& members[k].location->0 <= fields.last().location->0
    } by {
        assert(k < progress.members.len());
        assert(members[k] == progress.members[k]);
    }
}

/// Where the locations of the fields ascend, so do those of the members of the
/// structure that the engine makes of them.
pub proof fn lemma_composed_ascends(fields: Seq<FieldView>, name: Seq<char>)
    requires
        fields_ascend(fields),
        composed(fields, name) is Ok,
    ensures
        locations_ascend(composed(fields, name)->Ok_0.members),
{
    let count = fields.len() as int;
    lemma_layout_ascends(fields, count);
    lemma_composed_members(fields, name);
    let progress = layout_of(fields, count)->Ok_0;
    let members = composed(fields, name)->Ok_0.members;
    assert forall|i: int, j: int|
        0 <= i < j < members.len() && (#[trigger] members[i]).location is Some && (
        #[trigger] members[j]).location is Some implies members[i].location->0
        <= members[j].location->0 by {
        assert(j < progress.members.len());
        assert(members[i] == progress.members[i]);
        assert(members[j] == progress.members[j]);
    }
}

/// Whether two lists of fields have, position by position, types of the same size
/// and alignment, and no declared offsets.
pub open spec fn same_shapes(first: Seq<FieldView>, second: Seq<FieldView>) -> bool {
    &&& first.len() == second.len()
    &&& forall|i: int|
        0 <= i < first.len() ==> {
            &&& (#[trigger] first[i]).offset is None
            &&& second[i].offset is None
            &&& first[i].field_type.size() == second[i].field_type.size()
            &&& first[i].field_type.alignment() == second[i].field_type.alignment()
        }
}

/// Whether two members stand at the same offset with the same size, and are
/// either the same padding or both fields.
pub open spec fn twins(first: MemberView, second: MemberView, padding: bool) -> bool {
    &&& first.offset == second.offset
    &&& first.member_type.size() == second.member_type.size()
    &&& padding ==> first == second
}

/// Whether two lists of members are twins position by position, with padding at
/// the positions that `padding` marks.
pub open spec fn twin_members(
    first: Seq<MemberView>,
    second: Seq<MemberView>,
    padding: Seq<bool>,
) -> bool {
    &&& first.len() == second.len()
    &&& first.len() == padding.len()
    &&& forall|k: int| 0 <= k < first.len() ==> twins(#[trigger] first[k], second[k], padding[k])
}

/// The positions at which the layout of the first `count` fields has padding.
pub open spec fn padding_marks(fields: Seq<FieldView>, count: int) -> Seq<bool>
    decreases count,
{
    if count <= 0 || count > fields.len() {
        Seq::empty()
    } else {
        match layout_of(fields, count - 1) {
            Ok(before) => {
                let earlier = padding_marks(fields, count - 1);
                if fields[count - 1].placement(before.cursor) > before.cursor {
                    earlier.push(true).push(false)
                } else {
                    earlier.push(false)
                }
            },
            Err(_) => padding_marks(fields, count - 1),
        }
    }
}

/// The layout of fields without declared offsets depends on the sizes and
/// alignments of their types alone: two lists that agree on those reach, after
/// each field, the same cursor, alignment and padding, with members at the same
/// offsets, or fail with the same failure.
pub proof fn lemma_layout_by_shape(first: Seq<FieldView>, second: Seq<FieldView>, count: int)
    requires
        same_shapes(first, second),
        0 <= count <= first.len(),
    ensures
        match (layout_of(first, count), layout_of(second, count)) {
            (Ok(one), Ok(other)) => {
                &&& one.cursor == other.cursor
                &&& one.align == other.align
                &&& one.paddings == other.paddings
                &&& padding_marks(first, count) == padding_marks(second, count)
                &&& twin_members(one.members, other.members, padding_marks(first, count))
            },
            (Err(failure), Err(other)) => failure == other,
            _ => false,
        },
    decreases count,
{
    if count > 0 {
        lemma_layout_by_shape(first, second, count - 1);
        match (layout_of(first, count - 1), layout_of(second, count - 1)) {
            (Ok(one), Ok(other)) => {
                let field = first[count - 1];
                let twin = second[count - 1];
                let offset = field.placement(one.cursor);
                assert(offset == twin.placement(other.cursor));
                match (one.place(field, count - 1), other.place(twin, count - 1)) {
                    (Ok(next), Ok(next_other)) => {
                        let marks = padding_marks(first, count - 1);
                        let now = padding_marks(first, count);
                        assert(now == padding_marks(second, count));
                        assert forall|k: int| 0 <= k < next.members.len() implies twins(
                            #[trigger] next.members[k],
                            next_other.members[k],
                            now[k],
                        ) by {
                            if k < one.members.len() {
                                assert(next.members[k] == one.members[k]);
                                assert(next_other.members[k] == other.members[k]);
                                assert(twins(one.members[k], other.members[k], marks[k]));
                            }
                        }
                    },
                    _ => {},
                }
            },
            _ => {},
        }
    }
}

/// Two invocations of the engine on fields without declared offsets whose types
/// agree in size and alignment give the same offsets, the same padding at the same
/// positions and the same total size and alignment, or the same failure.
pub proof fn lemma_natural_layout_determined(
    first: Seq<FieldView>,
    first_name: Seq<char>,
    second: Seq<FieldView>,
    second_name: Seq<char>,
)
    requires
        same_shapes(first, second),
    ensures
        match (composed(first, first_name), composed(second, second_name)) {
            (Ok(one), Ok(other)) => {
                &&& one.layout == other.layout
                &&& one.members.len() == other.members.len()
                &&& forall|k: int|
                    0 <= k < one.members.len() ==> {
                        &&& (#[trigger] one.members[k]).offset == other.members[k].offset
                        &&& one.members[k].member_type.size()
                            == other.members[k].member_type.size()
                    }
            },
            (Err(failure), Err(other)) => failure == other,
            _ => false,
        },
        first == second ==> composed(first, first_name) == composed(second, first_name),
{
    let count = first.len() as int;
    lemma_layout_by_shape(first, second, count);
    match (layout_of(first, count), layout_of(second, count)) {
        (Ok(one), Ok(other)) => {
            let size = round_up(one.cursor, one.align);
            match (composed(first, first_name), composed(second, second_name)) {
                (Ok(left), Ok(right)) => {
                    let marks = padding_marks(first, count);
                    assert forall|k: int| 0 <= k < left.members.len() implies {
                        &&& (#[trigger] left.members[k]).offset == right.members[k].offset
                        &&& left.members[k].member_type.size()
                            == right.members[k].member_type.size()
                    } by {
                        if k < one.members.len() {
                            assert(left.members[k] == one.members[k]);
                            assert(right.members[k] == other.members[k]);
                            assert(twins(one.members[k], other.members[k], marks[k]));
                        }
                    }
                },
                _ => {},
            }
        },
        _ => {},
    }
}

/// The first byte after the field at `position - 1`, where every field has a
/// declared offset; 0 before the first field.
pub open spec fn declared_end(fields: Seq<FieldView>, position: int) -> nat {
    if position <= 0 || position > fields.len() {
        0
    } else {
        match fields[position - 1].offset {
            Some(offset) => offset as nat + fields[position - 1].field_type.size(),
            None => 0,
        }
    }
}

/// Whether the field at `position` is declared beyond the end of the field before it.
pub open spec fn gap_before(fields: Seq<FieldView>, position: int) -> bool {
    match fields[position].offset {
        Some(offset) => offset as nat > declared_end(fields, position),
        None => false,
    }
}

/// The number of fields among the first `count` that are declared beyond the end
/// of the field before them.
pub open spec fn gaps(fields: Seq<FieldView>, count: int) -> nat
    decreases count,
{
    if count <= 0 || count > fields.len() {
        0
    } else if gap_before(fields, count - 1) {
        gaps(fields, count - 1) + 1
    } else {
        gaps(fields, count - 1)
    }
}

/// Where the field at `position` stands among the members: after the fields and
/// the gaps before it.
pub open spec fn member_position(fields: Seq<FieldView>, position: int) -> int {
    position + gaps(fields, position + 1)
}

/// Whether `members` hold the field at `position` at its declared offset, after
/// padding that fills the gap before it, if there is a gap.
pub open spec fn kept_at(members: Seq<MemberView>, fields: Seq<FieldView>, position: int) -> bool {
    &&& members[member_position(fields, position)] == fields[position].member_at(
        fields[position].offset->0 as nat,
    )
    &&& gap_before(fields, position) ==> members[member_position(fields, position) - 1]
        == MemberView::padding(
        declared_end(fields, position) as u32,
        (fields[position].offset->0 - declared_end(fields, position)) as u32,
        gaps(fields, position) as u32,
    )
}

/// Whether `members` hold the first `count` of `fields` at their declared
/// offsets, with padding exactly in the gaps.
pub open spec fn keeps_declared(members: Seq<MemberView>, fields: Seq<FieldView>, count: int) -> bool {
    &&& members.len() >= count + gaps(fields, count)
    &&& forall|i: int| 0 <= i < count ==> #[trigger] kept_at(members, fields, i)
}

/// Where every field has a declared offset and the layout succeeds, the layout
/// after `count` fields holds them at exactly their declared offsets, with one
/// padding member for each gap and none elsewhere.
pub proof fn lemma_declared_offsets_kept(fields: Seq<FieldView>, count: int)
    requires
        0 <= count <= fields.len(),
        forall|i: int| 0 <= i < fields.len() ==> (#[trigger] fields[i]).offset is Some,
        layout_of(fields, count) is Ok,
    ensures
        ({
            let progress = layout_of(fields, count)->Ok_0;
            &&& progress.cursor == declared_end(fields, count)
            &&& progress.paddings == gaps(fields, count)
            &&& progress.members.len() == count + gaps(fields, count)
            &&& keeps_declared(progress.members, fields, count)
        }),
    decreases count,
{
    if count > 0 {
        lemma_declared_offsets_kept(fields, count - 1);
        let before = layout_of(fields, count - 1)->Ok_0;
        let field = fields[count - 1];
        let after = layout_of(fields, count)->Ok_0;
        lemma_place_declared(before, fields, count - 1);
        assert forall|i: int| 0 <= i < count implies #[trigger] kept_at(after.members, fields, i) by {
            if i < count - 1 {
                assert(kept_at(before.members, fields, i));
                lemma_gaps_monotonic(fields, i + 1, count - 1);
                lemma_kept_in_longer(before.members, after.members, fields, i);
            }
        }
    }
}

/// What was kept in a list of members is kept in every list that starts with it.
pub proof fn lemma_kept_in_longer(
    shorter: Seq<MemberView>,
    longer: Seq<MemberView>,
    fields: Seq<FieldView>,
    position: int,
)
    requires
        0 <= position < fields.len(),
        kept_at(shorter, fields, position),
        member_position(fields, position) < shorter.len() <= longer.len(),
        forall|k: int| 0 <= k < shorter.len() ==> longer[k] == shorter[k],
    ensures
        kept_at(longer, fields, position),
{
}

/// Placing the field at `position`, which has a declared offset, puts it at that
/// offset, after padding if it is declared beyond the cursor.
pub proof fn lemma_place_declared(before: Progress, fields: Seq<FieldView>, position: int)
    requires
        0 <= position < fields.len(),
        fields[position].offset is Some,
        before.cursor == declared_end(fields, position),
        before.paddings == gaps(fields, position),
        before.members.len() == position + gaps(fields, position),
        before.place(fields[position], position) is Ok,
    ensures
        ({
            let after = before.place(fields[position], position)->Ok_0;
            &&& after.cursor == declared_end(fields, position + 1)
            &&& after.paddings == gaps(fields, position + 1)
            &&& after.members.len() == position + 1 + gaps(fields, position + 1)
            &&& kept_at(after.members, fields, position)
            &&& forall|k: int| 0 <= k < before.members.len() ==> after.members[k] == before.members[k]
        }),
{
    let field = fields[position];
    let after = before.place(field, position)->Ok_0;
    let offset = field.placement(before.cursor);
    assert(offset == field.offset->0);
    assert(gap_before(fields, position) == (offset > before.cursor));
    assert(gaps(fields, position + 1) == gaps(fields, position) + (if gap_before(fields, position) {
        1nat
    } else {
        0nat
    }));
    let padded = before.padded_to(offset);
    assert(after.members == padded.push(field.member_at(offset)));
    assert(after.members[after.members.len() - 1] == field.member_at(offset));
    if offset > before.cursor {
        assert(after.members[after.members.len() - 2] == MemberView::padding(
            before.cursor as u32,
            (offset - before.cursor) as u32,
            before.paddings as u32,
        ));
    }
}

/// The number of gaps does not shrink as more fields are counted.
pub proof fn lemma_gaps_monotonic(fields: Seq<FieldView>, fewer: int, more: int)
    requires
        0 <= fewer <= more <= fields.len(),
    ensures
        gaps(fields, fewer) <= gaps(fields, more),
    decreases more - fewer,
{
    if fewer < more {
        lemma_gaps_monotonic(fields, fewer, more - 1);
    }
}

/// Where every field has a declared offset and the engine succeeds, the structure
/// holds every field at exactly its declared offset, with one padding member in
/// each gap between fields and none where a field starts at the end of the one
/// before it; after the last field comes at most the closing padding.
pub proof fn lemma_explicit_offsets_round_trip(fields: Seq<FieldView>, name: Seq<char>)
    requires
        forall|i: int| 0 <= i < fields.len() ==> (#[trigger] fields[i]).offset is Some,
        composed(fields, name) is Ok,
    ensures
        ({
            let structure = composed(fields, name)->Ok_0;
            let count = fields.len() as int;
            &&& keeps_declared(structure.members, fields, count)
            &&& structure.members.len() == count + gaps(fields, count) + (if structure.layout.size
                > declared_end(fields, count) {
                1int
            } else {
                0int
            })
        }),
{
    let count = fields.len() as int;
    lemma_declared_offsets_kept(fields, count);
    lemma_layout_sound(fields, count);
    let progress = layout_of(fields, count)->Ok_0;
    let structure = composed(fields, name)->Ok_0;
    let size = round_up(progress.cursor, progress.align);
    lemma_round_up(progress.cursor, progress.align);
    lemma_padded_contiguous(progress, size);
    assert(structure.members == progress.padded_to(size));
    assert forall|i: int| 0 <= i < count implies #[trigger] kept_at(structure.members, fields, i) by {
        assert(kept_at(progress.members, fields, i));
        lemma_gaps_monotonic(fields, i + 1, count);
        lemma_kept_in_longer(progress.members, structure.members, fields, i);
    }
}

/// The locations of those among the first `count` of `members` that have one,
/// in order.
pub open spec fn located_locations(members: Seq<MemberView>, count: int) -> Seq<u32>
    decreases count,
{
    if count <= 0 || count > members.len() {
        Seq::empty()
    } else {
        match members[count - 1].location {
            Some(location) => located_locations(members, count - 1).push(location),
            None => located_locations(members, count - 1),
        }
    }
}

/// The locations of the first members depend on those members alone.
pub proof fn lemma_located_prefix(first: Seq<MemberView>, second: Seq<MemberView>, count: int)
    requires
        0 <= count <= first.len(),
        count <= second.len(),
        forall|k: int| 0 <= k < count ==> first[k] == second[k],
    ensures
        located_locations(first, count) == located_locations(second, count),
    decreases count,
{
    if count > 0 {
        lemma_located_prefix(first, second, count - 1);
    }
}

/// The locations of the fields, in order.
pub open spec fn field_locations(fields: Seq<FieldView>, count: int) -> Seq<u32> {
    Seq::new(count as nat, |i: int| fields[i].location->0)
}

/// Where every field has a location, the members of a layout that have a
/// location are the fields, in their order: padding has none.
pub proof fn lemma_layout_locations(fields: Seq<FieldView>, count: int)
    requires
        0 <= count <= fields.len(),
        forall|i: int| 0 <= i < fields.len() ==> (#[trigger] fields[i]).location is Some,
        layout_of(fields, count) is Ok,
    ensures
        ({
            let members = layout_of(fields, count)->Ok_0.members;
            located_locations(members, members.len() as int) == field_locations(fields, count)
        }),
    decreases count,
{
    if count > 0 {
        lemma_layout_locations(fields, count - 1);
        let before = layout_of(fields, count - 1)->Ok_0;
        let after = layout_of(fields, count)->Ok_0;
        let field = fields[count - 1];
        let offset = field.placement(before.cursor);
        let padded = before.padded_to(offset);
        assert(after.members == padded.push(field.member_at(offset)));
        lemma_located_prefix(after.members, padded, padded.len() as int);
        lemma_located_prefix(padded, before.members, before.members.len() as int);
        if offset > before.cursor {
            assert(padded[padded.len() - 1].location is None);
        }
        assert(located_locations(padded, padded.len() as int) == located_locations(
            before.members,
            before.members.len() as int,
        ));
        assert(field_locations(fields, count - 1).push(field.location->0) =~= field_locations(
            fields,
            count,
        ));
    } else {
        assert(field_locations(fields, count) =~= Seq::<u32>::empty());
    }
}

/// Where every field has a location, the members of the structure that the
/// engine makes which have a location are exactly the fields, in their order.
pub proof fn lemma_composed_locations(fields: Seq<FieldView>, name: Seq<char>)
    requires
        forall|i: int| 0 <= i < fields.len() ==> (#[trigger] fields[i]).location is Some,
        composed(fields, name) is Ok,
    ensures
        ({
            let members = composed(fields, name)->Ok_0.members;
            located_locations(members, members.len() as int) == field_locations(
                fields,
                fields.len() as int,
            )
        }),
{
    let count = fields.len() as int;
    lemma_layout_locations(fields, count);
    lemma_composed_members(fields, name);
    let progress = layout_of(fields, count)->Ok_0;
    let members = composed(fields, name)->Ok_0.members;
    lemma_located_prefix(members, progress.members, progress.members.len() as int);
    if members.len() > progress.members.len() {
        assert(members[members.len() - 1].location is None);
    }
}

/// The largest alignment among the first `count` of `fields`, at least 1.
pub open spec fn largest_alignment(fields: Seq<FieldView>, count: int) -> nat
    decreases count,
{
    if count <= 0 || count > fields.len() {
        1
    } else {
        let earlier = largest_alignment(fields, count - 1);
        if fields[count - 1].field_type.alignment() > earlier {
            fields[count - 1].field_type.alignment()
        } else {
            earlier
        }
    }
}

/// Whether fields with declared offsets can be laid out: every type can be
/// placed, no field is declared below the end of the field before it, and the
/// structure, closing padding included, fits in 32 bits.
pub open spec fn declared_fit(fields: Seq<FieldView>) -> bool {
    &&& forall|i: int|
        0 <= i < fields.len() ==> {
            &&& (#[trigger] fields[i]).offset is Some
            &&& fields[i].field_type.placeable()
            &&& fields[i].offset->0 >= declared_end(fields, i)
            &&& fields[i].offset->0 + fields[i].field_type.size() <= u32::MAX
        }
    &&& round_up(
        declared_end(fields, fields.len() as int),
        largest_alignment(fields, fields.len() as int),
    ) <= u32::MAX
}

/// Fields with declared offsets that fit are laid out without failure.
pub proof fn lemma_declared_layout_succeeds(fields: Seq<FieldView>, count: int)
    requires
        declared_fit(fields),
        0 <= count <= fields.len(),
    ensures
        layout_of(fields, count) is Ok,
        layout_of(fields, count)->Ok_0.cursor == declared_end(fields, count),
        layout_of(fields, count)->Ok_0.align == largest_alignment(fields, count),
    decreases count,
{
    if count > 0 {
        lemma_declared_layout_succeeds(fields, count - 1);
        let before = layout_of(fields, count - 1)->Ok_0;
        let field = fields[count - 1];
        assert(field.offset is Some);
        assert(field.placement(before.cursor) == field.offset->0);
        assert(before.place(field, count - 1) is Ok);
    }
}

/// Success is owed to fields with declared offsets that fit: the engine makes a
/// structure of them, which holds every field at exactly its declared offset.
pub proof fn lemma_declared_fit_composes(fields: Seq<FieldView>, name: Seq<char>)
    requires
        declared_fit(fields),
    ensures
        composed(fields, name) is Ok,
        composed(fields, name)->Ok_0.well_formed(),
        keeps_declared(composed(fields, name)->Ok_0.members, fields, fields.len() as int),
{
    lemma_declared_layout_succeeds(fields, fields.len() as int);
    super::lemma_composed_well_formed(fields, name);
    lemma_explicit_offsets_round_trip(fields, name);
}

} // verus!
