//! Structures and the engine that lays their members out.

pub mod laws;
pub mod member;

use crate::error::LayoutError;
use crate::types::layout::{align_up, lemma_round_up, round_up, Layout};
use crate::types::{Type, TypeView};
use member::{member_views, Member, MemberView};
use vstd::prelude::*;

verus! {

/// A structure: its members in memory order, padding included.
#[derive(Debug, PartialEq, Eq)]
pub struct Structure {
    pub name: String,
    pub members: Vec<Member>,
    pub layout: Layout,
}

/// What a [`Structure`] holds.
pub struct StructureView {
    pub name: Seq<char>,
    pub members: Seq<MemberView>,
    pub layout: Layout,
}

impl View for Structure {
    type V = StructureView;

    open spec fn view(&self) -> StructureView {
        StructureView {
            name: self.name@,
            members: member_views(self.members@),
            layout: self.layout,
        }
    }
}

/// A field to lay out: its type and name, the byte offset it was declared with,
/// if any, and the location or constant id it was declared with, if any.
#[derive(Debug, PartialEq, Eq)]
pub struct Field {
    pub field_type: Type,
    pub name: String,
    pub offset: Option<u32>,
    pub location: Option<u32>,
}

/// What a [`Field`] holds.
pub struct FieldView {
    pub field_type: TypeView,
    pub name: Seq<char>,
    pub offset: Option<u32>,
    pub location: Option<u32>,
}

impl View for Field {
    type V = FieldView;

    open spec fn view(&self) -> FieldView {
        FieldView {
            field_type: self.field_type@,
            name: self.name@,
            offset: self.offset,
            location: self.location,
        }
    }
}

/// The views of a list of fields, in order.
pub open spec fn field_views(fields: Seq<Field>) -> Seq<FieldView> {
    Seq::new(fields.len(), |i: int| fields[i]@)
}

/// The fields that stand for a list of types and names: no declared offset, no location.
pub open spec fn plain_fields(fields: Seq<(Type, String)>) -> Seq<FieldView> {
    Seq::new(
        fields.len(),
        |i: int|
            FieldView { field_type: fields[i].0@, name: fields[i].1@, offset: None, location: None },
    )
}

/// The state of a layout after some fields: the members so far, the first free
/// byte, the largest alignment seen and the number of padding members.
pub struct Progress {
    pub members: Seq<MemberView>,
    pub cursor: nat,
    pub align: nat,
    pub paddings: nat,
}

impl FieldView {
    /// Where the field goes when `cursor` is the first free byte: at its declared
    /// offset, or else at the next multiple of its alignment.
    pub open spec fn placement(self, cursor: nat) -> nat {
        match self.offset {
            Some(offset) => offset as nat,
            None => round_up(cursor, self.field_type.alignment()),
        }
    }

    /// The member that the field becomes at `offset`.
    pub open spec fn member_at(self, offset: nat) -> MemberView {
        MemberView {
            member_type: self.field_type,
            offset: offset as u32,
            name: self.name,
            location: self.location,
        }
    }
}

impl Progress {
    /// The layout before the first field.
    pub open spec fn start() -> Progress {
        Progress { members: Seq::empty(), cursor: 0, align: 1, paddings: 0 }
    }

    /// The members with padding added up to `offset`, where `offset` lies beyond the cursor.
    pub open spec fn padded_to(self, offset: nat) -> Seq<MemberView> {
        if offset > self.cursor {
            self.members.push(
                MemberView::padding(
                    self.cursor as u32,
                    (offset - self.cursor) as u32,
                    self.paddings as u32,
                ),
            )
        } else {
            self.members
        }
    }

    /// The layout after the next field, the one at position `index`.
    pub open spec fn place(self, field: FieldView, index: int) -> Result<Progress, LayoutError> {
        let offset = field.placement(self.cursor);
        if !field.field_type.placeable() {
            Err(LayoutError::InvalidField { index: index as usize })
        } else if offset < self.cursor {
            Err(
                LayoutError::Overlap {
                    index: index as usize,
                    offset: offset as u32,
                    cursor: self.cursor as u32,
                },
            )
        } else if offset + field.field_type.size() > u32::MAX {
            Err(LayoutError::TooLarge { index: index as usize })
        } else {
            Ok(
                Progress {
                    members: self.padded_to(offset).push(field.member_at(offset)),
                    cursor: offset + field.field_type.size(),
                    align: if field.field_type.alignment() > self.align {
                        field.field_type.alignment()
                    } else {
                        self.align
                    },
                    paddings: if offset > self.cursor {
                        self.paddings + 1
                    } else {
                        self.paddings
                    },
                },
            )
        }
    }

    /// The structure that the layout becomes once its size is rounded up to its alignment.
    pub open spec fn close(self, name: Seq<char>, count: int) -> Result<StructureView, LayoutError> {
        let size = round_up(self.cursor, self.align);
        if size > u32::MAX {
            Err(LayoutError::TooLarge { index: count as usize })
        } else {
            Ok(
                StructureView {
                    name,
                    members: self.padded_to(size),
                    layout: Layout { size: size as usize, align: self.align as usize },
                },
            )
        }
    }

    /// What holds of every layout that the engine reaches.
    pub open spec fn sound(self) -> bool {
        &&& self.cursor <= u32::MAX
        &&& 1 <= self.align <= usize::MAX
        &&& self.paddings <= self.members.len()
        &&& self.paddings <= self.cursor
        &&& contiguous(self.members, self.cursor)
        &&& forall|i: int|
            0 <= i < self.members.len() ==> (#[trigger] self.members[i]).member_type.alignment()
                <= self.align
    }
}

/// The layout after the first `count` of `fields`, or the failure of the first
/// field that cannot be placed.
pub open spec fn layout_of(fields: Seq<FieldView>, count: int) -> Result<Progress, LayoutError>
    decreases count,
{
    if count <= 0 || count > fields.len() {
        Ok(Progress::start())
    } else {
        match layout_of(fields, count - 1) {
            Ok(progress) => progress.place(fields[count - 1], count - 1),
            Err(error) => Err(error),
        }
    }
}

/// The structure named `name` that `fields` make, in their order: a field with a
/// declared offset stands at that offset, any other at the next multiple of its
/// alignment; padding members fill every gap, and closing padding brings the
/// size to a multiple of the largest alignment among the members.
pub open spec fn composed(fields: Seq<FieldView>, name: Seq<char>) -> Result<
    StructureView,
    LayoutError,
> {
    match layout_of(fields, fields.len() as int) {
        Ok(progress) => progress.close(name, fields.len() as int),
        Err(error) => Err(error),
    }
}

/// Whether the member at `position` ends where the next one starts.
pub open spec fn joined(members: Seq<MemberView>, position: int) -> bool {
    members[position].end() == members[position + 1].offset
}

/// Whether `members` follow one another without gap or overlap from byte 0 to byte `end`.
pub open spec fn contiguous(members: Seq<MemberView>, end: nat) -> bool {
    &&& members.len() == 0 ==> end == 0
    &&& members.len() > 0 ==> members[0].offset == 0 && members.last().end() == end
    &&& forall|i: int| 0 <= i < members.len() - 1 ==> #[trigger] joined(members, i)
}

impl StructureView {
    /// The invariant of a structure: its members follow one another from byte 0 to
    /// its size, which fits in 32 bits and is a multiple of its alignment, and
    /// its alignment is the largest among its members, at least 1.
    pub open spec fn well_formed(self) -> bool {
        &&& self.layout.size <= u32::MAX
        &&& self.layout.align >= 1
        &&& self.layout.size as nat % self.layout.align as nat == 0
        &&& contiguous(self.members, self.layout.size as nat)
        &&& forall|i: int|
            0 <= i < self.members.len() ==> (#[trigger] self.members[i]).member_type.alignment()
                <= self.layout.align
        &&& attained(self.members, self.layout.align as nat)
    }
}

/// Every layout that the engine reaches is sound, and its alignment is 1 or that
/// of one of its members.
pub proof fn lemma_layout_sound(fields: Seq<FieldView>, count: int)
    requires
        0 <= count <= fields.len(),
    ensures
        layout_of(fields, count) matches Ok(progress) ==> progress.sound() && attained(
            progress.members,
            progress.align,
        ),
    decreases count,
{
    if count > 0 {
        lemma_layout_sound(fields, count - 1);
        match layout_of(fields, count - 1) {
            Ok(before) => {
                let field = fields[count - 1];
                match before.place(field, count - 1) {
                    Ok(after) => {
                        lemma_place_sound(before, field, count - 1);
                        let offset = field.placement(before.cursor);
                        lemma_padded_contiguous(before, offset);
                        let padded = before.padded_to(offset);
                        assert(after.members == padded.push(field.member_at(offset)));
                        if field.field_type.alignment() > before.align {
                            assert(after.members[after.members.len() - 1].member_type.alignment()
                                == after.align);
                        } else if before.align != 1 {
                            let i = choose|i: int|
                                0 <= i < before.members.len() && (
                                #[trigger] before.members[i]).member_type.alignment()
                                    == before.align;
                            assert(padded[i] == before.members[i]);
                            assert(after.members[i] == padded[i]);
                        }
                    },
                    Err(_) => {},
                }
            },
            Err(_) => {},
        }
    }
}

/// Whether `align` is 1 or the alignment of one of `members`.
pub open spec fn attained(members: Seq<MemberView>, align: nat) -> bool {
    align == 1 || exists|i: int|
        0 <= i < members.len() && (#[trigger] members[i]).member_type.alignment() == align
}

/// Placing a field keeps a layout sound.
pub proof fn lemma_place_sound(before: Progress, field: FieldView, index: int)
    requires
        before.sound(),
    ensures
        before.place(field, index) matches Ok(after) ==> after.sound(),
{
    match before.place(field, index) {
        Ok(after) => {
            let offset = field.placement(before.cursor);
            lemma_padded_contiguous(before, offset);
            let padded = before.padded_to(offset);
            let member = field.member_at(offset);
            field.field_type.lemma_alignment_bounded();
            assert(after.members == padded.push(member));
            assert(member.end() == after.cursor);
            lemma_push_contiguous(padded, offset, member);
            assert forall|i: int| 0 <= i < after.members.len() implies (
            #[trigger] after.members[i]).member_type.alignment() <= after.align by {
                if i < padded.len() {
                    assert(after.members[i] == padded[i]);
                }
            }
        },
        Err(_) => {},
    }
}

/// A member that starts at the end of contiguous members keeps them contiguous.
pub proof fn lemma_push_contiguous(members: Seq<MemberView>, end: nat, member: MemberView)
    requires
        contiguous(members, end),
        member.offset == end,
    ensures
        contiguous(members.push(member), member.end()),
{
    let longer = members.push(member);
    assert forall|i: int| 0 <= i < longer.len() - 1 implies #[trigger] joined(longer, i) by {
        if i < members.len() - 1 {
            assert(joined(members, i));
            assert(longer[i] == members[i]);
            assert(longer[i + 1] == members[i + 1]);
        } else {
            assert(longer[i] == members.last());
            assert(longer[i + 1] == member);
        }
    }
    if members.len() > 0 {
        assert(longer[0] == members[0]);
    }
}

/// Padding up to `offset` keeps the members contiguous, now up to `offset`.
pub proof fn lemma_padded_contiguous(before: Progress, offset: nat)
    requires
        before.sound(),
        before.cursor <= offset <= u32::MAX,
    ensures
        contiguous(before.padded_to(offset), offset),
        before.padded_to(offset).len() <= before.members.len() + 1,
        forall|i: int|
            0 <= i < before.padded_to(offset).len() ==> (#[trigger] before.padded_to(
                offset,
            )[i]).member_type.alignment() <= before.align,
        forall|i: int|
            0 <= i < before.members.len() ==> before.padded_to(offset)[i] == before.members[i],
{
    let padded = before.padded_to(offset);
    if offset > before.cursor {
        let padding = MemberView::padding(
            before.cursor as u32,
            (offset - before.cursor) as u32,
            before.paddings as u32,
        );
        lemma_padding_size(before.cursor as u32, (offset - before.cursor) as u32, before.paddings as u32);
        assert(padded == before.members.push(padding));
        lemma_push_contiguous(before.members, before.cursor, padding);
        assert forall|i: int| 0 <= i < padded.len() implies (
        #[trigger] padded[i]).member_type.alignment() <= before.align by {
            if i < before.members.len() {
                assert(padded[i] == before.members[i]);
            }
        }
    }
}

/// A padding member takes as many bytes as it was made for, and is aligned to 1.
pub proof fn lemma_padding_size(offset: u32, size: u32, index: u32)
    ensures
        MemberView::padding(offset, size, index).member_type.size() == size,
        MemberView::padding(offset, size, index).member_type.alignment() == 1,
        MemberView::padding(offset, size, index).end() == offset + size,
{
    reveal_with_fuel(TypeView::size, 2);
    reveal_with_fuel(TypeView::alignment, 2);
    assert(1 * (size as nat) == size as nat);
}

/// Every structure that the engine makes is well formed.
pub proof fn lemma_composed_well_formed(fields: Seq<FieldView>, name: Seq<char>)
    ensures
        composed(fields, name) matches Ok(structure) ==> structure.well_formed(),
{
    lemma_layout_sound(fields, fields.len() as int);
    match layout_of(fields, fields.len() as int) {
        Ok(progress) => {
            lemma_round_up(progress.cursor, progress.align);
            let size = round_up(progress.cursor, progress.align);
            if size <= u32::MAX {
                lemma_padded_contiguous(progress, size);
                let structure = composed(fields, name)->Ok_0;
                assert(structure.members == progress.padded_to(size));
                if progress.align != 1 {
                    let i = choose|i: int|
                        0 <= i < progress.members.len() && (
                        #[trigger] progress.members[i]).member_type.alignment() == progress.align;
                    assert(structure.members[i] == progress.members[i]);
                }
            }
        },
        Err(_) => {},
    }
}

impl Structure {
    /// The size of the structure in bytes.
    pub fn size(&self) -> (size: usize)
        ensures
            size == self@.layout.size,
    {
        self.layout.size
    }

    /// The alignment of the structure in bytes.
    pub fn alignment(&self) -> (align: usize)
        ensures
            align == self@.layout.align,
    {
        self.layout.align
    }

    /// Lays `fields` out in their order and makes the structure named `name`.
    ///
    /// A field with a declared offset stands at that offset; any other stands at
    /// the next multiple of its alignment. Padding members fill every gap, and
    /// closing padding brings the size to a multiple of the alignment.
    pub fn compose(fields: Vec<Field>, name: String) -> (result: Result<Structure, LayoutError>)
        ensures
            match composed(field_views(fields@), name@) {
                Ok(structure) => result is Ok && result->Ok_0@ == structure
                    && structure.well_formed(),
                Err(error) => result == Err::<Structure, LayoutError>(error),
            },
    {
        let ghost all = field_views(fields@);
        let ghost given = fields@;
        let mut members: Vec<Member> = Vec::new();
        let mut cursor: u32 = 0;
        let mut align: usize = 1;
        let mut paddings: u32 = 0;
        let mut index: usize = 0;
        let count: usize = fields.len();
        proof {
            assert(member_views(members@) =~= Progress::start().members);
        }
        for field in iter: fields
            invariant
                iter.seq() == given,
                all == field_views(given),
                index == iter.index(),
                index <= given.len(),
                given.len() == count,
                layout_of(all, index as int) == Ok::<Progress, LayoutError>(
                    Progress {
                        members: member_views(members@),
                        cursor: cursor as nat,
                        align: align as nat,
                        paddings: paddings as nat,
                    },
                ),
                paddings <= cursor,
                align >= 1,
        {
            let ghost before = Progress {
                members: member_views(members@),
                cursor: cursor as nat,
                align: align as nat,
                paddings: paddings as nat,
            };
            assert(all[index as int] == field@);
            assert(layout_of(all, index + 1) == before.place(field@, index as int));
            let Field { field_type, name: field_name, offset: declared, location } = field;
            let placed = match field_type.checked_layout() {
                Some(layout) => layout,
                None => {
                    proof {
                        lemma_layout_fails(all, index + 1);
                    }
                    return Err(LayoutError::InvalidField { index });
                },
            };
            let offset: u32 = match declared {
                Some(value) => {
                    if value < cursor {
                        proof {
                            lemma_layout_fails(all, index + 1);
                        }
                        return Err(LayoutError::Overlap { index, offset: value, cursor });
                    }
                    value
                },
                None => {
                    proof {
                        lemma_round_up(cursor as nat, placed.align as nat);
                    }
                    match align_up(cursor, placed.align) {
                        Some(value) => value,
                        None => {
                            proof {
                                lemma_layout_fails(all, index + 1);
                            }
                            return Err(LayoutError::TooLarge { index });
                        },
                    }
                },
            };
            if placed.size > (u32::MAX - offset) as usize {
                proof {
                    lemma_layout_fails(all, index + 1);
                }
                return Err(LayoutError::TooLarge { index });
            }
            if offset > cursor {
                members.push(Member::padding(cursor, offset - cursor, paddings));
                paddings = paddings + 1;
            }
            members.push(Member::new(field_type, offset, field_name, location));
            assert(member_views(members@) =~= before.padded_to(offset as nat).push(
                field@.member_at(offset as nat),
            ));
            cursor = offset + placed.size as u32;
            if placed.align > align {
                align = placed.align;
            }
            index = index + 1;
        }
        let ghost progress = Progress {
            members: member_views(members@),
            cursor: cursor as nat,
            align: align as nat,
            paddings: paddings as nat,
        };
        assert(index == given.len());
        assert(all.len() == given.len());
        proof {
            lemma_round_up(cursor as nat, align as nat);
            lemma_composed_well_formed(all, name@);
        }
        let size: u32 = match align_up(cursor, align) {
            Some(value) => value,
            None => {
                return Err(LayoutError::TooLarge { index });
            },
        };
        if size > cursor {
            members.push(Member::padding(cursor, size - cursor, paddings));
        }
        assert(member_views(members@) =~= progress.padded_to(size as nat));
        Ok(Structure { name, members, layout: Layout { size: size as usize, align } })
    }

    /// Lays `fields` out in their order, each at the next multiple of its
    /// alignment, and makes the structure named `name`.
    pub fn from_fields(fields: Vec<(Type, String)>, name: String) -> (result: Result<
        Structure,
        LayoutError,
    >)
        ensures
            match composed(plain_fields(fields@), name@) {
                Ok(structure) => result is Ok && result->Ok_0@ == structure
                    && structure.well_formed(),
                Err(error) => result == Err::<Structure, LayoutError>(error),
            },
    {
        let ghost given = fields@;
        let mut plain: Vec<Field> = Vec::new();
        for field in iter: fields
            invariant
                iter.seq() == given,
                plain@.len() == iter.index(),
                forall|i: int|
                    0 <= i < plain@.len() ==> (#[trigger] plain@[i])@ == plain_fields(given)[i],
        {
            let (field_type, field_name) = field;
            plain.push(Field { field_type, name: field_name, offset: None, location: None });
        }
        assert(field_views(plain@) =~= plain_fields(given));
        Structure::compose(plain, name)
    }
}

/// Once a field cannot be placed, the failure stays whatever follows.
pub proof fn lemma_layout_fails(fields: Seq<FieldView>, count: int)
    requires
        0 < count <= fields.len(),
        layout_of(fields, count) is Err,
    ensures
        forall|name: Seq<char>|
            #[trigger] composed(fields, name) == Err::<StructureView, LayoutError>(
                layout_of(fields, count)->Err_0,
            ),
{
    lemma_failure_persists(fields, count, fields.len() as int);
}

proof fn lemma_failure_persists(fields: Seq<FieldView>, count: int, later: int)
    requires
        0 < count <= later <= fields.len(),
        layout_of(fields, count) is Err,
    ensures
        layout_of(fields, later) == layout_of(fields, count),
    decreases later - count,
{
    if count < later {
        lemma_failure_persists(fields, count, later - 1);
    }
}

} // verus!
