//! The members of a structure.

use crate::text::{decimal, numbered};
use crate::types::{Array, ArrayView, Scalar, Type, TypeView};
use vstd::prelude::*;

verus! {

/// A member of a structure: a field, or padding between fields.
#[derive(Debug, PartialEq, Eq)]
pub struct Member {
    pub member_type: Box<Type>,
    pub offset: u32,
    pub name: String,
    /// The location or constant id that the member was declared with; padding has none.
    pub location: Option<u32>,
}

/// What a [`Member`] holds.
pub struct MemberView {
    pub member_type: TypeView,
    pub offset: u32,
    pub name: Seq<char>,
    pub location: Option<u32>,
}

impl View for Member {
    type V = MemberView;

    open spec fn view(&self) -> MemberView {
        MemberView {
            member_type: (*self.member_type)@,
            offset: self.offset,
            name: self.name@,
            location: self.location,
        }
    }
}

/// The views of a list of members, in order.
pub open spec fn member_views(members: Seq<Member>) -> Seq<MemberView> {
    Seq::new(members.len(), |i: int| members[i]@)
}

impl MemberView {
    /// The first byte after the member.
    pub open spec fn end(self) -> nat {
        self.offset as nat + self.member_type.size()
    }

    /// The padding member number `index`: `size` bytes at `offset`.
    pub open spec fn padding(offset: u32, size: u32, index: u32) -> MemberView {
        MemberView {
            member_type: TypeView::Array(
                ArrayView { element_type: Box::new(TypeView::Scalar(Scalar::U8)), length: size },
            ),
            offset,
            name: "_padding_"@ + decimal(index as nat),
            location: None,
        }
    }

    /// Whether the member has the shape of padding: bytes without a location.
    pub open spec fn is_padding(self) -> bool {
        &&& self.location is None
        &&& self.member_type matches TypeView::Array(array)
        &&& *array.element_type == TypeView::Scalar(Scalar::U8)
    }
}

impl Member {
    /// Creates a member.
    pub fn new(member_type: Type, offset: u32, name: String, location: Option<u32>) -> (member:
        Member)
        ensures
            member@ == (MemberView { member_type: member_type@, offset, name: name@, location }),
    {
        Member { member_type: Box::new(member_type), offset, name, location }
    }

    /// Creates the padding member number `padding_index`: `size` bytes at `offset`.
    pub fn padding(offset: u32, size: u32, padding_index: u32) -> (member: Member)
        ensures
            member@ == MemberView::padding(offset, size, padding_index),
    {
        let name = numbered("_padding_", padding_index);
        let member_type = Type::Array(Array::new(Type::Scalar(Scalar::U8), size));
        Member { member_type: Box::new(member_type), offset, name, location: None }
    }
}

} // verus!
