//! Arrays of a fixed length.

use super::{Type, TypeView};
use vstd::prelude::*;

verus! {

/// An array of `length` elements.
#[derive(Debug, PartialEq, Eq)]
pub struct Array {
    pub element_type: Box<Type>,
    pub length: u32,
}

/// What an [`Array`] holds.
pub struct ArrayView {
    pub element_type: Box<TypeView>,
    pub length: u32,
}

impl ArrayView {
    /// The number of bytes that a value takes: the elements follow one another
    /// without padding.
    pub open spec fn size(self) -> nat {
        self.element_type.size() * (self.length as nat)
    }

    /// The alignment of a value: that of its elements.
    pub open spec fn alignment(self) -> nat {
        self.element_type.alignment()
    }
}

impl View for Array {
    type V = ArrayView;

    open spec fn view(&self) -> ArrayView {
        ArrayView { element_type: Box::new((*self.element_type)@), length: self.length }
    }
}

impl Array {
    /// Creates an array type.
    pub fn new(element_type: Type, length: u32) -> (array: Array)
        ensures
            array@ == (ArrayView { element_type: Box::new(element_type@), length }),
            *array.element_type == element_type,
            array.length == length,
    {
        Array { element_type: Box::new(element_type), length }
    }

    /// The number of bytes that a value takes.
    pub fn size(&self) -> (size: usize)
        requires
            self@.size() <= usize::MAX,
        ensures
            size == self@.size(),
    {
        Type::array_size(self)
    }

    /// The alignment of a value.
    pub fn alignment(&self) -> (align: usize)
        ensures
            align == self@.alignment(),
    {
        self.element_type.alignment()
    }
}

} // verus!
