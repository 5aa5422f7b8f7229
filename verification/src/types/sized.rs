//! Sizes and alignments of all the types alike.

use super::{Array, Scalar, Structure, Type, Vector};
use vstd::prelude::*;

verus! {

/// A type whose values have a size and an alignment.
pub trait SizedType {
    /// The number of bytes that a value takes.
    spec fn byte_size(&self) -> nat;

    /// The alignment of a value in bytes.
    spec fn byte_alignment(&self) -> nat;

    /// The number of bytes that a value takes.
    fn size(&self) -> (size: usize)
        requires
            self.byte_size() <= usize::MAX,
        ensures
            size == self.byte_size(),
    ;

    /// The alignment of a value in bytes.
    fn alignment(&self) -> (align: usize)
        ensures
            align == self.byte_alignment(),
    ;
}

impl SizedType for Scalar {
    open spec fn byte_size(&self) -> nat {
        self.bytes()
    }

    open spec fn byte_alignment(&self) -> nat {
        self.bytes()
    }

    fn size(&self) -> (size: usize) {
        Scalar::size(self)
    }

    fn alignment(&self) -> (align: usize) {
        Scalar::alignment(self)
    }
}

impl SizedType for Vector {
    open spec fn byte_size(&self) -> nat {
        self.bytes()
    }

    open spec fn byte_alignment(&self) -> nat {
        self.component_type.bytes()
    }

    fn size(&self) -> (size: usize) {
        Vector::size(self)
    }

    fn alignment(&self) -> (align: usize) {
        Vector::alignment(self)
    }
}

impl SizedType for Array {
    open spec fn byte_size(&self) -> nat {
        self@.size()
    }

    open spec fn byte_alignment(&self) -> nat {
        self@.alignment()
    }

    fn size(&self) -> (size: usize) {
        Array::size(self)
    }

    fn alignment(&self) -> (align: usize) {
        Array::alignment(self)
    }
}

impl SizedType for Structure {
    open spec fn byte_size(&self) -> nat {
        self@.layout.size as nat
    }

    open spec fn byte_alignment(&self) -> nat {
        self@.layout.align as nat
    }

    fn size(&self) -> (size: usize) {
        Structure::size(self)
    }

    fn alignment(&self) -> (align: usize) {
        Structure::alignment(self)
    }
}

impl SizedType for Type {
    open spec fn byte_size(&self) -> nat {
        self@.size()
    }

    open spec fn byte_alignment(&self) -> nat {
        self@.alignment()
    }

    fn size(&self) -> (size: usize) {
        Type::size(self)
    }

    fn alignment(&self) -> (align: usize) {
        Type::alignment(self)
    }
}

} // verus!
