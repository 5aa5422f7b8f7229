//! The types of shader interface values, with their sizes and alignments.

pub mod array;
pub mod descriptor_types;
pub mod layout;
pub mod resolve;
pub mod scalar;
pub mod sized;
pub mod structure;
pub mod vector;

pub use array::{Array, ArrayView};
pub use descriptor_types::DescriptorType;
pub use layout::Layout;
pub use scalar::Scalar;
pub use sized::SizedType;
pub use structure::member::{Member, MemberView};
pub use structure::{Field, FieldView, Structure, StructureView};
pub use vector::Vector;

use vstd::prelude::*;

verus! {

/// The type of a value in a shader interface.
#[derive(Debug, PartialEq, Eq)]
pub enum Type {
    Scalar(Scalar),
    Array(Array),
    Vector(Vector),
    Struct(Structure),
}

/// What a [`Type`] holds, with names as sequences of characters.
pub enum TypeView {
    Scalar(Scalar),
    Array(ArrayView),
    Vector(Vector),
    Struct(StructureView),
}

/// The view of a type.
pub open spec fn type_view(ty: Type) -> TypeView
    decreases ty,
{
    match ty {
        Type::Scalar(scalar) => TypeView::Scalar(scalar),
        Type::Array(array) => TypeView::Array(
            ArrayView {
                element_type: Box::new(type_view(*array.element_type)),
                length: array.length,
            },
        ),
        Type::Vector(vector) => TypeView::Vector(vector),
        Type::Struct(structure) => TypeView::Struct(
            StructureView {
                name: structure.name@,
                members: Seq::new(
                    structure.members@.len(),
                    |i: int|
                        if 0 <= i < structure.members@.len() {
                            MemberView {
                                member_type: type_view(*structure.members@[i].member_type),
                                offset: structure.members@[i].offset,
                                name: structure.members@[i].name@,
                                location: structure.members@[i].location,
                            }
                        } else {
                            arbitrary()
                        },
                ),
                layout: structure.layout,
            },
        ),
    }
}

impl View for Type {
    type V = TypeView;

    open spec fn view(&self) -> TypeView {
        type_view(*self)
    }
}

impl TypeView {
    /// The number of bytes that a value of the type takes.
    pub open spec fn size(self) -> nat
        decreases self,
    {
        match self {
            TypeView::Scalar(scalar) => scalar.bytes(),
            TypeView::Array(array) => array.element_type.size() * (array.length as nat),
            TypeView::Vector(vector) => vector.bytes(),
            TypeView::Struct(structure) => structure.layout.size as nat,
        }
    }

    /// The alignment of a value of the type.
    pub open spec fn alignment(self) -> nat
        decreases self,
    {
        match self {
            TypeView::Scalar(scalar) => scalar.bytes(),
            TypeView::Array(array) => array.element_type.alignment(),
            TypeView::Vector(vector) => vector.component_type.bytes(),
            TypeView::Struct(structure) => structure.layout.align as nat,
        }
    }

    /// The alignment of a type fits in a machine word.
    pub proof fn lemma_alignment_bounded(self)
        ensures
            self.alignment() <= usize::MAX,
        decreases self,
    {
        match self {
            TypeView::Array(array) => {
                array.element_type.lemma_alignment_bounded();
            },
            _ => {},
        }
    }

    /// Whether a value of the type can be placed in a structure: its size fits in
    /// 32 bits and its alignment is not zero.
    pub open spec fn placeable(self) -> bool {
        self.size() <= u32::MAX && self.alignment() >= 1
    }
}

impl Type {
    /// The alignment of a value of the type.
    pub fn alignment(&self) -> (align: usize)
        ensures
            align == self@.alignment(),
        decreases self,
    {
        match self {
            Type::Scalar(scalar) => scalar.alignment(),
            Type::Array(array) => array.element_type.alignment(),
            Type::Vector(vector) => vector.alignment(),
            Type::Struct(structure) => structure.layout.align,
        }
    }

    /// The number of bytes that a value of the type takes, where that number
    /// fits in 32 bits.
    pub fn checked_size(&self) -> (size: Option<u32>)
        ensures
            match size {
                Some(value) => value == self@.size(),
                None => self@.size() > u32::MAX,
            },
        decreases self,
    {
        match self {
            Type::Scalar(scalar) => Some(scalar.size() as u32),
            Type::Array(array) => {
                if array.length == 0 {
                    assert(self@.size() == 0) by (nonlinear_arith)
                        requires
                            self@.size() == (*array.element_type)@.size() * (array.length as nat),
                            array.length == 0,
                    ;
                    Some(0)
                } else {
                    match array.element_type.checked_size() {
                        Some(element) => {
                            assert(element * array.length <= 0xFFFF_FFFF * 0xFFFF_FFFF)
                                by (nonlinear_arith)
                                requires
                                    element <= 0xFFFF_FFFF,
                                    array.length <= 0xFFFF_FFFF,
                            ;
                            let product: u64 = (element as u64) * (array.length as u64);
                            if product > u32::MAX as u64 {
                                None
                            } else {
                                Some(product as u32)
                            }
                        },
                        None => {
                            assert(self@.size() > u32::MAX) by (nonlinear_arith)
                                requires
                                    self@.size() == (*array.element_type)@.size() * (
                                    array.length as nat),
                                    array.length >= 1,
                                    (*array.element_type)@.size() > u32::MAX,
                            ;
                            None
                        },
                    }
                }
            },
            Type::Vector(vector) => {
                assert(vector.component_type.bytes() * vector.component_count <= 8 * 0xFFFF_FFFF)
                    by (nonlinear_arith)
                    requires
                        vector.component_type.bytes() <= 8,
                        vector.component_count <= 0xFFFF_FFFF,
                ;
                let product: u64 = (vector.component_type.size() as u64) * (
                vector.component_count as u64);
                if product > u32::MAX as u64 {
                    None
                } else {
                    Some(product as u32)
                }
            },
            Type::Struct(structure) => {
                if structure.layout.size > u32::MAX as usize {
                    None
                } else {
                    Some(structure.layout.size as u32)
                }
            },
        }
    }

    /// The size and alignment of a value of the type, where it can be placed in a
    /// structure.
    pub fn checked_layout(&self) -> (layout: Option<Layout>)
        ensures
            layout is Some <==> self@.placeable(),
            layout is Some ==> layout->0.size == self@.size() && layout->0.align
                == self@.alignment(),
    {
        let align: usize = self.alignment();
        if align == 0 {
            return None;
        }
        match self.checked_size() {
            Some(size) => Some(Layout { size: size as usize, align }),
            None => None,
        }
    }

    /// The number of bytes that a value of the array type takes.
    pub fn array_size(array: &Array) -> (size: usize)
        requires
            array@.size() <= usize::MAX,
        ensures
            size == array@.size(),
        decreases array,
    {
        if array.length == 0 {
            assert(array@.size() == 0) by (nonlinear_arith)
                requires
                    array@.size() == (*array.element_type)@.size() * (array.length as nat),
                    array.length == 0,
            ;
            0
        } else {
            assert((*array.element_type)@.size() <= array@.size()) by (nonlinear_arith)
                requires
                    array@.size() == (*array.element_type)@.size() * (array.length as nat),
                    array.length >= 1,
            ;
            let element: usize = array.element_type.size();
            element * (array.length as usize)
        }
    }

    /// The number of bytes that a value of the type takes.
    pub fn size(&self) -> (size: usize)
        requires
            self@.size() <= usize::MAX,
        ensures
            size == self@.size(),
        decreases self,
    {
        match self {
            Type::Scalar(scalar) => scalar.size(),
            Type::Array(array) => Type::array_size(array),
            Type::Vector(vector) => vector.size(),
            Type::Struct(structure) => structure.layout.size,
        }
    }

    /// The size and alignment of a value of the type.
    pub fn layout(&self) -> (layout: Layout)
        requires
            self@.size() <= usize::MAX,
        ensures
            layout.size == self@.size(),
            layout.align == self@.alignment(),
    {
        Layout { size: self.size(), align: self.alignment() }
    }
}

} // verus!
