//! Integer and floating point scalars.

use super::vector::{format_of, write_format, Vector};
use vstd::prelude::*;

verus! {

/// An integer or floating point type of 1, 2, 4 or 8 bytes.
#[derive(Clone, Copy, Debug, PartialEq, Eq, Hash, Structural)]
pub enum Scalar {
    U8,
    U16,
    U32,
    U64,
    I8,
    I16,
    I32,
    I64,
    F32,
    F64,
}

impl Scalar {
    /// The number of bytes that a value takes.
    pub open spec fn bytes(self) -> nat {
        match self {
            Scalar::U8 | Scalar::I8 => 1,
            Scalar::U16 | Scalar::I16 => 2,
            Scalar::U32 | Scalar::I32 | Scalar::F32 => 4,
            Scalar::U64 | Scalar::I64 | Scalar::F64 => 8,
        }
    }

    /// The number of bytes that a value takes.
    pub fn size(&self) -> (size: usize)
        ensures
            size == self.bytes(),
    {
        match self {
            Scalar::U8 | Scalar::I8 => 1,
            Scalar::U16 | Scalar::I16 => 2,
            Scalar::U32 | Scalar::I32 | Scalar::F32 => 4,
            Scalar::U64 | Scalar::I64 | Scalar::F64 => 8,
        }
    }

    /// The name of the Rust type that holds a value.
    pub open spec fn rust_name(self) -> Seq<char> {
        match self {
            Scalar::U8 => "u8"@,
            Scalar::U16 => "u16"@,
            Scalar::U32 => "u32"@,
            Scalar::U64 => "u64"@,
            Scalar::I8 => "i8"@,
            Scalar::I16 => "i16"@,
            Scalar::I32 => "i32"@,
            Scalar::I64 => "i64"@,
            Scalar::F32 => "f32"@,
            Scalar::F64 => "f64"@,
        }
    }

    /// Names the Rust type that holds a value.
    pub fn rust_type(&self) -> (name: &'static str)
        ensures
            name@ == self.rust_name(),
    {
        match self {
            Scalar::U8 => "u8",
            Scalar::U16 => "u16",
            Scalar::U32 => "u32",
            Scalar::U64 => "u64",
            Scalar::I8 => "i8",
            Scalar::I16 => "i16",
            Scalar::I32 => "i32",
            Scalar::I64 => "i64",
            Scalar::F32 => "f32",
            Scalar::F64 => "f64",
        }
    }

    /// The numeric format of a value: unsigned integer, signed integer or
    /// signed floating point.
    pub open spec fn numeric_format(self) -> Seq<char> {
        match self {
            Scalar::U8 | Scalar::U16 | Scalar::U32 | Scalar::U64 => "UINT"@,
            Scalar::I8 | Scalar::I16 | Scalar::I32 | Scalar::I64 => "SINT"@,
            Scalar::F32 | Scalar::F64 => "SFLOAT"@,
        }
    }

    /// Names the numeric format of a value.
    pub fn numeric_format_name(&self) -> (name: &'static str)
        ensures
            name@ == self.numeric_format(),
    {
        match self {
            Scalar::U8 | Scalar::U16 | Scalar::U32 | Scalar::U64 => "UINT",
            Scalar::I8 | Scalar::I16 | Scalar::I32 | Scalar::I64 => "SINT",
            Scalar::F32 | Scalar::F64 => "SFLOAT",
        }
    }

    /// The alignment of a value: a scalar is aligned to its own size.
    pub fn alignment(&self) -> (align: usize)
        ensures
            align == self.bytes(),
    {
        self.size()
    }
}

impl Scalar {
    /// Names the Vulkan format of a vertex attribute of this type: that of a
    /// vector of one component.
    pub fn format_name(&self) -> (name: String)
        ensures
            Some(name@) == format_of(Vector { component_type: *self, component_count: 1 }),
    {
        write_format(*self, 1)
    }
}

} // verus!
