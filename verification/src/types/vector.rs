//! Vectors of scalars.

use super::scalar::Scalar;
use crate::text::{decimal, push_decimal};
use vstd::prelude::*;

verus! {

/// A vector of `component_count` scalars.
#[derive(Clone, Copy, Debug, PartialEq, Eq, Hash, Structural)]
pub struct Vector {
    pub component_type: Scalar,
    pub component_count: u32,
}

/// The letter of the channel at `position`.
pub open spec fn channel(position: int) -> Seq<char> {
    if position == 0 {
        "R"@
    } else if position == 1 {
        "G"@
    } else if position == 2 {
        "B"@
    } else {
        "A"@
    }
}

/// The first `count` channels of a format, each with its width in bits.
pub open spec fn channels(bits: nat, count: int) -> Seq<char>
    decreases count,
{
    if count <= 0 {
        Seq::empty()
    } else {
        channels(bits, count - 1) + channel(count - 1) + decimal(bits)
    }
}

/// The name of the Vulkan format of a vertex attribute that is a vector: its
/// channels with their widths, `_` and the numeric format of its components.
/// Only vectors of 1 to 4 components have a format.
pub open spec fn format_of(vector: Vector) -> Option<Seq<char>> {
    if 1 <= vector.component_count <= 4 {
        Some(
            channels(vector.component_type.bytes() * 8, vector.component_count as int) + "_"@
                + vector.component_type.numeric_format(),
        )
    } else {
        None
    }
}

fn channel_name(position: u32) -> (name: &'static str)
    ensures
        name@ == channel(position as int),
{
    match position {
        0 => "R",
        1 => "G",
        2 => "B",
        _ => "A",
    }
}

/// Writes the name of the format of `count` channels of type `component`.
pub fn write_format(component: Scalar, count: u32) -> (name: String)
    requires
        1 <= count <= 4,
    ensures
        Some(name@) == format_of(Vector { component_type: component, component_count: count }),
{
    let bits: u32 = (component.size() * 8) as u32;
    let mut text = String::new();
    let mut position: u32 = 0;
    while position < count
        invariant
            position <= count <= 4,
            bits == component.bytes() * 8,
            text@ == channels(bits as nat, position as int),
        decreases count - position,
    {
        text.append(channel_name(position));
        push_decimal(&mut text, bits);
        position = position + 1;
    }
    text.append("_");
    text.append(component.numeric_format_name());
    text
}

impl Vector {
    /// Names the Vulkan format of a vertex attribute of this type, if it has one.
    pub fn format_name(&self) -> (name: Option<String>)
        ensures
            match format_of(*self) {
                Some(value) => name is Some && name->0@ == value,
                None => name is None,
            },
    {
        if self.component_count < 1 || self.component_count > 4 {
            None
        } else {
            Some(write_format(self.component_type, self.component_count))
        }
    }
}

impl Vector {
    /// The number of bytes that a value takes: the components follow one another.
    pub open spec fn bytes(self) -> nat {
        self.component_type.bytes() * (self.component_count as nat)
    }

    /// The number of bytes that a value takes.
    pub fn size(&self) -> (size: usize)
        requires
            self.bytes() <= usize::MAX,
        ensures
            size == self.bytes(),
    {
        self.component_type.size() * (self.component_count as usize)
    }

    /// The alignment of a value: that of its components.
    pub fn alignment(&self) -> (align: usize)
        ensures
            align == self.component_type.bytes(),
    {
        self.component_type.alignment()
    }
}

} // verus!
