//! The failures that reflection reports.

use vstd::prelude::*;

verus! {

/// Why a list of fields could not be laid out.
#[derive(Clone, Copy, Debug, PartialEq, Eq, Structural)]
pub enum LayoutError {
    /// The field at `index` has a size above `u32::MAX` or an alignment of zero.
    InvalidField { index: usize },
    /// The field at `index` asks for an offset below the end of the field before it.
    Overlap { index: usize, offset: u32, cursor: u32 },
    /// With the field at `index` the structure grows beyond `u32::MAX` bytes;
    /// `index` is the number of fields where the closing padding does so.
    TooLarge { index: usize },
}

/// Why a module could not be reflected.
#[derive(Clone, Copy, Debug, PartialEq, Eq, Structural)]
pub enum ReflectError {
    /// Two declarations of the module define the same id.
    DuplicateId { id: u32 },
    /// The scalar type declared by `id` has a bit width that is not supported.
    UnsupportedWidth { id: Option<u32>, width: u32 },
    /// The integer type declared by `id` has a signedness other than 0 or 1.
    InvalidSignedness { id: Option<u32>, signedness: u32 },
    /// Member `member` of the structure `structure` has no `Offset` decoration.
    MissingOffset { structure: u32, member: u32 },
    /// The members of the structure `structure` cannot be laid out.
    Layout { structure: u32, error: LayoutError },
    /// The declarations reached from `id` nest deeper than the resolver follows.
    TooDeep { id: Option<u32> },
    /// The push constant variable `variable` does not point to a structure.
    PushConstantNotStruct { variable: u32 },
    /// The module declares a second push constant variable, `variable`.
    DuplicatePushConstant { variable: u32 },
    /// The vertex inputs or specialization constants cannot be laid out.
    SyntheticLayout { error: LayoutError },
}

} // verus!
