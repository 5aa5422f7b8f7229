//! Sizes, alignments and the rounding that layouts are made of.

use vstd::prelude::*;

verus! {

/// The size and alignment of a block of memory, in bytes.
#[derive(Clone, Copy, Debug, PartialEq, Eq, Structural)]
pub struct Layout {
    pub size: usize,
    pub align: usize,
}

/// The smallest multiple of `align` that is not below `cursor`.
pub open spec fn round_up(cursor: nat, align: nat) -> nat
    recommends
        align >= 1,
{
    if cursor % align == 0 {
        cursor
    } else {
        (cursor + (align - cursor % align)) as nat
    }
}

/// `round_up` gives a multiple of `align` that is not below `cursor` and less
/// than `align` above it.
pub proof fn lemma_round_up(cursor: nat, align: nat)
    requires
        align >= 1,
    ensures
        round_up(cursor, align) >= cursor,
        round_up(cursor, align) < cursor + align,
        round_up(cursor, align) % align == 0,
{
    let rounded = round_up(cursor, align);
    assert(rounded % align == 0 && rounded >= cursor && rounded < cursor + align) by (nonlinear_arith)
        requires
            align >= 1,
            rounded == if cursor % align == 0 {
                cursor
            } else {
                (cursor + (align - cursor % align)) as nat
            },
    ;
}

/// No multiple of `align` lies between `cursor` and `round_up(cursor, align)`.
pub proof fn lemma_round_up_least(cursor: nat, align: nat, other: nat)
    requires
        align >= 1,
        other >= cursor,
        other % align == 0,
    ensures
        other >= round_up(cursor, align),
{
    lemma_round_up(cursor, align);
    let rounded = round_up(cursor, align);
    if other < rounded {
        assert(false) by (nonlinear_arith)
            requires
                align >= 1,
                cursor <= other < rounded,
                rounded < cursor + align,
                other % align == 0,
                rounded % align == 0,
        ;
    }
}

/// Rounds `cursor` up to a multiple of `align`, where the result fits in 32 bits.
pub fn align_up(cursor: u32, align: usize) -> (rounded: Option<u32>)
    requires
        align >= 1,
    ensures
        match rounded {
            Some(value) => value == round_up(cursor as nat, align as nat),
            None => round_up(cursor as nat, align as nat) > u32::MAX,
        },
{
    let wide_align: u64 = align as u64;
    let wide_cursor: u64 = cursor as u64;
    let rest: u64 = wide_cursor % wide_align;
    if rest == 0 {
        Some(cursor)
    } else {
        let gap: u64 = wide_align - rest;
        let room: u64 = u32::MAX as u64 - wide_cursor;
        if gap > room {
            None
        } else {
            let rounded: u64 = wide_cursor + gap;
            Some(rounded as u32)
        }
    }
}

} // verus!
