//! The framing of a SPIR-V binary: the header and the word counts of the
//! instructions that follow it.
//!
//! A binary is walked from instruction to instruction by the word counts alone,
//! before any instruction is decoded. The walk finds the instructions that run
//! over the end of the binary, and the specialization constant operations that
//! name an instruction which cannot stand inside one.

use vstd::prelude::*;

verus! {

/// What is wrong with the framing of a binary.
#[derive(Clone, Copy, Debug, PartialEq, Eq, Structural)]
pub enum FrameFault {
    /// The instruction at byte `offset` has a word count that reaches beyond the
    /// end of the binary.
    Truncated { offset: usize },
    /// The `OpSpecConstantOp` at byte `offset` names one of the instructions
    /// `OpConstant`, `OpSpecConstant`, `OpSpecConstantOp` and `OpSwitch`.
    UnsuitableOperation { offset: usize },
}

/// The number that opens every SPIR-V binary.
pub const MAGIC_NUMBER: u32 = 0x07230203;

/// The number of bytes of the header: five words.
pub const HEADER_BYTES: usize = 20;

/// The opcode of `OpSpecConstantOp`.
pub const SPEC_CONSTANT_OP: u32 = 52;

/// The word that the four bytes from `offset` on hold, lowest byte first.
pub open spec fn word_at(bytes: Seq<u8>, offset: int) -> u32
    recommends
        0 <= offset,
        offset + 4 <= bytes.len(),
{
    (bytes[offset] as int + 256 * (bytes[offset + 1] as int) + 65536 * (bytes[offset + 2] as int)
        + 16777216 * (bytes[offset + 3] as int)) as u32
}

/// Whether the binary has a whole header that opens with the magic number.
pub open spec fn has_header(bytes: Seq<u8>) -> bool {
    bytes.len() >= HEADER_BYTES && word_at(bytes, 0) == MAGIC_NUMBER
}

/// Whether `opcode` names an instruction that cannot stand inside a
/// specialization constant operation: `OpConstant`, `OpSpecConstant`,
/// `OpSpecConstantOp` or `OpSwitch`.
pub open spec fn unsuitable(opcode: u32) -> bool {
    opcode == 43 || opcode == 50 || opcode == 52 || opcode == 251
}

/// The word count of the instruction that opens with the word `head`.
pub open spec fn word_count(head: u32) -> int {
    head as int / 65536
}

/// The opcode of the instruction that opens with the word `head`.
pub open spec fn opcode_of(head: u32) -> u32 {
    (head as int % 65536) as u32
}

/// The fault of the instruction at byte `offset`, where it has one.
pub open spec fn fault_at(bytes: Seq<u8>, offset: int) -> Option<FrameFault> {
    let head = word_at(bytes, offset);
    if offset + 4 * word_count(head) > bytes.len() {
        Some(FrameFault::Truncated { offset: offset as usize })
    } else if opcode_of(head) == SPEC_CONSTANT_OP && word_count(head) >= 4 && unsuitable(
        word_at(bytes, offset + 12),
    ) {
        Some(FrameFault::UnsuitableOperation { offset: offset as usize })
    } else {
        None
    }
}

/// The first fault among the instructions from byte `offset` on.
///
/// The walk goes from one instruction to the next by the word counts. It ends
/// where less than a word is left, and at an instruction with a word count of
/// zero, which has no next instruction.
pub open spec fn fault_from(bytes: Seq<u8>, offset: int) -> Option<FrameFault>
    decreases bytes.len() - offset,
{
    if offset < 0 || offset + 4 > bytes.len() {
        None
    } else if word_count(word_at(bytes, offset)) == 0 {
        None
    } else {
        match fault_at(bytes, offset) {
            Some(fault) => Some(fault),
            None => fault_from(bytes, offset + 4 * word_count(word_at(bytes, offset))),
        }
    }
}

/// The first fault in the framing of the binary. A binary without a whole
/// header, or with another magic number, holds no instructions and so has none.
pub open spec fn frame_fault(bytes: Seq<u8>) -> Option<FrameFault> {
    if has_header(bytes) {
        fault_from(bytes, HEADER_BYTES as int)
    } else {
        None
    }
}

/// Whether the binary is framed: every instruction after the header ends
/// within the binary, and no specialization constant operation names an
/// unsuitable instruction.
pub open spec fn framed(bytes: Seq<u8>) -> bool {
    frame_fault(bytes) is None
}

/// Reads the word that the four bytes from `offset` on hold.
pub fn read_word(bytes: &[u8], offset: usize) -> (word: u32)
    requires
        offset + 4 <= bytes@.len(),
    ensures
        word == word_at(bytes@, offset as int),
{
    let first: u32 = bytes[offset] as u32;
    let second: u32 = bytes[offset + 1] as u32;
    let third: u32 = bytes[offset + 2] as u32;
    let fourth: u32 = bytes[offset + 3] as u32;
    first + 256 * second + 65536 * third + 16777216 * fourth
}

/// Walks the framing of the binary and reports its first fault.
pub fn check_frame(bytes: &[u8]) -> (fault: Option<FrameFault>)
    ensures
        fault == frame_fault(bytes@),
        fault is None <==> framed(bytes@),
{
    let length: usize = bytes.len();
    if length < HEADER_BYTES {
        return None;
    }
    if read_word(bytes, 0) != MAGIC_NUMBER {
        return None;
    }
    let mut offset: usize = HEADER_BYTES;
    loop
        invariant
            HEADER_BYTES <= offset <= length,
            length == bytes@.len(),
            frame_fault(bytes@) == fault_from(bytes@, offset as int),
        decreases length - offset,
    {
        if length - offset < 4 {
            return None;
        }
        let head: u32 = read_word(bytes, offset);
        let count: usize = (head / 65536) as usize;
        let opcode: u32 = head % 65536;
        if count == 0 {
            return None;
        }
        if count > (length - offset) / 4 {
            return Some(FrameFault::Truncated { offset });
        }
        if opcode == SPEC_CONSTANT_OP && count >= 4 {
            let named: u32 = read_word(bytes, offset + 12);
            if named == 43 || named == 50 || named == 52 || named == 251 {
                return Some(FrameFault::UnsuitableOperation { offset });
            }
        }
        offset = offset + 4 * count;
    }
}

} // verus!
