//! Bit-field decoding of 16-bit instruction words.
//!
//! An instruction word packs an operation class `c`, two register indices
//! `x` and `y`, a literal nibble `d`, a 12-bit address `nnn` and an 8-bit
//! immediate `kk` into fixed bit fields. Decoding is pure and total: every
//! word decodes; whether the operation is recognized is the dispatcher's
//! concern.

use vstd::prelude::*;

verus! {

/// Operation class: bits 15..12 of the word.
pub open spec fn op_class(word: u16) -> u8 {
    ((word >> 12) & 0xF) as u8
}

/// First register operand: bits 11..8 of the word.
pub open spec fn op_x(word: u16) -> u8 {
    ((word >> 8) & 0xF) as u8
}

/// Second register operand: bits 7..4 of the word.
pub open spec fn op_y(word: u16) -> u8 {
    ((word >> 4) & 0xF) as u8
}

/// Literal nibble: bits 3..0 of the word.
pub open spec fn op_d(word: u16) -> u8 {
    (word & 0xF) as u8
}

/// Address operand: the low 12 bits of the word.
pub open spec fn op_nnn(word: u16) -> u16 {
    word & 0x0FFF
}

/// Immediate operand: the low 8 bits of the word.
pub open spec fn op_kk(word: u16) -> u8 {
    (word & 0x00FF) as u8
}

/// Every 4-bit field decodes below 16, and the address field below 0x1000.
pub proof fn lemma_fields_bounded(word: u16)
    by (bit_vector)
    ensures
        op_class(word) < 16,
        op_x(word) < 16,
        op_y(word) < 16,
        op_d(word) < 16,
        op_nnn(word) < 0x1000,
{
}

/// One decoded instruction: six bit-field views of the same 16-bit word,
/// derived each step and never stored.
pub struct Instr {
    /// Operation class, bits 15..12.
    pub c: u8,
    /// First register operand, bits 11..8.
    pub x: u8,
    /// Second register operand, bits 7..4.
    pub y: u8,
    /// Literal nibble, bits 3..0.
    pub d: u8,
    /// Address operand, bits 11..0.
    pub nnn: u16,
    /// Immediate operand, bits 7..0.
    pub kk: u8,
}

/// Decode a 16-bit instruction word into its bit fields.
///
/// Pure and total: no failure mode, and each extracted field equals the
/// corresponding bit slice of the word.
pub fn decode(word: u16) -> (r: Instr)
    ensures
        r.c == op_class(word),
        r.x == op_x(word),
        r.y == op_y(word),
        r.d == op_d(word),
        r.nnn == op_nnn(word),
        r.kk == op_kk(word),
        r.c < 16,
        r.x < 16,
        r.y < 16,
        r.d < 16,
        r.nnn < 0x1000,
{
    proof {
        lemma_fields_bounded(word);
    }
    Instr {
        c: ((word >> 12) & 0xF) as u8,
        x: ((word >> 8) & 0xF) as u8,
        y: ((word >> 4) & 0xF) as u8,
        d: (word & 0xF) as u8,
        nnn: word & 0x0FFF,
        kk: (word & 0x00FF) as u8,
    }
}

} // verus!
