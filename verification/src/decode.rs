//! Decoding an instruction word into its four nibble fields and the
//! composite immediate forms. Pure field extraction; it cannot fail.

use vstd::prelude::*;

verus! {

/// Most-significant nibble: the operation class.
pub open spec fn nib_op(op: u16) -> u16 {
    (op >> 12) & 0xF
}

/// Second nibble: usually a register index.
pub open spec fn nib_x(op: u16) -> u16 {
    (op >> 8) & 0xF
}

/// Third nibble: usually a second register index.
pub open spec fn nib_y(op: u16) -> u16 {
    (op >> 4) & 0xF
}

/// Least-significant nibble.
pub open spec fn nib_n(op: u16) -> u16 {
    op & 0xF
}

/// 8-bit immediate: the low byte of the instruction word.
pub open spec fn imm_byte(op: u16) -> u8 {
    (op & 0xFF) as u8
}

/// 12-bit address: the low 12 bits of the instruction word.
pub open spec fn imm_addr(op: u16) -> u16 {
    op & 0xFFF
}

/// The nibble fields are 4-bit and the composite immediates are 8- and
/// 12-bit, whatever the instruction word.
pub proof fn lemma_decode_bounds(op: u16)
    by (bit_vector)
    ensures
        (op >> 12) & 0xF < 16,
        (op >> 8) & 0xF < 16,
        (op >> 4) & 0xF < 16,
        op & 0xF < 16,
        op & 0xFF < 256,
        op & 0xFFF < 4096,
{
}

/// Splits an instruction word into its four nibble fields,
/// most-significant first.
pub fn decode(op: u16) -> (r: (u16, u16, u16, u16))
    ensures
        r.0 == nib_op(op) && r.1 == nib_x(op) && r.2 == nib_y(op) && r.3 == nib_n(op),
        r.0 < 16 && r.1 < 16 && r.2 < 16 && r.3 < 16,
{
    proof {
        lemma_decode_bounds(op);
    }
    ((op >> 12) & 0xF, (op >> 8) & 0xF, (op >> 4) & 0xF, op & 0xF)
}

/// Extracts the 8-bit immediate.
pub fn decode_imm_byte(op: u16) -> (r: u8)
    ensures
        r == imm_byte(op),
{
    (op & 0xFF) as u8
}

/// Extracts the 12-bit address immediate.
pub fn decode_imm_addr(op: u16) -> (r: u16)
    ensures
        r == imm_addr(op),
        r < 4096,
{
    proof {
        lemma_decode_bounds(op);
    }
    op & 0xFFF
}

} // verus!
