//! The fields of a 16-bit CHIP-8 opcode.

use vstd::prelude::*;

verus! {

/// The highest nibble: the instruction family.
pub open spec fn family(op: u16) -> int {
    op as int / 4096
}

/// The second nibble, `X`: usually a register index.
pub open spec fn reg_x(op: u16) -> int {
    (op as int / 256) % 16
}

/// The third nibble, `Y`: usually a register index.
pub open spec fn reg_y(op: u16) -> int {
    (op as int / 16) % 16
}

/// The lowest nibble, `N`.
pub open spec fn low_nibble(op: u16) -> int {
    op as int % 16
}

/// The low byte, `NN`.
pub open spec fn low_byte(op: u16) -> int {
    op as int % 256
}

/// The low twelve bits, `NNN`: an address.
pub open spec fn address(op: u16) -> int {
    op as int % 4096
}

/// `X` and `NN` are the high nibble and the low byte of the address `NNN`,
/// so two opcodes with the same `NNN` have the same `X` and `NN`.
pub proof fn lemma_address_fields(op: u16)
    ensures
        reg_x(op) == address(op) / 256,
        low_byte(op) == address(op) % 256,
{
    assert((op / 256) % 16 == (op % 4096) / 256) by (bit_vector);
    assert(op % 256 == (op % 4096) % 256) by (bit_vector);
}

/// The five fields of an opcode, split out with masks and shifts.
pub struct Fields {
    pub first: u16,
    pub x: u16,
    pub y: u16,
    pub n: u16,
    pub nn: u8,
    pub nnn: u16,
}

/// Splits an opcode into its nibbles, its low byte and its low twelve bits.
pub fn split(op_code: u16) -> (f: Fields)
    ensures
        f.first == family(op_code),
        f.x == reg_x(op_code),
        f.y == reg_y(op_code),
        f.n == low_nibble(op_code),
        f.nn == low_byte(op_code),
        f.nnn == address(op_code),
{
    let first = (op_code & 0b1111000000000000) >> 12;
    let x = (op_code & 0b0000111100000000) >> 8;
    let y = (op_code & 0b0000000011110000) >> 4;
    let n = op_code & 0b0000000000001111;
    let nn16 = op_code & 0b0000_0000_1111_1111;
    let nnn = op_code & 0b0000_1111_1111_1111;
    assert(first == op_code / 4096) by (bit_vector)
        requires first == (op_code & 0b1111000000000000) >> 12;
    assert(x == (op_code / 256) % 16) by (bit_vector)
        requires x == (op_code & 0b0000111100000000) >> 8;
    assert(y == (op_code / 16) % 16) by (bit_vector)
        requires y == (op_code & 0b0000000011110000) >> 4;
    assert(n == op_code % 16) by (bit_vector)
        requires n == op_code & 0b0000000000001111;
    assert(nn16 == op_code % 256) by (bit_vector)
        requires nn16 == op_code & 0b0000_0000_1111_1111;
    assert(nnn == op_code % 4096) by (bit_vector)
        requires nnn == op_code & 0b0000_1111_1111_1111;
    Fields { first, x, y, n, nn: nn16 as u8, nnn }
}

} // verus!
