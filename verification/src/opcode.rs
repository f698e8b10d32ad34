use vstd::prelude::*;

verus! {

/// The instruction family: the opcode's top nibble.
pub open spec fn family(op: u16) -> int {
    op as int / 4096
}

/// The address operand `nnn`: the opcode's low twelve bits.
pub open spec fn addr_of(op: u16) -> u16 {
    (op % 4096) as u16
}

/// The register operand `x`: the opcode's second nibble.
pub open spec fn x_of(op: u16) -> int {
    (op as int / 256) % 16
}

/// The register operand `y`: the opcode's third nibble.
pub open spec fn y_of(op: u16) -> int {
    (op as int / 16) % 16
}

/// The byte operand `kk`: the opcode's low byte.
pub open spec fn byte_of(op: u16) -> u8 {
    (op % 256) as u8
}

/// The nibble operand `n`: the opcode's low nibble.
pub open spec fn nibble_of(op: u16) -> int {
    op as int % 16
}

/// The opcode's top nibble.
pub(crate) fn family_bits(op: u16) -> (f: u16)
    ensures
        f == family(op),
        f < 16,
{
    assert((op & 0xF000u16) >> 12u16 == op / 4096) by (bit_vector);
    (op & 0xF000) >> 12
}

/// The address operand `nnn`.
pub(crate) fn addr_bits(op: u16) -> (nnn: u16)
    ensures
        nnn == addr_of(op),
        nnn < 4096,
{
    assert(op & 0x0FFFu16 == op % 4096) by (bit_vector);
    op & 0x0FFF
}

/// The register operand `x`.
pub(crate) fn x_bits(op: u16) -> (x: usize)
    ensures
        x == x_of(op),
        x < 16,
{
    assert((op & 0x0F00u16) >> 8u16 == (op / 256) % 16) by (bit_vector);
    ((op & 0x0F00) >> 8) as usize
}

/// The register operand `y`.
pub(crate) fn y_bits(op: u16) -> (y: usize)
    ensures
        y == y_of(op),
        y < 16,
{
    assert((op & 0x00F0u16) >> 4u16 == (op / 16) % 16) by (bit_vector);
    ((op & 0x00F0) >> 4) as usize
}

/// The byte operand `kk`.
pub(crate) fn byte_bits(op: u16) -> (kk: u8)
    ensures
        kk == byte_of(op),
{
    assert(op & 0x00FFu16 == op % 256) by (bit_vector);
    (op & 0x00FF) as u8
}

/// The nibble operand `n`.
pub(crate) fn nibble_bits(op: u16) -> (n: u8)
    ensures
        n == nibble_of(op),
        n < 16,
{
    assert(op & 0x000Fu16 == op % 16) by (bit_vector);
    (op & 0x000F) as u8
}

} // verus!
