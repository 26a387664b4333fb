use vstd::prelude::*;

pub mod assembler;
pub mod ast;
pub mod cpu;
pub mod memory;
pub mod opcodes;
pub mod parser;
pub mod register;
pub mod semantics;
pub mod text;

verus! {

/// The size of a register in bytes.
pub const REGISTER_SIZE: usize = 2;

/// The value of two bytes read big-endian.
pub open spec fn be16(hi: u8, lo: u8) -> int {
    (hi as int) * 256 + (lo as int)
}

/// The most significant byte of a 16-bit value.
pub open spec fn hi_byte(v: u16) -> u8 {
    (v / 256) as u8
}

/// The least significant byte of a 16-bit value.
pub open spec fn lo_byte(v: u16) -> u8 {
    (v % 256) as u8
}

/// Splitting a value into its two bytes and reading them back gives the value.
pub proof fn lemma_be16_round_trip(v: u16)
    ensures
        be16(hi_byte(v), lo_byte(v)) == v,
{
}

/// Reads a big-endian 16-bit value from the first two bytes of a slice.
pub fn to_u16(iter: &[u8]) -> (r: u16)
    requires
        iter@.len() >= 2,
    ensures
        r == be16(iter@[0], iter@[1]),
{
    (iter[0] as u16) * 256 + (iter[1] as u16)
}

/// The two bytes of a 16-bit value, most significant first.
pub fn to_be_bytes(v: u16) -> (r: [u8; 2])
    ensures
        r@ == seq![hi_byte(v), lo_byte(v)],
{
    let r = [(v / 256) as u8, (v % 256) as u8];
    assert(r@ =~= seq![hi_byte(v), lo_byte(v)]);
    r
}

} // verus!
