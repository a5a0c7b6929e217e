use vstd::prelude::*;

verus! {

/// The least-significant bit of a byte.
pub open spec fn spec_last_bit(byte: u8) -> u8 {
    byte & 1
}

/// A byte whose least-significant bit is forced to 1 (when `x == 1`) or to 0
/// (otherwise), with every higher bit unchanged.
pub open spec fn spec_with_last_bit(byte: u8, x: u8) -> u8 {
    if x == 1 {
        byte | 1
    } else {
        byte & !1
    }
}

/// Set or clear the least-significant bit of a byte: `byte | 1` when `x == 1`,
/// `byte & !1` otherwise.
pub fn byte_with_x_last_bit(byte: &u8, x: u8) -> (r: u8)
    ensures
        r == spec_with_last_bit(*byte, x),
{
    if x == 1 {
        *byte | 1
    } else {
        *byte & !1
    }
}

/// Read the least-significant bit of a byte.
pub fn get_last_bit_of_byte(byte: &u8) -> (r: u8)
    ensures
        r == spec_last_bit(*byte),
{
    *byte & 1
}

} // verus!
