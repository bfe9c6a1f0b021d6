//! Binary-coded-decimal helper shared by the CPER timestamp codec.

use vstd::prelude::*;

verus! {

/// The packed BCD form of `b`: tens in the high nibble, units in the
/// low nibble.
pub open spec fn spec_bin_to_bcd(b: u8) -> u8 {
    (((b / 10) << 4) | (b % 10)) as u8
}

/// Packs a binary value below 100 into one BCD byte.
pub fn bin_to_bcd(byte: u8) -> (r: u8)
    ensures
        r == spec_bin_to_bcd(byte),
{
    (byte / 10) << 4 | (byte % 10)
}

} // verus!
