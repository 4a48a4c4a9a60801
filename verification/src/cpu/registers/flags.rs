use vstd::prelude::*;

verus! {

/// Bit of the flag register that holds the zero flag.
pub const Z: u8 = 7;

/// Bit of the flag register that holds the subtract flag.
pub const N: u8 = 6;

/// Bit of the flag register that holds the half-carry flag.
pub const H: u8 = 5;

/// Bit of the flag register that holds the carry flag.
pub const C: u8 = 4;

} // verus!
