//! Times of the lease database: seconds since the epoch, in 32 bits.
use vstd::prelude::*;

verus! {

/// The low 32 bits of a number.
pub open spec fn low_half(n: u64) -> u32 {
    (n % 0x1_0000_0000) as u32
}

/// Cuts a number to its low 32 bits.
pub fn truncate(n: u64) -> (r: u32)
    ensures
        r == low_half(n),
{
    (n % 0x1_0000_0000) as u32
}

} // verus!
