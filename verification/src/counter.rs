//! Counters that wrap.

use vstd::prelude::*;

verus! {

/// Adds one, from the maximum to zero.
pub open spec fn next(n: u32) -> u32 {
    if n == u32::MAX {
        0
    } else {
        (n + 1) as u32
    }
}

/// A counter goes up by one and starts again at zero after the largest number.
pub proof fn law_counts_up(n: u32)
    ensures
        next(n) as int == (n + 1) % 0x1_0000_0000,
{
}

} // verus!
