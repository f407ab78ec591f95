//! Baud rate of a serial port.

use vstd::prelude::*;

verus! {

/// The divisor that brings a port's clock closest to a baud rate: the quotient,
/// rounded to nearest and up when between two.
pub fn baud_divisor(clock_hz: u32, baud: u32) -> (d: u32)
    requires
        0 < baud,
        clock_hz + baud / 2 <= u32::MAX,
    ensures
        2 * d * baud <= 2 * clock_hz + baud,
        2 * clock_hz < 2 * d * baud + baud,
{
    let d: u32 = (clock_hz + baud / 2) / baud;
    proof {
        let n = clock_hz + baud / 2;
        assert(n / baud as int * baud <= n < n / baud as int * baud + baud) by (nonlinear_arith)
            requires
                0 < baud,
                0 <= n,
        ;
        assert(2 * d * baud == 2 * (d * baud)) by (nonlinear_arith);
    }
    d
}

} // verus!
