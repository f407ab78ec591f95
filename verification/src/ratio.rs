//! Exact fractions, for quantities in physical units.

use vstd::prelude::*;

verus! {

/// The fraction `num / den`.
#[derive(Debug, Clone, Copy, PartialEq, Eq, Structural)]
pub struct Ratio {
    pub num: i64,
    pub den: u32,
}

impl Ratio {
    /// `count * num / den`.
    pub open spec fn spec_of(count: int, num: u16, den: u16) -> Ratio {
        Ratio { num: (count * num) as i64, den: den as u32 }
    }

    /// `count * num / den`.
    pub fn of(count: i32, num: u16, den: u16) -> (r: Self)
        ensures
            r == Self::spec_of(count as int, num, den),
            r.num == count * num,
    {
        assert(-0x8000_0000 * 0x1_0000 <= count * num <= 0x8000_0000 * 0x1_0000)
            by (nonlinear_arith)
            requires
                -0x8000_0000 <= count < 0x8000_0000,
                0 <= num < 0x1_0000,
        ;
        Ratio { num: count as i64 * num as i64, den: den as u32 }
    }
}

/// Division that rounds towards zero.
pub open spec fn toward_zero(n: int, d: int) -> int {
    if n >= 0 {
        n / d
    } else {
        -((-n) / d)
    }
}

/// Division that rounds towards zero.
pub fn div_toward_zero(n: i64, d: i64) -> (q: i64)
    requires
        d > 0,
        n > i64::MIN,
    ensures
        q == toward_zero(n as int, d as int),
{
    if n >= 0 {
        n / d
    } else {
        assert((-n) / d as int >= 0) by (nonlinear_arith)
            requires
                n < 0,
                d > 0,
        ;
        assert((-n) / d as int <= -n) by (nonlinear_arith)
            requires
                n < 0,
                d > 0,
        ;
        -((-n) / d)
    }
}

// ---- Laws ----

/// A fraction of a count is what it says.
pub proof fn law_fraction_of_a_count(count: int, num: u16, den: u16)
    requires
        -0x8000_0000 <= count < 0x8000_0000,
    ensures
        Ratio::spec_of(count, num, den).num == count * num,
        Ratio::spec_of(count, num, den).den == den,
{
    assert(-0x8000_0000 * 0x1_0000 <= count * num <= 0x8000_0000 * 0x1_0000) by (nonlinear_arith)
        requires
            -0x8000_0000 <= count < 0x8000_0000,
            0 <= num < 0x1_0000,
    ;
}

/// What division leaves over has the sign of what was divided and is less than the
/// divisor.
pub proof fn law_division_rounds_towards_zero(n: int, d: int)
    requires
        d > 0,
    ensures
        n >= 0 ==> 0 <= n - d * toward_zero(n, d) < d,
        n <= 0 ==> 0 <= d * toward_zero(n, d) - n < d,
{
    let m = if n >= 0 {
        n
    } else {
        -n
    };
    vstd::arithmetic::div_mod::lemma_fundamental_div_mod(m, d);
    vstd::arithmetic::div_mod::lemma_mod_bound(m, d);
    assert(d * (-(m / d)) == -(d * (m / d))) by (nonlinear_arith);
}

} // verus!
