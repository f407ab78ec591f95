//! From a motor output of 0 to 1, a single-precision pattern, to throttle steps.

use crate::float_bits;
use crate::float_bits::{eq32, lt32};
use vstd::arithmetic::div_mod;
use vstd::arithmetic::power2;
use vstd::bits;
use vstd::prelude::*;

verus! {

/// The pattern of 1.
pub const FULL: u32 = 0x3F80_0000;

/// Throttle steps at full output.
pub const STEPS: u16 = 1999;

/// Exponent field of a pattern. With it, the number is the significand times two
/// to the field minus 150.
pub open spec fn exponent(b: u32) -> int {
    b as int / 0x80_0000 % 256
}

/// Significand of a number that is not subnormal.
pub open spec fn significand(b: u32) -> int {
    b as int % 0x80_0000 + 0x80_0000
}

/// `n / unit`, rounded to the nearest integer and to the even one of two.
pub open spec fn nearest_even(n: int, unit: int) -> int {
    let q = n / unit;
    let r = n % unit;
    if 2 * r > unit || (2 * r == unit && q % 2 == 1) {
        q + 1
    } else {
        q
    }
}

/// `p` rounded to the 24 bits of a significand, for 34 and 35 bits.
pub open spec fn rounded(p: int) -> int {
    if p < 0x4_0000_0000 {
        1024 * nearest_even(p, 1024)
    } else {
        2048 * nearest_even(p, 2048)
    }
}

/// The whole part of an output times the steps, in single precision and within
/// 16 bits. Nothing is left of what is negative or no number.
pub open spec fn steps(b: u32) -> int {
    if float_bits::is_nan32(b) || b >= 0x8000_0000 || exponent(b) < 116 {
        0
    } else if exponent(b) > 132 {
        65535
    } else {
        let whole = rounded(STEPS * significand(b)) / power2::pow2(
            (150 - exponent(b)) as nat,
        ) as int;
        if whole > 65535 {
            65535
        } else {
            whole
        }
    }
}

fn round_to(p: u64, unit: u64) -> (n: u64)
    requires
        unit == 1024 || unit == 2048,
        p <= 0x8_0000_0000,
    ensures
        n == unit * nearest_even(p as int, unit as int),
        n <= p + unit,
{
    let q: u64 = p / unit;
    let r: u64 = p % unit;
    if 2 * r > unit || (2 * r == unit && q % 2 == 1) {
        (q + 1) * unit
    } else {
        q * unit
    }
}

/// Multiplies an output by the steps as single precision does and keeps the whole
/// part, within 16 bits.
pub fn scale(b: u32) -> (n: u16)
    ensures
        n == steps(b),
{
    if b >= 0x7F80_0001 {
        return 0;
    }
    let e: u32 = b / 0x80_0000 % 256;
    if e < 116 {
        return 0;
    }
    if e > 132 {
        return 65535;
    }
    let p: u64 = 1999 * ((b % 0x80_0000) as u64 + 0x80_0000);
    let r: u64 = if p < 0x4_0000_0000 {
        round_to(p, 1024)
    } else {
        round_to(p, 2048)
    };
    let shift: u64 = (150 - e) as u64;
    proof {
        bits::lemma_u64_shr_is_div(r, shift);
    }
    let whole: u64 = r >> shift;
    if whole > 65535 {
        65535
    } else {
        whole as u16
    }
}

/// Whether an output asks for nothing: it is zero or less.
pub open spec fn is_off(b: u32) -> bool {
    float_bits::less32(b, 0) || float_bits::equal32(b, 0)
}

/// Whether an output asks for nothing.
pub fn off(b: u32) -> (o: bool)
    ensures
        o == is_off(b),
{
    lt32(b, 0) || eq32(b, 0)
}

// ---- Laws ----

proof fn lemma_nearest_even_ordered(a: int, b: int, unit: int)
    requires
        0 <= a <= b,
        unit == 1024 || unit == 2048,
    ensures
        nearest_even(a, unit) <= nearest_even(b, unit),
{
}

proof fn lemma_rounded_ordered(a: int, b: int)
    requires
        0 <= a <= b,
    ensures
        rounded(a) <= rounded(b),
{
    if a < 0x4_0000_0000 && b >= 0x4_0000_0000 {
        lemma_nearest_even_ordered(a, 0x4_0000_0000, 1024);
        lemma_nearest_even_ordered(0x4_0000_0000, b, 2048);
    } else if b < 0x4_0000_0000 {
        lemma_nearest_even_ordered(a, b, 1024);
    } else {
        lemma_nearest_even_ordered(a, b, 2048);
    }
}

/// The product lies within those of the significands around it, which need no
/// rounding.
proof fn lemma_product_range(b: u32)
    ensures
        STEPS * 0x80_0000 <= rounded(STEPS * significand(b)) <= STEPS * 0x100_0000,
        significand(b) < 0x100_0000,
{
    lemma_rounded_ordered(STEPS * 0x80_0000, STEPS * significand(b));
    lemma_rounded_ordered(STEPS * significand(b), STEPS * 0x100_0000);
}

proof fn lemma_whole_ordered(a: u32, b: u32)
    requires
        a < b < 0x7F80_0000,
        exponent(a) >= 116,
        exponent(b) <= 132,
    ensures
        rounded(STEPS * significand(a)) / power2::pow2((150 - exponent(a)) as nat) as int
            <= rounded(STEPS * significand(b)) / power2::pow2((150 - exponent(b)) as nat) as int,
{
    let pa = rounded(STEPS * significand(a));
    let pb = rounded(STEPS * significand(b));
    let da = power2::pow2((150 - exponent(a)) as nat) as int;
    let db = power2::pow2((150 - exponent(b)) as nat) as int;
    power2::lemma_pow2_pos((150 - exponent(a)) as nat);
    power2::lemma_pow2_pos((150 - exponent(b)) as nat);
    lemma_product_range(a);
    lemma_product_range(b);
    assert(exponent(a) <= exponent(b));
    if exponent(a) == exponent(b) {
        lemma_rounded_ordered(STEPS * significand(a), STEPS * significand(b));
        div_mod::lemma_div_is_ordered(pa, pb, da);
    } else {
        // Half the larger divisor is still no smaller than the other.
        let half = power2::pow2((149 - exponent(a)) as nat) as int;
        power2::lemma_pow2_pos((149 - exponent(a)) as nat);
        power2::lemma_pow2_unfold((150 - exponent(a)) as nat);
        assert(da == 2 * half);
        if 150 - exponent(b) < 149 - exponent(a) {
            power2::lemma_pow2_strictly_increases(
                (150 - exponent(b)) as nat,
                (149 - exponent(a)) as nat,
            );
        }
        assert(db <= half);
        let bound = STEPS * 0x80_0000;
        div_mod::lemma_div_is_ordered(pa, 2 * bound, da);
        assert(2 * bound / (2 * half) == bound / half) by (nonlinear_arith)
            requires
                half > 0,
                bound >= 0,
        ;
        div_mod::lemma_div_is_ordered_by_denominator(bound, db, half);
        div_mod::lemma_div_is_ordered(bound, pb, db);
    }
}

/// A larger output never means fewer steps.
pub proof fn law_steps_are_ordered(a: u32, b: u32)
    requires
        float_bits::less32(a, b),
    ensures
        steps(a) <= steps(b),
{
    if a < 0x8000_0000 && b < 0x8000_0000 {
        assert(exponent(a) <= exponent(b));
        if exponent(a) >= 116 && exponent(b) <= 132 {
            lemma_whole_ordered(a, b);
        } else if exponent(a) < 116 && 116 <= exponent(b) <= 132 {
            lemma_product_range(b);
            power2::lemma_pow2_pos((150 - exponent(b)) as nat);
            div_mod::lemma_div_pos_is_pos(
                rounded(STEPS * significand(b)),
                power2::pow2((150 - exponent(b)) as nat) as int,
            );
        }
    } else if b < 0x8000_0000 && 116 <= exponent(b) <= 132 {
        lemma_product_range(b);
        power2::lemma_pow2_pos((150 - exponent(b)) as nat);
        div_mod::lemma_div_pos_is_pos(
            rounded(STEPS * significand(b)),
            power2::pow2((150 - exponent(b)) as nat) as int,
        );
    }
}

/// Full output and more is all the steps; less is fewer.
pub proof fn law_only_full_output_is_all_steps(b: u32)
    requires
        !float_bits::is_nan32(b),
    ensures
        float_bits::less32(b, FULL) <==> steps(b) < STEPS,
{
    assert(steps(FULL) == STEPS) by {
        assert(exponent(FULL) == 127 && significand(FULL) == 0x80_0000);
        power2::lemma2_to64();
        assert(rounded(STEPS * 0x80_0000) == STEPS * 0x80_0000);
        assert(STEPS * 0x80_0000 / 0x80_0000 == STEPS);
    }
    if float_bits::less32(b, FULL) {
        if b < 0x8000_0000 && exponent(b) >= 116 {
            assert(exponent(b) <= 126);
            let last: u32 = 0x3F7F_FFFF;
            assert(steps(last) == 1998) by {
                assert(exponent(last) == 126 && significand(last) == 0xFF_FFFF);
                power2::lemma2_to64();
                assert(power2::pow2(24) == 0x100_0000);
                assert(rounded(STEPS * 0xFF_FFFF) / 0x100_0000 == 1998);
            }
            if b < last {
                law_steps_are_ordered(b, last);
            }
        }
    } else if b != FULL {
        law_steps_are_ordered(FULL, b);
    }
}

proof fn lemma_rounded_is_near(p: int)
    requires
        p >= 0,
    ensures
        -1024 <= rounded(p) - p <= 1024,
{
}

/// The steps are the whole part of the output times 1999, up to what rounding the
/// product to single precision takes away or adds. The output is its significand times
/// two to the exponent field minus 150.
pub proof fn law_steps_are_the_product(b: u32)
    requires
        b < 0x7F80_0000,
        116 <= b as int / 0x80_0000 <= 132,
        steps(b) < 65535,
    ensures
        ({
            let unit = power2::pow2((150 - b as int / 0x80_0000) as nat) as int;
            let product = 1999 * (b as int % 0x80_0000 + 0x80_0000);
            &&& unit * steps(b) <= product + 1024
            &&& product - 1024 < unit * (steps(b) + 1)
        }),
{
    let e = b as int / 0x80_0000;
    let unit = power2::pow2((150 - e) as nat) as int;
    power2::lemma_pow2_pos((150 - e) as nat);
    assert(exponent(b) == e);
    let r = rounded(STEPS * significand(b));
    lemma_rounded_is_near(STEPS * significand(b));
    div_mod::lemma_fundamental_div_mod(r, unit);
    div_mod::lemma_mod_bound(r, unit);
    assert(unit * (steps(b) + 1) == unit * steps(b) + unit) by (nonlinear_arith);
}

/// A product is rounded to a multiple of 1024, or of 2048 from 35 bits on, and no other
/// is closer; of two as close it is the one with the even quotient.
pub proof fn law_rounding_is_to_nearest_even(p: int)
    requires
        0 <= p < 0x8_0000_0000,
    ensures
        p < 0x4_0000_0000 ==> rounded(p) % 1024 == 0 && -512 <= rounded(p) - p <= 512 && (rounded(p)
            - p == 512 || p - rounded(p) == 512 ==> rounded(p) % 2048 == 0),
        p >= 0x4_0000_0000 ==> rounded(p) % 2048 == 0 && -1024 <= rounded(p) - p <= 1024 && (
        rounded(p) - p == 1024 || p - rounded(p) == 1024 ==> rounded(p) % 4096 == 0),
{
}

/// An output is off when it is a zero of either sign or negative, down to minus
/// infinity; nothing else is.
pub proof fn law_off(b: u32)
    ensures
        is_off(b) <==> b == 0 || 0x8000_0000 <= b <= 0xFF80_0000,
{
}

} // verus!
