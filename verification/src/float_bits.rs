//! Comparing IEEE 754 numbers by their bit patterns.
//!
//! Quantities that other parts of the firmware compute in floating point pass
//! through here as the bits that encode them. Comparison follows the standard: a
//! NaN compares with nothing, and both zeros are equal.

use vstd::prelude::*;

verus! {

/// Whether a single-precision pattern is no number.
pub open spec fn is_nan32(b: u32) -> bool {
    b % 0x8000_0000 > 0x7F80_0000
}

/// An integer that orders single-precision numbers as their values do.
pub open spec fn key32(b: u32) -> int {
    if b < 0x8000_0000 {
        b as int
    } else {
        0x8000_0000 - b
    }
}

/// `a < b`.
pub open spec fn less32(a: u32, b: u32) -> bool {
    !is_nan32(a) && !is_nan32(b) && key32(a) < key32(b)
}

/// `a == b`.
pub open spec fn equal32(a: u32, b: u32) -> bool {
    !is_nan32(a) && !is_nan32(b) && key32(a) == key32(b)
}

/// Whether a double-precision pattern is no number.
pub open spec fn is_nan64(b: u64) -> bool {
    b % 0x8000_0000_0000_0000 > 0x7FF0_0000_0000_0000
}

/// An integer that orders double-precision numbers as their values do.
pub open spec fn key64(b: u64) -> int {
    if b < 0x8000_0000_0000_0000 {
        b as int
    } else {
        0x8000_0000_0000_0000 - b
    }
}

/// `a == b`.
pub open spec fn equal64(a: u64, b: u64) -> bool {
    !is_nan64(a) && !is_nan64(b) && key64(a) == key64(b)
}

fn key_of(b: u32) -> (k: i64)
    ensures
        k == key32(b),
{
    if b < 0x8000_0000 {
        b as i64
    } else {
        0x8000_0000 - b as i64
    }
}

/// `a < b`.
pub fn lt32(a: u32, b: u32) -> (r: bool)
    ensures
        r == less32(a, b),
{
    a % 0x8000_0000 <= 0x7F80_0000 && b % 0x8000_0000 <= 0x7F80_0000 && key_of(a) < key_of(b)
}

/// `a == b`.
pub fn eq32(a: u32, b: u32) -> (r: bool)
    ensures
        r == equal32(a, b),
{
    a % 0x8000_0000 <= 0x7F80_0000 && b % 0x8000_0000 <= 0x7F80_0000 && key_of(a) == key_of(b)
}

/// `a == b`.
pub fn eq64(a: u64, b: u64) -> (r: bool)
    ensures
        r == equal64(a, b),
{
    let nan: bool = a % 0x8000_0000_0000_0000 > 0x7FF0_0000_0000_0000 || b % 0x8000_0000_0000_0000
        > 0x7FF0_0000_0000_0000;
    let zeros: bool = a % 0x8000_0000_0000_0000 == 0 && b % 0x8000_0000_0000_0000 == 0;
    !nan && (a == b || zeros)
}

// ---- Laws ----

/// A NaN compares with nothing, itself included.
pub proof fn law_nan_compares_with_nothing(a: u32, b: u32)
    requires
        is_nan32(a),
    ensures
        !less32(a, b),
        !less32(b, a),
        !equal32(a, b),
        !equal32(a, a),
{
}

/// Numbers are totally ordered: of two, exactly one is less or they are equal.
pub proof fn law_numbers_are_ordered(a: u32, b: u32)
    requires
        !is_nan32(a),
        !is_nan32(b),
    ensures
        less32(a, b) || less32(b, a) || equal32(a, b),
        !(less32(a, b) && less32(b, a)),
        equal32(a, b) ==> !less32(a, b) && !less32(b, a),
{
}

/// Less is transitive.
pub proof fn law_less_is_transitive(a: u32, b: u32, c: u32)
    requires
        less32(a, b),
        less32(b, c),
    ensures
        less32(a, c),
{
}

/// Numbers with different patterns are equal only as the two zeros.
pub proof fn law_only_zeros_share_a_value(a: u32, b: u32)
    requires
        equal32(a, b),
        a != b,
    ensures
        a % 0x8000_0000 == 0,
        b % 0x8000_0000 == 0,
{
}

/// A pattern is no number when its exponent is all ones and its fraction is not zero.
pub proof fn law_what_is_no_number(a: u32, b: u64)
    ensures
        is_nan32(a) <==> a / 0x80_0000 % 256 == 255 && a % 0x80_0000 != 0,
        is_nan64(b) <==> b / 0x10_0000_0000_0000 % 2048 == 2047 && b % 0x10_0000_0000_0000 != 0,
{
}

/// Positive numbers are ordered as their patterns, negative ones the other way round,
/// and every negative one but zero is less than every positive one.
pub proof fn law_sign_and_magnitude(a: u32, b: u32)
    requires
        a <= 0x7F80_0000,
        b <= 0x7F80_0000,
    ensures
        less32(a, b) <==> a < b,
        less32((0x8000_0000 + a) as u32, (0x8000_0000 + b) as u32) <==> b < a,
        less32((0x8000_0000 + a) as u32, b) <==> a > 0 || b > 0,
        !less32(a, (0x8000_0000 + b) as u32),
        equal32(a, b) <==> a == b,
        equal32((0x8000_0000 + a) as u32, b) <==> a == 0 && b == 0,
{
}

/// Of double precision, too, numbers are equal when their patterns are or both are
/// zeros.
pub proof fn law_equal_doubles(a: u64, b: u64)
    ensures
        equal64(a, b) <==> !is_nan64(a) && !is_nan64(b) && (a == b || (a
            % 0x8000_0000_0000_0000 == 0 && b % 0x8000_0000_0000_0000 == 0)),
{
}

} // verus!
