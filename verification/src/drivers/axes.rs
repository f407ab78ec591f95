//! Vectors of counts in a sensor's or the body's axes.

use crate::ratio::Ratio;
use vstd::prelude::*;

verus! {

/// A vector of counts.
pub struct Vector {
    pub x: int,
    pub y: int,
    pub z: int,
}

/// The vector an array holds.
pub open spec fn vector(v: Seq<i32>) -> Vector {
    Vector { x: v[0] as int, y: v[1] as int, z: v[2] as int }
}

/// The counts of a reading.
pub open spec fn counts(raw: Seq<i16>) -> Vector {
    Vector { x: raw[0] as int, y: raw[1] as int, z: raw[2] as int }
}

/// Whether three fractions are a vector of counts, scaled.
pub open spec fn is_scaled(r: Seq<Ratio>, v: Vector, num: u16, den: u16) -> bool {
    &&& r[0] == Ratio::spec_of(v.x, num, den)
    &&& r[1] == Ratio::spec_of(v.y, num, den)
    &&& r[2] == Ratio::spec_of(v.z, num, den)
}

/// The square of a vector's length.
pub open spec fn length_squared(v: Vector) -> int {
    v.x * v.x + v.y * v.y + v.z * v.z
}

/// Triple product: the signed volume three vectors span.
pub open spec fn volume(a: Vector, b: Vector, c: Vector) -> int {
    a.x * (b.y * c.z - b.z * c.y) - a.y * (b.x * c.z - b.z * c.x) + a.z * (b.x * c.y - b.y * c.x)
}

/// The volume when the third vector is vertical and the others are level.
pub proof fn lemma_upright_volume(a: Vector, b: Vector, c: Vector)
    requires
        a.z == 0,
        b.z == 0,
        c.x == 0,
        c.y == 0,
    ensures
        volume(a, b, c) == (a.x * b.y - a.y * b.x) * c.z,
{
    let (ax, ay, bx, by, cz) = (a.x, a.y, b.x, b.y, c.z);
    assert(b.z * c.y == 0 && b.z * c.x == 0) by (nonlinear_arith)
        requires
            b.z == 0,
    ;
    assert(a.z * (b.x * c.y - b.y * c.x) == 0) by (nonlinear_arith)
        requires
            a.z == 0,
    ;
    assert(ax * (by * cz) - ay * (bx * cz) == (ax * by - ay * bx) * cz) by (nonlinear_arith);
}

/// The first number is along X, the second along Y and the third along Z.
pub proof fn law_axes_in_order(a: i16, b: i16, c: i16)
    ensures
        counts(seq![a, b, c]) == (Vector { x: a as int, y: b as int, z: c as int }),
        vector(seq![a as i32, b as i32, c as i32]) == (Vector {
            x: a as int,
            y: b as int,
            z: c as int,
        }),
{
}

/// Scaled by a fraction, each axis keeps its place.
pub proof fn law_axes_are_scaled_alike(r: Seq<Ratio>, v: Vector, num: u16, den: u16)
    requires
        is_scaled(r, v, num, den),
        -0x8000_0000 <= v.x < 0x8000_0000,
        -0x8000_0000 <= v.y < 0x8000_0000,
        -0x8000_0000 <= v.z < 0x8000_0000,
    ensures
        r[0].num == v.x * num && r[0].den == den,
        r[1].num == v.y * num && r[1].den == den,
        r[2].num == v.z * num && r[2].den == den,
{
    crate::ratio::law_fraction_of_a_count(v.x, num, den);
    crate::ratio::law_fraction_of_a_count(v.y, num, den);
    crate::ratio::law_fraction_of_a_count(v.z, num, den);
}

/// Along one axis, the length is the count: its square is that of the count.
pub proof fn law_length_along_an_axis(c: int)
    ensures
        length_squared(Vector { x: c, y: 0, z: 0 }) == c * c,
        length_squared(Vector { x: 0, y: c, z: 0 }) == c * c,
        length_squared(Vector { x: 0, y: 0, z: c }) == c * c,
{
}

} // verus!
