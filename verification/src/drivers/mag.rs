//! What magnetometers have in common: mounting, samples and errors.
//!
//! A sample carries its own scale and mounting, so that nothing downstream
//! depends on which part produced it.

use crate::drivers::axes;
use crate::drivers::axes::Vector;
use crate::drivers::bring_up::StepError;
use crate::ratio::Ratio;
use vstd::prelude::*;

verus! {

/// How a magnetometer is mounted relative to the body frame (north, east,
/// down).
///
/// The eight mountings of a part whose Z axis is vertical: four yaw steps of 90
/// degrees, upright or flipped. A flip is half a turn of pitch, so flipped and
/// yawed by 180 degrees is a roll by 180 degrees.
#[derive(Clone, Copy, Debug, PartialEq, Eq, Structural)]
pub enum Orientation {
    Identity,
    Yaw90,
    Yaw180,
    Yaw270,
    Pitch180,
    /// Flipped, yawed by 90 degrees.
    Yaw90Flip,
    Roll180,
    /// Flipped, yawed by 270 degrees.
    Yaw270Flip,
}

impl Orientation {
    /// A sensor-frame vector in the body frame.
    pub open spec fn rotated(self, v: Vector) -> Vector {
        let Vector { x, y, z } = v;
        match self {
            Orientation::Identity => Vector { x, y, z },
            Orientation::Yaw90 => Vector { x: -y, y: x, z },
            Orientation::Yaw180 => Vector { x: -x, y: -y, z },
            Orientation::Yaw270 => Vector { x: y, y: -x, z },
            Orientation::Pitch180 => Vector { x: -x, y, z: -z },
            Orientation::Yaw90Flip => Vector { x: y, y: x, z: -z },
            Orientation::Roll180 => Vector { x, y: -y, z: -z },
            Orientation::Yaw270Flip => Vector { x: -y, y: -x, z: -z },
        }
    }

    /// Rotates a sensor-frame vector into the body frame.
    pub fn apply(self, v: [i32; 3]) -> (w: [i32; 3])
        requires
            v@[0] > i32::MIN,
            v@[1] > i32::MIN,
            v@[2] > i32::MIN,
        ensures
            axes::vector(w@) == self.rotated(axes::vector(v@)),
    {
        let x: i32 = v[0];
        let y: i32 = v[1];
        let z: i32 = v[2];
        match self {
            Orientation::Identity => [x, y, z],
            Orientation::Yaw90 => [-y, x, z],
            Orientation::Yaw180 => [-x, -y, z],
            Orientation::Yaw270 => [y, -x, z],
            Orientation::Pitch180 => [-x, y, -z],
            Orientation::Yaw90Flip => [y, x, -z],
            Orientation::Roll180 => [x, -y, -z],
            Orientation::Yaw270Flip => [-y, -x, -z],
        }
    }

    /// Whether the mounting swaps X and Y: the odd yaw steps do.
    pub open spec fn swaps(self) -> bool {
        self == Orientation::Yaw90 || self == Orientation::Yaw270 || self == Orientation::Yaw90Flip
            || self == Orientation::Yaw270Flip
    }

    /// Whether the mounting swaps X and Y rather than only negating.
    pub fn swaps_xy(self) -> (b: bool)
        ensures
            b == self.swaps(),
    {
        match self {
            Orientation::Yaw90
            | Orientation::Yaw270
            | Orientation::Yaw90Flip
            | Orientation::Yaw270Flip => true,
            _ => false,
        }
    }

    /// Every mounting: the yaw steps, then those flipped.
    pub fn all() -> (v: [Self; 8])
        ensures
            v@ == seq![
                Orientation::Identity,
                Orientation::Yaw90,
                Orientation::Yaw180,
                Orientation::Yaw270,
                Orientation::Pitch180,
                Orientation::Yaw90Flip,
                Orientation::Roll180,
                Orientation::Yaw270Flip,
            ],
            forall|o: Orientation| v@.contains(o),
    {
        let v: [Self; 8] = [
            Orientation::Identity,
            Orientation::Yaw90,
            Orientation::Yaw180,
            Orientation::Yaw270,
            Orientation::Pitch180,
            Orientation::Yaw90Flip,
            Orientation::Roll180,
            Orientation::Yaw270Flip,
        ];
        assert forall|o: Orientation| v@.contains(o) by {
            let i: int = match o {
                Orientation::Identity => 0,
                Orientation::Yaw90 => 1,
                Orientation::Yaw180 => 2,
                Orientation::Yaw270 => 3,
                Orientation::Pitch180 => 4,
                Orientation::Yaw90Flip => 5,
                Orientation::Roll180 => 6,
                Orientation::Yaw270Flip => 7,
            };
            assert(v@[i] == o);
        }
        v
    }
}

/// Microtesla per count, as a fraction.
#[derive(Clone, Copy, Debug, PartialEq, Eq, Structural)]
pub struct Scale {
    pub num: u16,
    pub den: u16,
}

/// One reading.
#[derive(Clone, Copy, Debug, PartialEq, Eq)]
pub struct MagSample {
    /// Counts in sensor axes, as read.
    pub raw: [i16; 3],
    pub scale: Scale,
    pub orientation: Orientation,
}

impl MagSample {
    pub fn new(raw: [i16; 3], scale: Scale, orientation: Orientation) -> (s: Self)
        ensures
            s.raw == raw,
            s.scale == scale,
            s.orientation == orientation,
    {
        MagSample { raw, scale, orientation }
    }

    /// The reading in the body frame, in counts.
    pub fn body(&self) -> (v: [i32; 3])
        ensures
            axes::vector(v@) == self.orientation.rotated(axes::counts(self.raw@)),
            forall|i: int| 0 <= i < 3 ==> -32768 <= #[trigger] v@[i] <= 32768,
    {
        let v: [i32; 3] = [self.raw[0] as i32, self.raw[1] as i32, self.raw[2] as i32];
        assert(axes::vector(v@) == axes::counts(self.raw@));
        self.orientation.apply(v)
    }

    /// Field in microtesla, body frame.
    pub fn ut(&self) -> (r: [Ratio; 3])
        ensures
            axes::is_scaled(
                r@,
                self.orientation.rotated(axes::counts(self.raw@)),
                self.scale.num,
                self.scale.den,
            ),
    {
        let v: [i32; 3] = self.body();
        [
            Ratio::of(v[0], self.scale.num, self.scale.den),
            Ratio::of(v[1], self.scale.num, self.scale.den),
            Ratio::of(v[2], self.scale.num, self.scale.den),
        ]
    }

    /// Field in milligauss, body frame: ten to the microtesla.
    pub fn mgauss(&self) -> (r: [Ratio; 3])
        ensures
            ({
                let v = self.orientation.rotated(axes::counts(self.raw@));
                &&& r@[0] == (Ratio { num: (v.x * self.scale.num * 10) as i64, den: self.scale.den as u32 })
                &&& r@[1] == (Ratio { num: (v.y * self.scale.num * 10) as i64, den: self.scale.den as u32 })
                &&& r@[2] == (Ratio { num: (v.z * self.scale.num * 10) as i64, den: self.scale.den as u32 })
            }),
    {
        let v: [i32; 3] = self.body();
        [
            tenfold(v[0], self.scale),
            tenfold(v[1], self.scale),
            tenfold(v[2], self.scale),
        ]
    }

    /// Field in microtesla, sensor frame. Calibration works here, where the
    /// mounting has not been applied.
    pub fn ut_sensor(&self) -> (r: [Ratio; 3])
        ensures
            axes::is_scaled(r@, axes::counts(self.raw@), self.scale.num, self.scale.den),
    {
        [
            Ratio::of(self.raw[0] as i32, self.scale.num, self.scale.den),
            Ratio::of(self.raw[1] as i32, self.scale.num, self.scale.den),
            Ratio::of(self.raw[2] as i32, self.scale.num, self.scale.den),
        ]
    }

    /// The square of the field's magnitude, in counts.
    pub fn magnitude_squared(&self) -> (m: u64)
        ensures
            m == axes::length_squared(axes::counts(self.raw@)),
    {
        square(self.raw[0]) + square(self.raw[1]) + square(self.raw[2])
    }
}

fn tenfold(v: i32, scale: Scale) -> (r: Ratio)
    requires
        -32768 <= v <= 32768,
    ensures
        r == (Ratio { num: (v * scale.num * 10) as i64, den: scale.den as u32 }),
{
    let r: Ratio = Ratio::of(v, scale.num, scale.den);
    assert(-32768 * 65536 <= v * scale.num <= 32768 * 65536) by (nonlinear_arith)
        requires
            -32768 <= v <= 32768,
            0 <= scale.num < 65536,
    ;
    Ratio { num: r.num * 10, den: r.den }
}

fn square(c: i16) -> (s: u64)
    ensures
        s == c * c,
        s <= 0x4000_0000,
{
    let a: i64 = c as i64;
    assert(0 <= a * a <= 0x4000_0000) by (nonlinear_arith)
        requires
            -32768 <= a < 32768,
    ;
    (a * a) as u64
}

/// Why a magnetometer failed.
#[derive(Debug, Clone, Copy, PartialEq, Eq, Structural)]
pub enum MagError {
    /// The bus transaction failed.
    I2c,
    /// The part answered with another identity.
    IdMismatch(u8),
    /// The part did not hold what was written to it.
    NotResponding,
    /// An axis saturated: the sample is meaningless.
    Overflow,
}

/// The error for a failed step.
pub open spec fn error_of(e: StepError) -> MagError {
    match e {
        StepError::Bus => MagError::I2c,
        StepError::WrongId(id) => MagError::IdMismatch(id),
        StepError::NotHeld => MagError::NotResponding,
    }
}

/// The error for a failed step.
pub fn step_failure(e: StepError) -> (m: MagError)
    ensures
        m == error_of(e),
{
    match e {
        StepError::Bus => MagError::I2c,
        StepError::WrongId(id) => MagError::IdMismatch(id),
        StepError::NotHeld => MagError::NotResponding,
    }
}

// ---- Bus scan ----

/// Address shared by the LIS2MDL and the HMC5883L.
pub const LIS2MDL_OR_HMC5883L_ADDR: u8 = 0x1E;

/// Address of the QMC5883L, also one of the IST8310's.
pub const QMC5883L_ADDR: u8 = 0x0D;

pub const QMC5883P_ADDR: u8 = 0x2C;

/// Addresses of the IST8310, selected by pins.
pub const IST8310_ADDRS: [u8; 4] = [0x0C, 0x0D, 0x0E, 0x0F];

/// What is expected at an address.
pub open spec fn name_of(addr: u8) -> Seq<char> {
    if addr == 0x0D {
        "QMC5883L or IST8310"@
    } else if addr == 0x1E {
        "LIS2MDL or HMC5883L"@
    } else if addr == 0x0C || addr == 0x0E || addr == 0x0F {
        "IST8310"@
    } else if addr == 0x2C {
        "QMC5883P"@
    } else if addr == 0x30 || addr == 0x31 {
        "MMC5983 / RM3100"@
    } else if addr == 0x76 || addr == 0x77 {
        "baro (SPL06 / DPS310 / BMP280)"@
    } else if 0x28 <= addr <= 0x2F {
        "BNO055 / AK09916 range"@
    } else if addr == 0x68 || addr == 0x69 {
        "MPU/ICM IMU or DS3231"@
    } else {
        "unknown"@
    }
}

/// Names what is expected at an address.
pub fn describe_addr(addr: u8) -> (name: &'static str)
    ensures
        name@ == name_of(addr),
{
    if addr == QMC5883L_ADDR {
        "QMC5883L or IST8310"
    } else if addr == LIS2MDL_OR_HMC5883L_ADDR {
        "LIS2MDL or HMC5883L"
    } else if addr == 0x0C || addr == 0x0E || addr == 0x0F {
        "IST8310"
    } else if addr == QMC5883P_ADDR {
        "QMC5883P"
    } else if addr == 0x30 || addr == 0x31 {
        "MMC5983 / RM3100"
    } else if addr == 0x76 || addr == 0x77 {
        "baro (SPL06 / DPS310 / BMP280)"
    } else if addr >= 0x28 && addr <= 0x2F {
        "BNO055 / AK09916 range"
    } else if addr == 0x68 || addr == 0x69 {
        "MPU/ICM IMU or DS3231"
    } else {
        "unknown"
    }
}

// ---- Laws ----

/// The mounting that two mountings in a row amount to, `a` after `b`.
pub open spec fn composed(a: Orientation, b: Orientation) -> Orientation {
    of_turns(turns(a) + (if flips(a) { -turns(b) } else { turns(b) }), flips(a) != flips(b))
}

/// Quarter turns of yaw, applied after the flip.
pub open spec fn turns(o: Orientation) -> int {
    match o {
        Orientation::Identity => 0,
        Orientation::Yaw90 => 1,
        Orientation::Yaw180 => 2,
        Orientation::Yaw270 => 3,
        Orientation::Pitch180 => 0,
        Orientation::Yaw90Flip => 3,
        Orientation::Roll180 => 2,
        Orientation::Yaw270Flip => 1,
    }
}

/// Whether the mounting turns the vertical axis over.
pub open spec fn flips(o: Orientation) -> bool {
    o == Orientation::Pitch180 || o == Orientation::Yaw90Flip || o == Orientation::Roll180 || o
        == Orientation::Yaw270Flip
}

/// The mounting with given quarter turns after an optional flip.
pub open spec fn of_turns(n: int, flip: bool) -> Orientation {
    let q = n % 4;
    if flip {
        if q == 0 {
            Orientation::Pitch180
        } else if q == 1 {
            Orientation::Yaw270Flip
        } else if q == 2 {
            Orientation::Roll180
        } else {
            Orientation::Yaw90Flip
        }
    } else if q == 0 {
        Orientation::Identity
    } else if q == 1 {
        Orientation::Yaw90
    } else if q == 2 {
        Orientation::Yaw180
    } else {
        Orientation::Yaw270
    }
}

/// Two mountings in a row are one mounting: a stack of them collapses.
pub proof fn law_mountings_compose(a: Orientation, b: Orientation, v: Vector)
    ensures
        a.rotated(b.rotated(v)) == composed(a, b).rotated(v),
{
}

/// Flipped (half a turn of pitch) and yawed by 180 degrees is a roll by 180
/// degrees.
pub proof fn law_flip_and_half_turn_is_a_roll(v: Vector)
    ensures
        Orientation::Pitch180.rotated(Orientation::Yaw180.rotated(v))
            == Orientation::Roll180.rotated(v),
{
}

/// Every mounting is undone by another.
pub proof fn law_mountings_are_undone(a: Orientation, v: Vector)
    ensures
        exists|b: Orientation| #[trigger] b.rotated(a.rotated(v)) == v,
{
    let b = match a {
        Orientation::Yaw90 => Orientation::Yaw270,
        Orientation::Yaw270 => Orientation::Yaw90,
        _ => a,
    };
    assert(b.rotated(a.rotated(v)) == v);
}

/// Every mounting is a proper rotation: the images of the three axes span a
/// volume of +1, so that none is a mirror.
pub proof fn law_mountings_are_proper_rotations(o: Orientation)
    ensures
        axes::volume(
            o.rotated(Vector { x: 1, y: 0, z: 0 }),
            o.rotated(Vector { x: 0, y: 1, z: 0 }),
            o.rotated(Vector { x: 0, y: 0, z: 1 }),
        ) == 1,
{
    let a = o.rotated(Vector { x: 1, y: 0, z: 0 });
    let b = o.rotated(Vector { x: 0, y: 1, z: 0 });
    let c = o.rotated(Vector { x: 0, y: 0, z: 1 });
    axes::lemma_upright_volume(a, b, c);
    assert(a.x * b.y - a.y * b.x == c.z) by (nonlinear_arith)
        requires
            a.x == 0 && b.y == 0 && ((a.y == 1 && b.x == -c.z) || (a.y == -1 && b.x == c.z)) || (
            a.y == 0 && b.x == 0 && ((a.x == 1 && b.y == c.z) || (a.x == -1 && b.y == -c.z))),
    ;
    assert(c.z * c.z == 1) by (nonlinear_arith)
        requires
            c.z == 1 || c.z == -1,
    ;
}

/// Different mountings are different rotations.
pub proof fn law_mountings_are_distinct(a: Orientation, b: Orientation)
    requires
        a != b,
    ensures
        a.rotated(Vector { x: 1, y: 2, z: 3 }) != b.rotated(Vector { x: 1, y: 2, z: 3 }),
{
}

/// Of the sign changes, exactly those with an even number of minus signs are
/// mountings.
pub proof fn law_sign_changes_are_complete(sx: int, sy: int, sz: int)
    requires
        sx == 1 || sx == -1,
        sy == 1 || sy == -1,
        sz == 1 || sz == -1,
    ensures
        sx * sy * sz == 1 <==> exists|o: Orientation| #[trigger]
            o.rotated(Vector { x: 1, y: 2, z: 3 }) == (Vector { x: sx, y: 2 * sy, z: 3 * sz }),
{
    let want = Vector { x: sx, y: 2 * sy, z: 3 * sz };
    let v = Vector { x: 1, y: 2, z: 3 };
    assert(sx * sy * sz == sx * sy * sz && (sx == 1 ==> sx * sy == sy) && (sx == -1 ==> sx * sy
        == -sy)) by (nonlinear_arith)
        requires
            sx == 1 || sx == -1,
    ;
    let p = sx * sy;
    assert((sz == 1 ==> p * sz == p) && (sz == -1 ==> p * sz == -p)) by (nonlinear_arith)
        requires
            sz == 1 || sz == -1,
    ;
    if sx * sy * sz == 1 {
        let o = if sx == 1 && sy == 1 {
            Orientation::Identity
        } else if sx == 1 {
            Orientation::Roll180
        } else if sy == 1 {
            Orientation::Pitch180
        } else {
            Orientation::Yaw180
        };
        assert(o.rotated(v) == want);
    }
    if exists|o: Orientation| #[trigger] o.rotated(v) == want {
        let o = choose|o: Orientation| #[trigger] o.rotated(v) == want;
        assert(!o.swaps());
    }
}

/// A mounting swaps X and Y exactly when it moves the X axis onto the Y axis.
pub proof fn law_swap_is_visible_on_the_axes(o: Orientation)
    ensures
        o.swaps() <==> o.rotated(Vector { x: 1, y: 0, z: 0 }).x == 0,
        o.swaps() <==> o.rotated(Vector { x: 0, y: 1, z: 0 }).y == 0,
{
}

/// The magnitude of a field does not depend on the mounting.
pub proof fn law_magnitude_ignores_mounting(o: Orientation, v: Vector)
    ensures
        axes::length_squared(o.rotated(v)) == axes::length_squared(v),
{
    let Vector { x, y, z } = v;
    assert((-x) * (-x) == x * x) by (nonlinear_arith);
    assert((-y) * (-y) == y * y) by (nonlinear_arith);
    assert((-z) * (-z) == z * z) by (nonlinear_arith);
}

/// How the mountings turn the axes: a yaw goes from X to Y by quarters and keeps Z, and
/// the flipped ones do so after turning X and Z over.
pub proof fn law_mountings_turn_the_axes(v: Vector)
    ensures
        Orientation::Identity.rotated(v) == v,
        Orientation::Yaw90.rotated(v) == (Vector { x: -v.y, y: v.x, z: v.z }),
        Orientation::Yaw180.rotated(v) == Orientation::Yaw90.rotated(Orientation::Yaw90.rotated(v)),
        Orientation::Yaw270.rotated(v) == Orientation::Yaw90.rotated(
            Orientation::Yaw180.rotated(v),
        ),
        Orientation::Pitch180.rotated(v) == (Vector { x: -v.x, y: v.y, z: -v.z }),
        Orientation::Yaw90Flip.rotated(v) == (Vector { x: v.y, y: v.x, z: -v.z }),
        Orientation::Roll180.rotated(v) == (Vector { x: v.x, y: -v.y, z: -v.z }),
        Orientation::Yaw270Flip.rotated(v) == (Vector { x: -v.y, y: -v.x, z: -v.z }),
{
}

/// Another identity is reported as it was read, a setting that is not held as no
/// response, and a failed transaction as one of the bus.
pub proof fn law_failures(id: u8)
    ensures
        error_of(StepError::WrongId(id)) == MagError::IdMismatch(id),
        error_of(StepError::NotHeld) == MagError::NotResponding,
        error_of(StepError::Bus) == MagError::I2c,
{
}

/// What is expected at an address: the same at each of a chip's addresses, and by nothing
/// else.
pub proof fn law_addresses(addr: u8)
    ensures
        addr == 0x0D ==> name_of(addr) == "QMC5883L or IST8310"@,
        addr == 0x1E ==> name_of(addr) == "LIS2MDL or HMC5883L"@,
        addr == 0x0C || addr == 0x0E || addr == 0x0F ==> name_of(addr) == "IST8310"@,
        addr == 0x2C ==> name_of(addr) == "QMC5883P"@,
        addr == 0x30 || addr == 0x31 ==> name_of(addr) == "MMC5983 / RM3100"@,
        addr == 0x76 || addr == 0x77 ==> name_of(addr) == "baro (SPL06 / DPS310 / BMP280)"@,
        0x28 <= addr < 0x2C || 0x2C < addr < 0x30 ==> name_of(addr) == "BNO055 / AK09916 range"@,
        addr == 0x68 || addr == 0x69 ==> name_of(addr) == "MPU/ICM IMU or DS3231"@,
        addr < 0x0C || 0x0F < addr < 0x1E || 0x1E < addr < 0x28 || 0x31 < addr < 0x68 || 0x69 < addr
            < 0x76 || addr > 0x77 ==> name_of(addr) == "unknown"@,
{
}

} // verus!
