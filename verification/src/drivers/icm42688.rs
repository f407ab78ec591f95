//! ICM-42688-P inertial sensor.
//!
//! Configured for ±16 g, ±2000 °/s, 8 kHz and low noise. A board may carry two
//! of them, mounted differently; each sample carries its mounting.

use crate::bytes;
use crate::bytes::read_i16_be;
use crate::drivers::axes;
use crate::drivers::axes::Vector;
use crate::drivers::bring_up::{Step, StepError};
use crate::ratio;
use crate::ratio::{div_toward_zero, Ratio};
use vstd::prelude::*;

verus! {

pub const REG_DEVICE_CONFIG: u8 = 0x11;

pub const REG_INT_CONFIG: u8 = 0x14;

/// First of 14 data bytes: temperature, acceleration, rates.
pub const REG_TEMP_DATA1: u8 = 0x1D;

pub const REG_PWR_MGMT0: u8 = 0x4E;

pub const REG_GYRO_CONFIG0: u8 = 0x4F;

pub const REG_ACCEL_CONFIG0: u8 = 0x50;

pub const REG_INT_CONFIG1: u8 = 0x64;

pub const REG_INT_SOURCE0: u8 = 0x65;

pub const REG_WHO_AM_I: u8 = 0x75;

pub const WHO_AM_I_VALUE: u8 = 0x47;

/// Set in an address to read, clear to write.
pub const READ_MASK: u8 = 0x80;

/// ±2000 °/s, 8 kHz.
pub const GYRO_CFG: u8 = 0x03;

/// ±16 g, 8 kHz.
pub const ACCEL_CFG: u8 = 0x03;

/// Both sensors in low-noise mode.
pub const PWR_LN_BOTH: u8 = 0x0F;

/// Interrupt pin push-pull, active high, pulsed.
pub const INT_CFG: u8 = 0x03;

/// Short pulses, which 8 kHz needs, and no asynchronous reset.
pub const INT_CFG1: u8 = 0x40;

/// Interrupt on new data.
pub const INT_SRC_DRDY: u8 = 0x08;

/// Counts per g.
pub const ACCEL_LSB_PER_G: u16 = 2048;

/// Counts per thousand °/s.
pub const GYRO_LSB_PER_KILO_DPS: u16 = 16384;

/// How a chip is mounted relative to the body frame.
#[derive(Clone, Copy, Debug, PartialEq, Eq, Structural)]
pub enum Orientation {
    Roll180,
    Pitch180,
    Yaw90,
    /// Already in the body frame.
    Identity,
}

impl Orientation {
    /// A sensor-frame vector in the body frame.
    pub open spec fn rotated(self, v: Vector) -> Vector {
        let Vector { x, y, z } = v;
        match self {
            Orientation::Roll180 => Vector { x, y: -y, z: -z },
            Orientation::Pitch180 => Vector { x: -x, y, z: -z },
            Orientation::Yaw90 => Vector { x: -y, y: x, z },
            Orientation::Identity => Vector { x, y, z },
        }
    }

    /// Rotates a sensor-frame vector into the body frame.
    pub fn apply(self, v: [i32; 3]) -> (w: [i32; 3])
        requires
            v@[0] > i32::MIN,
            v@[1] > i32::MIN,
            v@[2] > i32::MIN,
        ensures
            axes::vector(w@) == self.rotated(axes::vector(v@)),
    {
        match self {
            Orientation::Roll180 => [v[0], -v[1], -v[2]],
            Orientation::Pitch180 => [-v[0], v[1], -v[2]],
            Orientation::Yaw90 => [-v[1], v[0], v[2]],
            Orientation::Identity => [v[0], v[1], v[2]],
        }
    }
}

/// One reading, in counts and sensor axes.
#[derive(Clone, Copy, Debug, PartialEq, Eq)]
pub struct RawImu {
    pub accel: [i16; 3],
    pub gyro: [i16; 3],
    pub temp: i16,
    pub orientation: Orientation,
}

/// Counts as wider integers.
pub fn widen(c: [i16; 3]) -> (v: [i32; 3])
    ensures
        axes::vector(v@) == axes::counts(c@),
        forall|i: int| 0 <= i < 3 ==> -32768 <= #[trigger] v@[i] <= 32767,
{
    [c[0] as i32, c[1] as i32, c[2] as i32]
}

fn scaled(v: [i32; 3], num: u16, den: u16) -> (r: [Ratio; 3])
    ensures
        axes::is_scaled(r@, axes::vector(v@), num, den),
{
    [Ratio::of(v[0], num, den), Ratio::of(v[1], num, den), Ratio::of(v[2], num, den)]
}

/// The mean of two counts, rounded towards zero and held within a count.
pub open spec fn mean(a: int, b: int) -> int {
    let m = ratio::toward_zero(a + b, 2);
    if m > 32767 {
        32767
    } else {
        m
    }
}

fn mean_count(a: i32, b: i32) -> (m: i16)
    requires
        -32768 <= a <= 32768,
        -32768 <= b <= 32768,
    ensures
        m == mean(a as int, b as int),
{
    let m: i64 = div_toward_zero(a as i64 + b as i64, 2);
    if m > 32767 {
        32767
    } else {
        m as i16
    }
}

/// The mean of two vectors.
pub open spec fn mean_vector(a: Vector, b: Vector) -> Vector {
    Vector { x: mean(a.x, b.x), y: mean(a.y, b.y), z: mean(a.z, b.z) }
}

fn mean_counts(a: [i32; 3], b: [i32; 3]) -> (m: [i16; 3])
    requires
        forall|i: int| 0 <= i < 3 ==> -32768 <= #[trigger] a@[i] <= 32768,
        forall|i: int| 0 <= i < 3 ==> -32768 <= #[trigger] b@[i] <= 32768,
    ensures
        axes::counts(m@) == mean_vector(axes::vector(a@), axes::vector(b@)),
{
    [mean_count(a[0], b[0]), mean_count(a[1], b[1]), mean_count(a[2], b[2])]
}

/// Whether `m` is the mean of two readings in the body frame.
pub open spec fn is_average(a: RawImu, b: RawImu, m: RawImu) -> bool {
    &&& m.orientation == Orientation::Identity
    &&& axes::counts(m.accel@) == mean_vector(
        a.orientation.rotated(axes::counts(a.accel@)),
        b.orientation.rotated(axes::counts(b.accel@)),
    )
    &&& axes::counts(m.gyro@) == mean_vector(
        a.orientation.rotated(axes::counts(a.gyro@)),
        b.orientation.rotated(axes::counts(b.gyro@)),
    )
    &&& m.temp == ratio::toward_zero(a.temp + b.temp, 2)
}

impl RawImu {
    /// Acceleration in g, body frame.
    pub fn accel_g(&self) -> (r: [Ratio; 3])
        ensures
            axes::is_scaled(
                r@,
                self.orientation.rotated(axes::counts(self.accel@)),
                1,
                ACCEL_LSB_PER_G,
            ),
    {
        scaled(self.orientation.apply(widen(self.accel)), 1, ACCEL_LSB_PER_G)
    }

    /// Rates in °/s, body frame.
    pub fn gyro_dps(&self) -> (r: [Ratio; 3])
        ensures
            axes::is_scaled(
                r@,
                self.orientation.rotated(axes::counts(self.gyro@)),
                1000,
                GYRO_LSB_PER_KILO_DPS,
            ),
    {
        scaled(self.orientation.apply(widen(self.gyro)), 1000, GYRO_LSB_PER_KILO_DPS)
    }

    /// Acceleration in g, sensor frame.
    pub fn accel_g_sensor(&self) -> (r: [Ratio; 3])
        ensures
            axes::is_scaled(r@, axes::counts(self.accel@), 1, ACCEL_LSB_PER_G),
    {
        scaled(widen(self.accel), 1, ACCEL_LSB_PER_G)
    }

    /// Rates in °/s, sensor frame.
    pub fn gyro_dps_sensor(&self) -> (r: [Ratio; 3])
        ensures
            axes::is_scaled(r@, axes::counts(self.gyro@), 1000, GYRO_LSB_PER_KILO_DPS),
    {
        scaled(widen(self.gyro), 1000, GYRO_LSB_PER_KILO_DPS)
    }

    /// Temperature in °C: counts over 132.48, plus 25.
    pub fn temp_c(&self) -> (r: Ratio)
        ensures
            r.num == 100 * self.temp + 25 * 13248,
            r.den == 13248,
            r == temperature_of(self.temp),
    {
        Ratio { num: 100 * (self.temp as i64) + 331_200, den: 13248 }
    }

    /// The mean of two readings in the body frame. The mean is exact up to one
    /// rounding towards zero, and is itself a body-frame reading.
    pub fn averaged(a: &RawImu, b: &RawImu) -> (m: RawImu)
        ensures
            is_average(*a, *b, m),
    {
        let accel: [i16; 3] = mean_counts(
            a.orientation.apply(widen(a.accel)),
            b.orientation.apply(widen(b.accel)),
        );
        let gyro: [i16; 3] = mean_counts(
            a.orientation.apply(widen(a.gyro)),
            b.orientation.apply(widen(b.gyro)),
        );
        let temp: i16 = div_toward_zero(a.temp as i64 + b.temp as i64, 2) as i16;
        RawImu { accel, gyro, temp, orientation: Orientation::Identity }
    }
}

/// Why the chip failed.
#[derive(Debug, Clone, Copy, PartialEq, Eq, Structural)]
pub enum InitError {
    WhoAmIMismatch(u8),
    Spi,
}

/// The error for a failed step.
pub open spec fn failure_of(e: StepError) -> InitError {
    match e {
        StepError::WrongId(id) => InitError::WhoAmIMismatch(id),
        _ => InitError::Spi,
    }
}

/// The error for a failed step. No step reads a setting back.
pub fn step_failure(e: StepError) -> (i: InitError)
    ensures
        i == (match e {
            StepError::WrongId(id) => InitError::WhoAmIMismatch(id),
            _ => InitError::Spi,
        }),
        i == failure_of(e),
{
    match e {
        StepError::WrongId(id) => InitError::WhoAmIMismatch(id),
        _ => InitError::Spi,
    }
}

/// The configuration: reset, identity, ranges and interrupt before power-up,
/// power-up.
pub open spec fn setup() -> Seq<Step> {
    seq![
        Step::Wait { ms: 1 },
        Step::Write { reg: REG_DEVICE_CONFIG, value: 0x01 },
        Step::Wait { ms: 2 },
        Step::Identify { reg: REG_WHO_AM_I, value: WHO_AM_I_VALUE },
        Step::Write { reg: REG_GYRO_CONFIG0, value: GYRO_CFG },
        Step::Write { reg: REG_ACCEL_CONFIG0, value: ACCEL_CFG },
        Step::Write { reg: REG_INT_CONFIG, value: INT_CFG },
        Step::Write { reg: REG_INT_CONFIG1, value: INT_CFG1 },
        Step::Write { reg: REG_INT_SOURCE0, value: INT_SRC_DRDY },
        Step::Write { reg: REG_PWR_MGMT0, value: PWR_LN_BOTH },
        Step::Wait { ms: 50 },
    ]
}

/// A signed word of a data block, most significant byte first.
pub open spec fn word(d: Seq<u8>, at: int) -> i16 {
    bytes::twos_complement(bytes::u16_be(d, at), 0x8000) as i16
}

/// A temperature in °C.
pub open spec fn temperature_of(temp: i16) -> Ratio {
    Ratio { num: (100 * temp + 25 * 13248) as i64, den: 13248 }
}

/// Whether a reading is what 14 data bytes hold.
pub open spec fn is_reading(d: Seq<u8>, orientation: Orientation, s: RawImu) -> bool {
    &&& s.temp == word(d, 0)
    &&& s.accel@ == seq![word(d, 2), word(d, 4), word(d, 6)]
    &&& s.gyro@ == seq![word(d, 8), word(d, 10), word(d, 12)]
    &&& s.orientation == orientation
}

/// The chip.
pub struct Icm42688 {
    pub orientation: Orientation,
}

impl Icm42688 {
    /// The steps that configure the chip.
    pub fn new() -> (steps: Vec<Step>)
        ensures
            steps@ == setup(),
    {
        let mut steps: Vec<Step> = Vec::new();
        steps.push(Step::Wait { ms: 1 });
        steps.push(Step::Write { reg: REG_DEVICE_CONFIG, value: 0x01 });
        steps.push(Step::Wait { ms: 2 });
        steps.push(Step::Identify { reg: REG_WHO_AM_I, value: WHO_AM_I_VALUE });
        steps.push(Step::Write { reg: REG_GYRO_CONFIG0, value: GYRO_CFG });
        steps.push(Step::Write { reg: REG_ACCEL_CONFIG0, value: ACCEL_CFG });
        steps.push(Step::Write { reg: REG_INT_CONFIG, value: INT_CFG });
        steps.push(Step::Write { reg: REG_INT_CONFIG1, value: INT_CFG1 });
        steps.push(Step::Write { reg: REG_INT_SOURCE0, value: INT_SRC_DRDY });
        steps.push(Step::Write { reg: REG_PWR_MGMT0, value: PWR_LN_BOTH });
        steps.push(Step::Wait { ms: 50 });
        assert(steps@ =~= setup());
        steps
    }

    /// Turns the 14 data bytes, `None` where reading them failed, into a
    /// reading.
    pub fn read_raw(&self, data: Option<[u8; 14]>) -> (r: Result<RawImu, InitError>)
        ensures
            match data {
                None => r == Err::<RawImu, InitError>(InitError::Spi),
                Some(d) => r matches Ok(s) && {
                    &&& is_reading(d@, self.orientation, s)
                    &&& s.temp == word(d@, 0)
                    &&& s.accel@ == seq![word(d@, 2), word(d@, 4), word(d@, 6)]
                    &&& s.gyro@ == seq![word(d@, 8), word(d@, 10), word(d@, 12)]
                    &&& s.orientation == self.orientation
                },
            },
    {
        match data {
            None => Err(InitError::Spi),
            Some(d) => {
                let b: &[u8] = d.as_slice();
                let accel: [i16; 3] = [read_i16_be(b, 2), read_i16_be(b, 4), read_i16_be(b, 6)];
                let gyro: [i16; 3] = [read_i16_be(b, 8), read_i16_be(b, 10), read_i16_be(b, 12)];
                assert(accel@ =~= seq![word(d@, 2), word(d@, 4), word(d@, 6)]);
                assert(gyro@ =~= seq![word(d@, 8), word(d@, 10), word(d@, 12)]);
                Ok(RawImu { temp: read_i16_be(b, 0), accel, gyro, orientation: self.orientation })
            },
        }
    }
}

// ---- Laws ----

/// Every mounting is a proper rotation and never a mirror.
pub proof fn law_mountings_are_proper_rotations(o: Orientation)
    ensures
        axes::volume(
            o.rotated(Vector { x: 1, y: 0, z: 0 }),
            o.rotated(Vector { x: 0, y: 1, z: 0 }),
            o.rotated(Vector { x: 0, y: 0, z: 1 }),
        ) == 1,
{
    let a = o.rotated(Vector { x: 1, y: 0, z: 0 });
    let b = o.rotated(Vector { x: 0, y: 1, z: 0 });
    let c = o.rotated(Vector { x: 0, y: 0, z: 1 });
    axes::lemma_upright_volume(a, b, c);
    assert((a.x * b.y - a.y * b.x) * c.z == 1) by (nonlinear_arith)
        requires
            (a.y == 0 && b.x == 0 && ((a.x == 1 && b.y == 1 && c.z == 1) || (a.x == 1 && b.y == -1
                && c.z == -1) || (a.x == -1 && b.y == 1 && c.z == -1))) || (a.x == 0 && b.y == 0
                && a.y == 1 && b.x == -1 && c.z == 1),
    ;
}

/// The mean of a reading with itself is the reading in the body frame, counts
/// beyond what a count can hold excepted.
pub proof fn law_mean_of_equals(v: Vector)
    requires
        -32768 <= v.x <= 32767,
        -32768 <= v.y <= 32767,
        -32768 <= v.z <= 32767,
    ensures
        mean_vector(v, v) == v,
{
}

/// The order of two readings does not matter to their mean, and the mean lies
/// between them.
pub proof fn law_mean_is_symmetric_and_between(a: int, b: int)
    requires
        -32768 <= a <= b <= 32767,
    ensures
        mean(a, b) == mean(b, a),
        a <= mean(a, b) <= b,
{
}

/// What is written, in order: a reset, 16 g and 2000 degrees per second at 8 kHz, a pulsed
/// interrupt on new data, and both sensors on, once the chip has answered 47 hex.
pub proof fn law_settings_written()
    ensures
        setup() == seq![
            Step::Wait { ms: 1 },
            Step::Write { reg: 0x11, value: 0x01 },
            Step::Wait { ms: 2 },
            Step::Identify { reg: 0x75, value: 0x47 },
            Step::Write { reg: 0x4F, value: 0x03 },
            Step::Write { reg: 0x50, value: 0x03 },
            Step::Write { reg: 0x14, value: 0x03 },
            Step::Write { reg: 0x64, value: 0x40 },
            Step::Write { reg: 0x65, value: 0x08 },
            Step::Write { reg: 0x4E, value: 0x0F },
            Step::Wait { ms: 50 },
        ],
{
}

/// A reading is what the chip put into its registers: each quantity in its place, in two
/// bytes of two's complement, most significant first.
pub proof fn law_registers_are_read(
    d: Seq<u8>,
    o: Orientation,
    s: RawImu,
    t: i16,
    ax: i16,
    ay: i16,
    az: i16,
    gx: i16,
    gy: i16,
    gz: i16,
)
    requires
        d.len() == 14,
        is_reading(d, o, s),
        bytes::stands_in(d, 0, bytes::written_be(t as int, 2)),
        bytes::stands_in(d, 2, bytes::written_be(ax as int, 2)),
        bytes::stands_in(d, 4, bytes::written_be(ay as int, 2)),
        bytes::stands_in(d, 6, bytes::written_be(az as int, 2)),
        bytes::stands_in(d, 8, bytes::written_be(gx as int, 2)),
        bytes::stands_in(d, 10, bytes::written_be(gy as int, 2)),
        bytes::stands_in(d, 12, bytes::written_be(gz as int, 2)),
    ensures
        s.accel@ == seq![ax, ay, az],
        s.gyro@ == seq![gx, gy, gz],
        s.temp == t,
        s.orientation == o,
{
    bytes::law_two_bytes_read_back(d, 0, t as int);
    bytes::law_two_bytes_read_back(d, 2, ax as int);
    bytes::law_two_bytes_read_back(d, 4, ay as int);
    bytes::law_two_bytes_read_back(d, 6, az as int);
    bytes::law_two_bytes_read_back(d, 8, gx as int);
    bytes::law_two_bytes_read_back(d, 10, gy as int);
    bytes::law_two_bytes_read_back(d, 12, gz as int);
}

/// How the mountings turn the axes: a roll keeps X and a pitch keeps Y, each turning the
/// other two over; a yaw to the right takes X to Y and keeps Z.
pub proof fn law_mountings_turn_the_axes(v: Vector)
    ensures
        Orientation::Identity.rotated(v) == v,
        Orientation::Roll180.rotated(v) == (Vector { x: v.x, y: -v.y, z: -v.z }),
        Orientation::Pitch180.rotated(v) == (Vector { x: -v.x, y: v.y, z: -v.z }),
        Orientation::Yaw90.rotated(v) == (Vector { x: -v.y, y: v.x, z: v.z }),
{
}

/// Full scale is 16 g and 2000 degrees per second, at 32768 counts.
pub proof fn law_full_scale(r: Seq<Ratio>, v: Vector)
    requires
        -32768 <= v.x <= 32768,
        -32768 <= v.y <= 32768,
        -32768 <= v.z <= 32768,
    ensures
        axes::is_scaled(r, v, 1, ACCEL_LSB_PER_G) ==> r[0].num == v.x && r[1].num == v.y && r[2].num
            == v.z && 16 * r[0].den == 32768 && 16 * r[1].den == 32768 && 16 * r[2].den == 32768,
        axes::is_scaled(r, v, 1000, GYRO_LSB_PER_KILO_DPS) ==> r[0].num == 1000 * v.x && r[1].num
            == 1000 * v.y && r[2].num == 1000 * v.z && 2 * r[0].den == 32768 && 2 * r[1].den
            == 32768 && 2 * r[2].den == 32768,
{
}

/// The mean of two readings is taken axis by axis in the body frame: twice the mean is
/// their sum, up to what rounding takes away.
pub proof fn law_average_is_the_middle(a: RawImu, b: RawImu, m: RawImu)
    requires
        is_average(a, b, m),
    ensures
        ({
            let u = a.orientation.rotated(axes::counts(a.accel@));
            let v = b.orientation.rotated(axes::counts(b.accel@));
            &&& -1 <= u.x + v.x - 2 * m.accel@[0] <= 2
            &&& -1 <= u.y + v.y - 2 * m.accel@[1] <= 2
            &&& -1 <= u.z + v.z - 2 * m.accel@[2] <= 2
        }),
        ({
            let u = a.orientation.rotated(axes::counts(a.gyro@));
            let v = b.orientation.rotated(axes::counts(b.gyro@));
            &&& -1 <= u.x + v.x - 2 * m.gyro@[0] <= 2
            &&& -1 <= u.y + v.y - 2 * m.gyro@[1] <= 2
            &&& -1 <= u.z + v.z - 2 * m.gyro@[2] <= 2
        }),
        -1 <= a.temp + b.temp - 2 * m.temp <= 1,
        m.orientation == Orientation::Identity,
{
}

/// 25 degrees at no count, and a degree more for each 132.48 counts.
pub proof fn law_temperature(temp: i16)
    ensures
        100 * (temperature_of(temp).num - 25 * temperature_of(temp).den) == 10_000 * temp,
        100 * 13_248 == 100 * temperature_of(temp).den,
{
}

/// Another identity is reported as it was read, and every other failure as one of the
/// bus.
pub proof fn law_failures(id: u8)
    ensures
        failure_of(StepError::WrongId(id)) == InitError::WhoAmIMismatch(id),
        failure_of(StepError::Bus) == InitError::Spi,
        failure_of(StepError::NotHeld) == InitError::Spi,
{
}

} // verus!
