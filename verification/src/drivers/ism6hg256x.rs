//! STMicro ISM6HG256X inertial sensor.
//!
//! ±16 g and ±4000 °/s at 7.68 kHz. Output is little-endian.

use crate::bytes;
use crate::bytes::read_i16_le;
use crate::drivers::bring_up::{Step, StepError};
use crate::ratio::Ratio;
use vstd::prelude::*;

verus! {

pub const REG_FUNC_CFG_ACCESS: u8 = 0x01;

pub const REG_IF_CFG: u8 = 0x03;

pub const REG_INT1_CTRL: u8 = 0x0D;

pub const REG_WHO_AM_I: u8 = 0x0F;

pub const REG_CTRL1: u8 = 0x10;

pub const REG_CTRL2: u8 = 0x11;

pub const REG_CTRL3: u8 = 0x12;

pub const REG_CTRL4: u8 = 0x13;

pub const REG_CTRL6: u8 = 0x15;

pub const REG_CTRL8: u8 = 0x17;

/// First of 14 data bytes: temperature, rates, acceleration.
pub const REG_OUT_TEMP_L: u8 = 0x20;

pub const WHO_AM_I_VALUE: u8 = 0x73;

/// Set in an address to read, clear to write.
pub const READ_MASK: u8 = 0x80;

/// High performance, 7.68 kHz.
pub const CTRL1_ACCEL_HP_7K68: u8 = 0x0C;

/// High performance, 7.68 kHz.
pub const CTRL2_GYRO_HP_7K68: u8 = 0x0C;

/// Block data update, and addresses that advance.
pub const CTRL3_BDU_AUTOINC: u8 = 0x44;

pub const CTRL3_SW_RESET: u8 = 0x01;

/// Data-ready in pulses, which do not have to be cleared.
pub const CTRL4_DRDY_PULSED: u8 = 0x02;

pub const CTRL6_GYRO_FS_4000DPS: u8 = 0x0D;

pub const CTRL8_ACCEL_FS_16G: u8 = 0x03;

pub const IF_CFG_SPI_ONLY: u8 = 0x01;

pub const INT1_DRDY_XL: u8 = 0x01;

/// Counts per g.
pub const ACCEL_LSB_PER_G: u16 = 2048;

/// Thousandths of °/s per count.
pub const GYRO_MDPS_PER_LSB: u16 = 140;

/// How the chip is mounted relative to the body frame.
#[derive(Clone, Copy, Debug, PartialEq, Eq, Structural)]
pub enum Orientation {
    Identity,
    Roll180,
    Pitch180,
    Yaw180,
}

impl Orientation {
    /// The sign of each axis.
    pub open spec fn signs(self) -> Seq<i32> {
        match self {
            Orientation::Identity => seq![1i32, 1i32, 1i32],
            Orientation::Roll180 => seq![1i32, -1i32, -1i32],
            Orientation::Pitch180 => seq![-1i32, 1i32, -1i32],
            Orientation::Yaw180 => seq![-1i32, -1i32, 1i32],
        }
    }

    /// The sign of each axis.
    pub fn sign(self) -> (s: [i32; 3])
        ensures
            s@ == self.signs(),
    {
        let s: [i32; 3] = match self {
            Orientation::Identity => [1, 1, 1],
            Orientation::Roll180 => [1, -1, -1],
            Orientation::Pitch180 => [-1, 1, -1],
            Orientation::Yaw180 => [-1, -1, 1],
        };
        assert(s@ =~= self.signs());
        s
    }
}

/// One reading, in counts and sensor axes.
#[derive(Clone, Copy, Debug, PartialEq, Eq)]
pub struct RawImu {
    pub accel: [i16; 3],
    pub gyro: [i16; 3],
    pub temp: i16,
    pub orientation: Orientation,
}

/// A count with a sign applied.
pub open spec fn signed(count: i16, sign: i32) -> int {
    if sign < 0 {
        -count
    } else {
        count as int
    }
}

/// Whether three fractions are counts with signs applied, scaled.
pub open spec fn is_signed_scaled(
    r: Seq<Ratio>,
    c: Seq<i16>,
    signs: Seq<i32>,
    num: u16,
    den: u16,
) -> bool {
    forall|i: int|
        0 <= i < 3 ==> #[trigger] r[i] == Ratio::spec_of(signed(c[i], signs[i]), num, den)
}

fn scaled(c: [i16; 3], sign: [i32; 3], num: u16, den: u16) -> (r: [Ratio; 3])
    ensures
        is_signed_scaled(r@, c@, sign@, num, den),
{
    let x: i32 = if sign[0] < 0 {
        -(c[0] as i32)
    } else {
        c[0] as i32
    };
    let y: i32 = if sign[1] < 0 {
        -(c[1] as i32)
    } else {
        c[1] as i32
    };
    let z: i32 = if sign[2] < 0 {
        -(c[2] as i32)
    } else {
        c[2] as i32
    };
    [Ratio::of(x, num, den), Ratio::of(y, num, den), Ratio::of(z, num, den)]
}

impl RawImu {
    /// Acceleration in g, body frame.
    pub fn accel_g(&self) -> (r: [Ratio; 3])
        ensures
            is_signed_scaled(r@, self.accel@, self.orientation.signs(), 1, ACCEL_LSB_PER_G),
    {
        scaled(self.accel, self.orientation.sign(), 1, ACCEL_LSB_PER_G)
    }

    /// Rates in °/s, body frame.
    pub fn gyro_dps(&self) -> (r: [Ratio; 3])
        ensures
            is_signed_scaled(r@, self.gyro@, self.orientation.signs(), GYRO_MDPS_PER_LSB, 1000),
    {
        scaled(self.gyro, self.orientation.sign(), GYRO_MDPS_PER_LSB, 1000)
    }

    /// Acceleration in g, sensor frame.
    pub fn accel_g_sensor(&self) -> (r: [Ratio; 3])
        ensures
            is_signed_scaled(r@, self.accel@, Orientation::Identity.signs(), 1, ACCEL_LSB_PER_G),
    {
        scaled(self.accel, Orientation::Identity.sign(), 1, ACCEL_LSB_PER_G)
    }

    /// Rates in °/s, sensor frame.
    pub fn gyro_dps_sensor(&self) -> (r: [Ratio; 3])
        ensures
            is_signed_scaled(
                r@,
                self.gyro@,
                Orientation::Identity.signs(),
                GYRO_MDPS_PER_LSB,
                1000,
            ),
    {
        scaled(self.gyro, Orientation::Identity.sign(), GYRO_MDPS_PER_LSB, 1000)
    }

    /// Temperature in °C: counts over 256, plus 25.
    pub fn temp_c(&self) -> (r: Ratio)
        ensures
            r.num == self.temp + 25 * 256,
            r.den == 256,
            r == temperature_of(self.temp),
    {
        Ratio { num: self.temp as i64 + 6400, den: 256 }
    }
}

/// Why the chip failed.
#[derive(Debug, Clone, Copy, PartialEq, Eq, Structural)]
pub enum InitError {
    WhoAmIMismatch(u8),
    Spi,
}

/// The error for a failed step.
pub open spec fn failure_of(e: StepError) -> InitError {
    match e {
        StepError::WrongId(id) => InitError::WhoAmIMismatch(id),
        _ => InitError::Spi,
    }
}

/// The error for a failed step. No step reads a setting back.
pub fn step_failure(e: StepError) -> (i: InitError)
    ensures
        i == (match e {
            StepError::WrongId(id) => InitError::WhoAmIMismatch(id),
            _ => InitError::Spi,
        }),
        i == failure_of(e),
{
    match e {
        StepError::WrongId(id) => InitError::WhoAmIMismatch(id),
        _ => InitError::Spi,
    }
}

/// The configuration: reset, default register bank, identity, bus, full scale
/// and interrupt before power-up, power-up.
pub open spec fn setup() -> Seq<Step> {
    seq![
        Step::Wait { ms: 10 },
        Step::Write { reg: REG_CTRL3, value: CTRL3_SW_RESET },
        Step::Wait { ms: 5 },
        Step::Write { reg: REG_FUNC_CFG_ACCESS, value: 0x00 },
        Step::Identify { reg: REG_WHO_AM_I, value: WHO_AM_I_VALUE },
        Step::Write { reg: REG_IF_CFG, value: IF_CFG_SPI_ONLY },
        Step::Write { reg: REG_CTRL3, value: CTRL3_BDU_AUTOINC },
        Step::Write { reg: REG_CTRL8, value: CTRL8_ACCEL_FS_16G },
        Step::Write { reg: REG_CTRL6, value: CTRL6_GYRO_FS_4000DPS },
        Step::Write { reg: REG_CTRL4, value: CTRL4_DRDY_PULSED },
        Step::Write { reg: REG_INT1_CTRL, value: INT1_DRDY_XL },
        Step::Write { reg: REG_CTRL1, value: CTRL1_ACCEL_HP_7K68 },
        Step::Write { reg: REG_CTRL2, value: CTRL2_GYRO_HP_7K68 },
        Step::Wait { ms: 50 },
    ]
}

/// A signed word of a data block, least significant byte first.
pub open spec fn word(d: Seq<u8>, at: int) -> i16 {
    bytes::twos_complement(bytes::u16_le(d, at), 0x8000) as i16
}

/// A temperature in °C.
pub open spec fn temperature_of(temp: i16) -> Ratio {
    Ratio { num: (temp + 25 * 256) as i64, den: 256 }
}

/// Whether a reading is what 14 data bytes hold.
pub open spec fn is_reading(d: Seq<u8>, orientation: Orientation, s: RawImu) -> bool {
    &&& s.temp == word(d, 0)
    &&& s.accel@ == seq![word(d, 8), word(d, 10), word(d, 12)]
    &&& s.gyro@ == seq![word(d, 2), word(d, 4), word(d, 6)]
    &&& s.orientation == orientation
}

/// The chip.
pub struct Ism6hg256x {
    pub orientation: Orientation,
}

impl Ism6hg256x {
    /// The steps that configure the chip.
    pub fn new() -> (steps: Vec<Step>)
        ensures
            steps@ == setup(),
    {
        let mut steps: Vec<Step> = Vec::new();
        steps.push(Step::Wait { ms: 10 });
        steps.push(Step::Write { reg: REG_CTRL3, value: CTRL3_SW_RESET });
        steps.push(Step::Wait { ms: 5 });
        steps.push(Step::Write { reg: REG_FUNC_CFG_ACCESS, value: 0x00 });
        steps.push(Step::Identify { reg: REG_WHO_AM_I, value: WHO_AM_I_VALUE });
        steps.push(Step::Write { reg: REG_IF_CFG, value: IF_CFG_SPI_ONLY });
        steps.push(Step::Write { reg: REG_CTRL3, value: CTRL3_BDU_AUTOINC });
        steps.push(Step::Write { reg: REG_CTRL8, value: CTRL8_ACCEL_FS_16G });
        steps.push(Step::Write { reg: REG_CTRL6, value: CTRL6_GYRO_FS_4000DPS });
        steps.push(Step::Write { reg: REG_CTRL4, value: CTRL4_DRDY_PULSED });
        steps.push(Step::Write { reg: REG_INT1_CTRL, value: INT1_DRDY_XL });
        steps.push(Step::Write { reg: REG_CTRL1, value: CTRL1_ACCEL_HP_7K68 });
        steps.push(Step::Write { reg: REG_CTRL2, value: CTRL2_GYRO_HP_7K68 });
        steps.push(Step::Wait { ms: 50 });
        assert(steps@ =~= setup());
        steps
    }

    /// Turns the 14 data bytes, `None` where reading them failed, into a
    /// reading.
    pub fn read_raw(&self, data: Option<[u8; 14]>) -> (r: Result<RawImu, InitError>)
        ensures
            match data {
                None => r == Err::<RawImu, InitError>(InitError::Spi),
                Some(d) => r matches Ok(s) && {
                    &&& is_reading(d@, self.orientation, s)
                    &&& s.temp == word(d@, 0)
                    &&& s.gyro@ == seq![word(d@, 2), word(d@, 4), word(d@, 6)]
                    &&& s.accel@ == seq![word(d@, 8), word(d@, 10), word(d@, 12)]
                    &&& s.orientation == self.orientation
                },
            },
    {
        match data {
            None => Err(InitError::Spi),
            Some(d) => {
                let b: &[u8] = d.as_slice();
                let gyro: [i16; 3] = [read_i16_le(b, 2), read_i16_le(b, 4), read_i16_le(b, 6)];
                let accel: [i16; 3] = [read_i16_le(b, 8), read_i16_le(b, 10), read_i16_le(b, 12)];
                assert(gyro@ =~= seq![word(d@, 2), word(d@, 4), word(d@, 6)]);
                assert(accel@ =~= seq![word(d@, 8), word(d@, 10), word(d@, 12)]);
                Ok(RawImu { temp: read_i16_le(b, 0), accel, gyro, orientation: self.orientation })
            },
        }
    }
}

/// What is written, in order: a reset, after the chip has answered 73 hex the bus, 16 g and
/// 4000 degrees per second, and both sensors on at 7.68 kHz.
pub proof fn law_settings_written()
    ensures
        setup() == seq![
            Step::Wait { ms: 10 },
            Step::Write { reg: 0x12, value: 0x01 },
            Step::Wait { ms: 5 },
            Step::Write { reg: 0x01, value: 0x00 },
            Step::Identify { reg: 0x0F, value: 0x73 },
            Step::Write { reg: 0x03, value: 0x01 },
            Step::Write { reg: 0x12, value: 0x44 },
            Step::Write { reg: 0x17, value: 0x03 },
            Step::Write { reg: 0x15, value: 0x0D },
            Step::Write { reg: 0x13, value: 0x02 },
            Step::Write { reg: 0x0D, value: 0x01 },
            Step::Write { reg: 0x10, value: 0x0C },
            Step::Write { reg: 0x11, value: 0x0C },
            Step::Wait { ms: 50 },
        ],
{
}

/// A reading is what the chip put into its registers: each quantity in its place, in two
/// bytes of two's complement, least significant first.
pub proof fn law_registers_are_read(
    d: Seq<u8>,
    o: Orientation,
    s: RawImu,
    t: i16,
    ax: i16,
    ay: i16,
    az: i16,
    gx: i16,
    gy: i16,
    gz: i16,
)
    requires
        d.len() == 14,
        is_reading(d, o, s),
        bytes::stands_in(d, 0, bytes::written_le(t as int, 2)),
        bytes::stands_in(d, 2, bytes::written_le(gx as int, 2)),
        bytes::stands_in(d, 4, bytes::written_le(gy as int, 2)),
        bytes::stands_in(d, 6, bytes::written_le(gz as int, 2)),
        bytes::stands_in(d, 8, bytes::written_le(ax as int, 2)),
        bytes::stands_in(d, 10, bytes::written_le(ay as int, 2)),
        bytes::stands_in(d, 12, bytes::written_le(az as int, 2)),
    ensures
        s.accel@ == seq![ax, ay, az],
        s.gyro@ == seq![gx, gy, gz],
        s.temp == t,
        s.orientation == o,
{
    bytes::law_two_bytes_read_back(d, 0, t as int);
    bytes::law_two_bytes_read_back(d, 2, gx as int);
    bytes::law_two_bytes_read_back(d, 4, gy as int);
    bytes::law_two_bytes_read_back(d, 6, gz as int);
    bytes::law_two_bytes_read_back(d, 8, ax as int);
    bytes::law_two_bytes_read_back(d, 10, ay as int);
    bytes::law_two_bytes_read_back(d, 12, az as int);
}

/// A roll keeps X, a pitch keeps Y and a yaw keeps Z, each turning the other two axes
/// over.
pub proof fn law_mountings_turn_the_axes(c: i16)
    ensures
        signed(c, Orientation::Roll180.signs()[0]) == c,
        signed(c, Orientation::Roll180.signs()[1]) == -c,
        signed(c, Orientation::Roll180.signs()[2]) == -c,
        signed(c, Orientation::Pitch180.signs()[0]) == -c,
        signed(c, Orientation::Pitch180.signs()[1]) == c,
        signed(c, Orientation::Pitch180.signs()[2]) == -c,
        signed(c, Orientation::Yaw180.signs()[0]) == -c,
        signed(c, Orientation::Yaw180.signs()[1]) == -c,
        signed(c, Orientation::Yaw180.signs()[2]) == c,
        signed(c, Orientation::Identity.signs()[0]) == c,
        signed(c, Orientation::Identity.signs()[1]) == c,
        signed(c, Orientation::Identity.signs()[2]) == c,
{
}

/// 2048 counts are a g, and a count is 140 thousandths of a degree per second.
pub proof fn law_scales(r: Seq<Ratio>, c: Seq<i16>, i: int)
    requires
        0 <= i < 3,
    ensures
        is_signed_scaled(r, c, Orientation::Identity.signs(), 1, ACCEL_LSB_PER_G) ==> r[i].num == c[i]
            && r[i].den == 2048,
        is_signed_scaled(r, c, Orientation::Identity.signs(), GYRO_MDPS_PER_LSB, 1000) ==> r[i].num
            == 140 * c[i] && r[i].den == 1000,
{
    if is_signed_scaled(r, c, Orientation::Identity.signs(), 1, ACCEL_LSB_PER_G) {
        assert(r[i] == Ratio::spec_of(
            signed(c[i], Orientation::Identity.signs()[i]),
            1,
            ACCEL_LSB_PER_G,
        ));
    }
    if is_signed_scaled(r, c, Orientation::Identity.signs(), GYRO_MDPS_PER_LSB, 1000) {
        assert(r[i] == Ratio::spec_of(
            signed(c[i], Orientation::Identity.signs()[i]),
            GYRO_MDPS_PER_LSB,
            1000,
        ));
    }
}

/// 25 degrees at no count, and a degree more for each 256 counts.
pub proof fn law_temperature(temp: i16)
    ensures
        temperature_of(temp).num - 25 * temperature_of(temp).den == temp,
        temperature_of(temp).den == 256,
{
}

/// Another identity is reported as it was read, and every other failure as one of the
/// bus.
pub proof fn law_failures(id: u8)
    ensures
        failure_of(StepError::WrongId(id)) == InitError::WhoAmIMismatch(id),
        failure_of(StepError::Bus) == InitError::Spi,
        failure_of(StepError::NotHeld) == InitError::Spi,
{
}

} // verus!
