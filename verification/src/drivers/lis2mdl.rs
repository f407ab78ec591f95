//! STMicro LIS2MDL magnetometer.
//!
//! 100 Hz continuous mode in high resolution, with temperature compensation,
//! offset cancellation, block data update and the low-pass filter on.

use crate::bytes;
use crate::bytes::read_i16_le;
use crate::drivers::bring_up::{Step, StepError};
use crate::ratio::Ratio;
use vstd::prelude::*;

verus! {

pub const I2C_ADDR: u8 = 0x1E;

pub const REG_WHO_AM_I: u8 = 0x4F;

pub const REG_CFG_A: u8 = 0x60;

pub const REG_CFG_B: u8 = 0x61;

pub const REG_CFG_C: u8 = 0x62;

pub const REG_STATUS: u8 = 0x67;

/// First data register, with the bit that makes the address advance.
pub const REG_OUT_BURST: u8 = 0xE8;

/// First temperature register, with the bit that makes the address advance.
pub const REG_TEMP_BURST: u8 = 0xEE;

pub const WHO_AM_I_VALUE: u8 = 0x40;

/// Temperature compensation, high resolution, 100 Hz, continuous.
pub const CFG_A_RUN_HR_100HZ: u8 = 0x8C;

pub const CFG_A_SOFT_RESET: u8 = 0x20;

/// Offset cancellation and low-pass filter.
pub const CFG_B_OFFCANC_LPF: u8 = 0x03;

/// Block data update.
pub const CFG_C_BDU: u8 = 0x10;

/// New data on all axes.
pub const STATUS_ZYXDA: u8 = 0x08;

/// Milligauss per count, in tenths.
pub const SENS_MGAUSS_TENTHS_PER_LSB: u16 = 15;

/// Microtesla per count, in hundredths.
pub const SENS_UT_HUNDREDTHS_PER_LSB: u16 = 15;

/// Temperature counts per degree.
pub const TEMP_LSB_PER_C: u16 = 8;

/// How the chip is mounted relative to the body frame.
#[derive(Clone, Copy, Debug, PartialEq, Eq, Structural)]
pub enum Orientation {
    Identity,
    Roll180,
    Pitch180,
    Yaw180,
}

impl Orientation {
    /// The sign of each axis.
    pub open spec fn signs(self) -> Seq<i32> {
        match self {
            Orientation::Identity => seq![1i32, 1i32, 1i32],
            Orientation::Roll180 => seq![1i32, -1i32, -1i32],
            Orientation::Pitch180 => seq![-1i32, 1i32, -1i32],
            Orientation::Yaw180 => seq![-1i32, -1i32, 1i32],
        }
    }

    /// The sign of each axis.
    pub fn sign(self) -> (s: [i32; 3])
        ensures
            s@ == self.signs(),
    {
        let s: [i32; 3] = match self {
            Orientation::Identity => [1, 1, 1],
            Orientation::Roll180 => [1, -1, -1],
            Orientation::Pitch180 => [-1, 1, -1],
            Orientation::Yaw180 => [-1, -1, 1],
        };
        assert(s@ =~= self.signs());
        s
    }
}

/// One reading.
#[derive(Clone, Copy, Debug, PartialEq, Eq)]
pub struct MagSample {
    pub raw: [i16; 3],
    pub orientation: Orientation,
}

/// A count with a sign applied.
pub open spec fn signed(count: i16, sign: i32) -> int {
    if sign < 0 {
        -count
    } else {
        count as int
    }
}

fn apply_sign(count: i16, sign: i32) -> (c: i32)
    ensures
        c == signed(count, sign),
{
    if sign < 0 {
        -(count as i32)
    } else {
        count as i32
    }
}

impl MagSample {
    /// Field in microtesla, body frame.
    pub fn ut(&self) -> (r: [Ratio; 3])
        ensures
            forall|i: int|
                0 <= i < 3 ==> #[trigger] r@[i] == Ratio::spec_of(
                    signed(self.raw@[i], self.orientation.signs()[i]),
                    15,
                    100,
                ),
    {
        let s: [i32; 3] = self.orientation.sign();
        [
            Ratio::of(apply_sign(self.raw[0], s[0]), SENS_UT_HUNDREDTHS_PER_LSB, 100),
            Ratio::of(apply_sign(self.raw[1], s[1]), SENS_UT_HUNDREDTHS_PER_LSB, 100),
            Ratio::of(apply_sign(self.raw[2], s[2]), SENS_UT_HUNDREDTHS_PER_LSB, 100),
        ]
    }

    /// Field in milligauss, body frame.
    pub fn mgauss(&self) -> (r: [Ratio; 3])
        ensures
            forall|i: int|
                0 <= i < 3 ==> #[trigger] r@[i] == Ratio::spec_of(
                    signed(self.raw@[i], self.orientation.signs()[i]),
                    15,
                    10,
                ),
    {
        let s: [i32; 3] = self.orientation.sign();
        [
            Ratio::of(apply_sign(self.raw[0], s[0]), SENS_MGAUSS_TENTHS_PER_LSB, 10),
            Ratio::of(apply_sign(self.raw[1], s[1]), SENS_MGAUSS_TENTHS_PER_LSB, 10),
            Ratio::of(apply_sign(self.raw[2], s[2]), SENS_MGAUSS_TENTHS_PER_LSB, 10),
        ]
    }

    /// Field in microtesla, sensor frame.
    pub fn ut_sensor(&self) -> (r: [Ratio; 3])
        ensures
            forall|i: int|
                0 <= i < 3 ==> #[trigger] r@[i] == Ratio::spec_of(self.raw@[i] as int, 15, 100),
    {
        [
            Ratio::of(self.raw[0] as i32, SENS_UT_HUNDREDTHS_PER_LSB, 100),
            Ratio::of(self.raw[1] as i32, SENS_UT_HUNDREDTHS_PER_LSB, 100),
            Ratio::of(self.raw[2] as i32, SENS_UT_HUNDREDTHS_PER_LSB, 100),
        ]
    }
}

/// Why the chip failed.
#[derive(Debug, Clone, Copy, PartialEq, Eq, Structural)]
pub enum InitError {
    I2c,
    WhoAmIMismatch(u8),
}

/// The error for a failed step.
pub open spec fn failure_of(e: StepError) -> InitError {
    match e {
        StepError::WrongId(id) => InitError::WhoAmIMismatch(id),
        _ => InitError::I2c,
    }
}

/// The error for a failed step. No step reads a setting back.
pub fn step_failure(e: StepError) -> (i: InitError)
    ensures
        i == (match e {
            StepError::WrongId(id) => InitError::WhoAmIMismatch(id),
            _ => InitError::I2c,
        }),
        i == failure_of(e),
{
    match e {
        StepError::WrongId(id) => InitError::WhoAmIMismatch(id),
        _ => InitError::I2c,
    }
}

/// The chip.
pub struct Lis2mdl {
    pub addr: u8,
    pub orientation: Orientation,
}

/// The configuration: identity, reset, filtering before power-up, power-up.
pub open spec fn setup() -> Seq<Step> {
    seq![
        Step::Identify { reg: REG_WHO_AM_I, value: WHO_AM_I_VALUE },
        Step::Write { reg: REG_CFG_A, value: CFG_A_SOFT_RESET },
        Step::Wait { ms: 10 },
        Step::Write { reg: REG_CFG_B, value: CFG_B_OFFCANC_LPF },
        Step::Write { reg: REG_CFG_C, value: CFG_C_BDU },
        Step::Write { reg: REG_CFG_A, value: CFG_A_RUN_HR_100HZ },
        Step::Wait { ms: 25 },
    ]
}

/// The counts in six data bytes.
pub open spec fn raw_of(buf: Seq<u8>) -> Seq<i16> {
    seq![
        bytes::twos_complement(bytes::u16_le(buf, 0), 0x8000) as i16,
        bytes::twos_complement(bytes::u16_le(buf, 2), 0x8000) as i16,
        bytes::twos_complement(bytes::u16_le(buf, 4), 0x8000) as i16,
    ]
}

impl Lis2mdl {
    /// The steps that configure the chip.
    pub fn init() -> (steps: Vec<Step>)
        ensures
            steps@ == setup(),
    {
        let mut steps: Vec<Step> = Vec::new();
        steps.push(Step::Identify { reg: REG_WHO_AM_I, value: WHO_AM_I_VALUE });
        steps.push(Step::Write { reg: REG_CFG_A, value: CFG_A_SOFT_RESET });
        steps.push(Step::Wait { ms: 10 });
        steps.push(Step::Write { reg: REG_CFG_B, value: CFG_B_OFFCANC_LPF });
        steps.push(Step::Write { reg: REG_CFG_C, value: CFG_C_BDU });
        steps.push(Step::Write { reg: REG_CFG_A, value: CFG_A_RUN_HR_100HZ });
        steps.push(Step::Wait { ms: 25 });
        assert(steps@ =~= setup());
        steps
    }

    /// Turns the six data bytes, `None` where reading them failed, into a
    /// sample.
    pub fn read(&self, data: Option<[u8; 6]>) -> (r: Result<MagSample, InitError>)
        ensures
            match data {
                None => r == Err::<MagSample, InitError>(InitError::I2c),
                Some(buf) => r matches Ok(s) && s.raw@ == raw_of(buf@) && s.orientation
                    == self.orientation,
            },
    {
        match data {
            None => Err(InitError::I2c),
            Some(buf) => {
                let raw: [i16; 3] = [
                    read_i16_le(buf.as_slice(), 0),
                    read_i16_le(buf.as_slice(), 2),
                    read_i16_le(buf.as_slice(), 4),
                ];
                assert(raw@ =~= raw_of(buf@));
                Ok(MagSample { raw, orientation: self.orientation })
            },
        }
    }

    /// Die temperature in degrees; its zero point is approximate.
    pub fn read_temp_c(data: Option<[u8; 2]>) -> (r: Result<Ratio, InitError>)
        ensures
            match data {
                None => r == Err::<Ratio, InitError>(InitError::I2c),
                Some(buf) => r == Ok::<Ratio, InitError>(
                    Ratio::spec_of(
                        bytes::twos_complement(bytes::u16_le(buf@, 0), 0x8000),
                        1,
                        TEMP_LSB_PER_C,
                    ),
                ),
            },
    {
        match data {
            None => Err(InitError::I2c),
            Some(buf) => Ok(Ratio::of(read_i16_le(buf.as_slice(), 0) as i32, 1, TEMP_LSB_PER_C)),
        }
    }

    /// Whether a status byte reports a new sample.
    pub open spec fn has_sample(status: u8) -> bool {
        status / 8 % 2 == 1
    }

    /// Whether the status byte reports a new sample on all axes.
    pub fn data_ready(status: Option<u8>) -> (r: Result<bool, InitError>)
        ensures
            match status {
                None => r == Err::<bool, InitError>(InitError::I2c),
                Some(b) => r == Ok::<bool, InitError>(b / 8 % 2 == 1) && r == Ok::<
                    bool,
                    InitError,
                >(Self::has_sample(b)),
            },
    {
        match status {
            None => Err(InitError::I2c),
            Some(b) => Ok(b / 8 % 2 == 1),
        }
    }
}

// ---- Laws ----

/// Every mounting keeps lengths and is no mirror: each sign is one, and an even
/// number of them is negative.
pub proof fn law_mountings_are_proper(o: Orientation)
    ensures
        forall|i: int| 0 <= i < 3 ==> (#[trigger] o.signs()[i] == 1 || o.signs()[i] == -1),
        o.signs()[0] * o.signs()[1] * o.signs()[2] == 1,
{
    let (a, b, c) = (o.signs()[0] as int, o.signs()[1] as int, o.signs()[2] as int);
    assert(a * b * c == 1) by (nonlinear_arith)
        requires
            (a == 1 && b == 1 && c == 1) || (a == 1 && b == -1 && c == -1) || (a == -1 && b == 1
                && c == -1) || (a == -1 && b == -1 && c == 1),
    ;
}

/// What is written, in order, once the chip has answered 40 hex: a reset, offset
/// cancellation with the filter, whole samples, and high resolution at 100 Hz.
pub proof fn law_settings_written()
    ensures
        setup() == seq![
            Step::Identify { reg: 0x4F, value: 0x40 },
            Step::Write { reg: 0x60, value: 0x20 },
            Step::Wait { ms: 10 },
            Step::Write { reg: 0x61, value: 0x03 },
            Step::Write { reg: 0x62, value: 0x10 },
            Step::Write { reg: 0x60, value: 0x8C },
            Step::Wait { ms: 25 },
        ],
{
}

/// A roll keeps X, a pitch keeps Y and a yaw keeps Z, each turning the other two axes
/// over.
pub proof fn law_mountings_turn_the_axes(c: i16)
    ensures
        signed(c, Orientation::Roll180.signs()[0]) == c,
        signed(c, Orientation::Roll180.signs()[1]) == -c,
        signed(c, Orientation::Roll180.signs()[2]) == -c,
        signed(c, Orientation::Pitch180.signs()[0]) == -c,
        signed(c, Orientation::Pitch180.signs()[1]) == c,
        signed(c, Orientation::Pitch180.signs()[2]) == -c,
        signed(c, Orientation::Yaw180.signs()[0]) == -c,
        signed(c, Orientation::Yaw180.signs()[1]) == -c,
        signed(c, Orientation::Yaw180.signs()[2]) == c,
        signed(c, Orientation::Identity.signs()[0]) == c,
        signed(c, Orientation::Identity.signs()[1]) == c,
        signed(c, Orientation::Identity.signs()[2]) == c,
{
}

/// A sample is what the chip put into its registers: two bytes an axis in two's
/// complement, least significant first, in the order X, Y, Z.
pub proof fn law_registers_are_read(buf: Seq<u8>, x: i16, y: i16, z: i16)
    requires
        buf.len() == 6,
        bytes::stands_in(buf, 0, bytes::written_le(x as int, 2)),
        bytes::stands_in(buf, 2, bytes::written_le(y as int, 2)),
        bytes::stands_in(buf, 4, bytes::written_le(z as int, 2)),
    ensures
        raw_of(buf)[0] == x,
        raw_of(buf)[1] == y,
        raw_of(buf)[2] == z,
        raw_of(buf).len() == 3,
{
    bytes::law_two_bytes_read_back(buf, 0, x as int);
    bytes::law_two_bytes_read_back(buf, 2, y as int);
    bytes::law_two_bytes_read_back(buf, 4, z as int);
}

/// Another identity is reported as it was read, and every other failure as one of the
/// bus.
pub proof fn law_failures(id: u8)
    ensures
        failure_of(StepError::WrongId(id)) == InitError::WhoAmIMismatch(id),
        failure_of(StepError::Bus) == InitError::I2c,
        failure_of(StepError::NotHeld) == InitError::I2c,
{
}

/// The flag weighs eight, whatever is below and above it.
pub proof fn law_sample_flag(below: u8, above: u8)
    requires
        below < 8,
        above < 16,
    ensures
        Lis2mdl::has_sample((16 * above + 8 + below) as u8),
        !Lis2mdl::has_sample((16 * above + below) as u8),
{
}

} // verus!
