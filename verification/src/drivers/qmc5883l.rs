//! QST QMC5883L magnetometer.
//!
//! Its chip ID reads 0xFF, which an idle bus reads too, so presence is tested by
//! writing a register and reading it back.

use crate::bytes;
use crate::bytes::read_i16_le;
use crate::drivers::bring_up::Step;
use crate::drivers::mag::{MagError, MagSample, Orientation, Scale};
use vstd::prelude::*;

verus! {

pub const I2C_ADDR: u8 = 0x0D;

pub const REG_X_LSB: u8 = 0x00;

pub const REG_STATUS: u8 = 0x06;

pub const REG_TEMP_LSB: u8 = 0x07;

pub const REG_CTRL1: u8 = 0x09;

pub const REG_CTRL2: u8 = 0x0A;

pub const REG_SET_RESET: u8 = 0x0B;

pub const REG_CHIP_ID: u8 = 0x0D;

/// The chip ID register reads this, and so does an empty bus.
pub const CHIP_ID_VALUE: u8 = 0xFF;

/// New data on all axes.
pub const STATUS_DRDY: u8 = 0x01;

/// Some axis saturated.
pub const STATUS_OVL: u8 = 0x02;

/// A sample was skipped.
pub const STATUS_DOR: u8 = 0x04;

#[derive(Clone, Copy, Debug, PartialEq, Eq, Structural)]
pub enum Mode {
    Standby,
    Continuous,
}

impl Mode {
    /// The field value.
    pub open spec fn bits(self) -> u8 {
        match self {
            Mode::Standby => 0,
            Mode::Continuous => 1,
        }
    }

    /// The field value.
    pub fn code(self) -> (c: u8)
        ensures
            c == self.bits(),
            c < 2,
    {
        match self {
            Mode::Standby => 0,
            Mode::Continuous => 1,
        }
    }
}

/// Output data rate.
#[derive(Clone, Copy, Debug, PartialEq, Eq, Structural)]
pub enum Odr {
    Hz10,
    Hz50,
    Hz100,
    Hz200,
}

impl Odr {
    /// The field value.
    pub open spec fn bits(self) -> u8 {
        match self {
            Odr::Hz10 => 0,
            Odr::Hz50 => 1,
            Odr::Hz100 => 2,
            Odr::Hz200 => 3,
        }
    }

    /// The field value.
    pub fn code(self) -> (c: u8)
        ensures
            c == self.bits(),
            c < 4,
    {
        match self {
            Odr::Hz10 => 0,
            Odr::Hz50 => 1,
            Odr::Hz100 => 2,
            Odr::Hz200 => 3,
        }
    }
}

/// Full scale.
#[derive(Clone, Copy, Debug, PartialEq, Eq, Structural)]
pub enum Range {
    /// ±2 G.
    G2,
    /// ±8 G.
    G8,
}

impl Range {
    /// The field value.
    pub open spec fn bits(self) -> u8 {
        match self {
            Range::G2 => 0,
            Range::G8 => 1,
        }
    }

    /// The field value.
    pub fn code(self) -> (c: u8)
        ensures
            c == self.bits(),
            c < 2,
    {
        match self {
            Range::G2 => 0,
            Range::G8 => 1,
        }
    }
}

/// Oversampling; the encoding runs backwards.
#[derive(Clone, Copy, Debug, PartialEq, Eq, Structural)]
pub enum Osr {
    X512,
    X256,
    X128,
    X64,
}

impl Osr {
    /// The field value.
    pub open spec fn bits(self) -> u8 {
        match self {
            Osr::X512 => 0,
            Osr::X256 => 1,
            Osr::X128 => 2,
            Osr::X64 => 3,
        }
    }

    /// The field value.
    pub fn code(self) -> (c: u8)
        ensures
            c == self.bits(),
            c < 4,
    {
        match self {
            Osr::X512 => 0,
            Osr::X256 => 1,
            Osr::X128 => 2,
            Osr::X64 => 3,
        }
    }
}

impl Range {
    /// Counts per gauss.
    pub open spec fn sensitivity(self) -> u16 {
        match self {
            Range::G2 => 12000,
            Range::G8 => 3000,
        }
    }

    /// Microtesla per count: a gauss is 100 microtesla.
    pub fn ut_per_lsb(self) -> (s: Scale)
        ensures
            s == (Scale { num: 100, den: self.sensitivity() }),
    {
        match self {
            Range::G2 => Scale { num: 100, den: 12000 },
            Range::G8 => Scale { num: 100, den: 3000 },
        }
    }
}

/// The fields of control register 1 together.
pub open spec fn control_byte(osr: Osr, rng: Range, odr: Odr, mode: Mode) -> int {
    64 * osr.bits() + 16 * rng.bits() + 4 * odr.bits() + mode.bits()
}

/// Control register 1: oversampling in bits 7:6, range in 5:4, rate in 3:2, mode
/// in 1:0.
pub fn ctrl1(osr: Osr, rng: Range, odr: Odr, mode: Mode) -> (b: u8)
    ensures
        b == 64 * osr.bits() + 16 * rng.bits() + 4 * odr.bits() + mode.bits(),
        b == control_byte(osr, rng, odr, mode),
{
    64 * osr.code() + 16 * rng.code() + 4 * odr.code() + mode.code()
}

/// Soft reset.
pub const CTRL2_SOFT_RST: u8 = 0x80;

/// Pointer roll-over, and the interrupt pin off: its bit is inverted.
pub const CTRL2_RUN: u8 = 0x41;

/// The recommended set/reset period.
pub const SET_RESET_PERIOD: u8 = 0x01;

pub const CFG_OSR: Osr = Osr::X512;

pub const CFG_RANGE: Range = Range::G8;

pub const CFG_ODR: Odr = Odr::Hz200;

/// Control register 1 as written at start-up.
pub const CTRL1_RUN: u8 = 0x1D;

/// The counts in six data bytes.
pub open spec fn raw_of(buf: Seq<u8>) -> Seq<i16> {
    seq![
        bytes::twos_complement(bytes::u16_le(buf, 0), 0x8000) as i16,
        bytes::twos_complement(bytes::u16_le(buf, 2), 0x8000) as i16,
        bytes::twos_complement(bytes::u16_le(buf, 4), 0x8000) as i16,
    ]
}

/// Decodes six data bytes into counts.
pub fn decode_raw(buf: [u8; 6]) -> (raw: [i16; 3])
    ensures
        raw@ == raw_of(buf@),
{
    let raw: [i16; 3] = [
        read_i16_le(buf.as_slice(), 0),
        read_i16_le(buf.as_slice(), 2),
        read_i16_le(buf.as_slice(), 4),
    ];
    assert(raw@ =~= raw_of(buf@));
    raw
}

/// Decodes six data bytes into a sample.
pub fn decode_sample(buf: [u8; 6], orient: Orientation) -> (s: MagSample)
    ensures
        s.raw@ == raw_of(buf@),
        s.orientation == orient,
        s.scale == (Scale { num: 100, den: 3000 }),
{
    MagSample::new(decode_raw(buf), CFG_RANGE.ut_per_lsb(), orient)
}

/// The chip.
pub struct Qmc5883l {
    pub addr: u8,
    pub orientation: Orientation,
}

/// The configuration: reset, presence by readback, and control register 1 last,
/// since writing it starts conversion.
pub open spec fn setup() -> Seq<Step> {
    seq![
        Step::Write { reg: REG_CTRL2, value: CTRL2_SOFT_RST },
        Step::Wait { ms: 10 },
        Step::Write { reg: REG_SET_RESET, value: SET_RESET_PERIOD },
        Step::Confirm { reg: REG_SET_RESET, value: SET_RESET_PERIOD },
        Step::Write { reg: REG_CTRL2, value: CTRL2_RUN },
        Step::Write { reg: REG_CTRL1, value: CTRL1_RUN },
        Step::Wait { ms: 20 },
    ]
}

impl Qmc5883l {
    /// The steps that configure the chip.
    pub fn init() -> (steps: Vec<Step>)
        ensures
            steps@ == setup(),
    {
        let mut steps: Vec<Step> = Vec::new();
        steps.push(Step::Write { reg: REG_CTRL2, value: CTRL2_SOFT_RST });
        steps.push(Step::Wait { ms: 10 });
        steps.push(Step::Write { reg: REG_SET_RESET, value: SET_RESET_PERIOD });
        steps.push(Step::Confirm { reg: REG_SET_RESET, value: SET_RESET_PERIOD });
        steps.push(Step::Write { reg: REG_CTRL2, value: CTRL2_RUN });
        steps.push(Step::Write { reg: REG_CTRL1, value: CTRL1_RUN });
        steps.push(Step::Wait { ms: 20 });
        assert(steps@ =~= setup());
        steps
    }

    /// Turns the six data bytes, `None` where reading them failed, into a
    /// sample.
    pub fn read(&self, data: Option<[u8; 6]>) -> (r: Result<MagSample, MagError>)
        ensures
            match data {
                None => r == Err::<MagSample, MagError>(MagError::I2c),
                Some(buf) => r matches Ok(s) && s.raw@ == raw_of(buf@) && s.orientation
                    == self.orientation && s.scale == (Scale { num: 100, den: 3000 }),
            },
    {
        match data {
            None => Err(MagError::I2c),
            Some(buf) => Ok(decode_sample(buf, self.orientation)),
        }
    }

    /// Die temperature in hundredths of a degree, of which only differences
    /// mean anything.
    pub fn read_temp_c_relative(data: Option<[u8; 2]>) -> (r: Result<i16, MagError>)
        ensures
            match data {
                None => r == Err::<i16, MagError>(MagError::I2c),
                Some(buf) => r == Ok::<i16, MagError>(
                    bytes::twos_complement(bytes::u16_le(buf@, 0), 0x8000) as i16,
                ),
            },
    {
        match data {
            None => Err(MagError::I2c),
            Some(buf) => Ok(read_i16_le(buf.as_slice(), 0)),
        }
    }
}

// ---- Laws ----

/// The fields of control register 1 do not overlap.
pub proof fn law_ctrl1_fields_are_separate(osr: Osr, rng: Range, odr: Odr, mode: Mode)
    ensures
        ({
            let b = 64 * osr.bits() + 16 * rng.bits() + 4 * odr.bits() + mode.bits();
            &&& b < 256
            &&& b / 64 == osr.bits()
            &&& b / 16 % 4 == rng.bits()
            &&& b / 4 % 4 == odr.bits()
            &&& b % 4 == mode.bits()
        }),
{
}

/// What is written, in order: a reset, the set period, read back, and 512 samples at 8
/// gauss and 200 Hz.
pub proof fn law_settings_written()
    ensures
        setup() == seq![
            Step::Write { reg: 0x0A, value: 0x80 },
            Step::Wait { ms: 10 },
            Step::Write { reg: 0x0B, value: 0x01 },
            Step::Confirm { reg: 0x0B, value: 0x01 },
            Step::Write { reg: 0x0A, value: 0x41 },
            Step::Write { reg: 0x09, value: 0x1D },
            Step::Wait { ms: 20 },
        ],
{
}

/// A sample is what the chip put into its registers: two bytes an axis in two's
/// complement, least significant first, in the order X, Y, Z.
pub proof fn law_registers_are_read(buf: Seq<u8>, x: i16, y: i16, z: i16)
    requires
        buf.len() == 6,
        bytes::stands_in(buf, 0, bytes::written_le(x as int, 2)),
        bytes::stands_in(buf, 2, bytes::written_le(y as int, 2)),
        bytes::stands_in(buf, 4, bytes::written_le(z as int, 2)),
    ensures
        raw_of(buf)[0] == x,
        raw_of(buf)[1] == y,
        raw_of(buf)[2] == z,
        raw_of(buf).len() == 3,
{
    bytes::law_two_bytes_read_back(buf, 0, x as int);
    bytes::law_two_bytes_read_back(buf, 2, y as int);
    bytes::law_two_bytes_read_back(buf, 4, z as int);
}

/// Full scale is 24000 counts in both ranges.
pub proof fn law_sensitivities()
    ensures
        2 * Range::G2.sensitivity() == 24_000,
        8 * Range::G8.sensitivity() == 24_000,
{
}

/// What each setting is written as; oversampling counts backwards.
pub proof fn law_field_codes()
    ensures
        Mode::Standby.bits() == 0,
        Mode::Continuous.bits() == 1,
        Odr::Hz10.bits() == 0,
        Odr::Hz50.bits() == 1,
        Odr::Hz100.bits() == 2,
        Odr::Hz200.bits() == 3,
        Range::G2.bits() == 0,
        Range::G8.bits() == 1,
        Osr::X512.bits() == 0,
        Osr::X256.bits() == 1,
        Osr::X128.bits() == 2,
        Osr::X64.bits() == 3,
{
}

/// Where the fields of control register 1 stand, two bits each: oversampling on top, then
/// range, rate and mode.
pub proof fn law_control_fields(osr: Osr, rng: Range, odr: Odr, mode: Mode)
    ensures
        ({
            let b = control_byte(osr, rng, odr, mode);
            &&& 0 <= b < 256
            &&& b / 64 == osr.bits() && b / 16 % 4 == rng.bits() && b / 4 % 4 == odr.bits() && b % 4
                == mode.bits()
        }),
{
}

} // verus!
