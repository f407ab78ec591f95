//! QST QMC5883P magnetometer.
//!
//! Despite its name it has nothing in common with the QMC5883L: another address,
//! register map, field packing and sensitivity, and a real chip ID.

use crate::bytes;
use crate::bytes::read_i16_le;
use crate::drivers::bring_up::Step;
use crate::drivers::mag::{MagError, MagSample, Orientation, Scale};
use vstd::prelude::*;

verus! {

pub const I2C_ADDR: u8 = 0x2C;

pub const REG_CHIP_ID: u8 = 0x00;

pub const REG_X_LSB: u8 = 0x01;

pub const REG_STATUS: u8 = 0x09;

pub const REG_CONF1: u8 = 0x0A;

pub const REG_CONF2: u8 = 0x0B;

/// Axis signs; written as the datasheet prescribes.
pub const REG_AXIS_SIGN: u8 = 0x29;

pub const AXIS_SIGN_VALUE: u8 = 0x06;

/// The chip ID register reads this, which an idle bus cannot.
pub const CHIP_ID_VALUE: u8 = 0x80;

/// All axes loaded.
pub const STATUS_DRDY: u8 = 0x01;

/// Some axis out of range.
pub const STATUS_OVFL: u8 = 0x02;

/// Counts beyond this are an overflow.
pub const OVFL_COUNT_LIMIT: i16 = 30000;

#[derive(Clone, Copy, Debug, PartialEq, Eq, Structural)]
pub enum Mode {
    Suspend,
    Normal,
    Single,
    Continuous,
}

impl Mode {
    /// The field value.
    pub open spec fn bits(self) -> u8 {
        match self {
            Mode::Suspend => 0,
            Mode::Normal => 1,
            Mode::Single => 2,
            Mode::Continuous => 3,
        }
    }

    /// The field value.
    pub fn code(self) -> (c: u8)
        ensures
            c == self.bits(),
            c < 4,
    {
        match self {
            Mode::Suspend => 0,
            Mode::Normal => 1,
            Mode::Single => 2,
            Mode::Continuous => 3,
        }
    }
}

/// Output data rate.
#[derive(Clone, Copy, Debug, PartialEq, Eq, Structural)]
pub enum Odr {
    Hz10,
    Hz50,
    Hz100,
    Hz200,
}

impl Odr {
    /// The field value.
    pub open spec fn bits(self) -> u8 {
        match self {
            Odr::Hz10 => 0,
            Odr::Hz50 => 1,
            Odr::Hz100 => 2,
            Odr::Hz200 => 3,
        }
    }

    /// The field value.
    pub fn code(self) -> (c: u8)
        ensures
            c == self.bits(),
            c < 4,
    {
        match self {
            Odr::Hz10 => 0,
            Odr::Hz50 => 1,
            Odr::Hz100 => 2,
            Odr::Hz200 => 3,
        }
    }
}

/// Oversampling ratio.
#[derive(Clone, Copy, Debug, PartialEq, Eq, Structural)]
pub enum Osr1 {
    X8,
    X4,
    X2,
    X1,
}

impl Osr1 {
    /// The field value.
    pub open spec fn bits(self) -> u8 {
        match self {
            Osr1::X8 => 0,
            Osr1::X4 => 1,
            Osr1::X2 => 2,
            Osr1::X1 => 3,
        }
    }

    /// The field value.
    pub fn code(self) -> (c: u8)
        ensures
            c == self.bits(),
            c < 4,
    {
        match self {
            Osr1::X8 => 0,
            Osr1::X4 => 1,
            Osr1::X2 => 2,
            Osr1::X1 => 3,
        }
    }
}

/// Downsampling depth; it runs the other way.
#[derive(Clone, Copy, Debug, PartialEq, Eq, Structural)]
pub enum Osr2 {
    X1,
    X2,
    X4,
    X8,
}

impl Osr2 {
    /// The field value.
    pub open spec fn bits(self) -> u8 {
        match self {
            Osr2::X1 => 0,
            Osr2::X2 => 1,
            Osr2::X4 => 2,
            Osr2::X8 => 3,
        }
    }

    /// The field value.
    pub fn code(self) -> (c: u8)
        ensures
            c == self.bits(),
            c < 4,
    {
        match self {
            Osr2::X1 => 0,
            Osr2::X2 => 1,
            Osr2::X4 => 2,
            Osr2::X8 => 3,
        }
    }
}

/// The fields of control register 1 together.
pub open spec fn control_byte(osr2: Osr2, osr1: Osr1, odr: Odr, mode: Mode) -> int {
    64 * osr2.bits() + 16 * osr1.bits() + 4 * odr.bits() + mode.bits()
}

/// Control register 1: downsampling in bits 7:6, oversampling in 5:4, rate in
/// 3:2, mode in 1:0.
pub fn conf1(osr2: Osr2, osr1: Osr1, odr: Odr, mode: Mode) -> (b: u8)
    ensures
        b == 64 * osr2.bits() + 16 * osr1.bits() + 4 * odr.bits() + mode.bits(),
        b == control_byte(osr2, osr1, odr, mode),
{
    64 * osr2.code() + 16 * osr1.code() + 4 * odr.code() + mode.code()
}

/// Degaussing.
#[derive(Clone, Copy, Debug, PartialEq, Eq, Structural)]
pub enum SetReset {
    SetAndResetOn,
    SetOnlyOn,
    SetAndResetOff,
}

impl SetReset {
    /// The field value.
    pub open spec fn bits(self) -> u8 {
        match self {
            SetReset::SetAndResetOn => 0,
            SetReset::SetOnlyOn => 1,
            SetReset::SetAndResetOff => 2,
        }
    }

    /// The field value.
    pub fn code(self) -> (c: u8)
        ensures
            c == self.bits(),
            c < 4,
    {
        match self {
            SetReset::SetAndResetOn => 0,
            SetReset::SetOnlyOn => 1,
            SetReset::SetAndResetOff => 2,
        }
    }
}

/// Full scale.
#[derive(Clone, Copy, Debug, PartialEq, Eq, Structural)]
pub enum Range {
    /// ±30 G.
    G30,
    /// ±12 G.
    G12,
    /// ±8 G.
    G8,
    /// ±2 G.
    G2,
}

impl Range {
    /// The field value.
    pub open spec fn bits(self) -> u8 {
        match self {
            Range::G30 => 0,
            Range::G12 => 1,
            Range::G8 => 2,
            Range::G2 => 3,
        }
    }

    /// The field value.
    pub fn code(self) -> (c: u8)
        ensures
            c == self.bits(),
            c < 4,
    {
        match self {
            Range::G30 => 0,
            Range::G12 => 1,
            Range::G8 => 2,
            Range::G2 => 3,
        }
    }
}

impl Range {
    /// Counts per gauss.
    pub open spec fn sensitivity(self) -> u16 {
        match self {
            Range::G30 => 1000,
            Range::G12 => 2500,
            Range::G8 => 3750,
            Range::G2 => 15000,
        }
    }

    /// Microtesla per count: a gauss is 100 microtesla.
    pub fn ut_per_lsb(self) -> (s: Scale)
        ensures
            s == (Scale { num: 100, den: self.sensitivity() }),
    {
        match self {
            Range::G30 => Scale { num: 100, den: 1000 },
            Range::G12 => Scale { num: 100, den: 2500 },
            Range::G8 => Scale { num: 100, den: 3750 },
            Range::G2 => Scale { num: 100, den: 15000 },
        }
    }
}

/// The fields of control register 2 together.
pub open spec fn range_byte(rng: Range, sr: SetReset) -> int {
    4 * rng.bits() + sr.bits()
}

/// Control register 2: range in bits 3:2, degaussing in 1:0.
pub fn conf2(rng: Range, sr: SetReset) -> (b: u8)
    ensures
        b == 4 * rng.bits() + sr.bits(),
        b == range_byte(rng, sr),
{
    4 * rng.code() + sr.code()
}

/// Soft reset; it leaves the part suspended.
pub const CONF2_SOFT_RST: u8 = 0x80;

pub const CFG_OSR2: Osr2 = Osr2::X8;

pub const CFG_OSR1: Osr1 = Osr1::X8;

pub const CFG_ODR: Odr = Odr::Hz200;

pub const CFG_RANGE: Range = Range::G8;

pub const CFG_SET_RESET: SetReset = SetReset::SetAndResetOn;

/// Control register 1 as written at start-up: normal mode, in which the output
/// refreshes at the selected rate.
pub const CONF1_RUN: u8 = 0xCD;

/// Control register 2 as written at start-up.
pub const CONF2_RUN: u8 = 0x08;

/// The counts in six data bytes.
pub open spec fn raw_of(buf: Seq<u8>) -> Seq<i16> {
    seq![
        bytes::twos_complement(bytes::u16_le(buf, 0), 0x8000) as i16,
        bytes::twos_complement(bytes::u16_le(buf, 2), 0x8000) as i16,
        bytes::twos_complement(bytes::u16_le(buf, 4), 0x8000) as i16,
    ]
}

/// Decodes six data bytes into counts.
pub fn decode_raw(buf: [u8; 6]) -> (raw: [i16; 3])
    ensures
        raw@ == raw_of(buf@),
{
    let raw: [i16; 3] = [
        read_i16_le(buf.as_slice(), 0),
        read_i16_le(buf.as_slice(), 2),
        read_i16_le(buf.as_slice(), 4),
    ];
    assert(raw@ =~= raw_of(buf@));
    raw
}

/// Whether an axis is out of range.
pub open spec fn overflows(raw: Seq<i16>) -> bool {
    exists|i: int| 0 <= i < raw.len() && !(-30000 <= #[trigger] raw[i] <= 30000)
}

/// Whether an axis is out of range. Such a sample is meaningless.
pub fn is_overflow(raw: [i16; 3]) -> (b: bool)
    ensures
        b == overflows(raw@),
{
    let b: bool = raw[0] > OVFL_COUNT_LIMIT || raw[0] < -OVFL_COUNT_LIMIT || raw[1]
        > OVFL_COUNT_LIMIT || raw[1] < -OVFL_COUNT_LIMIT || raw[2] > OVFL_COUNT_LIMIT || raw[2]
        < -OVFL_COUNT_LIMIT;
    proof {
        if b {
            let i: int = if !(-30000 <= raw@[0] <= 30000) {
                0
            } else if !(-30000 <= raw@[1] <= 30000) {
                1
            } else {
                2
            };
            assert(!(-30000 <= raw@[i] <= 30000));
        }
    }
    b
}

/// Decodes six data bytes into a sample, unless an axis is out of range.
pub fn decode_sample(buf: [u8; 6], orient: Orientation) -> (s: Option<MagSample>)
    ensures
        s is None == overflows(raw_of(buf@)),
        s matches Some(v) ==> v.raw@ == raw_of(buf@) && v.orientation == orient && v.scale == (
        Scale { num: 100, den: 3750 }),
{
    let raw: [i16; 3] = decode_raw(buf);
    if is_overflow(raw) {
        return None;
    }
    Some(MagSample::new(raw, CFG_RANGE.ut_per_lsb(), orient))
}

/// The chip.
pub struct Qmc5883p {
    pub addr: u8,
    pub orientation: Orientation,
}

/// The configuration: identity before any write, then reset, axis signs, range
/// and mode, and the mode read back.
pub open spec fn setup() -> Seq<Step> {
    seq![
        Step::Identify { reg: REG_CHIP_ID, value: CHIP_ID_VALUE },
        Step::Write { reg: REG_CONF2, value: CONF2_SOFT_RST },
        Step::Wait { ms: 10 },
        Step::Write { reg: REG_AXIS_SIGN, value: AXIS_SIGN_VALUE },
        Step::Write { reg: REG_CONF2, value: CONF2_RUN },
        Step::Write { reg: REG_CONF1, value: CONF1_RUN },
        Step::Confirm { reg: REG_CONF1, value: CONF1_RUN },
        Step::Wait { ms: 20 },
    ]
}

impl Qmc5883p {
    /// The steps that configure the chip.
    pub fn init() -> (steps: Vec<Step>)
        ensures
            steps@ == setup(),
    {
        let mut steps: Vec<Step> = Vec::new();
        steps.push(Step::Identify { reg: REG_CHIP_ID, value: CHIP_ID_VALUE });
        steps.push(Step::Write { reg: REG_CONF2, value: CONF2_SOFT_RST });
        steps.push(Step::Wait { ms: 10 });
        steps.push(Step::Write { reg: REG_AXIS_SIGN, value: AXIS_SIGN_VALUE });
        steps.push(Step::Write { reg: REG_CONF2, value: CONF2_RUN });
        steps.push(Step::Write { reg: REG_CONF1, value: CONF1_RUN });
        steps.push(Step::Confirm { reg: REG_CONF1, value: CONF1_RUN });
        steps.push(Step::Wait { ms: 20 });
        assert(steps@ =~= setup());
        steps
    }

    /// Turns the six data bytes, `None` where reading them failed, into a
    /// sample.
    pub fn read(&self, data: Option<[u8; 6]>) -> (r: Result<MagSample, MagError>)
        ensures
            match data {
                None => r == Err::<MagSample, MagError>(MagError::I2c),
                Some(buf) => if overflows(raw_of(buf@)) {
                    r == Err::<MagSample, MagError>(MagError::Overflow)
                } else {
                    r matches Ok(s) && s.raw@ == raw_of(buf@) && s.orientation == self.orientation
                        && s.scale == (Scale { num: 100, den: 3750 })
                },
            },
    {
        match data {
            None => Err(MagError::I2c),
            Some(buf) => match decode_sample(buf, self.orientation) {
                Some(s) => Ok(s),
                None => Err(MagError::Overflow),
            },
        }
    }
}

// ---- Laws ----

/// The fields of both control registers do not overlap, and a running
/// configuration never asks for a reset or a self-test.
pub proof fn law_fields_are_separate(
    osr2: Osr2,
    osr1: Osr1,
    odr: Odr,
    mode: Mode,
    rng: Range,
    sr: SetReset,
)
    ensures
        ({
            let b = 64 * osr2.bits() + 16 * osr1.bits() + 4 * odr.bits() + mode.bits();
            &&& b < 256
            &&& b / 64 == osr2.bits()
            &&& b / 16 % 4 == osr1.bits()
            &&& b / 4 % 4 == odr.bits()
            &&& b % 4 == mode.bits()
        }),
        ({
            let c = 4 * rng.bits() + sr.bits();
            &&& c < 64
            &&& c / 4 == rng.bits()
            &&& c % 4 == sr.bits()
        }),
{
}

/// Nothing is written before the part has identified itself.
pub proof fn law_identity_comes_before_writes(i: int)
    requires
        0 <= i < setup().len(),
        setup()[i] is Write,
    ensures
        setup()[0] is Identify,
        i > 0,
{
}

/// What is written, in order, once the chip has answered 80 hex: a reset, the axis signs,
/// 8 gauss, and 200 Hz, read back.
pub proof fn law_settings_written()
    ensures
        setup() == seq![
            Step::Identify { reg: 0x00, value: 0x80 },
            Step::Write { reg: 0x0B, value: 0x80 },
            Step::Wait { ms: 10 },
            Step::Write { reg: 0x29, value: 0x06 },
            Step::Write { reg: 0x0B, value: 0x08 },
            Step::Write { reg: 0x0A, value: 0xCD },
            Step::Confirm { reg: 0x0A, value: 0xCD },
            Step::Wait { ms: 20 },
        ],
{
}

/// A sample is what the chip put into its registers: two bytes an axis in two's
/// complement, least significant first, in the order X, Y, Z.
pub proof fn law_registers_are_read(buf: Seq<u8>, x: i16, y: i16, z: i16)
    requires
        buf.len() == 6,
        bytes::stands_in(buf, 0, bytes::written_le(x as int, 2)),
        bytes::stands_in(buf, 2, bytes::written_le(y as int, 2)),
        bytes::stands_in(buf, 4, bytes::written_le(z as int, 2)),
    ensures
        raw_of(buf)[0] == x,
        raw_of(buf)[1] == y,
        raw_of(buf)[2] == z,
        raw_of(buf).len() == 3,
{
    bytes::law_two_bytes_read_back(buf, 0, x as int);
    bytes::law_two_bytes_read_back(buf, 2, y as int);
    bytes::law_two_bytes_read_back(buf, 4, z as int);
}

/// An axis beyond 30000 counts either way has overflowed.
pub proof fn law_overflow(x: i16, y: i16, z: i16)
    ensures
        overflows(seq![x, y, z]) <==> x > 30000 || x < -30000 || y > 30000 || y < -30000 || z
            > 30000 || z < -30000,
{
    let raw = seq![x, y, z];
    assert(raw[0] == x && raw[1] == y && raw[2] == z);
}

/// Full scale is 30000 counts in every range.
pub proof fn law_sensitivities()
    ensures
        30 * Range::G30.sensitivity() == 30_000,
        12 * Range::G12.sensitivity() == 30_000,
        8 * Range::G8.sensitivity() == 30_000,
        2 * Range::G2.sensitivity() == 30_000,
{
}

/// What each setting is written as; range and the first oversampling count backwards.
pub proof fn law_field_codes()
    ensures
        Mode::Suspend.bits() == 0,
        Mode::Normal.bits() == 1,
        Mode::Single.bits() == 2,
        Mode::Continuous.bits() == 3,
        Odr::Hz10.bits() == 0,
        Odr::Hz50.bits() == 1,
        Odr::Hz100.bits() == 2,
        Odr::Hz200.bits() == 3,
        Osr1::X8.bits() == 0,
        Osr1::X4.bits() == 1,
        Osr1::X2.bits() == 2,
        Osr1::X1.bits() == 3,
        Osr2::X1.bits() == 0,
        Osr2::X2.bits() == 1,
        Osr2::X4.bits() == 2,
        Osr2::X8.bits() == 3,
        SetReset::SetAndResetOn.bits() == 0,
        SetReset::SetOnlyOn.bits() == 1,
        SetReset::SetAndResetOff.bits() == 2,
        Range::G30.bits() == 0,
        Range::G12.bits() == 1,
        Range::G8.bits() == 2,
        Range::G2.bits() == 3,
{
}

/// Where the fields of the control registers stand, two bits each: downsampling on top,
/// then oversampling, rate and mode; and range above degaussing.
pub proof fn law_control_fields(
    osr2: Osr2,
    osr1: Osr1,
    odr: Odr,
    mode: Mode,
    rng: Range,
    sr: SetReset,
)
    ensures
        ({
            let b = control_byte(osr2, osr1, odr, mode);
            let c = range_byte(rng, sr);
            &&& 0 <= b < 256 && 0 <= c < 16
            &&& b / 64 == osr2.bits() && b / 16 % 4 == osr1.bits() && b / 4 % 4 == odr.bits() && b
                % 4 == mode.bits()
            &&& c / 4 == rng.bits() && c % 4 == sr.bits()
        }),
{
}

} // verus!
