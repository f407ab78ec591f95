//! Honeywell HMC5883L magnetometer.
//!
//! It shares address 0x1E with the LIS2MDL and is told apart by its identity
//! string. Data are big-endian, in the order X, Z, Y; an axis that overflows
//! reads -4096.

use crate::bytes;
use crate::bytes::read_i16_be;
use crate::drivers::bring_up::Step;
use crate::drivers::mag::{MagError, MagSample, Orientation, Scale};
use vstd::prelude::*;

verus! {

pub const I2C_ADDR: u8 = 0x1E;

pub const REG_CFG_A: u8 = 0x00;

pub const REG_CFG_B: u8 = 0x01;

pub const REG_MODE: u8 = 0x02;

/// First of six data registers.
pub const REG_DATA: u8 = 0x03;

pub const REG_STATUS: u8 = 0x09;

/// First of three identification registers.
pub const REG_ID_A: u8 = 0x0A;

/// The identification registers read "H43".
pub const ID_VALUE: [u8; 3] = [0x48, 0x34, 0x33];

pub const STATUS_RDY: u8 = 0x01;

pub const STATUS_LOCK: u8 = 0x02;

/// Samples averaged per output.
#[derive(Clone, Copy, Debug, PartialEq, Eq, Structural)]
pub enum Average {
    X1,
    X2,
    X4,
    X8,
}

impl Average {
    /// The field value.
    pub open spec fn bits(self) -> u8 {
        match self {
            Average::X1 => 0,
            Average::X2 => 1,
            Average::X4 => 2,
            Average::X8 => 3,
        }
    }

    /// The field value.
    pub fn code(self) -> (c: u8)
        ensures
            c == self.bits(),
            c < 4,
    {
        match self {
            Average::X1 => 0,
            Average::X2 => 1,
            Average::X4 => 2,
            Average::X8 => 3,
        }
    }
}

/// Output rate.
#[derive(Clone, Copy, Debug, PartialEq, Eq, Structural)]
pub enum Rate {
    Hz0_75,
    Hz1_5,
    Hz3,
    Hz7_5,
    Hz15,
    Hz30,
    Hz75,
}

impl Rate {
    /// The field value.
    pub open spec fn bits(self) -> u8 {
        match self {
            Rate::Hz0_75 => 0,
            Rate::Hz1_5 => 1,
            Rate::Hz3 => 2,
            Rate::Hz7_5 => 3,
            Rate::Hz15 => 4,
            Rate::Hz30 => 5,
            Rate::Hz75 => 6,
        }
    }

    /// The field value.
    pub fn code(self) -> (c: u8)
        ensures
            c == self.bits(),
            c < 8,
    {
        match self {
            Rate::Hz0_75 => 0,
            Rate::Hz1_5 => 1,
            Rate::Hz3 => 2,
            Rate::Hz7_5 => 3,
            Rate::Hz15 => 4,
            Rate::Hz30 => 5,
            Rate::Hz75 => 6,
        }
    }
}

/// Measurement bias.
#[derive(Clone, Copy, Debug, PartialEq, Eq, Structural)]
pub enum Bias {
    Normal,
    Positive,
    Negative,
}

impl Bias {
    /// The field value.
    pub open spec fn bits(self) -> u8 {
        match self {
            Bias::Normal => 0,
            Bias::Positive => 1,
            Bias::Negative => 2,
        }
    }

    /// The field value.
    pub fn code(self) -> (c: u8)
        ensures
            c == self.bits(),
            c < 4,
    {
        match self {
            Bias::Normal => 0,
            Bias::Positive => 1,
            Bias::Negative => 2,
        }
    }
}

/// The fields of configuration register A together.
pub open spec fn sampling_byte(avg: Average, rate: Rate, bias: Bias) -> int {
    32 * avg.bits() + 4 * rate.bits() + bias.bits()
}

/// Configuration register A: averaging in bits 6:5, rate in 4:2, bias in 1:0.
pub fn cfg_a(avg: Average, rate: Rate, bias: Bias) -> (b: u8)
    ensures
        b == 32 * avg.bits() + 4 * rate.bits() + bias.bits(),
        b == sampling_byte(avg, rate, bias),
{
    32 * avg.code() + 4 * rate.code() + bias.code()
}

/// Full scale.
#[derive(Clone, Copy, Debug, PartialEq, Eq, Structural)]
pub enum Gain {
    /// ±0.88 G.
    Ga0_88,
    /// ±1.3 G, the power-on default.
    Ga1_3,
    /// ±1.9 G.
    Ga1_9,
    /// ±2.5 G.
    Ga2_5,
    /// ±4.0 G.
    Ga4_0,
    /// ±4.7 G.
    Ga4_7,
    /// ±5.6 G.
    Ga5_6,
    /// ±8.1 G.
    Ga8_1,
}

impl Gain {
    /// The field value.
    pub open spec fn bits(self) -> u8 {
        match self {
            Gain::Ga0_88 => 0,
            Gain::Ga1_3 => 1,
            Gain::Ga1_9 => 2,
            Gain::Ga2_5 => 3,
            Gain::Ga4_0 => 4,
            Gain::Ga4_7 => 5,
            Gain::Ga5_6 => 6,
            Gain::Ga8_1 => 7,
        }
    }

    /// The field value.
    pub fn code(self) -> (c: u8)
        ensures
            c == self.bits(),
            c < 8,
    {
        match self {
            Gain::Ga0_88 => 0,
            Gain::Ga1_3 => 1,
            Gain::Ga1_9 => 2,
            Gain::Ga2_5 => 3,
            Gain::Ga4_0 => 4,
            Gain::Ga4_7 => 5,
            Gain::Ga5_6 => 6,
            Gain::Ga8_1 => 7,
        }
    }
}

impl Gain {
    /// Counts per gauss.
    pub open spec fn sensitivity(self) -> u16 {
        match self {
            Gain::Ga0_88 => 1370,
            Gain::Ga1_3 => 1090,
            Gain::Ga1_9 => 820,
            Gain::Ga2_5 => 660,
            Gain::Ga4_0 => 440,
            Gain::Ga4_7 => 390,
            Gain::Ga5_6 => 330,
            Gain::Ga8_1 => 230,
        }
    }

    /// Counts per gauss.
    pub fn lsb_per_gauss(self) -> (n: u16)
        ensures
            n == self.sensitivity(),
    {
        match self {
            Gain::Ga0_88 => 1370,
            Gain::Ga1_3 => 1090,
            Gain::Ga1_9 => 820,
            Gain::Ga2_5 => 660,
            Gain::Ga4_0 => 440,
            Gain::Ga4_7 => 390,
            Gain::Ga5_6 => 330,
            Gain::Ga8_1 => 230,
        }
    }

    /// Microtesla per count: a gauss is 100 microtesla.
    pub fn ut_per_lsb(self) -> (s: Scale)
        ensures
            s == (Scale { num: 100, den: self.sensitivity() }),
    {
        Scale { num: 100, den: self.lsb_per_gauss() }
    }
}

/// Configuration register B.
pub open spec fn gain_byte(gain: Gain) -> int {
    32 * gain.bits()
}

/// Configuration register B: gain in bits 7:5.
pub fn cfg_b(gain: Gain) -> (b: u8)
    ensures
        b == 32 * gain.bits(),
        b == gain_byte(gain),
{
    32 * gain.code()
}

/// Continuous measurement.
pub const MODE_CONTINUOUS: u8 = 0x00;

pub const MODE_SINGLE: u8 = 0x01;

pub const MODE_IDLE: u8 = 0x03;

pub const CFG_AVG: Average = Average::X8;

/// The fastest continuous rate.
pub const CFG_RATE: Rate = Rate::Hz75;

/// Leaves headroom for the field of power wiring over the Earth's.
pub const CFG_GAIN: Gain = Gain::Ga1_9;

/// Configuration register A as written at start-up.
pub const CFG_A_RUN: u8 = 0x78;

/// Configuration register B as written at start-up.
pub const CFG_B_RUN: u8 = 0x40;

/// Reading of an axis that overflowed.
pub const OVERFLOW: i16 = -4096;

/// The counts in six data bytes. The wire order is X, Z, Y.
pub open spec fn raw_of(buf: Seq<u8>) -> Seq<i16> {
    seq![
        bytes::twos_complement(bytes::u16_be(buf, 0), 0x8000) as i16,
        bytes::twos_complement(bytes::u16_be(buf, 4), 0x8000) as i16,
        bytes::twos_complement(bytes::u16_be(buf, 2), 0x8000) as i16,
    ]
}

/// Decodes six data bytes into counts in the order X, Y, Z.
pub fn decode_raw(buf: [u8; 6]) -> (raw: [i16; 3])
    ensures
        raw@ == raw_of(buf@),
{
    let x: i16 = read_i16_be(buf.as_slice(), 0);
    let z: i16 = read_i16_be(buf.as_slice(), 2);
    let y: i16 = read_i16_be(buf.as_slice(), 4);
    let raw: [i16; 3] = [x, y, z];
    assert(raw@ =~= raw_of(buf@));
    raw
}

/// Whether an axis overflowed.
pub open spec fn overflows(raw: Seq<i16>) -> bool {
    raw.contains(OVERFLOW)
}

/// Whether an axis overflowed. Such a sample is meaningless.
pub fn is_overflowed(raw: [i16; 3]) -> (b: bool)
    ensures
        b == overflows(raw@),
{
    let b: bool = raw[0] == OVERFLOW || raw[1] == OVERFLOW || raw[2] == OVERFLOW;
    proof {
        if b {
            let i: int = if raw@[0] == OVERFLOW {
                0
            } else if raw@[1] == OVERFLOW {
                1
            } else {
                2
            };
            assert(raw@[i] == OVERFLOW);
        }
    }
    b
}

/// Decodes six data bytes into a sample, unless an axis overflowed.
pub fn decode_sample(buf: [u8; 6], orient: Orientation) -> (s: Option<MagSample>)
    ensures
        s is None == overflows(raw_of(buf@)),
        s matches Some(v) ==> v.raw@ == raw_of(buf@) && v.orientation == orient && v.scale == (
        Scale { num: 100, den: 820 }),
{
    let raw: [i16; 3] = decode_raw(buf);
    if is_overflowed(raw) {
        return None;
    }
    Some(MagSample::new(raw, CFG_GAIN.ut_per_lsb(), orient))
}

/// The chip.
pub struct Hmc5883l {
    pub addr: u8,
    pub orientation: Orientation,
}

/// The configuration: everything that sets how a measurement is made, then the
/// mode, which starts it; then two conversions, since the first one after a
/// change of gain still has the old gain.
pub open spec fn setup() -> Seq<Step> {
    seq![
        Step::Write { reg: REG_CFG_A, value: CFG_A_RUN },
        Step::Write { reg: REG_CFG_B, value: CFG_B_RUN },
        Step::Write { reg: REG_MODE, value: MODE_CONTINUOUS },
        Step::Wait { ms: 45 },
    ]
}

impl Hmc5883l {
    /// Judges the identification registers, `None` where reading them failed,
    /// and gives the steps that configure the chip. Nothing is written to a part
    /// that is not this one.
    pub fn init(id: Option<[u8; 3]>) -> (r: Result<Vec<Step>, MagError>)
        ensures
            match id {
                None => r == Err::<Vec<Step>, MagError>(MagError::I2c),
                Some(v) => if v@ == ID_VALUE@ {
                    r matches Ok(steps) && steps@ == setup()
                } else {
                    r == Err::<Vec<Step>, MagError>(MagError::IdMismatch(v@[0]))
                },
            },
    {
        match id {
            None => Err(MagError::I2c),
            Some(v) => {
                if v[0] != ID_VALUE[0] || v[1] != ID_VALUE[1] || v[2] != ID_VALUE[2] {
                    return Err(MagError::IdMismatch(v[0]));
                }
                assert(v@ =~= ID_VALUE@);
                let mut steps: Vec<Step> = Vec::new();
                steps.push(Step::Write { reg: REG_CFG_A, value: CFG_A_RUN });
                steps.push(Step::Write { reg: REG_CFG_B, value: CFG_B_RUN });
                steps.push(Step::Write { reg: REG_MODE, value: MODE_CONTINUOUS });
                steps.push(Step::Wait { ms: 45 });
                assert(steps@ =~= setup());
                Ok(steps)
            },
        }
    }

    /// Turns the six data bytes, `None` where reading them failed, into a
    /// sample.
    pub fn read(&self, data: Option<[u8; 6]>) -> (r: Result<MagSample, MagError>)
        ensures
            match data {
                None => r == Err::<MagSample, MagError>(MagError::I2c),
                Some(buf) => if overflows(raw_of(buf@)) {
                    r == Err::<MagSample, MagError>(MagError::Overflow)
                } else {
                    r matches Ok(s) && s.raw@ == raw_of(buf@) && s.orientation == self.orientation
                        && s.scale == (Scale { num: 100, den: 820 })
                },
            },
    {
        match data {
            None => Err(MagError::I2c),
            Some(buf) => match decode_sample(buf, self.orientation) {
                Some(s) => Ok(s),
                None => Err(MagError::Overflow),
            },
        }
    }
}

// ---- Laws ----

/// The fields of configuration register A do not overlap, and its reserved bit
/// stays clear.
pub proof fn law_cfg_a_fields_are_separate(avg: Average, rate: Rate, bias: Bias)
    ensures
        ({
            let b = 32 * avg.bits() + 4 * rate.bits() + bias.bits();
            &&& b < 128
            &&& b / 32 == avg.bits()
            &&& b / 4 % 8 == rate.bits()
            &&& b % 4 == bias.bits()
        }),
{
}

/// The wider the full scale, the coarser a count.
pub proof fn law_gain_orders_sensitivity(a: Gain, b: Gain)
    requires
        a.bits() < b.bits(),
    ensures
        a.sensitivity() > b.sensitivity(),
{
}

/// What is written, in order: eight samples at 75 Hz, 1.9 gauss, continuous measurement.
pub proof fn law_settings_written()
    ensures
        setup() == seq![
            Step::Write { reg: 0x00, value: 0x78 },
            Step::Write { reg: 0x01, value: 0x40 },
            Step::Write { reg: 0x02, value: 0x00 },
            Step::Wait { ms: 45 },
        ],
{
}

/// A sample is what the chip put into its registers: two bytes an axis in two's
/// complement, most significant first, in the order X, Z, Y.
pub proof fn law_registers_are_read(buf: Seq<u8>, x: i16, y: i16, z: i16)
    requires
        buf.len() == 6,
        bytes::stands_in(buf, 0, bytes::written_be(x as int, 2)),
        bytes::stands_in(buf, 2, bytes::written_be(z as int, 2)),
        bytes::stands_in(buf, 4, bytes::written_be(y as int, 2)),
    ensures
        raw_of(buf)[0] == x,
        raw_of(buf)[1] == y,
        raw_of(buf)[2] == z,
        raw_of(buf).len() == 3,
{
    bytes::law_two_bytes_read_back(buf, 0, x as int);
    bytes::law_two_bytes_read_back(buf, 2, z as int);
    bytes::law_two_bytes_read_back(buf, 4, y as int);
}

/// An axis that reads -4096 has overflowed, and only that one.
pub proof fn law_overflow(x: i16, y: i16, z: i16)
    ensures
        overflows(seq![x, y, z]) <==> x == -4096 || y == -4096 || z == -4096,
{
    let raw = seq![x, y, z];
    assert(raw[0] == x && raw[1] == y && raw[2] == z);
}

/// Counts per gauss for each full scale.
pub proof fn law_sensitivities()
    ensures
        Gain::Ga0_88.sensitivity() == 1370 && Gain::Ga1_3.sensitivity() == 1090,
        Gain::Ga1_9.sensitivity() == 820 && Gain::Ga2_5.sensitivity() == 660,
        Gain::Ga4_0.sensitivity() == 440 && Gain::Ga4_7.sensitivity() == 390,
        Gain::Ga5_6.sensitivity() == 330 && Gain::Ga8_1.sensitivity() == 230,
{
}

/// What each setting is written as: they count up.
pub proof fn law_field_codes()
    ensures
        Average::X1.bits() == 0,
        Average::X2.bits() == 1,
        Average::X4.bits() == 2,
        Average::X8.bits() == 3,
        Rate::Hz0_75.bits() == 0,
        Rate::Hz1_5.bits() == 1,
        Rate::Hz3.bits() == 2,
        Rate::Hz7_5.bits() == 3,
        Rate::Hz15.bits() == 4,
        Rate::Hz30.bits() == 5,
        Rate::Hz75.bits() == 6,
        Bias::Normal.bits() == 0,
        Bias::Positive.bits() == 1,
        Bias::Negative.bits() == 2,
        Gain::Ga0_88.bits() == 0,
        Gain::Ga1_3.bits() == 1,
        Gain::Ga1_9.bits() == 2,
        Gain::Ga2_5.bits() == 3,
        Gain::Ga4_0.bits() == 4,
        Gain::Ga4_7.bits() == 5,
        Gain::Ga5_6.bits() == 6,
        Gain::Ga8_1.bits() == 7,
{
}

/// Where the fields of the configuration registers stand: averaging above rate above
/// bias, and gain in the top three bits.
pub proof fn law_configuration_fields(avg: Average, rate: Rate, bias: Bias, gain: Gain)
    ensures
        ({
            let b = sampling_byte(avg, rate, bias);
            let c = gain_byte(gain);
            &&& 0 <= b < 128 && 0 <= c < 256
            &&& b / 32 == avg.bits() && b / 4 % 8 == rate.bits() && b % 4 == bias.bits()
            &&& c / 32 == gain.bits() && c % 32 == 0
        }),
{
}

} // verus!
