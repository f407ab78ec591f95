//! Barometer: detection, and the DPS310.
//!
//! The footprint holds either a BMP280 or a DPS310, at one of two addresses. The
//! DPS310 is calibrated by coefficients it carries; pressure is a polynomial in
//! the pressure and temperature readings.

use crate::bytes;
use crate::bytes::{read_u16_be, read_u24_be};
use crate::ratio::Ratio;
use vstd::arithmetic::power2;
use vstd::prelude::*;

verus! {

// ---- Detection ----

pub const CANDIDATE_ADDRS: [u8; 2] = [0x76, 0x77];

pub const BMP280_REG_ID: u8 = 0xD0;

pub const BMP280_ID_VALUE: u8 = 0x58;

/// A BMP388, which fits the same footprint.
pub const BMP388_ID_VALUE: u8 = 0x50;

pub const DPS310_REG_ID: u8 = 0x0D;

pub const DPS310_ID_VALUE: u8 = 0x10;

/// A supported chip and its address.
#[derive(Clone, Copy, Debug, PartialEq, Eq, Structural)]
pub enum BaroChip {
    Bmp280 { addr: u8 },
    Dps310 { addr: u8 },
}

/// Why no chip was found.
#[derive(Clone, Copy, Debug, PartialEq, Eq, Structural)]
pub enum DetectError {
    NotFound,
    UnknownChip { addr: u8, id: u8 },
}

/// The identity registers of both chips as read at one address, `None` where
/// nothing answered.
#[derive(Clone, Copy, Debug, PartialEq, Eq, Structural)]
pub struct Ids {
    pub bmp: Option<u8>,
    pub dps: Option<u8>,
}

/// What identity registers at an address decide, if anything. A BMP388 is known
/// and not supported.
pub open spec fn decision(addr: u8, ids: Ids) -> Option<Result<BaroChip, DetectError>> {
    if ids.bmp == Some(BMP280_ID_VALUE) {
        Some(Ok(BaroChip::Bmp280 { addr }))
    } else if ids.dps == Some(DPS310_ID_VALUE) {
        Some(Ok(BaroChip::Dps310 { addr }))
    } else if ids.bmp == Some(BMP388_ID_VALUE) {
        Some(Err(DetectError::UnknownChip { addr, id: BMP388_ID_VALUE }))
    } else {
        None
    }
}

/// The result of a whole probe: the first address that decides, or else the
/// first unknown chip that answered.
pub open spec fn verdict(first: Ids, second: Ids) -> Result<BaroChip, DetectError> {
    match decision(0x76, first) {
        Some(r) => r,
        None => match decision(0x77, second) {
            Some(r) => r,
            None => match first.bmp {
                Some(id) => Err(DetectError::UnknownChip { addr: 0x76, id }),
                None => match second.bmp {
                    Some(id) => Err(DetectError::UnknownChip { addr: 0x77, id }),
                    None => Err(DetectError::NotFound),
                },
            },
        },
    }
}

fn decide(addr: u8, ids: Ids) -> (d: Option<Result<BaroChip, DetectError>>)
    ensures
        d == decision(addr, ids),
{
    if let Some(id) = ids.bmp {
        if id == BMP280_ID_VALUE {
            return Some(Ok(BaroChip::Bmp280 { addr }));
        }
    }
    if let Some(id) = ids.dps {
        if id == DPS310_ID_VALUE {
            return Some(Ok(BaroChip::Dps310 { addr }));
        }
    }
    if let Some(id) = ids.bmp {
        if id == BMP388_ID_VALUE {
            return Some(Err(DetectError::UnknownChip { addr, id: BMP388_ID_VALUE }));
        }
    }
    None
}

/// Decides from the identity registers at the first address, or asks for those
/// at the second.
pub fn detect_first(first: Ids) -> (d: Option<Result<BaroChip, DetectError>>)
    ensures
        d == decision(0x76, first),
        d matches Some(r) ==> forall|second: Ids| #[trigger] verdict(first, second) == r,
{
    decide(CANDIDATE_ADDRS[0], first)
}

/// Decides from the identity registers at both addresses.
pub fn detect(first: Ids, second: Ids) -> (r: Result<BaroChip, DetectError>)
    ensures
        r == verdict(first, second),
{
    if let Some(r) = detect_first(first) {
        return r;
    }
    if let Some(r) = decide(CANDIDATE_ADDRS[1], second) {
        return r;
    }
    match first.bmp {
        Some(id) => Err(DetectError::UnknownChip { addr: CANDIDATE_ADDRS[0], id }),
        None => match second.bmp {
            Some(id) => Err(DetectError::UnknownChip { addr: CANDIDATE_ADDRS[1], id }),
            None => Err(DetectError::NotFound),
        },
    }
}

/// The name of a chip.
pub fn name(chip: BaroChip) -> (s: &'static str)
    ensures
        s@ == (match chip {
            BaroChip::Bmp280 { addr } => "BMP280"@,
            BaroChip::Dps310 { addr } => "DPS310"@,
        }),
{
    match chip {
        BaroChip::Bmp280 { addr: _ } => "BMP280",
        BaroChip::Dps310 { addr: _ } => "DPS310",
    }
}

// ---- DPS310 ----

pub const DPS310_REG_PRS_B2: u8 = 0x00;

pub const DPS310_REG_PRS_CFG: u8 = 0x06;

pub const DPS310_REG_TMP_CFG: u8 = 0x07;

pub const DPS310_REG_MEAS_CFG: u8 = 0x08;

pub const DPS310_REG_CFG_REG: u8 = 0x09;

pub const DPS310_REG_RESET: u8 = 0x0C;

pub const DPS310_REG_COEF_START: u8 = 0x10;

pub const DPS310_REG_COEF_SRCE: u8 = 0x28;

/// Continuous pressure and temperature.
pub const MEAS_CTRL_CONT_PT: u8 = 0x07;

/// Scale factors by oversampling.
pub const K_SCALE: [u32; 8] = [
    524_288,
    1_572_864,
    3_670_016,
    7_864_320,
    253_952,
    516_096,
    1_040_384,
    2_088_960,
];

/// Samples averaged per reading.
#[derive(Clone, Copy, Debug, PartialEq, Eq, Structural)]
pub enum Osr {
    X1,
    X2,
    X4,
    X8,
    X16,
    X32,
    X64,
    X128,
}

impl Osr {
    /// The field value.
    pub open spec fn bits(self) -> u8 {
        match self {
            Osr::X1 => 0,
            Osr::X2 => 1,
            Osr::X4 => 2,
            Osr::X8 => 3,
            Osr::X16 => 4,
            Osr::X32 => 5,
            Osr::X64 => 6,
            Osr::X128 => 7,
        }
    }

    /// The field value.
    pub fn code(self) -> (c: u8)
        ensures
            c == self.bits(),
            c < 8,
    {
        match self {
            Osr::X1 => 0,
            Osr::X2 => 1,
            Osr::X4 => 2,
            Osr::X8 => 3,
            Osr::X16 => 4,
            Osr::X32 => 5,
            Osr::X64 => 6,
            Osr::X128 => 7,
        }
    }
}

/// Readings per second.
#[derive(Clone, Copy, Debug, PartialEq, Eq, Structural)]
pub enum Rate {
    Hz1,
    Hz2,
    Hz4,
    Hz8,
    Hz16,
    Hz32,
    Hz64,
    Hz128,
}

impl Rate {
    /// The field value.
    pub open spec fn bits(self) -> u8 {
        match self {
            Rate::Hz1 => 0,
            Rate::Hz2 => 1,
            Rate::Hz4 => 2,
            Rate::Hz8 => 3,
            Rate::Hz16 => 4,
            Rate::Hz32 => 5,
            Rate::Hz64 => 6,
            Rate::Hz128 => 7,
        }
    }

    /// The field value.
    pub fn code(self) -> (c: u8)
        ensures
            c == self.bits(),
            c < 8,
    {
        match self {
            Rate::Hz1 => 0,
            Rate::Hz2 => 1,
            Rate::Hz4 => 2,
            Rate::Hz8 => 3,
            Rate::Hz16 => 4,
            Rate::Hz32 => 5,
            Rate::Hz64 => 6,
            Rate::Hz128 => 7,
        }
    }
}

impl Osr {
    /// Whether the reading has to be shifted: more than eight samples.
    pub open spec fn shifts(self) -> bool {
        self.bits() > 3
    }
}

/// Rate and oversampling of a measurement together.
pub open spec fn measurement_byte(rate: Rate, osr: Osr) -> int {
    16 * rate.bits() + osr.bits()
}

/// Pressure configuration: rate in bits 6:4, oversampling in 3:0.
pub fn measurement_cfg(rate: Rate, osr: Osr) -> (b: u8)
    ensures
        b == 16 * rate.bits() + osr.bits(),
        b == measurement_byte(rate, osr),
        b < 128,
{
    16 * rate.code() + osr.code()
}

/// Which readings are shifted.
pub open spec fn shift_byte(p_osr: Osr, t_osr: Osr) -> int {
    (if p_osr.shifts() { 4int } else { 0 }) + (if t_osr.shifts() { 8int } else { 0 })
}

/// Shift configuration: bit 2 for pressure, bit 3 for temperature.
pub fn shift_cfg(p_osr: Osr, t_osr: Osr) -> (b: u8)
    ensures
        b == (if p_osr.shifts() { 4int } else { 0 }) + (if t_osr.shifts() { 8int } else { 0 }),
        b == shift_byte(p_osr, t_osr),
{
    let p: u8 = if p_osr.code() > 3 {
        4
    } else {
        0
    };
    let t: u8 = if t_osr.code() > 3 {
        8
    } else {
        0
    };
    p + t
}

/// Pressure is averaged over 16 samples, temperature is not.
pub const P_OSR: Osr = Osr::X16;

pub const T_OSR: Osr = Osr::X1;

pub const P_RATE: Rate = Rate::Hz16;

pub const T_RATE: Rate = Rate::Hz16;

/// Scale factor of pressure readings.
pub const K_P: i32 = 253_952;

/// Scale factor of temperature readings.
pub const K_T: i32 = 524_288;

/// The number the low `bits` bits of a value stand for in two's complement.
pub open spec fn extended(value: int, bits: nat) -> int {
    bytes::twos_complement(
        value % (power2::pow2(bits) as int),
        power2::pow2((bits - 1) as nat) as int,
    )
}

/// Sign-extends the low `bits` bits of a value.
pub fn sign_extend(value: u32, bits: u32) -> (v: i32)
    requires
        1 <= bits <= 32,
    ensures
        v == extended(value as int, bits as nat),
{
    let mut whole: u64 = 2;
    let mut k: u32 = 1;
    proof {
        power2::lemma2_to64();
        power2::lemma_pow2_strictly_increases(bits as nat, 33);
    }
    while k < bits
        invariant
            1 <= k <= bits <= 32,
            whole == power2::pow2(k as nat),
            whole == 2 * power2::pow2((k - 1) as nat),
            power2::pow2(bits as nat) < 0x2_0000_0000,
        decreases bits - k,
    {
        proof {
            power2::lemma_pow2_unfold((k + 1) as nat);
            if k + 1 < bits {
                power2::lemma_pow2_strictly_increases((k + 1) as nat, bits as nat);
            }
        }
        whole = whole * 2;
        k += 1;
    }
    let low: u64 = value as u64 % whole;
    if low < whole / 2 {
        low as i32
    } else {
        (low as i64 - whole as i64) as i32
    }
}

/// Sign-extends the low 24 bits of a value.
pub fn sign_extend_24(value: u32) -> (v: i32)
    ensures
        v == bytes::twos_complement(value as int % 0x100_0000, 0x80_0000),
{
    proof {
        power2::lemma2_to64();
    }
    sign_extend(value, 24)
}

/// Calibration coefficients.
#[derive(Clone, Copy, Debug, PartialEq, Eq, Structural)]
pub struct Dps310Cal {
    pub c0: i32,
    pub c1: i32,
    pub c00: i32,
    pub c10: i32,
    pub c01: i32,
    pub c11: i32,
    pub c20: i32,
    pub c21: i32,
    pub c30: i32,
}

/// Two's complement of 12, 20 and 16 bits.
pub open spec fn s12(u: int) -> i32 {
    bytes::twos_complement(u, 0x800) as i32
}

pub open spec fn s20(u: int) -> i32 {
    bytes::twos_complement(u, 0x8_0000) as i32
}

pub open spec fn s16(u: int) -> i32 {
    bytes::twos_complement(u, 0x8000) as i32
}

/// The coefficients packed in a calibration block: 12, 12, 20, 20 and five times
/// 16 bits, most significant bit first.
pub open spec fn cal_of(b: Seq<u8>) -> Dps310Cal {
    Dps310Cal {
        c0: s12(16 * b[0] + b[1] / 16),
        c1: s12(0x100 * (b[1] % 16) + b[2]),
        c00: s20(0x1000 * b[3] + 16 * b[4] + b[5] / 16),
        c10: s20(0x1_0000 * (b[5] % 16) + 0x100 * b[6] + b[7]),
        c01: s16(bytes::u16_be(b, 8)),
        c11: s16(bytes::u16_be(b, 10)),
        c20: s16(bytes::u16_be(b, 12)),
        c21: s16(bytes::u16_be(b, 14)),
        c30: s16(bytes::u16_be(b, 16)),
    }
}

impl Dps310Cal {
    /// Whether every coefficient is within its width.
    pub open spec fn wf(&self) -> bool {
        &&& -0x800 <= self.c0 < 0x800
        &&& -0x800 <= self.c1 < 0x800
        &&& -0x8_0000 <= self.c00 < 0x8_0000
        &&& -0x8_0000 <= self.c10 < 0x8_0000
        &&& -0x8000 <= self.c01 < 0x8000
        &&& -0x8000 <= self.c11 < 0x8000
        &&& -0x8000 <= self.c20 < 0x8000
        &&& -0x8000 <= self.c21 < 0x8000
        &&& -0x8000 <= self.c30 < 0x8000
    }

    /// Unpacks a calibration block.
    pub fn parse(b: &[u8; 18]) -> (c: Self)
        ensures
            c == cal_of(b@),
            c.wf(),
    {
        proof {
            power2::lemma2_to64();
        }
        let c0: u32 = 16 * (b[0] as u32) + b[1] as u32 / 16;
        let c1: u32 = 0x100 * (b[1] as u32 % 16) + b[2] as u32;
        let c00: u32 = 0x1000 * (b[3] as u32) + 16 * (b[4] as u32) + b[5] as u32 / 16;
        let c10: u32 = 0x1_0000 * (b[5] as u32 % 16) + 0x100 * (b[6] as u32) + b[7] as u32;
        Dps310Cal {
            c0: sign_extend(c0, 12),
            c1: sign_extend(c1, 12),
            c00: sign_extend(c00, 20),
            c10: sign_extend(c10, 20),
            c01: sign_extend(read_u16_be(b.as_slice(), 8) as u32, 16),
            c11: sign_extend(read_u16_be(b.as_slice(), 10) as u32, 16),
            c20: sign_extend(read_u16_be(b.as_slice(), 12) as u32, 16),
            c21: sign_extend(read_u16_be(b.as_slice(), 14) as u32, 16),
            c30: sign_extend(read_u16_be(b.as_slice(), 16) as u32, 16),
        }
    }
}

/// Why the chip failed.
#[derive(Clone, Copy, Debug, PartialEq, Eq, Structural)]
pub enum Dps310Error {
    I2c,
    CoefTimeout,
    SensorTimeout,
    WhoAmIMismatch(u8),
}

/// A configured chip.
#[derive(Clone, Copy, Debug, PartialEq, Eq, Structural)]
pub struct Dps310 {
    pub cal: Dps310Cal,
    /// Which temperature sensor the coefficients belong to.
    pub tmp_source_bit: u8,
}

/// Where bringing the chip up stands.
#[derive(Clone, Copy, Debug, PartialEq, Eq, Structural)]
pub enum Stage {
    Identify,
    Reset,
    ResetWait,
    /// Polling for the coefficients, with so many polls left after this one.
    CoefPoll { left: u8 },
    CoefWait { left: u8 },
    Source,
    Coefficients,
    /// Polling for the sensor, with so many polls left after this one.
    SensorPoll { left: u8 },
    SensorWait { left: u8 },
    PressureCfg,
    TemperatureCfg,
    ShiftCfg,
    Start,
    Over,
}

/// What the bus answered.
#[derive(Clone, Copy, Debug, PartialEq, Eq)]
pub enum Reply {
    Failed,
    /// A write or a wait is done.
    Done,
    Byte(u8),
    Block([u8; 18]),
}

/// What to do next.
#[derive(Clone, Copy, Debug, PartialEq, Eq, Structural)]
pub enum Action {
    ReadByte { reg: u8 },
    /// Read the calibration block.
    ReadBlock { reg: u8 },
    Write { reg: u8, value: u8 },
    Wait { ms: u64 },
    Ready,
    Failed(Dps310Error),
}

/// Polls for each readiness bit.
pub const POLLS: u8 = 20;

/// What a stage asks for.
pub open spec fn request(stage: Stage, source: u8) -> Action {
    match stage {
        Stage::Identify => Action::ReadByte { reg: DPS310_REG_ID },
        Stage::Reset => Action::Write { reg: DPS310_REG_RESET, value: 0x09 },
        Stage::ResetWait => Action::Wait { ms: 15 },
        Stage::CoefPoll { left } => Action::ReadByte { reg: DPS310_REG_MEAS_CFG },
        Stage::CoefWait { left } => Action::Wait { ms: 5 },
        Stage::Source => Action::ReadByte { reg: DPS310_REG_COEF_SRCE },
        Stage::Coefficients => Action::ReadBlock { reg: DPS310_REG_COEF_START },
        Stage::SensorPoll { left } => Action::ReadByte { reg: DPS310_REG_MEAS_CFG },
        Stage::SensorWait { left } => Action::Wait { ms: 5 },
        Stage::PressureCfg => Action::Write { reg: DPS310_REG_PRS_CFG, value: 0x44 },
        Stage::TemperatureCfg => Action::Write {
            reg: DPS310_REG_TMP_CFG,
            value: (source + 0x40) as u8,
        },
        Stage::ShiftCfg => Action::Write { reg: DPS310_REG_CFG_REG, value: 0x04 },
        Stage::Start => Action::Write { reg: DPS310_REG_MEAS_CFG, value: MEAS_CTRL_CONT_PT },
        Stage::Over => Action::Ready,
    }
}

/// What a reply to a stage leads to: the next stage, or an error. A reply of
/// the wrong form counts as a bus failure.
pub open spec fn advance(stage: Stage, reply: Reply) -> Result<Stage, Dps310Error> {
    match (stage, reply) {
        (Stage::Identify, Reply::Byte(id)) => if id == DPS310_ID_VALUE {
            Ok(Stage::Reset)
        } else {
            Err(Dps310Error::WhoAmIMismatch(id))
        },
        (Stage::Reset, Reply::Done) => Ok(Stage::ResetWait),
        (Stage::ResetWait, Reply::Done) => Ok(Stage::CoefPoll { left: 19 }),
        (Stage::CoefPoll { left }, Reply::Byte(b)) => if b >= 0x80 {
            Ok(Stage::Source)
        } else {
            Ok(Stage::CoefWait { left })
        },
        (Stage::CoefWait { left }, Reply::Done) => if left > 0 {
            Ok(Stage::CoefPoll { left: (left - 1) as u8 })
        } else {
            Err(Dps310Error::CoefTimeout)
        },
        (Stage::Source, Reply::Byte(b)) => Ok(Stage::Coefficients),
        (Stage::Coefficients, Reply::Block(b)) => Ok(Stage::SensorPoll { left: 19 }),
        (Stage::SensorPoll { left }, Reply::Byte(b)) => if b / 0x40 % 2 == 1 {
            Ok(Stage::PressureCfg)
        } else {
            Ok(Stage::SensorWait { left })
        },
        (Stage::SensorWait { left }, Reply::Done) => if left > 0 {
            Ok(Stage::SensorPoll { left: (left - 1) as u8 })
        } else {
            Err(Dps310Error::SensorTimeout)
        },
        (Stage::PressureCfg, Reply::Done) => Ok(Stage::TemperatureCfg),
        (Stage::TemperatureCfg, Reply::Done) => Ok(Stage::ShiftCfg),
        (Stage::ShiftCfg, Reply::Done) => Ok(Stage::Start),
        (Stage::Start, Reply::Done) => Ok(Stage::Over),
        (Stage::Over, _) => Ok(Stage::Over),
        _ => Err(Dps310Error::I2c),
    }
}

/// Bringing the chip up.
pub struct Dps310Init {
    pub stage: Stage,
    pub chip: Dps310,
}

impl Dps310Init {
    pub open spec fn wf(&self) -> bool {
        self.chip.cal.wf() && (self.chip.tmp_source_bit == 0 || self.chip.tmp_source_bit == 0x80)
    }

    fn ask(&self) -> (action: Action)
        requires
            self.wf(),
        ensures
            action == request(self.stage, self.chip.tmp_source_bit),
    {
        match self.stage {
            Stage::Identify => Action::ReadByte { reg: DPS310_REG_ID },
            Stage::Reset => Action::Write { reg: DPS310_REG_RESET, value: 0x09 },
            Stage::ResetWait => Action::Wait { ms: 15 },
            Stage::CoefPoll { left: _ } => Action::ReadByte { reg: DPS310_REG_MEAS_CFG },
            Stage::CoefWait { left: _ } => Action::Wait { ms: 5 },
            Stage::Source => Action::ReadByte { reg: DPS310_REG_COEF_SRCE },
            Stage::Coefficients => Action::ReadBlock { reg: DPS310_REG_COEF_START },
            Stage::SensorPoll { left: _ } => Action::ReadByte { reg: DPS310_REG_MEAS_CFG },
            Stage::SensorWait { left: _ } => Action::Wait { ms: 5 },
            Stage::PressureCfg => Action::Write {
                reg: DPS310_REG_PRS_CFG,
                value: measurement_cfg(P_RATE, P_OSR),
            },
            Stage::TemperatureCfg => Action::Write {
                reg: DPS310_REG_TMP_CFG,
                value: self.chip.tmp_source_bit + measurement_cfg(T_RATE, T_OSR),
            },
            Stage::ShiftCfg => Action::Write {
                reg: DPS310_REG_CFG_REG,
                value: shift_cfg(P_OSR, T_OSR),
            },
            Stage::Start => Action::Write { reg: DPS310_REG_MEAS_CFG, value: MEAS_CTRL_CONT_PT },
            Stage::Over => Action::Ready,
        }
    }

    /// Begins with the identity.
    pub fn new() -> (out: (Self, Action))
        ensures
            out.0.wf(),
            out.0.stage == Stage::Identify,
            out.1 == request(Stage::Identify, 0),
    {
        let cal = Dps310Cal {
            c0: 0,
            c1: 0,
            c00: 0,
            c10: 0,
            c01: 0,
            c11: 0,
            c20: 0,
            c21: 0,
            c30: 0,
        };
        let init = Dps310Init {
            stage: Stage::Identify,
            chip: Dps310 { cal, tmp_source_bit: 0 },
        };
        let action: Action = init.ask();
        (init, action)
    }

    /// Takes a reply and says what is next. The temperature source and the
    /// coefficients are kept as they are read.
    pub fn answered(&mut self, reply: Reply) -> (action: Action)
        requires
            old(self).wf(),
        ensures
            final(self).wf(),
            match advance(old(self).stage, reply) {
                Err(e) => action == Action::Failed(e) && *final(self) == *old(self),
                Ok(stage) => {
                    &&& final(self).stage == stage
                    &&& action == request(stage, final(self).chip.tmp_source_bit)
                },
            },
            final(self).chip.tmp_source_bit == (if old(self).stage == Stage::Source
                && reply is Byte {
                if reply->Byte_0 >= 0x80 {
                    0x80u8
                } else {
                    0u8
                }
            } else {
                old(self).chip.tmp_source_bit
            }),
            final(self).chip.cal == (if old(self).stage == Stage::Coefficients && reply is Block {
                cal_of(reply->Block_0@)
            } else {
                old(self).chip.cal
            }),
    {
        let next: Result<Stage, Dps310Error> = match (self.stage, reply) {
            (Stage::Identify, Reply::Byte(id)) => if id == DPS310_ID_VALUE {
                Ok(Stage::Reset)
            } else {
                Err(Dps310Error::WhoAmIMismatch(id))
            },
            (Stage::Reset, Reply::Done) => Ok(Stage::ResetWait),
            (Stage::ResetWait, Reply::Done) => Ok(Stage::CoefPoll { left: POLLS - 1 }),
            (Stage::CoefPoll { left }, Reply::Byte(b)) => if b >= 0x80 {
                Ok(Stage::Source)
            } else {
                Ok(Stage::CoefWait { left })
            },
            (Stage::CoefWait { left }, Reply::Done) => if left > 0 {
                Ok(Stage::CoefPoll { left: left - 1 })
            } else {
                Err(Dps310Error::CoefTimeout)
            },
            (Stage::Source, Reply::Byte(b)) => {
                self.chip.tmp_source_bit = if b >= 0x80 {
                    0x80
                } else {
                    0
                };
                Ok(Stage::Coefficients)
            },
            (Stage::Coefficients, Reply::Block(b)) => {
                self.chip.cal = Dps310Cal::parse(&b);
                Ok(Stage::SensorPoll { left: POLLS - 1 })
            },
            (Stage::SensorPoll { left }, Reply::Byte(b)) => if b / 0x40 % 2 == 1 {
                Ok(Stage::PressureCfg)
            } else {
                Ok(Stage::SensorWait { left })
            },
            (Stage::SensorWait { left }, Reply::Done) => if left > 0 {
                Ok(Stage::SensorPoll { left: left - 1 })
            } else {
                Err(Dps310Error::SensorTimeout)
            },
            (Stage::PressureCfg, Reply::Done) => Ok(Stage::TemperatureCfg),
            (Stage::TemperatureCfg, Reply::Done) => Ok(Stage::ShiftCfg),
            (Stage::ShiftCfg, Reply::Done) => Ok(Stage::Start),
            (Stage::Start, Reply::Done) => Ok(Stage::Over),
            (Stage::Over, _) => Ok(Stage::Over),
            _ => Err(Dps310Error::I2c),
        };
        match next {
            Err(e) => Action::Failed(e),
            Ok(stage) => {
                self.stage = stage;
                self.ask()
            },
        }
    }
}

/// A compensated reading.
#[derive(Clone, Copy, Debug, PartialEq, Eq, Structural)]
pub struct BaroSample {
    /// Pressure in Pa, times `K_P * K_P * K_P * K_T`.
    pub pressure_num: i128,
    /// Temperature of the die in °C.
    pub temperature_c: Ratio,
}

/// The pressure polynomial, in Pa times `K_P * K_P * K_P * K_T`, for readings `p`
/// and `t`:
/// `c00 + p' (c10 + p' (c20 + p' c30)) + t' c01 + t' p' (c11 + p' c21)` where `p'`
/// and `t'` are the readings over their scale factors.
pub open spec fn pressure_poly(c: Dps310Cal, p: int, t: int) -> int {
    K_P * K_P * K_P * K_T * c.c00 + K_T * (p * (K_P * K_P * c.c10 + p * (K_P * c.c20 + p
        * c.c30))) + K_P * K_P * K_P * (t * c.c01) + K_P * (t * (p * (K_P * c.c11 + p * c.c21)))
}

/// The temperature polynomial: half the first coefficient and the second times the
/// reading over its scale factor.
pub open spec fn temperature_ratio(c: Dps310Cal, t: int) -> Ratio {
    Ratio { num: (c.c0 * K_T + 2 * (c.c1 * t)) as i64, den: (2 * K_T) as u32 }
}

/// What six data bytes compensate to.
pub open spec fn compensated(c: Dps310Cal, b: Seq<u8>) -> BaroSample {
    let p = bytes::twos_complement(bytes::u24_be(b, 0), 0x80_0000);
    let t = bytes::twos_complement(bytes::u24_be(b, 3), 0x80_0000);
    BaroSample { pressure_num: pressure_poly(c, p, t) as i128, temperature_c: temperature_ratio(c, t) }
}

proof fn lemma_product_bound(a: int, b: int, x: int, y: int)
    requires
        -x <= a <= x,
        -y <= b <= y,
    ensures
        -(x * y) <= a * b <= x * y,
{
    assert(-(x * y) <= a * b <= x * y) by (nonlinear_arith)
        requires
            -x <= a <= x,
            -y <= b <= y,
    ;
}

impl Dps310 {
    /// Compensates a reading of six bytes, `None` where reading them failed:
    /// pressure, then temperature, 24 bits each.
    pub fn read(&self, data: Option<[u8; 6]>) -> (r: Result<BaroSample, Dps310Error>)
        requires
            self.cal.wf(),
        ensures
            match data {
                None => r == Err::<BaroSample, Dps310Error>(Dps310Error::I2c),
                Some(b) => r matches Ok(s) && ({
                    let p = bytes::twos_complement(bytes::u24_be(b@, 0), 0x80_0000);
                    let t = bytes::twos_complement(bytes::u24_be(b@, 3), 0x80_0000);
                    &&& s.pressure_num == pressure_poly(self.cal, p, t)
                    &&& s.temperature_c.num == self.cal.c0 * K_T + 2 * (self.cal.c1 * t)
                    &&& s.temperature_c.den == 2 * K_T
                }),
            },
            data matches Some(b) ==> r == Ok::<BaroSample, Dps310Error>(compensated(self.cal, b@)),
    {
        match data {
            None => Err(Dps310Error::I2c),
            Some(b) => {
                let p: i128 = sign_extend_24(read_u24_be(b.as_slice(), 0)) as i128;
                let t: i128 = sign_extend_24(read_u24_be(b.as_slice(), 3)) as i128;
                Ok(self.compensate(p, t))
            },
        }
    }

    fn compensate(&self, p: i128, t: i128) -> (s: BaroSample)
        requires
            self.cal.wf(),
            -0x80_0000 <= p < 0x80_0000,
            -0x80_0000 <= t < 0x80_0000,
        ensures
            s.pressure_num == pressure_poly(self.cal, p as int, t as int),
            s.temperature_c.num == self.cal.c0 * K_T + 2 * (self.cal.c1 * t),
            s.temperature_c.den == 2 * K_T,
    {
        let c10: i128 = self.cal.c10 as i128;
        let c20: i128 = self.cal.c20 as i128;
        let c30: i128 = self.cal.c30 as i128;
        let c01: i128 = self.cal.c01 as i128;
        let c11: i128 = self.cal.c11 as i128;
        let c21: i128 = self.cal.c21 as i128;
        let c1: i128 = self.cal.c1 as i128;
        proof {
            lemma_product_bound(p as int, c30 as int, 0x80_0000, 0x8000);
            lemma_product_bound(p as int, c21 as int, 0x80_0000, 0x8000);
            lemma_product_bound(t as int, c01 as int, 0x80_0000, 0x8000);
            lemma_product_bound(c1 as int, t as int, 0x800, 0x80_0000);
        }
        let inner: i128 = 253_952 * c20 + p * c30;
        proof {
            lemma_product_bound(p as int, inner as int, 0x80_0000, 0x100_0000_0000);
        }
        let middle: i128 = 64_491_618_304 * c10 + p * inner;
        proof {
            lemma_product_bound(p as int, middle as int, 0x80_0000, 0x100_0000_0000_0000_0000);
        }
        let cross: i128 = 253_952 * c11 + p * c21;
        proof {
            lemma_product_bound(p as int, cross as int, 0x80_0000, 0x100_0000_0000);
        }
        let cross_p: i128 = p * cross;
        proof {
            lemma_product_bound(t as int, cross_p as int, 0x80_0000, 0x80_0000_0000_0000_0000);
        }
        let pressure_num: i128 = 8_586_671_135_935_644_565_504 * (self.cal.c00 as i128)
            + 524_288 * (p * middle) + 16_377_775_451_537_408 * (t * c01) + 253_952 * (t
            * cross_p);
        let num: i64 = (self.cal.c0 as i128 * 524_288 + 2 * (c1 * t)) as i64;
        BaroSample { pressure_num, temperature_c: Ratio { num, den: 1_048_576 } }
    }

    /// Whether the coefficients belong to the external temperature sensor.
    pub fn uses_external_tmp(&self) -> (b: bool)
        ensures
            b == (self.tmp_source_bit != 0),
    {
        self.tmp_source_bit != 0
    }
}

// ---- Laws ----

/// Polls and stages still to come when no readiness bit ever sets.
pub open spec fn stages_left(stage: Stage) -> int {
    match stage {
        Stage::Identify => 100,
        Stage::Reset => 99,
        Stage::ResetWait => 98,
        Stage::CoefPoll { left } => 58 + 2 * left + 1,
        Stage::CoefWait { left } => 58 + 2 * left,
        Stage::Source => 57,
        Stage::Coefficients => 56,
        Stage::SensorPoll { left } => 8 + 2 * left + 1,
        Stage::SensorWait { left } => 8 + 2 * left,
        Stage::PressureCfg => 5,
        Stage::TemperatureCfg => 4,
        Stage::ShiftCfg => 3,
        Stage::Start => 2,
        Stage::Over => 0,
    }
}

/// Bringing the chip up ends: every reply either fails or brings it closer to
/// being over, and polls never come back once they have succeeded.
pub proof fn law_bring_up_ends(stage: Stage, reply: Reply)
    requires
        stage != Stage::Over,
        stage matches Stage::CoefPoll { left } ==> left < POLLS,
        stage matches Stage::CoefWait { left } ==> left < POLLS,
        stage matches Stage::SensorPoll { left } ==> left < POLLS,
        stage matches Stage::SensorWait { left } ==> left < POLLS,
    ensures
        advance(stage, reply) matches Ok(next) ==> 0 <= stages_left(next) < stages_left(stage)
            <= 100,
{
}

/// A chip is only ready after its coefficients have been read and its readiness
/// bits have both been seen.
pub proof fn law_ready_needs_both_bits(stage: Stage, reply: Reply)
    requires
        advance(stage, reply) is Ok,
    ensures
        advance(stage, reply)->Ok_0 == Stage::Source ==> reply is Byte && reply->Byte_0 >= 0x80,
        advance(stage, reply)->Ok_0 == Stage::PressureCfg ==> reply is Byte && reply->Byte_0 / 0x40
            % 2 == 1,
        advance(stage, reply)->Ok_0 == Stage::Over && stage != Stage::Over ==> stage
            == Stage::Start,
{
}

/// Sign extension keeps every number that fits the width.
pub proof fn law_sign_extension_keeps_numbers(v: int, bits: nat)
    requires
        bits >= 1,
        -(power2::pow2((bits - 1) as nat)) <= v < power2::pow2((bits - 1) as nat),
    ensures
        extended(v % (power2::pow2(bits) as int), bits) == v,
{
    let w = power2::pow2(bits) as int;
    power2::lemma_pow2_unfold(bits);
    power2::lemma_pow2_pos((bits - 1) as nat);
    if v >= 0 {
        vstd::arithmetic::div_mod::lemma_small_mod(v as nat, w as nat);
    } else {
        vstd::arithmetic::div_mod::lemma_mod_add_multiples_vanish(v, w);
        vstd::arithmetic::div_mod::lemma_small_mod((v + w) as nat, w as nat);
    }
    vstd::arithmetic::div_mod::lemma_mod_twice(v, w);
}

// ---- What the coefficients mean ----

/// Bit `k` of a block, 0 being the most significant bit of the first byte.
pub open spec fn block_bit(b: Seq<u8>, k: int) -> int {
    let byte = b[k / 8] as int;
    if k % 8 == 0 {
        byte / 128 % 2
    } else if k % 8 == 1 {
        byte / 64 % 2
    } else if k % 8 == 2 {
        byte / 32 % 2
    } else if k % 8 == 3 {
        byte / 16 % 2
    } else if k % 8 == 4 {
        byte / 8 % 2
    } else if k % 8 == 5 {
        byte / 4 % 2
    } else if k % 8 == 6 {
        byte / 2 % 2
    } else {
        byte % 2
    }
}

/// The number that `n` bits of a block spell, the first one being the most
/// significant.
pub open spec fn block_bits(b: Seq<u8>, from: int, n: nat) -> int
    decreases n,
{
    if n == 0 {
        0
    } else {
        2 * block_bits(b, from, (n - 1) as nat) + block_bit(b, from + n - 1)
    }
}

/// Whether a number stands at a place in a block, in two's complement of `n` bits.
pub open spec fn stands_at(v: int, b: Seq<u8>, from: int, n: nat) -> bool {
    let u = block_bits(b, from, n);
    if block_bit(b, from) == 1 {
        v == u - power2::pow2(n)
    } else {
        v == u
    }
}

proof fn lemma_halves(x: u8)
    by (bit_vector)
    ensures
        x / 16 == 8 * (x / 128 % 2) + 4 * (x / 64 % 2) + 2 * (x / 32 % 2) + x / 16 % 2,
        x % 16 == 8 * (x / 8 % 2) + 4 * (x / 4 % 2) + 2 * (x / 2 % 2) + x % 2,
        x / 128 % 2 == x / 128,
{
}

proof fn lemma_byte_bits(b: Seq<u8>, i: int)
    requires
        i >= 0,
    ensures
        block_bit(b, 8 * i) == b[i] as int / 128 % 2,
        block_bit(b, 8 * i + 1) == b[i] as int / 64 % 2,
        block_bit(b, 8 * i + 2) == b[i] as int / 32 % 2,
        block_bit(b, 8 * i + 3) == b[i] as int / 16 % 2,
        block_bit(b, 8 * i + 4) == b[i] as int / 8 % 2,
        block_bit(b, 8 * i + 5) == b[i] as int / 4 % 2,
        block_bit(b, 8 * i + 6) == b[i] as int / 2 % 2,
        block_bit(b, 8 * i + 7) == b[i] as int % 2,
{
    assert((8 * i) / 8 == i && (8 * i) % 8 == 0);
    assert((8 * i + 1) / 8 == i && (8 * i + 1) % 8 == 1);
    assert((8 * i + 2) / 8 == i && (8 * i + 2) % 8 == 2);
    assert((8 * i + 3) / 8 == i && (8 * i + 3) % 8 == 3);
    assert((8 * i + 4) / 8 == i && (8 * i + 4) % 8 == 4);
    assert((8 * i + 5) / 8 == i && (8 * i + 5) % 8 == 5);
    assert((8 * i + 6) / 8 == i && (8 * i + 6) % 8 == 6);
    assert((8 * i + 7) / 8 == i && (8 * i + 7) % 8 == 7);
}

proof fn lemma_four_bits(b: Seq<u8>, from: int, n: nat, p: int, q: int, r: int, s: int)
    requires
        block_bit(b, from + n) == p,
        block_bit(b, from + n + 1) == q,
        block_bit(b, from + n + 2) == r,
        block_bit(b, from + n + 3) == s,
    ensures
        block_bits(b, from, n + 4) == 16 * block_bits(b, from, n) + 8 * p + 4 * q + 2 * r + s,
{
    let k = from + n;
    assert(block_bits(b, from, n + 1) == 2 * block_bits(b, from, n) + block_bit(b, k));
    assert(block_bits(b, from, n + 2) == 2 * block_bits(b, from, n + 1) + block_bit(b, k + 1));
    assert(block_bits(b, from, n + 3) == 2 * block_bits(b, from, n + 2) + block_bit(b, k + 2));
    assert(block_bits(b, from, n + 4) == 2 * block_bits(b, from, n + 3) + block_bit(b, k + 3));
}

proof fn lemma_nibbles(b: Seq<u8>, i: int, before: int, from: int, n: nat)
    requires
        from >= 0,
        0 <= i < b.len(),
        block_bits(b, from, n) == before,
    ensures
        from + n == 8 * i ==> block_bits(b, from, n + 4) == 16 * before + b[i] as int / 16,
        from + n == 8 * i + 4 ==> block_bits(b, from, n + 4) == 16 * before + b[i] as int % 16,
        from + n == 8 * i ==> block_bit(b, from + n) == b[i] as int / 128,
        from + n == 8 * i + 4 ==> block_bit(b, from + n) == b[i] as int / 8 % 2,
{
    let x = b[i] as int;
    lemma_byte_bits(b, i);
    lemma_halves(b[i]);
    if from + n == 8 * i {
        lemma_four_bits(b, from, n, x / 128 % 2, x / 64 % 2, x / 32 % 2, x / 16 % 2);
    }
    if from + n == 8 * i + 4 {
        lemma_four_bits(b, from, n, x / 8 % 2, x / 4 % 2, x / 2 % 2, x % 2);
    }
}

proof fn lemma_byte(b: Seq<u8>, i: int, before: int, from: int, n: nat)
    requires
        from >= 0,
        0 <= i < b.len(),
        block_bits(b, from, n) == before,
        from + n == 8 * i,
    ensures
        block_bits(b, from, n + 8) == 256 * before + b[i],
        block_bit(b, from + n) == b[i] as int / 128,
{
    lemma_nibbles(b, i, before, from, n);
    lemma_nibbles(b, i, 16 * before + b[i] as int / 16, from, n + 4);
    assert(n + 4 + 4 == n + 8);
}

proof fn lemma_first_coefficients(b: Seq<u8>)
    requires
        b.len() == 18,
    ensures
        block_bits(b, 0, 12) == 16 * b[0] + b[1] as int / 16,
        block_bit(b, 0) == b[0] as int / 128,
        block_bits(b, 12, 12) == 256 * (b[1] as int % 16) + b[2],
        block_bit(b, 12) == b[1] as int / 8 % 2,
{
    lemma_byte(b, 0, 0, 0, 0);
    lemma_nibbles(b, 1, b[0] as int, 0, 8);
    lemma_nibbles(b, 1, 0, 12, 0);
    lemma_byte(b, 2, b[1] as int % 16, 12, 4);
}

proof fn lemma_offset_coefficient(b: Seq<u8>)
    requires
        b.len() == 18,
    ensures
        block_bits(b, 24, 20) == 4096 * b[3] + 16 * b[4] + b[5] as int / 16,
        block_bit(b, 24) == b[3] as int / 128,
{
    lemma_byte(b, 3, 0, 24, 0);
    lemma_byte(b, 4, b[3] as int, 24, 8);
    lemma_nibbles(b, 5, 256 * b[3] + b[4], 24, 16);
}

proof fn lemma_slope_coefficient(b: Seq<u8>)
    requires
        b.len() == 18,
    ensures
        block_bits(b, 44, 20) == 0x1_0000 * (b[5] as int % 16) + 0x100 * b[6] + b[7],
        block_bit(b, 44) == b[5] as int / 8 % 2,
{
    lemma_nibbles(b, 5, 0, 44, 0);
    lemma_byte(b, 6, b[5] as int % 16, 44, 4);
    lemma_byte(b, 7, 256 * (b[5] as int % 16) + b[6], 44, 12);
}

proof fn lemma_word_coefficient(b: Seq<u8>, i: int)
    requires
        b.len() == 18,
        0 <= i < 17,
    ensures
        block_bits(b, 8 * i, 16) == 0x100 * b[i] + b[i + 1],
        block_bit(b, 8 * i) == b[i] as int / 128,
{
    lemma_byte(b, i, 0, 8 * i, 0);
    lemma_byte(b, i + 1, b[i] as int, 8 * i, 8);
}

/// The coefficients lie back to back, most significant bit first, in two's
/// complement: 12, 12, 20, 20 and five times 16 bits.
pub proof fn law_coefficients_lie_back_to_back(b: Seq<u8>)
    requires
        b.len() == 18,
    ensures
        stands_at(cal_of(b).c0 as int, b, 0, 12),
        stands_at(cal_of(b).c1 as int, b, 12, 12),
        stands_at(cal_of(b).c00 as int, b, 24, 20),
        stands_at(cal_of(b).c10 as int, b, 44, 20),
        stands_at(cal_of(b).c01 as int, b, 64, 16),
        stands_at(cal_of(b).c11 as int, b, 80, 16),
        stands_at(cal_of(b).c20 as int, b, 96, 16),
        stands_at(cal_of(b).c21 as int, b, 112, 16),
        stands_at(cal_of(b).c30 as int, b, 128, 16),
{
    power2::lemma2_to64();
    lemma_first_coefficients(b);
    lemma_offset_coefficient(b);
    lemma_slope_coefficient(b);
    lemma_word_coefficient(b, 8);
    lemma_word_coefficient(b, 10);
    lemma_word_coefficient(b, 12);
    lemma_word_coefficient(b, 14);
    lemma_word_coefficient(b, 16);
}

/// Packing is undone: a block in which a calibration's coefficients stand back to
/// back is read as exactly that calibration.
pub proof fn law_packed_calibration_is_read(c: Dps310Cal, b: Seq<u8>)
    requires
        b.len() == 18,
        stands_at(c.c0 as int, b, 0, 12),
        stands_at(c.c1 as int, b, 12, 12),
        stands_at(c.c00 as int, b, 24, 20),
        stands_at(c.c10 as int, b, 44, 20),
        stands_at(c.c01 as int, b, 64, 16),
        stands_at(c.c11 as int, b, 80, 16),
        stands_at(c.c20 as int, b, 96, 16),
        stands_at(c.c21 as int, b, 112, 16),
        stands_at(c.c30 as int, b, 128, 16),
    ensures
        cal_of(b) == c,
{
    law_coefficients_lie_back_to_back(b);
}

/// Pressure, term by term: each coefficient multiplies the power of the readings that
/// its digits name, pressure first, every reading over its scale factor, 253952 for
/// pressure and 524288 for temperature. Multiplied out by the cube of the one and by the
/// other, what is left of a term is the scale factors that it lacks.
pub proof fn law_pressure_term_by_term(c: Dps310Cal, p: int, t: int)
    ensures
        pressure_poly(c, p, t) == 8_586_671_135_935_644_565_504 * c.c00 + 33_812_181_577_367_552 * (
        c.c10 * p) + 133_143_986_176 * (c.c20 * (p * p)) + 524_288 * (c.c30 * (p * p * p)) + 16_377_775_451_537_408
            * (c.c01 * t) + 64_491_618_304 * (c.c11 * (p * t)) + 253_952 * (c.c21 * (p * p * t)),
{
    let (c10, c20, c30) = (c.c10 as int, c.c20 as int, c.c30 as int);
    let (c01, c11, c21) = (c.c01 as int, c.c11 as int, c.c21 as int);
    let a = 64_491_618_304int;
    let k = 253_952int;
    let inner = k * c20 + p * c30;
    lemma_times_sum(p, k, c20, p * c30);
    assert(p * (p * c30) == c30 * (p * p)) by (nonlinear_arith);
    let pp = p * p;
    let x = k * (c20 * p) + c30 * pp;
    assert(p * inner == x);
    lemma_times_sum(p, a, c10, x);
    lemma_times_sum(p, k, c20 * p, c30 * pp);
    assert(c20 * p * p == c20 * pp) by (nonlinear_arith)
        requires
            pp == p * p,
    ;
    assert(p * (c30 * pp) == c30 * (pp * p)) by (nonlinear_arith);
    let middle = a * c10 + p * inner;
    assert(p * middle == a * (c10 * p) + k * (c20 * pp) + c30 * (pp * p));
    let cross = k * c11 + p * c21;
    lemma_times_sum(p, k, c11, p * c21);
    assert(p * (p * c21) == c21 * pp) by (nonlinear_arith)
        requires
            pp == p * p,
    ;
    lemma_times_sum(t, k, c11 * p, c21 * pp);
    assert(c11 * p * t == c11 * (p * t)) by (nonlinear_arith);
    assert(t * (c21 * pp) == c21 * (pp * t)) by (nonlinear_arith);
    assert(t * (p * cross) == k * (c11 * (p * t)) + c21 * (pp * t));
    assert(t * c01 == c01 * t) by (nonlinear_arith);
    assert(K_P * K_P == a);
    assert(K_P * K_P * c10 == a * c10);
    assert(K_P * K_P * K_P == 16_377_775_451_537_408) by (nonlinear_arith)
        requires
            K_P == 253_952,
    ;
    assert(K_P * K_P * K_P * K_T == 8_586_671_135_935_644_565_504) by (nonlinear_arith)
        requires
            K_P * K_P * K_P == 16_377_775_451_537_408,
            K_T == 524_288,
    ;
    let first = K_P * K_P * K_P * K_T * c.c00;
    assert(first == 8_586_671_135_935_644_565_504 * c.c00);
    let third = K_P * K_P * K_P * (t * c01);
    assert(third == 16_377_775_451_537_408 * (c01 * t));
    assert(pressure_poly(c, p, t) == first + K_T * (p * middle) + third + K_P * (t * (p * cross)));
}

proof fn lemma_times_sum(f: int, k: int, u: int, w: int)
    ensures
        f * (k * u + w) == k * (u * f) + f * w,
{
    assert(f * (k * u + w) == k * (u * f) + f * w) by (nonlinear_arith);
}

/// A reading is compensated as the readings in it say: pressure stands in the first
/// three bytes and temperature in the last three, most significant first, in two's
/// complement. Temperature is half the first coefficient and the second times the
/// reading over 524288.
pub proof fn law_reading_is_compensated(c: Dps310Cal, b: Seq<u8>, p: int, t: int)
    requires
        c.wf(),
        -0x80_0000 <= p < 0x80_0000,
        -0x80_0000 <= t < 0x80_0000,
        bytes::stands_in(b, 0, bytes::written_be(p, 3)),
        bytes::stands_in(b, 3, bytes::written_be(t, 3)),
    ensures
        compensated(c, b).pressure_num == pressure_poly(c, p, t) as i128,
        compensated(c, b).temperature_c.den == 1_048_576,
        compensated(c, b).temperature_c.num == 524_288 * c.c0 + 2 * (c.c1 * t),
{
    bytes::law_three_bytes_read_back(b, 0, p);
    bytes::law_three_bytes_read_back(b, 3, t);
    lemma_product_bound(c.c1 as int, t, 0x800, 0x80_0000);
}

/// A chip is told by its identity: 58 hex in register D0 is a BMP280, 10 hex in
/// register 0D a DPS310, at 76 hex before 77 hex.
pub proof fn law_chips_are_told_apart(first: Ids, second: Ids)
    ensures
        BMP280_REG_ID == 0xD0 && DPS310_REG_ID == 0x0D,
        first.bmp == Some(0x58u8) ==> verdict(first, second) == Ok::<BaroChip, DetectError>(
            BaroChip::Bmp280 { addr: 0x76 },
        ),
        first.bmp != Some(0x58u8) && first.dps == Some(0x10u8) ==> verdict(first, second) == Ok::<
            BaroChip,
            DetectError,
        >(BaroChip::Dps310 { addr: 0x76 }),
        first.bmp is None && first.dps is None && second.bmp == Some(0x58u8) ==> verdict(
            first,
            second,
        ) == Ok::<BaroChip, DetectError>(BaroChip::Bmp280 { addr: 0x77 }),
        first.bmp is None && first.dps is None && second.bmp != Some(0x58u8) && second.dps == Some(
            0x10u8,
        ) ==> verdict(first, second) == Ok::<BaroChip, DetectError>(
            BaroChip::Dps310 { addr: 0x77 },
        ),
        first.bmp is None && first.dps is None && second.bmp is None && second.dps is None
            ==> verdict(first, second) == Err::<BaroChip, DetectError>(DetectError::NotFound),
        verdict(first, second) matches Ok(BaroChip::Dps310 { addr }) ==> (addr == 0x76 && first.dps
            == Some(0x10u8)) || (addr == 0x77 && second.dps == Some(0x10u8)),
        verdict(first, second) matches Ok(BaroChip::Bmp280 { addr }) ==> (addr == 0x76 && first.bmp
            == Some(0x58u8)) || (addr == 0x77 && second.bmp == Some(0x58u8)),
{
}

/// The chip is set up for 16 readings a second, pressure over 16 samples with its
/// result shifted and temperature over one, then left running; the temperature source
/// is the one the coefficients belong to.
pub proof fn law_settings(source: u8)
    requires
        source == 0 || source == 0x80,
    ensures
        request(Stage::Identify, source) == (Action::ReadByte { reg: 0x0D }),
        request(Stage::Reset, source) == (Action::Write { reg: 0x0C, value: 0x09 }),
        request(Stage::CoefPoll { left: 0 }, source) == (Action::ReadByte { reg: 0x08 }),
        request(Stage::Source, source) == (Action::ReadByte { reg: 0x28 }),
        request(Stage::Coefficients, source) == (Action::ReadBlock { reg: 0x10 }),
        request(Stage::PressureCfg, source) == (Action::Write { reg: 0x06, value: 0x44 }),
        request(Stage::TemperatureCfg, source) matches Action::Write { reg, value } && reg == 0x07
            && value == source + 0x40,
        request(Stage::ShiftCfg, source) == (Action::Write { reg: 0x09, value: 0x04 }),
        request(Stage::Start, source) == (Action::Write { reg: 0x08, value: 0x07 }),
{
}

/// With every answer right the chip is brought up step by step, in this order.
pub proof fn law_bring_up_order(b: [u8; 18], src: u8)
    ensures
        advance(Stage::Identify, Reply::Byte(0x10)) == Ok::<Stage, Dps310Error>(Stage::Reset),
        advance(Stage::Reset, Reply::Done) == Ok::<Stage, Dps310Error>(Stage::ResetWait),
        advance(Stage::ResetWait, Reply::Done) == Ok::<Stage, Dps310Error>(
            Stage::CoefPoll { left: 19 },
        ),
        advance(Stage::CoefPoll { left: 19 }, Reply::Byte(0x80)) == Ok::<Stage, Dps310Error>(
            Stage::Source,
        ),
        advance(Stage::Source, Reply::Byte(src)) == Ok::<Stage, Dps310Error>(Stage::Coefficients),
        advance(Stage::Coefficients, Reply::Block(b)) == Ok::<Stage, Dps310Error>(
            Stage::SensorPoll { left: 19 },
        ),
        advance(Stage::SensorPoll { left: 19 }, Reply::Byte(0x40)) == Ok::<Stage, Dps310Error>(
            Stage::PressureCfg,
        ),
        advance(Stage::PressureCfg, Reply::Done) == Ok::<Stage, Dps310Error>(Stage::TemperatureCfg),
        advance(Stage::TemperatureCfg, Reply::Done) == Ok::<Stage, Dps310Error>(Stage::ShiftCfg),
        advance(Stage::ShiftCfg, Reply::Done) == Ok::<Stage, Dps310Error>(Stage::Start),
        advance(Stage::Start, Reply::Done) == Ok::<Stage, Dps310Error>(Stage::Over),
{
}

/// A chip of another identity is refused by name, a failed transfer is a bus fault, and
/// a bit that never comes ends in its own timeout.
pub proof fn law_bring_up_failures(stage: Stage, id: u8)
    ensures
        id != 0x10 ==> advance(Stage::Identify, Reply::Byte(id)) == Err::<Stage, Dps310Error>(
            Dps310Error::WhoAmIMismatch(id),
        ),
        stage != Stage::Over ==> advance(stage, Reply::Failed) == Err::<Stage, Dps310Error>(
            Dps310Error::I2c,
        ),
        advance(Stage::CoefWait { left: 0 }, Reply::Done) == Err::<Stage, Dps310Error>(
            Dps310Error::CoefTimeout,
        ),
        advance(Stage::SensorWait { left: 0 }, Reply::Done) == Err::<Stage, Dps310Error>(
            Dps310Error::SensorTimeout,
        ),
{
}

/// What each setting is written as: the power of two that it is.
pub proof fn law_field_codes()
    ensures
        Osr::X1.bits() == 0,
        Osr::X2.bits() == 1,
        Osr::X4.bits() == 2,
        Osr::X8.bits() == 3,
        Osr::X16.bits() == 4,
        Osr::X32.bits() == 5,
        Osr::X64.bits() == 6,
        Osr::X128.bits() == 7,
        Rate::Hz1.bits() == 0,
        Rate::Hz2.bits() == 1,
        Rate::Hz4.bits() == 2,
        Rate::Hz8.bits() == 3,
        Rate::Hz16.bits() == 4,
        Rate::Hz32.bits() == 5,
        Rate::Hz64.bits() == 6,
        Rate::Hz128.bits() == 7,
{
}

/// Where rate and oversampling stand, and what is shifted: a reading of more than eight
/// samples, pressure by the bit that weighs four and temperature by the next.
pub proof fn law_measurement_fields(rate: Rate, osr: Osr, other: Osr)
    ensures
        ({
            let b = measurement_byte(rate, osr);
            let c = shift_byte(osr, other);
            &&& 0 <= b < 128
            &&& b / 16 == rate.bits() && b % 16 == osr.bits()
            &&& c % 4 == 0 && 0 <= c < 16
            &&& c / 4 % 2 == 1 <==> osr is X16 || osr is X32 || osr is X64 || osr is X128
            &&& c / 8 == 1 <==> other is X16 || other is X32 || other is X64 || other is X128
        }),
{
}

} // verus!
