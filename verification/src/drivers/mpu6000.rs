//! MPU-6000 inertial sensor.
//!
//! ±16 g and ±2000 °/s, rates at 8 kHz. Its samples have the same scales as the
//! ICM-42688-P's, the temperature after conversion.

use crate::bytes::read_i16_be;
use crate::drivers::bring_up::Step;
use crate::drivers::icm42688;
use crate::drivers::icm42688::{InitError, Orientation, RawImu};
use crate::ratio;
use crate::ratio::div_toward_zero;
use vstd::prelude::*;

verus! {

pub const REG_SMPLRT_DIV: u8 = 0x19;

pub const REG_CONFIG: u8 = 0x1A;

pub const REG_GYRO_CONFIG: u8 = 0x1B;

pub const REG_ACCEL_CONFIG: u8 = 0x1C;

/// First of 14 data bytes: acceleration, temperature, rates.
pub const REG_ACCEL_XOUT_H: u8 = 0x3B;

pub const REG_USER_CTRL: u8 = 0x6A;

pub const REG_PWR_MGMT_1: u8 = 0x6B;

pub const REG_WHO_AM_I: u8 = 0x75;

pub const WHO_AM_I_VALUE: u8 = 0x68;

/// Set in an address to read, clear to write.
pub const READ_MASK: u8 = 0x80;

pub const GYRO_CFG: u8 = 0x18;

pub const ACCEL_CFG: u8 = 0x18;

/// Widest filter, 8 kHz.
pub const CONFIG_VAL: u8 = 0x00;

pub const SMPLRT_DIV_VAL: u8 = 0x00;

/// The other bus interface off.
pub const USER_CTRL_VAL: u8 = 0x10;

pub const PWR_RESET: u8 = 0x80;

/// Clock from the X gyro.
pub const PWR_CLKSEL: u8 = 0x01;

/// Fastest bus clock for writing registers.
pub const SETUP_HZ: u32 = 1_000_000;

/// Bus clock for reading data.
pub const RUN_HZ: u32 = 10_000_000;

/// The configuration: slow clock, reset, wake-up, bus, identity, ranges, fast
/// clock.
pub open spec fn setup() -> Seq<Step> {
    seq![
        Step::Clock { hz: SETUP_HZ },
        Step::Wait { ms: 1 },
        Step::Write { reg: REG_PWR_MGMT_1, value: PWR_RESET },
        Step::Wait { ms: 100 },
        Step::Write { reg: REG_PWR_MGMT_1, value: PWR_CLKSEL },
        Step::Wait { ms: 10 },
        Step::Write { reg: REG_USER_CTRL, value: USER_CTRL_VAL },
        Step::Wait { ms: 1 },
        Step::Identify { reg: REG_WHO_AM_I, value: WHO_AM_I_VALUE },
        Step::Write { reg: REG_CONFIG, value: CONFIG_VAL },
        Step::Write { reg: REG_SMPLRT_DIV, value: SMPLRT_DIV_VAL },
        Step::Write { reg: REG_GYRO_CONFIG, value: GYRO_CFG },
        Step::Write { reg: REG_ACCEL_CONFIG, value: ACCEL_CFG },
        Step::Wait { ms: 50 },
        Step::Clock { hz: RUN_HZ },
    ]
}

/// The temperature in the other chip's counts. This chip has counts over 340 plus
/// 36.53 °C, the other counts over 132.48 plus 25 °C.
pub open spec fn converted_temp(raw: int) -> int {
    ratio::toward_zero(132_480 * raw + 519_348_096, 340_000)
}

/// Converts a temperature to the other chip's counts: exact up to one rounding
/// towards zero.
pub fn convert_temp(raw: i16) -> (t: i16)
    ensures
        t == converted_temp(raw as int),
{
    div_toward_zero(132_480 * (raw as i64) + 519_348_096, 340_000) as i16
}

/// Whether a reading is what 14 data bytes hold.
pub open spec fn is_reading(d: Seq<u8>, orientation: Orientation, s: RawImu) -> bool {
    &&& s.temp == converted_temp(icm42688::word(d, 6) as int)
    &&& s.accel@ == seq![icm42688::word(d, 0), icm42688::word(d, 2), icm42688::word(d, 4)]
    &&& s.gyro@ == seq![icm42688::word(d, 8), icm42688::word(d, 10), icm42688::word(d, 12)]
    &&& s.orientation == orientation
}

/// The chip.
pub struct Mpu6000 {
    pub orientation: Orientation,
}

impl Mpu6000 {
    /// The steps that configure the chip.
    pub fn new() -> (steps: Vec<Step>)
        ensures
            steps@ == setup(),
    {
        let mut steps: Vec<Step> = Vec::new();
        steps.push(Step::Clock { hz: SETUP_HZ });
        steps.push(Step::Wait { ms: 1 });
        steps.push(Step::Write { reg: REG_PWR_MGMT_1, value: PWR_RESET });
        steps.push(Step::Wait { ms: 100 });
        steps.push(Step::Write { reg: REG_PWR_MGMT_1, value: PWR_CLKSEL });
        steps.push(Step::Wait { ms: 10 });
        steps.push(Step::Write { reg: REG_USER_CTRL, value: USER_CTRL_VAL });
        steps.push(Step::Wait { ms: 1 });
        steps.push(Step::Identify { reg: REG_WHO_AM_I, value: WHO_AM_I_VALUE });
        steps.push(Step::Write { reg: REG_CONFIG, value: CONFIG_VAL });
        steps.push(Step::Write { reg: REG_SMPLRT_DIV, value: SMPLRT_DIV_VAL });
        steps.push(Step::Write { reg: REG_GYRO_CONFIG, value: GYRO_CFG });
        steps.push(Step::Write { reg: REG_ACCEL_CONFIG, value: ACCEL_CFG });
        steps.push(Step::Wait { ms: 50 });
        steps.push(Step::Clock { hz: RUN_HZ });
        assert(steps@ =~= setup());
        steps
    }

    /// Turns the 14 data bytes, `None` where reading them failed, into a
    /// reading.
    pub fn read_raw(&self, data: Option<[u8; 14]>) -> (r: Result<RawImu, InitError>)
        ensures
            match data {
                None => r == Err::<RawImu, InitError>(InitError::Spi),
                Some(d) => r matches Ok(s) && {
                    &&& is_reading(d@, self.orientation, s)
                    &&& s.accel@ == seq![
                        icm42688::word(d@, 0),
                        icm42688::word(d@, 2),
                        icm42688::word(d@, 4),
                    ]
                    &&& s.temp == converted_temp(icm42688::word(d@, 6) as int)
                    &&& s.gyro@ == seq![
                        icm42688::word(d@, 8),
                        icm42688::word(d@, 10),
                        icm42688::word(d@, 12),
                    ]
                    &&& s.orientation == self.orientation
                },
            },
    {
        match data {
            None => Err(InitError::Spi),
            Some(d) => {
                let b: &[u8] = d.as_slice();
                let accel: [i16; 3] = [read_i16_be(b, 0), read_i16_be(b, 2), read_i16_be(b, 4)];
                let gyro: [i16; 3] = [read_i16_be(b, 8), read_i16_be(b, 10), read_i16_be(b, 12)];
                assert(accel@ =~= seq![
                    icm42688::word(d@, 0),
                    icm42688::word(d@, 2),
                    icm42688::word(d@, 4),
                ]);
                assert(gyro@ =~= seq![
                    icm42688::word(d@, 8),
                    icm42688::word(d@, 10),
                    icm42688::word(d@, 12),
                ]);
                Ok(
                    RawImu {
                        accel,
                        gyro,
                        temp: convert_temp(read_i16_be(b, 6)),
                        orientation: self.orientation,
                    },
                )
            },
        }
    }
}

// ---- Laws ----

/// The converted temperature reads within one count of the other chip of what
/// this chip measured: 1/340 °C per count plus 36.53 against 1/132.48 plus 25.
pub proof fn law_temperature_is_kept(raw: i16)
    ensures
        ({
            let exact = 132_480 * raw + 519_348_096;
            let kept = 340_000 * converted_temp(raw as int);
            -340_000 < exact - kept < 340_000
        }),
{
}

/// What is written, in order: a reset, the clock, the bus, and after the chip has answered
/// 68 hex the widest filter, 2000 degrees per second and 16 g.
pub proof fn law_settings_written()
    ensures
        setup() == seq![
            Step::Clock { hz: 1_000_000 },
            Step::Wait { ms: 1 },
            Step::Write { reg: 0x6B, value: 0x80 },
            Step::Wait { ms: 100 },
            Step::Write { reg: 0x6B, value: 0x01 },
            Step::Wait { ms: 10 },
            Step::Write { reg: 0x6A, value: 0x10 },
            Step::Wait { ms: 1 },
            Step::Identify { reg: 0x75, value: 0x68 },
            Step::Write { reg: 0x1A, value: 0x00 },
            Step::Write { reg: 0x19, value: 0x00 },
            Step::Write { reg: 0x1B, value: 0x18 },
            Step::Write { reg: 0x1C, value: 0x18 },
            Step::Wait { ms: 50 },
            Step::Clock { hz: 10_000_000 },
        ],
{
}

/// A reading is what the chip put into its registers: each quantity in its place, in two
/// bytes of two's complement, most significant first.
pub proof fn law_registers_are_read(
    d: Seq<u8>,
    o: Orientation,
    s: RawImu,
    t: i16,
    ax: i16,
    ay: i16,
    az: i16,
    gx: i16,
    gy: i16,
    gz: i16,
)
    requires
        d.len() == 14,
        is_reading(d, o, s),
        crate::bytes::stands_in(d, 0, crate::bytes::written_be(ax as int, 2)),
        crate::bytes::stands_in(d, 2, crate::bytes::written_be(ay as int, 2)),
        crate::bytes::stands_in(d, 4, crate::bytes::written_be(az as int, 2)),
        crate::bytes::stands_in(d, 6, crate::bytes::written_be(t as int, 2)),
        crate::bytes::stands_in(d, 8, crate::bytes::written_be(gx as int, 2)),
        crate::bytes::stands_in(d, 10, crate::bytes::written_be(gy as int, 2)),
        crate::bytes::stands_in(d, 12, crate::bytes::written_be(gz as int, 2)),
    ensures
        s.accel@ == seq![ax, ay, az],
        s.gyro@ == seq![gx, gy, gz],
        -340_000 < 132_480 * t + 519_348_096 - 340_000 * s.temp < 340_000,
        s.orientation == o,
{
    crate::bytes::law_two_bytes_read_back(d, 0, ax as int);
    crate::bytes::law_two_bytes_read_back(d, 2, ay as int);
    crate::bytes::law_two_bytes_read_back(d, 4, az as int);
    crate::bytes::law_two_bytes_read_back(d, 6, t as int);
    crate::bytes::law_two_bytes_read_back(d, 8, gx as int);
    crate::bytes::law_two_bytes_read_back(d, 10, gy as int);
    crate::bytes::law_two_bytes_read_back(d, 12, gz as int);
}

} // verus!
