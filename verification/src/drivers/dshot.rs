//! DShot as PWM pulses: a "1" is high for 75 % of the bit period, a "0" for
//! 37.5 %. A timer in PWM mode is fed one compare value per bit.

use crate::drivers::dshot_frame;
use crate::drivers::throttle;
use crate::drivers::throttle::{off, scale};
use vstd::prelude::*;

verus! {

/// DShot speed variants.
#[derive(Debug, Clone, Copy, PartialEq, Eq, Structural)]
pub enum DshotSpeed {
    /// 150 kbit/s, most tolerant of signal quality.
    Dshot150,
    /// 300 kbit/s.
    Dshot300,
    /// 600 kbit/s, fast enough for an 8 kHz loop.
    Dshot600,
}

impl DshotSpeed {
    /// Bits per second for this speed.
    pub open spec fn bits_per_second(self) -> u32 {
        match self {
            DshotSpeed::Dshot150 => 150_000,
            DshotSpeed::Dshot300 => 300_000,
            DshotSpeed::Dshot600 => 600_000,
        }
    }

    /// Timer ticks per bit, in the 16 bits of the reload register.
    pub open spec fn period(self, timer_clock_hz: u32) -> int {
        timer_clock_hz as int / self.bits_per_second() as int % 0x1_0000
    }

    /// Ticks a "1" is high.
    pub open spec fn one_ticks(self, timer_clock_hz: u32) -> int {
        self.period(timer_clock_hz) * 3 / 4
    }

    /// Ticks a "0" is high.
    pub open spec fn zero_ticks(self, timer_clock_hz: u32) -> int {
        self.period(timer_clock_hz) * 3 / 8
    }

    /// Bit rate in bits per second.
    pub fn bitrate(self) -> (bps: u32)
        ensures
            bps == self.bits_per_second(),
    {
        match self {
            DshotSpeed::Dshot150 => 150_000,
            DshotSpeed::Dshot300 => 300_000,
            DshotSpeed::Dshot600 => 600_000,
        }
    }

    /// Bit period in ticks of a timer with the given clock.
    pub fn bit_period_ticks(self, timer_clock_hz: u32) -> (ticks: u16)
        ensures
            ticks == self.period(timer_clock_hz),
    {
        ((timer_clock_hz / self.bitrate()) % 0x1_0000) as u16
    }

    /// Compare value for a "1" bit.
    pub fn t1h_ticks(self, timer_clock_hz: u32) -> (ticks: u16)
        ensures
            ticks == self.period(timer_clock_hz) * 3 / 4,
            ticks == self.one_ticks(timer_clock_hz),
    {
        (self.bit_period_ticks(timer_clock_hz) as u32 * 3 / 4) as u16
    }

    /// Compare value for a "0" bit.
    pub fn t0h_ticks(self, timer_clock_hz: u32) -> (ticks: u16)
        ensures
            ticks == self.period(timer_clock_hz) * 3 / 8,
            ticks == self.zero_ticks(timer_clock_hz),
    {
        (self.bit_period_ticks(timer_clock_hz) as u32 * 3 / 8) as u16
    }
}

/// The 16-bit frame for a throttle value: 11 bits of throttle, the telemetry
/// request, and the nibble XOR of both as CRC.
pub open spec fn throttle_raw(throttle: u16, telemetry: bool) -> int {
    let data = 2 * throttle + if telemetry { 1int } else { 0int };
    16 * data + dshot_frame::nibble_xor(data as u16)
}

/// A raw DShot frame, ready for transmission.
#[derive(Debug, Clone, Copy, PartialEq, Eq, Structural)]
pub struct DshotFrame {
    /// The frame; the most significant bit is transmitted first.
    pub raw: u16,
}

impl DshotFrame {
    /// A throttle value (0-2047): 0 stops the motor, 1-47 are commands,
    /// 48-2047 are motor speeds. `telemetry` asks the ESC for a reply.
    pub fn from_throttle(throttle: u16, telemetry: bool) -> (frame: Self)
        requires
            throttle <= 2047,
        ensures
            frame.raw == throttle_raw(throttle, telemetry),
    {
        let value: u16 = 2 * throttle + if telemetry { 1 } else { 0 };
        let crc: u16 = dshot_frame::nibble_checksum(value);
        DshotFrame { raw: 16 * value + crc }
    }

    /// The disarmed/stop frame.
    pub fn disarmed() -> (frame: Self)
        ensures
            frame.raw == 0,
    {
        let frame: DshotFrame = Self::from_throttle(0, false);
        proof {
            assert(dshot_frame::nibble_xor(0) == 0) by (bit_vector);
        }
        frame
    }

    /// An output of 0 to 1, as a single-precision pattern: 48 just above zero,
    /// 2047 at full output, and the disarmed frame at zero and below.
    pub fn from_normalised(value: u32, telemetry: bool) -> (frame: Self)
        requires
            throttle::steps(value) + 48 <= u16::MAX,
        ensures
            throttle::is_off(value) ==> frame.raw == 0,
            !throttle::is_off(value) ==> frame.raw == throttle_raw(
                (if throttle::steps(value) + 48 <= 2047 {
                    throttle::steps(value) + 48
                } else {
                    2047
                }) as u16,
                telemetry,
            ),
    {
        if off(value) {
            return Self::disarmed();
        }
        let throttle: u16 = scale(value) + 48;
        Self::from_throttle(
            if throttle <= 2047 {
                throttle
            } else {
                2047
            },
            telemetry,
        )
    }

    /// Fills a buffer with one compare value per bit, most significant first,
    /// and zeros after the last bit so the line goes low.
    pub fn fill_dma_buffer(&self, buf: &mut [u16], t1h: u16, t0h: u16)
        requires
            old(buf)@.len() >= 17,
        ensures
            final(buf)@.len() == old(buf)@.len(),
            forall|i: int|
                #![trigger final(buf)@[i]]
                0 <= i < final(buf)@.len() ==> final(buf)@[i] == (if i >= 16 {
                    0
                } else if dshot_frame::bit_set(self.raw, (15 - i) as u16) {
                    t1h
                } else {
                    t0h
                }),
    {
        let n: usize = buf.len();
        let mut i: usize = 0;
        while i < n
            invariant
                i <= n,
                n == buf@.len(),
                n == old(buf)@.len(),
                forall|k: int|
                    #![trigger buf@[k]]
                    0 <= k < i ==> buf@[k] == (if k >= 16 {
                        0
                    } else if dshot_frame::bit_set(self.raw, (15 - k) as u16) {
                        t1h
                    } else {
                        t0h
                    }),
            decreases n - i,
        {
            let cell: u16 = if i >= 16 {
                0
            } else if (self.raw >> ((15 - i) as u16)) & 1 == 1 {
                t1h
            } else {
                t0h
            };
            buf[i] = cell;
            i += 1;
        }
    }
}

/// A "1" is high exactly twice as long as a "0", up to one tick of rounding,
/// and never longer than the bit.
pub proof fn law_pulse_widths(speed: DshotSpeed, timer_clock_hz: u32)
    ensures
        ({
            let period = speed.period(timer_clock_hz);
            let one = period * 3 / 4;
            let zero = period * 3 / 8;
            2 * zero <= one <= 2 * zero + 1 && one <= period
        }),
{
}

/// Without a telemetry bit in bidirectional mode the two encoders agree.
pub proof fn law_same_frame_as_the_plain_encoder(throttle: u16)
    requires
        throttle <= 2047,
    ensures
        throttle_raw(throttle, false) == dshot_frame::frame_raw(throttle, false),
{
}

/// A "1" is high for 75 % of the bit and a "0" for 37.5 %, short of a tick.
pub proof fn law_duty_cycles(speed: DshotSpeed, timer_clock_hz: u32)
    ensures
        ({
            let period = speed.period(timer_clock_hz);
            let one = speed.one_ticks(timer_clock_hz);
            let zero = speed.zero_ticks(timer_clock_hz);
            &&& 1000 * one <= 750 * period < 1000 * (one + 1)
            &&& 1000 * zero <= 375 * period < 1000 * (zero + 1)
        }),
{
}

/// As many bits of a period each fit into a second as the name of the speed says, and
/// with a tick more they would not, for a clock that 16 bits can divide.
pub proof fn law_period_is_the_bit_rate(timer_clock_hz: u32)
    requires
        timer_clock_hz < 0x1_0000 * 150_000,
    ensures
        150_000 * DshotSpeed::Dshot150.period(timer_clock_hz) <= timer_clock_hz < 150_000 * (
        DshotSpeed::Dshot150.period(timer_clock_hz) + 1),
        300_000 * DshotSpeed::Dshot300.period(timer_clock_hz) <= timer_clock_hz < 300_000 * (
        DshotSpeed::Dshot300.period(timer_clock_hz) + 1),
        600_000 * DshotSpeed::Dshot600.period(timer_clock_hz) <= timer_clock_hz < 600_000 * (
        DshotSpeed::Dshot600.period(timer_clock_hz) + 1),
{
    let c = timer_clock_hz as int;
    let (a, b, d) = (c / 150_000, c / 300_000, c / 600_000);
    assert(0 <= a < 0x1_0000 && 0 <= b < 0x1_0000 && 0 <= d < 0x1_0000);
    assert(a % 0x1_0000 == a && b % 0x1_0000 == b && d % 0x1_0000 == d);
    assert(DshotSpeed::Dshot150.period(timer_clock_hz) == a);
    assert(DshotSpeed::Dshot300.period(timer_clock_hz) == b);
    assert(DshotSpeed::Dshot600.period(timer_clock_hz) == d);
}

/// A receiver finds the throttle in the upper eleven bits, the telemetry request in the
/// next, and nibbles that cancel.
pub proof fn law_nibbles_cancel(throttle: u16, telemetry: bool, raw: u16)
    requires
        throttle <= 2047,
        raw == throttle_raw(throttle, telemetry),
    ensures
        raw / 4096 ^ raw / 256 % 16 ^ raw / 16 % 16 ^ raw % 16 == 0,
        raw / 32 == throttle,
        raw / 16 % 2 == (if telemetry {
            1u16
        } else {
            0u16
        }),
{
    let d = raw / 16;
    let data = 2 * throttle + if telemetry { 1int } else { 0int };
    dshot_frame::lemma_nibble_xor_bound(data as u16);
    assert(d == data);
    assert(d % 16 == raw / 16 % 16 && d / 16 % 16 == raw / 256 % 16 && d / 256 % 16 == raw / 4096);
    dshot_frame::lemma_nibbles_cancel(raw);
}

} // verus!
