//! DShot frame encoder.
//!
//! Frame structure (16 bits, most significant bit first on the wire):
//!
//!   [11-bit value] [1-bit telemetry request] [4-bit CRC]
//!
//! - Value 0          = motor stop
//! - Values 1..47     = ESC commands (only honoured when the motor is stopped)
//! - Values 48..2047  = throttle (2000 steps)
//!
//! The CRC is the XOR of the three nibbles of the first 12 bits. In
//! bidirectional mode the telemetry-request bit is always set and the CRC
//! nibble is complemented.

use crate::drivers::throttle;
use crate::drivers::throttle::{off, scale};
use vstd::arithmetic::power2;
use vstd::bits;
use vstd::prelude::*;

verus! {

/// Wire speed of a DShot link.
#[derive(Debug, Clone, Copy, PartialEq, Eq, Structural)]
pub enum DshotSpeed {
    Dshot150,
    Dshot300,
    Dshot600,
}

impl DshotSpeed {
    /// Bits per second for this speed.
    pub open spec fn bitrate(self) -> u32 {
        match self {
            DshotSpeed::Dshot150 => 150_000,
            DshotSpeed::Dshot300 => 300_000,
            DshotSpeed::Dshot600 => 600_000,
        }
    }

    pub fn bitrate_hz(self) -> (hz: u32)
        ensures
            hz == self.bitrate(),
    {
        match self {
            DshotSpeed::Dshot150 => 150_000,
            DshotSpeed::Dshot300 => 300_000,
            DshotSpeed::Dshot600 => 600_000,
        }
    }
}

/// ESC commands: values below 48, only honoured while the motor is stopped.
#[derive(Debug, Clone, Copy, PartialEq, Eq, Structural)]
pub enum DshotCommand {
    MotorStop,
    Beacon1,
    Beacon2,
    Beacon3,
    Beacon4,
    Beacon5,
    EscInfo,
    SpinDirectionNormal,
    SpinDirectionReversed,
}

impl DshotCommand {
    /// The value field that carries this command.
    pub open spec fn spec_code(self) -> u16 {
        match self {
            DshotCommand::MotorStop => 0,
            DshotCommand::Beacon1 => 1,
            DshotCommand::Beacon2 => 2,
            DshotCommand::Beacon3 => 3,
            DshotCommand::Beacon4 => 4,
            DshotCommand::Beacon5 => 5,
            DshotCommand::EscInfo => 6,
            DshotCommand::SpinDirectionNormal => 20,
            DshotCommand::SpinDirectionReversed => 21,
        }
    }

    /// The value field that carries this command.
    pub fn code(self) -> (code: u16)
        ensures
            code == self.spec_code(),
            code < DSHOT_THROTTLE_OFFSET,
    {
        match self {
            DshotCommand::MotorStop => 0,
            DshotCommand::Beacon1 => 1,
            DshotCommand::Beacon2 => 2,
            DshotCommand::Beacon3 => 3,
            DshotCommand::Beacon4 => 4,
            DshotCommand::Beacon5 => 5,
            DshotCommand::EscInfo => 6,
            DshotCommand::SpinDirectionNormal => 20,
            DshotCommand::SpinDirectionReversed => 21,
        }
    }
}

/// Largest throttle accepted before the DShot offset is added.
pub const THROTTLE_MAX_RAW: u16 = 1999;

/// First value of the throttle range.
pub const DSHOT_THROTTLE_OFFSET: u16 = 48;

/// The value field of a throttle of 0 to 1999; what is larger is clamped.
pub open spec fn throttle_value(raw: int) -> int {
    DSHOT_THROTTLE_OFFSET + if raw <= THROTTLE_MAX_RAW {
        raw
    } else {
        THROTTLE_MAX_RAW as int
    }
}

/// XOR of the three nibbles of a 12-bit data field.
pub open spec fn nibble_xor(data_12: u16) -> u16 {
    (data_12 % 16) ^ (data_12 / 16 % 16) ^ (data_12 / 256 % 16)
}

/// The CRC nibble sent with `data_12`: the nibble XOR, complemented in
/// bidirectional mode.
pub open spec fn frame_crc(data_12: u16, bidir: bool) -> int {
    if bidir {
        15 - nibble_xor(data_12)
    } else {
        nibble_xor(data_12) as int
    }
}

/// The 12-bit data field: the value followed by the telemetry-request bit.
pub open spec fn frame_data(value_11: u16, bidir: bool) -> int {
    2 * value_11 + if bidir { 1int } else { 0int }
}

/// The 16-bit frame that carries `value_11`.
pub open spec fn frame_raw(value_11: u16, bidir: bool) -> int {
    16 * frame_data(value_11, bidir) + frame_crc(frame_data(value_11, bidir) as u16, bidir)
}

/// Whether bit `k` of `x` is set.
pub open spec fn bit_set(x: u16, k: u16) -> bool {
    (x >> k) & 1 == 1
}

proof fn lemma_nibble_xor(d: u16)
    by (bit_vector)
    ensures
        (d ^ (d >> 4) ^ (d >> 8)) & 0x0f == (d % 16) ^ (d / 16 % 16) ^ (d / 256 % 16),
        (d ^ (d >> 4) ^ (d >> 8)) & 0x0f <= 15,
{
}

/// The nibble XOR is itself a nibble.
pub proof fn lemma_nibble_xor_bound(data_12: u16)
    ensures
        nibble_xor(data_12) <= 15,
{
    lemma_nibble_xor(data_12);
}

/// XOR of the three nibbles of `data_12`.
pub fn nibble_checksum(data_12: u16) -> (x: u16)
    ensures
        x == nibble_xor(data_12),
        x <= 15,
{
    proof {
        lemma_nibble_xor(data_12);
    }
    (data_12 ^ (data_12 >> 4) ^ (data_12 >> 8)) & 0x0f
}

/// A raw 16-bit DShot frame, ready to be unpacked onto the wire.
#[derive(Debug, Clone, Copy)]
pub struct DshotFrame {
    pub raw: u16,
}

impl DshotFrame {
    /// Motor stop. In bidirectional mode it still asks for telemetry and
    /// carries the complemented CRC.
    pub fn motor_stop(bidir: bool) -> (frame: Self)
        ensures
            frame.raw == frame_raw(0, bidir),
    {
        Self::encode(DshotCommand::MotorStop.code(), bidir)
    }

    /// An ESC command. Commands are only honoured while the motor is stopped.
    pub fn command(cmd: DshotCommand, bidir: bool) -> (frame: Self)
        ensures
            frame.raw == frame_raw(cmd.spec_code(), bidir),
    {
        Self::encode(cmd.code(), bidir)
    }

    /// Throttle in 0..=1999. Larger values are clamped before the DShot
    /// offset is added.
    pub fn throttle(raw: u16, bidir: bool) -> (frame: Self)
        ensures
            frame.raw == frame_raw(
                (if raw <= THROTTLE_MAX_RAW { raw + DSHOT_THROTTLE_OFFSET } else {
                    THROTTLE_MAX_RAW + DSHOT_THROTTLE_OFFSET
                }) as u16,
                bidir,
            ),
            frame.raw == frame_raw(throttle_value(raw as int) as u16, bidir),
    {
        let clamped: u16 = if raw <= THROTTLE_MAX_RAW {
            raw
        } else {
            THROTTLE_MAX_RAW
        };
        Self::encode(clamped + DSHOT_THROTTLE_OFFSET, bidir)
    }

    /// An output of 0 to 1, as a single-precision pattern. Zero and less stops the
    /// motor.
    pub fn from_normalised(v: u32, bidir: bool) -> (frame: Self)
        ensures
            throttle::is_off(v) ==> frame.raw == frame_raw(0, bidir),
            !throttle::is_off(v) ==> frame.raw == frame_raw(
                (DSHOT_THROTTLE_OFFSET + if throttle::steps(v) <= THROTTLE_MAX_RAW {
                    throttle::steps(v)
                } else {
                    THROTTLE_MAX_RAW as int
                }) as u16,
                bidir,
            ),
            !throttle::is_off(v) ==> frame.raw == frame_raw(
                throttle_value(throttle::steps(v)) as u16,
                bidir,
            ),
    {
        if off(v) {
            return Self::motor_stop(bidir);
        }
        Self::throttle(scale(v), bidir)
    }

    /// A frame with a given 11-bit value field.
    pub fn from_raw_value(value_11: u16, bidir: bool) -> (frame: Self)
        requires
            value_11 <= 2047,
        ensures
            frame.raw == frame_raw(value_11, bidir),
    {
        Self::encode(value_11, bidir)
    }

    fn encode(value_11: u16, bidir: bool) -> (frame: Self)
        requires
            value_11 <= 2047,
        ensures
            frame.raw == frame_raw(value_11, bidir),
    {
        let telemetry_bit: u16 = if bidir {
            1
        } else {
            0
        };
        let data_12: u16 = 2 * value_11 + telemetry_bit;
        let base_crc: u16 = nibble_checksum(data_12);
        let crc: u16 = if bidir {
            15 - base_crc
        } else {
            base_crc
        };
        DshotFrame { raw: 16 * data_12 + crc }
    }

    /// The CRC nibble packed in the frame.
    pub fn crc(&self) -> (crc: u8)
        ensures
            crc == self.raw % 16,
    {
        (self.raw % 16) as u8
    }

    /// The 12-bit data field (value, then the telemetry-request bit).
    pub fn data_12(&self) -> (data: u16)
        ensures
            data == self.raw / 16,
    {
        self.raw / 16
    }

    /// The 16 bits in transmission order: index 0 is the most significant bit.
    pub fn bits_msb_first(&self) -> (bits: [bool; 16])
        ensures
            forall|i: int| 0 <= i < 16 ==> bits[i] == bit_set(self.raw, (15 - i) as u16),
    {
        let mut bits: [bool; 16] = [false; 16];
        let mut i: usize = 0;
        while i < 16
            invariant
                i <= 16,
                forall|j: int| 0 <= j < i ==> bits[j] == bit_set(self.raw, (15 - j) as u16),
            decreases 16 - i,
        {
            bits[i] = ((self.raw >> ((15 - i) as u16)) & 1) == 1;
            i += 1;
        }
        bits
    }
}

/// A frame gives back what was put into it: the value, the telemetry bit and
/// a CRC nibble that matches the data field.
pub proof fn law_frame_fields(value_11: u16, bidir: bool)
    requires
        value_11 <= 2047,
    ensures
        0 <= frame_raw(value_11, bidir) <= u16::MAX,
        frame_raw(value_11, bidir) / 16 == frame_data(value_11, bidir),
        frame_raw(value_11, bidir) / 32 == value_11,
        (frame_raw(value_11, bidir) / 16 % 2 == 1) == bidir,
        frame_raw(value_11, bidir) % 16 == frame_crc(frame_data(value_11, bidir) as u16, bidir),
{
    lemma_nibble_xor(frame_data(value_11, bidir) as u16);
}

/// No two values share a frame, and no bidirectional frame is also a plain one.
pub proof fn law_frames_are_distinct(value_a: u16, bidir_a: bool, value_b: u16, bidir_b: bool)
    requires
        value_a <= 2047,
        value_b <= 2047,
        frame_raw(value_a, bidir_a) == frame_raw(value_b, bidir_b),
    ensures
        value_a == value_b,
        bidir_a == bidir_b,
{
    law_frame_fields(value_a, bidir_a);
    law_frame_fields(value_b, bidir_b);
}

/// The bits sent, read back most significant first, are the frame: every bit
/// of the frame is on the wire once and in order.
pub proof fn law_bits_determine_the_frame(a: u16, b: u16)
    requires
        forall|i: int|
            0 <= i < 16 ==> #[trigger] bit_set(a, (15 - i) as u16) == bit_set(b, (15 - i) as u16),
    ensures
        a == b,
{
    assert forall|k: u16| k < 16 implies bit_set(a, k) == bit_set(b, k) by {
        let i: int = 15 - k;
        assert(bit_set(a, (15 - i) as u16) == bit_set(b, (15 - i) as u16));
    }
    lemma_equal_bits(a, b);
}

proof fn lemma_equal_bits(a: u16, b: u16)
    requires
        forall|k: u16| k < 16 ==> bit_set(a, k) == bit_set(b, k),
    ensures
        a == b,
{
    assert(bit_set(a, 0) == bit_set(b, 0));
    assert(bit_set(a, 1) == bit_set(b, 1));
    assert(bit_set(a, 2) == bit_set(b, 2));
    assert(bit_set(a, 3) == bit_set(b, 3));
    assert(bit_set(a, 4) == bit_set(b, 4));
    assert(bit_set(a, 5) == bit_set(b, 5));
    assert(bit_set(a, 6) == bit_set(b, 6));
    assert(bit_set(a, 7) == bit_set(b, 7));
    assert(bit_set(a, 8) == bit_set(b, 8));
    assert(bit_set(a, 9) == bit_set(b, 9));
    assert(bit_set(a, 10) == bit_set(b, 10));
    assert(bit_set(a, 11) == bit_set(b, 11));
    assert(bit_set(a, 12) == bit_set(b, 12));
    assert(bit_set(a, 13) == bit_set(b, 13));
    assert(bit_set(a, 14) == bit_set(b, 14));
    assert(bit_set(a, 15) == bit_set(b, 15));
    assert(a == b) by (bit_vector)
        requires
            bit_set(a, 0) == bit_set(b, 0),
            bit_set(a, 1) == bit_set(b, 1),
            bit_set(a, 2) == bit_set(b, 2),
            bit_set(a, 3) == bit_set(b, 3),
            bit_set(a, 4) == bit_set(b, 4),
            bit_set(a, 5) == bit_set(b, 5),
            bit_set(a, 6) == bit_set(b, 6),
            bit_set(a, 7) == bit_set(b, 7),
            bit_set(a, 8) == bit_set(b, 8),
            bit_set(a, 9) == bit_set(b, 9),
            bit_set(a, 10) == bit_set(b, 10),
            bit_set(a, 11) == bit_set(b, 11),
            bit_set(a, 12) == bit_set(b, 12),
            bit_set(a, 13) == bit_set(b, 13),
            bit_set(a, 14) == bit_set(b, 14),
            bit_set(a, 15) == bit_set(b, 15),
    ;
}

/// A throttle frame is never mistaken for a command: its value field starts
/// at the throttle offset, every command's ends below it.
pub proof fn law_throttle_is_not_a_command(raw: u16, cmd: DshotCommand, bidir: bool)
    requires
        raw <= THROTTLE_MAX_RAW,
    ensures
        frame_raw((raw + DSHOT_THROTTLE_OFFSET) as u16, bidir) != frame_raw(cmd.spec_code(), bidir),
{
    law_frame_fields((raw + DSHOT_THROTTLE_OFFSET) as u16, bidir);
    law_frame_fields(cmd.spec_code(), bidir);
}

/// A receiver that XORs all four nibbles of a frame gets nothing from a plain frame and
/// all ones from a bidirectional one, and finds the value in the upper eleven bits and
/// the telemetry request in the next.
pub proof fn law_nibbles_cancel(value_11: u16, bidir: bool, raw: u16)
    requires
        value_11 <= 2047,
        raw == frame_raw(value_11, bidir),
    ensures
        raw / 4096 ^ raw / 256 % 16 ^ raw / 16 % 16 ^ raw % 16 == (if bidir {
            15u16
        } else {
            0u16
        }),
        raw / 32 == value_11,
        raw / 16 % 2 == (if bidir {
            1u16
        } else {
            0u16
        }),
{
    law_frame_fields(value_11, bidir);
    let d = raw / 16;
    assert(d == frame_data(value_11, bidir));
    assert(d % 16 == raw / 16 % 16 && d / 16 % 16 == raw / 256 % 16 && d / 256 % 16 == raw / 4096);
    lemma_nibbles_cancel(raw);
}

/// Nibbles of which one is the XOR of the others cancel, and give all ones where it is
/// the complement.
pub proof fn lemma_nibbles_cancel(raw: u16)
    by (bit_vector)
    ensures
        raw % 16 == (raw / 16 % 16) ^ (raw / 256 % 16) ^ (raw / 4096) ==> raw / 4096 ^ raw / 256
            % 16 ^ raw / 16 % 16 ^ raw % 16 == 0,
        raw % 16 == 15 - ((raw / 16 % 16) ^ (raw / 256 % 16) ^ (raw / 4096)) ==> raw / 4096 ^ raw
            / 256 % 16 ^ raw / 16 % 16 ^ raw % 16 == 15,
{
}

/// A throttle starts at 48 and counts up by ones to 2047; more is the same as 1999.
pub proof fn law_throttle_range(raw: int)
    requires
        raw >= 0,
    ensures
        raw <= 1999 ==> throttle_value(raw) == raw + 48,
        raw >= 1999 ==> throttle_value(raw) == 2047,
{
}

/// What stands for which command: the beacons follow motor stop and are followed by the
/// ESC's information; the directions of spin are 20 and 21.
pub proof fn law_command_codes(cmd: DshotCommand)
    ensures
        cmd is MotorStop <==> cmd.spec_code() == 0,
        cmd is Beacon1 <==> cmd.spec_code() == 1,
        cmd is Beacon2 <==> cmd.spec_code() == 2,
        cmd is Beacon3 <==> cmd.spec_code() == 3,
        cmd is Beacon4 <==> cmd.spec_code() == 4,
        cmd is Beacon5 <==> cmd.spec_code() == 5,
        cmd is EscInfo <==> cmd.spec_code() == 6,
        cmd is SpinDirectionNormal <==> cmd.spec_code() == 20,
        cmd is SpinDirectionReversed <==> cmd.spec_code() == 21,
{
}

/// The number in a speed's name is its thousands of bits per second.
pub proof fn law_bit_rates(speed: DshotSpeed)
    ensures
        speed.bitrate() == 1000 * (match speed {
            DshotSpeed::Dshot150 => 150int,
            DshotSpeed::Dshot300 => 300int,
            DshotSpeed::Dshot600 => 600int,
        }),
{
}

/// Bit `k` is the binary digit that weighs two to the `k`.
pub proof fn law_bit_is_the_binary_digit(x: u16, k: u16)
    requires
        k < 16,
    ensures
        bit_set(x, k) <==> x as nat / power2::pow2(k as nat) % 2 == 1,
{
    bits::lemma_u16_shr_is_div(x, k);
    let q = x >> k;
    assert((q & 1 == 1) == (q % 2 == 1)) by (bit_vector);
}

} // verus!
