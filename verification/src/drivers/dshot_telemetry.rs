//! Bidirectional DShot telemetry response decoder.
//!
//! The ESC answers each command frame with 21 bits at 5/4 of the command
//! bit rate. The 20 lowest bits are four 5-bit GCR symbols that decode to
//! four nibbles, a 16-bit word: 12 bits of data and a CRC nibble. The 12-bit
//! data is either an eRPM period (3-bit exponent, 9-bit mantissa) or an
//! extended telemetry field (4-bit type, 8-bit value). Types with the lowest
//! bit set, and type 0, are eRPM.

use crate::drivers::dshot_frame;
use vstd::arithmetic::power2;
use vstd::bits;
use vstd::prelude::*;

verus! {

/// GCR 5-bit to 4-bit decode table. 0xFF marks patterns outside the alphabet.
pub const GCR_DECODE_TABLE: [u8; 32] = [
    0xFF, 0xFF, 0xFF, 0xFF, 0xFF, 0xFF, 0xFF, 0xFF, 0xFF, 0x09, 0x0A, 0x0B, 0xFF, 0x0D, 0x0E, 0x0F,
    0xFF, 0xFF, 0x02, 0x03, 0xFF, 0x05, 0x06, 0x07, 0xFF, 0x00, 0x08, 0x01, 0xFF, 0x04, 0x0C, 0xFF,
];

/// The 5-bit GCR symbol that stands for a nibble.
#[verifier::opaque]
pub open spec fn gcr_symbol(nibble: int) -> int {
    if nibble == 0 { 0x19 }
    else if nibble == 1 { 0x1B }
    else if nibble == 2 { 0x12 }
    else if nibble == 3 { 0x13 }
    else if nibble == 4 { 0x1D }
    else if nibble == 5 { 0x15 }
    else if nibble == 6 { 0x16 }
    else if nibble == 7 { 0x17 }
    else if nibble == 8 { 0x1A }
    else if nibble == 9 { 0x09 }
    else if nibble == 10 { 0x0A }
    else if nibble == 11 { 0x0B }
    else if nibble == 12 { 0x1E }
    else if nibble == 13 { 0x0D }
    else if nibble == 14 { 0x0E }
    else { 0x0F }
}

/// The 20 GCR bits that carry a 16-bit word, most significant nibble first.
pub open spec fn gcr_encode(word: u16) -> int {
    gcr_symbol(word as int / 4096) * 32768 + gcr_symbol(word as int / 256 % 16) * 1024 + gcr_symbol(
        word as int / 16 % 16,
    ) * 32 + gcr_symbol(word as int % 16)
}

/// The nibble a 5-bit symbol stands for, `None` outside the alphabet.
#[verifier::opaque]
pub open spec fn gcr_nibble(symbol: int) -> Option<int> {
    if 0 <= symbol < 32 && GCR_DECODE_TABLE[symbol] != 0xFF {
        Some(GCR_DECODE_TABLE[symbol] as int)
    } else {
        None
    }
}

/// The word carried by the low 20 bits of a response, if all four symbols are
/// in the alphabet.
pub open spec fn gcr_word(raw_21: u32) -> Option<u16> {
    let a = gcr_nibble(raw_21 as int / 32768 % 32);
    let b = gcr_nibble(raw_21 as int / 1024 % 32);
    let c = gcr_nibble(raw_21 as int / 32 % 32);
    let d = gcr_nibble(raw_21 as int % 32);
    if a is Some && b is Some && c is Some && d is Some {
        Some((a->0 * 4096 + b->0 * 256 + c->0 * 16 + d->0) as u16)
    } else {
        None
    }
}

/// The decode table inverts the symbol alphabet.
proof fn lemma_table_inverts_symbols()
    ensures
        forall|n: int|
            0 <= n < 16 ==> 0 <= #[trigger] gcr_symbol(n) < 32 && gcr_nibble(gcr_symbol(n)) == Some(
                n,
            ),
        forall|s: int| #[trigger]
            gcr_nibble(s) is Some ==> 0 <= gcr_nibble(s)->0 < 16 && gcr_symbol(gcr_nibble(s)->0) == s,
{
    reveal(gcr_symbol);
    reveal(gcr_nibble);
}

/// The CRC nibble an ESC sends with `data_12`: the complement of the nibble XOR.
pub open spec fn telemetry_checksum(data_12: u16) -> int {
    15 - dshot_frame::nibble_xor(data_12)
}

/// What a 12-bit data field means.
pub open spec fn telemetry_content(data_12: u16) -> Result<TelemetryFrame, TelemetryError> {
    let kind = (data_12 / 256 % 16) as u8;
    let value = (data_12 % 256) as u8;
    if kind == 0 || kind % 2 == 1 {
        let period = (data_12 % 512) * power2::pow2((data_12 / 512 % 8) as nat);
        if data_12 == ERPM_OUT_OF_RANGE {
            Ok(TelemetryFrame::ErpmPeriod(0))
        } else if period == 0 {
            Err(TelemetryError::InvalidErpmPeriod)
        } else {
            Ok(TelemetryFrame::ErpmPeriod(period as u16))
        }
    } else if kind == 2 {
        Ok(TelemetryFrame::Temperature(value))
    } else if kind == 4 {
        Ok(TelemetryFrame::Voltage(value))
    } else if kind == 6 {
        Ok(TelemetryFrame::Current(value))
    } else if kind == 8 {
        Ok(TelemetryFrame::Debug1(value))
    } else if kind == 10 {
        Ok(TelemetryFrame::Debug2(value))
    } else if kind == 12 {
        Ok(TelemetryFrame::Debug3(value))
    } else {
        Ok(TelemetryFrame::StateEvent(value))
    }
}

/// What a captured 21-bit response means: the symbols must be in the alphabet
/// and the CRC nibble must match before the data field is read.
pub open spec fn response_content(raw_21: u32) -> Result<TelemetryFrame, TelemetryError> {
    match gcr_word(raw_21) {
        None => Err(TelemetryError::InvalidGcrSymbol),
        Some(word) => {
            let data_12 = word / 16;
            let packet = (word % 16) as u8;
            if telemetry_checksum(data_12) != packet {
                Err(
                    TelemetryError::InvalidCrc {
                        calculated: telemetry_checksum(data_12) as u8,
                        packet,
                    },
                )
            } else {
                telemetry_content(data_12)
            }
        },
    }
}

pub fn symbol_nibble(symbol: u32) -> (nibble: Option<u16>)
    requires
        symbol < 32,
    ensures
        nibble is Some == gcr_nibble(symbol as int) is Some,
        nibble matches Some(n) ==> n == gcr_nibble(symbol as int)->0 && n < 16,
{
    proof {
        lemma_table_inverts_symbols();
        reveal(gcr_nibble);
    }
    let nibble: u8 = GCR_DECODE_TABLE[symbol as usize];
    if nibble == 0xFF {
        None
    } else {
        Some(nibble as u16)
    }
}

/// Decodes the lower 20 bits of `raw_21` as four GCR symbols into a 16-bit
/// word. Bit 20 is the sync marker and is ignored.
pub fn decode_gcr_symbols(raw_21: u32) -> (word: Option<u16>)
    ensures
        word == gcr_word(raw_21),
{
    let a: u16 = match symbol_nibble(raw_21 / 32768 % 32) {
        Some(n) => n,
        None => return None,
    };
    let b: u16 = match symbol_nibble(raw_21 / 1024 % 32) {
        Some(n) => n,
        None => return None,
    };
    let c: u16 = match symbol_nibble(raw_21 / 32 % 32) {
        Some(n) => n,
        None => return None,
    };
    let d: u16 = match symbol_nibble(raw_21 % 32) {
        Some(n) => n,
        None => return None,
    };
    Some(a * 4096 + b * 256 + c * 16 + d)
}

/// CRC nibble of a telemetry data field.
pub fn telemetry_crc(data_12: u16) -> (crc: u8)
    ensures
        crc == telemetry_checksum(data_12),
{
    15 - dshot_frame::nibble_checksum(data_12) as u8
}

/// A decoded telemetry packet.
#[derive(Debug, Clone, Copy, PartialEq, Eq, Structural)]
pub enum TelemetryFrame {
    /// eRPM period in microseconds. Zero is the out-of-range sentinel.
    ErpmPeriod(u16),
    /// Temperature in degrees Celsius.
    Temperature(u8),
    /// Voltage in 0.25 V units.
    Voltage(u8),
    /// Current in 1 A units.
    Current(u8),
    Debug1(u8),
    Debug2(u8),
    Debug3(u8),
    StateEvent(u8),
    UnknownExtended { type_id: u8, value: u8 },
}

/// Why a response was rejected.
#[derive(Debug, Clone, Copy, PartialEq, Eq, Structural)]
pub enum TelemetryError {
    InvalidGcrSymbol,
    InvalidCrc { calculated: u8, packet: u8 },
    InvalidErpmPeriod,
}

/// Data field an ESC sends when the period is out of range.
pub const ERPM_OUT_OF_RANGE: u16 = 0x0FFF;

/// Decodes a captured response: GCR symbols, CRC, then the data field.
pub fn decode_response(raw_21: u32) -> (frame: Result<TelemetryFrame, TelemetryError>)
    ensures
        frame == response_content(raw_21),
{
    let raw_16: u16 = match decode_gcr_symbols(raw_21) {
        Some(word) => word,
        None => return Err(TelemetryError::InvalidGcrSymbol),
    };
    let data_12: u16 = raw_16 / 16;
    let packet: u8 = (raw_16 % 16) as u8;
    let calculated: u8 = telemetry_crc(data_12);
    if calculated != packet {
        return Err(TelemetryError::InvalidCrc { calculated, packet });
    }
    parse_data_12(data_12)
}

/// Reads a 12-bit data field.
pub fn parse_data_12(data_12: u16) -> (frame: Result<TelemetryFrame, TelemetryError>)
    ensures
        frame == telemetry_content(data_12),
{
    let edt_type: u8 = (data_12 / 256 % 16) as u8;
    if edt_type == 0x00 || edt_type % 2 == 1 {
        if data_12 == ERPM_OUT_OF_RANGE {
            return Ok(TelemetryFrame::ErpmPeriod(0));
        }
        let exponent: u16 = data_12 / 512 % 8;
        let mantissa: u16 = data_12 % 512;
        proof {
            lemma_period_fits(mantissa, exponent);
        }
        let period: u16 = mantissa << exponent;
        if period == 0 {
            return Err(TelemetryError::InvalidErpmPeriod);
        }
        return Ok(TelemetryFrame::ErpmPeriod(period));
    }
    let value: u8 = (data_12 % 256) as u8;
    match edt_type {
        0x02 => Ok(TelemetryFrame::Temperature(value)),
        0x04 => Ok(TelemetryFrame::Voltage(value)),
        0x06 => Ok(TelemetryFrame::Current(value)),
        0x08 => Ok(TelemetryFrame::Debug1(value)),
        0x0A => Ok(TelemetryFrame::Debug2(value)),
        0x0C => Ok(TelemetryFrame::Debug3(value)),
        0x0E => Ok(TelemetryFrame::StateEvent(value)),
        _ => Ok(TelemetryFrame::UnknownExtended { type_id: edt_type, value }),
    }
}

/// Shifting a 9-bit mantissa by a 3-bit exponent stays inside 16 bits.
pub proof fn lemma_period_fits(mantissa: u16, exponent: u16)
    requires
        mantissa < 512,
        exponent < 8,
    ensures
        mantissa << exponent == mantissa * power2::pow2(exponent as nat),
        mantissa * power2::pow2(exponent as nat) <= u16::MAX,
{
    power2::lemma2_to64();
    assert(power2::pow2(exponent as nat) <= 128) by {
        if exponent < 7 {
            power2::lemma_pow2_strictly_increases(exponent as nat, 7);
        }
    }
    assert(mantissa * power2::pow2(exponent as nat) <= 511 * 128) by (nonlinear_arith)
        requires
            mantissa <= 511,
            power2::pow2(exponent as nat) <= 128,
    ;
    bits::lemma_u16_shl_is_mul(mantissa, exponent);
}

/// Mechanical RPM for an eRPM period.
pub open spec fn rpm_of(period_us: u16, pole_pairs: u8) -> int {
    if period_us == 0 || pole_pairs == 0 {
        0
    } else {
        60_000_000int / period_us as int / pole_pairs as int
    }
}

/// Mechanical RPM for an eRPM period, given the motor's pole-pair count.
/// A zero period or a zero pole-pair count reads as standing still.
pub fn period_to_rpm(period_us: u16, pole_pairs: u8) -> (rpm: u32)
    ensures
        rpm == (if period_us == 0 || pole_pairs == 0 {
            0
        } else {
            60_000_000int / period_us as int / pole_pairs as int
        }),
        rpm == rpm_of(period_us, pole_pairs),
{
    if period_us == 0 || pole_pairs == 0 {
        return 0;
    }
    let erpm: u32 = 60_000_000 / (period_us as u32);
    erpm / (pole_pairs as u32)
}

/// Every 16-bit word survives GCR, whatever the bits above the 20 it uses.
pub proof fn law_gcr_round_trip(word: u16, raw_21: u32)
    requires
        raw_21 % 0x10_0000 == gcr_encode(word),
    ensures
        gcr_word(raw_21) == Some(word),
{
    lemma_word_digits(word, raw_21);
}

/// Four 5-bit digits, and four 4-bit digits, are read back by division.
proof fn lemma_digits(raw: u32, a: u32, b: u32, c: u32, d: u32)
    by (bit_vector)
    ensures
        a < 32 && b < 32 && c < 32 && d < 32 && raw % 0x10_0000 == a * 32768 + b * 1024 + c * 32 + d
            ==> raw / 32768 % 32 == a && raw / 1024 % 32 == b && raw / 32 % 32 == c && raw % 32
            == d,
        raw % 0x10_0000 == (raw / 32768 % 32) * 32768 + (raw / 1024 % 32) * 1024 + (raw / 32 % 32)
            * 32 + raw % 32,
        a < 16 && b < 16 && c < 16 && d < 16 && raw == a * 4096 + b * 256 + c * 16 + d ==> raw
            / 4096 == a && raw / 256 % 16 == b && raw / 16 % 16 == c && raw % 16 == d,
        raw < 0x1_0000 ==> raw == (raw / 4096) * 4096 + (raw / 256 % 16) * 256 + (raw / 16 % 16) * 16
            + raw % 16 && raw / 4096 < 16,
{
}

/// A word's encoding uses 20 bits.
pub proof fn lemma_gcr_encode_bound(word: u16)
    ensures
        0 <= gcr_encode(word) < 0x10_0000,
{
    lemma_table_inverts_symbols();
}

/// The symbols of an encoded word read back as the word's nibbles.
pub proof fn lemma_word_digits(word: u16, raw_21: u32)
    requires
        raw_21 % 0x10_0000 == gcr_encode(word),
    ensures
        gcr_nibble(raw_21 as int / 32768 % 32) == Some(word as int / 4096),
        gcr_nibble(raw_21 as int / 1024 % 32) == Some(word as int / 256 % 16),
        gcr_nibble(raw_21 as int / 32 % 32) == Some(word as int / 16 % 16),
        gcr_nibble(raw_21 as int % 32) == Some(word as int % 16),
        word == (word / 4096) * 4096 + (word / 256 % 16) * 256 + (word / 16 % 16) * 16 + word % 16,
{
    lemma_table_inverts_symbols();
    lemma_digits(word as u32, 0, 0, 0, 0);
    lemma_digits(
        raw_21,
        gcr_symbol(word as int / 4096) as u32,
        gcr_symbol(word as int / 256 % 16) as u32,
        gcr_symbol(word as int / 16 % 16) as u32,
        gcr_symbol(word as int % 16) as u32,
    );
}

/// Only one 20-bit pattern decodes to a given word.
pub proof fn law_gcr_is_unambiguous(word: u16, raw_21: u32)
    requires
        gcr_word(raw_21) == Some(word),
    ensures
        raw_21 % 0x10_0000 == gcr_encode(word),
{
    lemma_table_inverts_symbols();
    lemma_digits(raw_21, 0, 0, 0, 0);
    lemma_digits(
        word as u32,
        gcr_nibble(raw_21 as int / 32768 % 32)->0 as u32,
        gcr_nibble(raw_21 as int / 1024 % 32)->0 as u32,
        gcr_nibble(raw_21 as int / 32 % 32)->0 as u32,
        gcr_nibble(raw_21 as int % 32)->0 as u32,
    );
}

/// An ESC that frames a data field with its CRC nibble is always understood:
/// the response means what the data field means.
pub proof fn law_wellformed_response_is_read(data_12: u16, raw_21: u32)
    requires
        data_12 < 4096,
        raw_21 % 0x10_0000 == gcr_encode(
            (16 * data_12 + telemetry_checksum(data_12)) as u16,
        ),
    ensures
        response_content(raw_21) == telemetry_content(data_12),
{
    dshot_frame::lemma_nibble_xor_bound(data_12);
    law_gcr_round_trip((16 * data_12 + telemetry_checksum(data_12)) as u16, raw_21);
}

/// The five bits an ESC sends for a nibble. Most nibbles keep their value, with a
/// bit in front that says whether they are below eight; the five that would leave
/// too few transitions have symbols of their own.
#[verifier::opaque]
pub open spec fn sent_quintet(n: int) -> int {
    if n == 0 {
        0b11001
    } else if n == 1 {
        0b11011
    } else if n == 4 {
        0b11101
    } else if n == 8 {
        0b11010
    } else if n == 12 {
        0b11110
    } else if n < 8 {
        16 + n
    } else {
        n
    }
}

/// The word that four nibbles make, most significant first.
pub open spec fn word_of_nibbles(a: u16, b: u16, c: u16, d: u16) -> u16 {
    (4096 * a + 256 * b + 16 * c + d) as u16
}

/// What a word is sent as.
pub proof fn lemma_sent_word(a: u16, b: u16, c: u16, d: u16)
    requires
        a < 16,
        b < 16,
        c < 16,
        d < 16,
    ensures
        gcr_encode(word_of_nibbles(a, b, c, d)) == 32768 * sent_quintet(a as int) + 1024
            * sent_quintet(b as int) + 32 * sent_quintet(c as int) + sent_quintet(d as int),
        word_of_nibbles(a, b, c, d) / 16 == 256 * a + 16 * b + c,
        word_of_nibbles(a, b, c, d) % 16 == d,
        telemetry_checksum((256 * a + 16 * b + c) as u16) == d <==> a ^ b ^ c ^ d == 15,
        0 <= sent_quintet(a as int) < 32,
        0 <= sent_quintet(b as int) < 32,
        0 <= sent_quintet(c as int) < 32,
        0 <= sent_quintet(d as int) < 32,
{
    reveal(gcr_symbol);
    reveal(sent_quintet);
    let data = (256 * a + 16 * b + c) as u16;
    assert(data % 16 == c && data / 16 % 16 == b && data / 256 % 16 == a);
    assert(a < 16 && b < 16 && c < 16 && d < 16 ==> (c ^ b ^ a) <= 15 && ((a ^ b ^ c ^ d) == 15
        <==> d == 15 - (c ^ b ^ a))) by (bit_vector);
    let w = word_of_nibbles(a, b, c, d) as int;
    assert(w / 4096 == a && w / 256 % 16 == b && w / 16 % 16 == c && w % 16 == d);
}

/// A period that an ESC sends as `m * 2^e` is read as exactly that: the four
/// nibbles of exponent, mantissa and CRC, which together XOR to all ones, in the
/// symbols an ESC uses. A period of nothing is refused, and the largest stands for
/// a motor at rest. Exponents and mantissas whose first nibble is even and not zero
/// are fields of another kind.
pub proof fn law_sent_period_is_read(m: u16, e: u16, crc: u16, raw_21: u32)
    requires
        m < 512,
        e < 8,
        crc < 16,
        m >= 256 || e == 0,
        (2 * e + m / 256) as u16 ^ m / 16 % 16 ^ m % 16 ^ crc == 15,
        raw_21 % 0x10_0000 == 32768 * sent_quintet(2 * e + m / 256) + 1024 * sent_quintet(
            m as int / 16 % 16,
        ) + 32 * sent_quintet(m as int % 16) + sent_quintet(crc as int),
    ensures
        m == 511 && e == 7 ==> response_content(raw_21) == Ok::<TelemetryFrame, TelemetryError>(
            TelemetryFrame::ErpmPeriod(0),
        ),
        m == 0 ==> response_content(raw_21) == Err::<TelemetryFrame, TelemetryError>(
            TelemetryError::InvalidErpmPeriod,
        ),
        m != 0 && !(m == 511 && e == 7) ==> (response_content(raw_21) matches Ok(
            TelemetryFrame::ErpmPeriod(p),
        ) && p == m * power2::pow2(e as nat)),
{
    let a = (2 * e + m / 256) as u16;
    let b = m / 16 % 16;
    let c = m % 16;
    lemma_period_nibbles(m, e);
    lemma_sent_word(a, b, c, crc);
    let word = word_of_nibbles(a, b, c, crc);
    assert(raw_21 % 0x10_0000 == gcr_encode(word));
    law_gcr_round_trip(word, raw_21);
    let data = word / 16;
    assert(data == 512 * e + m);
    assert(telemetry_checksum(data) == word % 16);
    assert(response_content(raw_21) == telemetry_content(data));
    lemma_period_fits(m, e);
    power2::lemma_pow2_pos(e as nat);
    assert(m != 0 ==> m * power2::pow2(e as nat) > 0) by (nonlinear_arith)
        requires
            power2::pow2(e as nat) > 0,
    ;
    assert(data % 512 == m && data / 512 % 8 == e && data / 256 % 16 == a);
    assert(a == 0 || a % 2 == 1 || (m == 0 && e == 0));
    assert(m == 0 ==> m * power2::pow2(e as nat) == 0) by (nonlinear_arith);
}

/// Exponent and mantissa as nibbles.
pub proof fn lemma_period_nibbles(m: u16, e: u16)
    requires
        m < 512,
        e < 8,
    ensures
        2 * e + m / 256 < 16,
        256 * (2 * e + m / 256) + 16 * (m / 16 % 16) + m % 16 == 512 * e + m,
        ((512 * e + m) as u16) % 512 == m,
        ((512 * e + m) as u16) / 512 == e,
        ((512 * e + m) as u16) / 512 % 8 == e,
        ((512 * e + m) as u16) / 256 % 16 == 2 * e + m / 256,
{
    assert(m as int == 256 * (m as int / 256) + 16 * (m as int / 16 % 16) + m as int % 16);
}

/// A byte that an ESC sends under an even type is read as that type's quantity.
pub proof fn law_sent_field_is_read(kind: u16, value: u8, crc: u16, raw_21: u32)
    requires
        2 <= kind <= 14,
        kind % 2 == 0,
        crc < 16,
        kind ^ (value / 16) as u16 ^ (value % 16) as u16 ^ crc == 15,
        raw_21 % 0x10_0000 == 32768 * sent_quintet(kind as int) + 1024 * sent_quintet(
            value as int / 16,
        ) + 32 * sent_quintet(value as int % 16) + sent_quintet(crc as int),
    ensures
        response_content(raw_21) == Ok::<TelemetryFrame, TelemetryError>(
            if kind == 2 {
                TelemetryFrame::Temperature(value)
            } else if kind == 4 {
                TelemetryFrame::Voltage(value)
            } else if kind == 6 {
                TelemetryFrame::Current(value)
            } else if kind == 8 {
                TelemetryFrame::Debug1(value)
            } else if kind == 10 {
                TelemetryFrame::Debug2(value)
            } else if kind == 12 {
                TelemetryFrame::Debug3(value)
            } else {
                TelemetryFrame::StateEvent(value)
            },
        ),
{
    let b = (value / 16) as u16;
    let c = (value % 16) as u16;
    lemma_sent_word(kind, b, c, crc);
    let word = word_of_nibbles(kind, b, c, crc);
    law_gcr_round_trip(word, raw_21);
    let data = (256 * kind + 16 * b + c) as u16;
    assert(word / 16 == data);
    assert(data / 256 % 16 == kind && data % 256 == value);
}

/// Four nibbles that do not XOR to all ones are refused, whatever they are.
pub proof fn law_wrong_checksum_is_refused(a: u16, b: u16, c: u16, d: u16, raw_21: u32)
    requires
        a < 16,
        b < 16,
        c < 16,
        d < 16,
        a ^ b ^ c ^ d != 15,
        raw_21 % 0x10_0000 == 32768 * sent_quintet(a as int) + 1024 * sent_quintet(b as int) + 32
            * sent_quintet(c as int) + sent_quintet(d as int),
    ensures
        response_content(raw_21) matches Err(TelemetryError::InvalidCrc { calculated, packet })
            && packet == d && calculated != d,
{
    lemma_sent_word(a, b, c, d);
    let word = word_of_nibbles(a, b, c, d);
    law_gcr_round_trip(word, raw_21);
    dshot_frame::lemma_nibble_xor_bound(word / 16);
}

/// As many turns fit into a minute as are reported, each of as many electrical ones as
/// the motor has pole pairs, and not one more; without a period or pole pairs, none.
pub proof fn law_turns_in_a_minute(period_us: u16, pole_pairs: u8)
    ensures
        period_us > 0 && pole_pairs > 0 ==> rpm_of(period_us, pole_pairs) * (period_us * pole_pairs)
            <= 60_000_000 < (rpm_of(period_us, pole_pairs) + 1) * (period_us * pole_pairs),
        period_us == 0 || pole_pairs == 0 ==> rpm_of(period_us, pole_pairs) == 0,
{
    if period_us > 0 && pole_pairs > 0 {
        let (p, k) = (period_us as int, pole_pairs as int);
        assert(p * k > 0) by (nonlinear_arith)
            requires
                p > 0,
                k > 0,
        ;
        vstd::arithmetic::div_mod::lemma_div_denominator(60_000_000, p, k);
        let q = 60_000_000int / (p * k);
        vstd::arithmetic::div_mod::lemma_fundamental_div_mod(60_000_000, p * k);
        vstd::arithmetic::div_mod::lemma_mod_bound(60_000_000, p * k);
        assert((p * k) * q == q * (p * k)) by (nonlinear_arith);
        assert((q + 1) * (p * k) == q * (p * k) + p * k) by (nonlinear_arith);
    }
}

} // verus!
