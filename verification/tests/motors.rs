//! DShot frames, telemetry and both output drivers.

use fc_rusty::drivers::dshot;
use fc_rusty::drivers::dshot_bb_decode::{
    bit_times, decode, decode_word, gcr_quintets_to_word, parse_rx_samples, rx_samples_readable, BbTelemetry, GCR_BITS,
    OVERSAMPLE, RX_BUF_LEN,
};
use fc_rusty::drivers::dshot_bb_frame::{
    output_data_clear, output_data_init, output_data_set, BB_BUF_LEN,
};
use fc_rusty::drivers::dshot_bitbang::{
    active_mask, active_pins, idle_word, is_active, is_remapped, motor_pins, parse_mapping,
    probe_line, DshotBitbang, ExchangeStep, MappingError, RX_ARR, TX_ARR,
};
use fc_rusty::drivers::dshot_diag;
use fc_rusty::drivers::dshot_frame::{DshotCommand, DshotFrame, DshotSpeed};
use fc_rusty::drivers::dshot_hw;
use fc_rusty::drivers::dshot_hw::{DeadtimeError, DshotQuad, TelemetryResult, TimerStep};
use fc_rusty::drivers::throttle::{off, scale};
use fc_rusty::drivers::dshot_telemetry::{
    decode_gcr_symbols, decode_response, parse_data_12, period_to_rpm, telemetry_crc,
    TelemetryError, TelemetryFrame,
};

// ---- Timer-ratio frames ----

#[test]
fn test_disarmed_frame() {
    let frame = dshot::DshotFrame::disarmed();
    assert_eq!(frame.raw, 0x0000);
}

#[test]
fn test_crc_calculation() {
    let frame = dshot::DshotFrame::from_throttle(1046, false);
    let crc = frame.raw & 0x0F;
    let value_check = frame.raw >> 4;
    let expected_crc = (value_check ^ (value_check >> 4) ^ (value_check >> 8)) & 0x0F;
    assert_eq!(crc, expected_crc);
}

#[test]
fn test_telemetry_bit() {
    let no_telem = dshot::DshotFrame::from_throttle(100, false);
    let with_telem = dshot::DshotFrame::from_throttle(100, true);
    let no_telem_bit = (no_telem.raw >> 4) & 1;
    let with_telem_bit = (with_telem.raw >> 4) & 1;
    assert_eq!(no_telem_bit, 0);
    assert_eq!(with_telem_bit, 1);
}

#[test]
fn test_dma_buffer_generation() {
    let frame = dshot::DshotFrame::from_throttle(2047, false);
    let t1h = 105u16;
    let t0h = 52u16;
    let mut buf = [0u16; 18];
    frame.fill_dma_buffer(&mut buf, t1h, t0h);

    assert_eq!(buf[16], 0);
    assert_eq!(buf[17], 0);
    for i in 0..16 {
        assert!(
            buf[i] == t1h || buf[i] == t0h,
            "bit {} was {} (expected {} or {})",
            i,
            buf[i],
            t1h,
            t0h
        );
    }
    // 2047 is all ones in eleven bits, and no telemetry is a zero.
    for i in 0..11 {
        assert_eq!(buf[i], t1h);
    }
    assert_eq!(buf[11], t0h);
}

#[test]
fn test_timer_calculations() {
    let clk = 84_000_000u32;

    let period = dshot::DshotSpeed::Dshot600.bit_period_ticks(clk);
    assert_eq!(period, 140);

    let t1h = dshot::DshotSpeed::Dshot600.t1h_ticks(clk);
    assert_eq!(t1h, 105);

    let t0h = dshot::DshotSpeed::Dshot600.t0h_ticks(clk);
    assert_eq!(t0h, 52);
}

#[test]
fn test_normalised_range() {
    let zero = dshot::DshotFrame::from_normalised(0.0f32.to_bits(), false);
    assert_eq!(zero.raw, 0);

    let neg = dshot::DshotFrame::from_normalised((-0.5f32).to_bits(), false);
    assert_eq!(neg.raw, 0);

    let full = dshot::DshotFrame::from_normalised(1.0f32.to_bits(), false);
    let throttle = (full.raw >> 5) & 0x7FF;
    assert_eq!(throttle, 2047);

    let min = dshot::DshotFrame::from_normalised(0.001f32.to_bits(), false);
    let throttle = (min.raw >> 5) & 0x7FF;
    assert!(throttle >= 48 && throttle <= 50);
}

#[test]
fn small_outputs_give_exact_steps() {
    for (value, steps) in [(0.001f32, 49), (0.5, 1047), (0.9999, 2046)] {
        let f = dshot::DshotFrame::from_normalised(value.to_bits(), true);
        assert_eq!(f.raw >> 5, steps);
        assert_eq!((f.raw >> 4) & 1, 1);
    }
}

// ---- Frames ----

#[test]
fn motor_stop_standard() {
    let f = DshotFrame::motor_stop(false);
    assert_eq!(f.raw, 0x0000);
    assert_eq!(f.crc(), 0);
}

#[test]
fn motor_stop_bidir() {
    let f = DshotFrame::motor_stop(true);
    assert_eq!(f.raw, 0x001E);
    assert_eq!(f.crc(), 0xE);
}

#[test]
fn throttle_standard_crc() {
    let f = DshotFrame::throttle(200, false);
    assert_eq!(f.data_12(), 0x1F0);
    assert_eq!(f.crc(), 0xE);
}

#[test]
fn throttle_bidir_crc_is_inverted() {
    let f = DshotFrame::throttle(200, true);
    assert_eq!(f.data_12(), 0x1F1);
    assert_eq!(f.crc(), 0x0);
}

#[test]
fn throttle_clamps_to_max() {
    let f = DshotFrame::throttle(10_000, false);
    let value_11 = f.data_12() >> 1;
    assert_eq!(value_11, 2047);
}

#[test]
fn bits_msb_first_starts_with_msb() {
    let f = DshotFrame { raw: 0xABCD };
    let bits = f.bits_msb_first();
    assert_eq!(bits[0], true);
    assert_eq!(bits[1], false);
    assert_eq!(bits[2], true);
    assert_eq!(bits[15], true);
}

#[test]
fn from_normalised_zero_is_motor_stop() {
    let f = DshotFrame::from_normalised(0.0f32.to_bits(), true);
    assert_eq!(f.raw, DshotFrame::motor_stop(true).raw);
}

#[test]
fn from_normalised_negative_is_motor_stop() {
    let f = DshotFrame::from_normalised((-1.0f32).to_bits(), true);
    assert_eq!(f.raw, DshotFrame::motor_stop(true).raw);
}

#[test]
fn from_normalised_one_is_max_throttle() {
    let f = DshotFrame::from_normalised(1.0f32.to_bits(), false);
    let value_11 = f.data_12() >> 1;
    assert_eq!(value_11, 2047);
}

#[test]
fn outputs_scale_as_single_precision_does() {
    let mut b: u32 = 0;
    while b < 0xFFFF_0000 {
        let v = f32::from_bits(b);
        assert_eq!(scale(b), (v * 1999.0) as u16, "{v} ({b:#x})");
        b += 0x1_0361;
    }
    for k in 0..2000u32 {
        for d in 0..3u32 {
            let b = (k as f32 / 1999.0).to_bits().wrapping_add(d).wrapping_sub(1);
            let v = f32::from_bits(b);
            assert_eq!(scale(b), (v * 1999.0) as u16, "{v}");
        }
    }
    assert!(off((-0.0f32).to_bits()) && off(f32::NEG_INFINITY.to_bits()));
    assert!(!off(f32::NAN.to_bits()) && !off(1.0e-30f32.to_bits()));
}

#[test]
fn speed_bit_periods() {
    assert_eq!(240_000_000 / DshotSpeed::Dshot600.bitrate_hz(), 400);
    assert_eq!(240_000_000 / DshotSpeed::Dshot300.bitrate_hz(), 800);
    assert_eq!(240_000_000 / DshotSpeed::Dshot150.bitrate_hz(), 1600);
}

#[test]
fn commands_are_below_the_throttle_range() {
    assert_eq!(DshotFrame::command(DshotCommand::MotorStop, false).raw, 0);
    let beacon = DshotFrame::command(DshotCommand::Beacon1, false);
    assert_eq!(beacon.data_12() >> 1, 1);
    let lowest = DshotFrame::throttle(0, false);
    assert_eq!(lowest.data_12() >> 1, 48);
    assert_eq!(DshotFrame::from_raw_value(48, false).raw, lowest.raw);
}

// ---- Bit-banged waveform ----

const M: u16 = 0b1111;

#[test]
fn init_noninverted_asserts_high_then_low() {
    let mut buf = [0u32; BB_BUF_LEN];
    output_data_init(&mut buf, M, false);
    assert_eq!(buf[0], M as u32, "state 0 of bit 0 should set pins high");
    assert_eq!(buf[1], 0, "middle state starts as no-change");
    assert_eq!(buf[2], (M as u32) << 16, "state 2 should reset pins low");
}

#[test]
fn init_inverted_swaps_bsrr_halves() {
    let mut buf = [0u32; BB_BUF_LEN];
    output_data_init(&mut buf, M, true);
    assert_eq!(buf[0], (M as u32) << 16);
    assert_eq!(buf[1], 0);
    assert_eq!(buf[2], M as u32);
}

#[test]
fn init_writes_all_sixteen_symbols() {
    let mut buf = [0u32; BB_BUF_LEN];
    output_data_init(&mut buf, M, true);
    for i in 0..16 {
        assert_eq!(buf[i * 3], (M as u32) << 16, "symbol {} state 0", i);
        assert_eq!(buf[i * 3 + 2], M as u32, "symbol {} state 2", i);
    }
}

#[test]
fn init_hold_states_deassert_then_hold() {
    let mut buf = [0u32; BB_BUF_LEN];
    output_data_init(&mut buf, M, true);
    assert_eq!(buf[48], M as u32, "hold state 0 deasserts");
    assert_eq!(buf[49], 0, "hold state 1 is no-change");
    assert_eq!(buf[50], 0, "hold state 2 is no-change");
}

#[test]
fn set_all_ones_leaves_middles_untouched() {
    let mut buf = [0u32; BB_BUF_LEN];
    output_data_init(&mut buf, M, true);
    output_data_set(&mut buf, 0, 0xFFFF, true);
    for i in 0..16 {
        assert_eq!(buf[i * 3 + 1], 0, "a '1' bit never deasserts early");
    }
}

#[test]
fn set_all_zeros_deasserts_every_middle() {
    let mut buf = [0u32; BB_BUF_LEN];
    output_data_init(&mut buf, M, true);
    output_data_set(&mut buf, 2, 0x0000, true);
    for i in 0..16 {
        assert_eq!(buf[i * 3 + 1], 1 << 2, "a '0' bit deasserts at 1/3");
    }
}

#[test]
fn set_is_msb_first() {
    let mut buf = [0u32; BB_BUF_LEN];
    output_data_init(&mut buf, M, true);
    output_data_set(&mut buf, 1, 0x8000, true);
    assert_eq!(buf[1], 0, "bit 0 (MSB) is 1, middle untouched");
    for i in 1..16 {
        assert_eq!(buf[i * 3 + 1], 1 << 1, "bits 1..15 are 0, deassert");
    }
}

#[test]
fn two_pins_share_one_buffer_without_interfering() {
    let mut buf = [0u32; BB_BUF_LEN];
    output_data_init(&mut buf, M, true);
    output_data_set(&mut buf, 0, 0x0000, true);
    output_data_set(&mut buf, 3, 0xFFFF, true);
    for i in 0..16 {
        assert_eq!(buf[i * 3 + 1], 1 << 0, "only PA0 deasserts early");
    }
}

#[test]
fn clear_resets_only_middles() {
    let mut buf = [0u32; BB_BUF_LEN];
    output_data_init(&mut buf, M, true);
    output_data_set(&mut buf, 0, 0x0000, true);
    output_data_clear(&mut buf);
    for i in 0..16 {
        assert_eq!(buf[i * 3 + 1], 0, "middle cleared");
        assert_eq!(buf[i * 3], (M as u32) << 16, "state 0 preserved");
        assert_eq!(buf[i * 3 + 2], M as u32, "state 2 preserved");
    }
}

// ---- Sampled replies ----

const GCR_ENCODE_TABLE: [u8; 16] = [
    0x19, 0x1B, 0x12, 0x13, 0x1D, 0x15, 0x16, 0x17, 0x1A, 0x09, 0x0A, 0x0B, 0x1E, 0x0D, 0x0E, 0x0F,
];

/// The line levels of a reply, most significant first.
fn gcr_from_payload(word: u16) -> u32 {
    let mut quintets: u32 = 0;
    for i in 0..4 {
        let nibble = ((word >> (12 - i * 4)) & 0xF) as usize;
        quintets = (quintets << 5) | GCR_ENCODE_TABLE[nibble] as u32;
    }
    let logical: u32 = quintets | (1 << 20);
    let mut level = 1u32;
    let mut out: u32 = 0;
    for bit in (0..GCR_BITS as u32).rev() {
        let b = (logical >> bit) & 1;
        level ^= b;
        out = (out << 1) | level;
    }
    out
}

/// A receive window that holds the line levels on one pin.
fn samples_from_gcr(levels: u32, pin: u8) -> [u16; RX_BUF_LEN] {
    let mut buf = [0xFFFFu16; RX_BUF_LEN];
    let mut idx = 8usize;
    for bit in (0..GCR_BITS).rev() {
        let high = (levels >> bit) & 1 == 1;
        for _ in 0..OVERSAMPLE {
            if idx < RX_BUF_LEN {
                if !high {
                    buf[idx] &= !(1u16 << pin);
                }
                idx += 1;
            }
        }
    }
    buf
}

fn word_with_crc(payload12: u16) -> u16 {
    let mut csum = payload12 ^ (payload12 >> 4) ^ (payload12 >> 8);
    csum = !csum & 0xF;
    (payload12 << 4) | csum
}

#[test]
fn decodes_external_reference_vector() {
    assert_eq!(gcr_quintets_to_word(0x15EA6F), 0xB83F);
}

#[test]
fn empty_line_reports_no_signal() {
    let buf = [0xFFFFu16; RX_BUF_LEN];
    assert_eq!(decode(&buf, 0), BbTelemetry::NoSignal);
}

#[test]
fn round_trips_a_known_erpm_period() {
    let word = word_with_crc(100);
    let buf = samples_from_gcr(gcr_from_payload(word), 0);
    assert_eq!(decode(&buf, 0), BbTelemetry::Erpm { period_us: 100 });
}

#[test]
fn applies_the_exponent() {
    let word = word_with_crc((2 << 9) | 50);
    let buf = samples_from_gcr(gcr_from_payload(word), 0);
    assert_eq!(decode(&buf, 0), BbTelemetry::Erpm { period_us: 200 });
}

#[test]
fn decodes_on_a_pin_other_than_zero() {
    let word = word_with_crc(100);
    let buf = samples_from_gcr(gcr_from_payload(word), 3);
    assert_eq!(decode(&buf, 3), BbTelemetry::Erpm { period_us: 100 });
    assert_eq!(decode(&buf, 1), BbTelemetry::NoSignal);
}

#[test]
fn rejects_a_corrupted_checksum() {
    let word = word_with_crc(100) ^ 0x1;
    let buf = samples_from_gcr(gcr_from_payload(word), 0);
    assert_eq!(decode(&buf, 0), BbTelemetry::InvalidCrc);
}

#[test]
fn all_ones_payload_means_not_spinning() {
    let word = word_with_crc(0x0FFF);
    let buf = samples_from_gcr(gcr_from_payload(word), 0);
    assert_eq!(decode(&buf, 0), BbTelemetry::Erpm { period_us: 0 });
}

/// A port sample buffer from a list of run lengths, the first of them high.
fn samples_from_runs(runs: &[usize], pin: u8) -> [u16; RX_BUF_LEN] {
    let mut buf = [0xFFFFu16; RX_BUF_LEN];
    let mut idx = 0usize;
    let mut high = true;
    for &len in runs {
        for _ in 0..len {
            if idx >= RX_BUF_LEN {
                return buf;
            }
            if !high {
                buf[idx] &= !(1u16 << pin);
            }
            idx += 1;
        }
        high = !high;
    }
    buf
}

/// Healthy captures: first edge at 51, 14-16 transitions.
const HEALTHY: [&[usize]; 3] = [
    &[51, 3, 5, 3, 2, 5, 3, 2, 8, 9, 5, 2, 3, 2, 37],
    &[51, 3, 5, 2, 3, 5, 3, 2, 3, 2, 2, 6, 2, 2, 6, 2, 41],
    &[51, 3, 5, 2, 3, 5, 2, 3, 2, 3, 2, 3, 5, 2, 9, 2, 38],
];

/// Captures of a line that carries no reply: late first edge, few transitions.
const M4_BAD: [&[usize]; 4] = [&[71, 3, 2, 2, 62], &[84, 3, 53], &[99, 1, 40], &[140]];

#[test]
fn healthy_field_captures_decode_to_erpm() {
    for (i, runs) in HEALTHY.iter().enumerate() {
        let buf = samples_from_runs(runs, i as u8);
        let got = decode(&buf, i as u8);
        assert!(
            matches!(got, BbTelemetry::Erpm { .. }),
            "M{} healthy capture should decode to Erpm, got {:?}",
            i + 1,
            got
        );
    }
}

#[test]
fn m4_field_captures_never_decode_to_erpm() {
    for (i, runs) in M4_BAD.iter().enumerate() {
        let buf = samples_from_runs(runs, 3);
        let got = decode(&buf, 3);
        assert!(
            !matches!(got, BbTelemetry::Erpm { .. }),
            "M4 capture {} is noise, must not decode as eRPM, got {:?}",
            i,
            got
        );
    }
}

#[test]
fn decode_is_identical_across_all_four_pins() {
    for runs in HEALTHY.iter().chain(M4_BAD.iter()) {
        let reference = decode(&samples_from_runs(runs, 0), 0);
        for pin in 1..4u8 {
            let got = decode(&samples_from_runs(runs, pin), pin);
            assert_eq!(got, reference, "pin {} differs from pin 0", pin);
        }
    }
}

#[test]
fn four_pins_in_one_buffer_decode_independently() {
    let mut buf = [0xFFFFu16; RX_BUF_LEN];
    for (pin, runs) in HEALTHY.iter().enumerate() {
        let one = samples_from_runs(runs, pin as u8);
        for (dst, src) in buf.iter_mut().zip(one.iter()) {
            *dst &= *src | !(1u16 << pin);
        }
    }
    let bad = samples_from_runs(M4_BAD[0], 3);
    for (dst, src) in buf.iter_mut().zip(bad.iter()) {
        *dst &= *src | !(1u16 << 3);
    }
    for pin in 0..3u8 {
        assert!(
            matches!(decode(&buf, pin), BbTelemetry::Erpm { .. }),
            "pin {} should still decode in the shared buffer",
            pin
        );
    }
    assert!(!matches!(decode(&buf, 3), BbTelemetry::Erpm { .. }));
}

#[test]
fn runs_round_to_bit_times() {
    assert_eq!(bit_times(3), 1);
    assert_eq!(bit_times(4), 1);
    assert_eq!(bit_times(5), 2);
    assert_eq!(bit_times(6), 2);
    assert_eq!(bit_times(9), 3);
}

#[test]
fn words_decode_without_a_line() {
    assert_eq!(decode_word(word_with_crc((3 << 9) | 7)), BbTelemetry::Erpm { period_us: 56 });
    assert_eq!(decode_word(word_with_crc(7) ^ 0x8), BbTelemetry::InvalidCrc);
}

#[test]
fn receive_window_length_falls_back() {
    assert_eq!(parse_rx_samples(None), RX_BUF_LEN);
    assert_eq!(parse_rx_samples(Some("100")), 100);
    assert_eq!(parse_rx_samples(Some("63")), RX_BUF_LEN);
    assert_eq!(parse_rx_samples(Some("64")), 64);
    assert_eq!(parse_rx_samples(Some("400")), 400);
    assert_eq!(parse_rx_samples(Some("")), RX_BUF_LEN);
    assert_eq!(parse_rx_samples(Some("4oo")), RX_BUF_LEN);
    assert_eq!(parse_rx_samples(Some("00000000000000000000000000100")), 100);
    assert_eq!(parse_rx_samples(Some("a hundred samples, more or less")), RX_BUF_LEN);
    assert!(rx_samples_readable(""));
    assert!(rx_samples_readable("00000000000000000000000000100"));
    assert!(rx_samples_readable("a hundred samples, more or less"));
    assert!(rx_samples_readable("100 99999999999999999999999999"));
    assert!(!rx_samples_readable("99999999999999999999999999"));
}

// ---- Telemetry words ----

fn encode_gcr_for_test(payload_16: u16) -> u32 {
    let mut encoded: u32 = 0;
    for i in 0..4 {
        let nibble = ((payload_16 >> (12 - i * 4)) & 0x0F) as usize;
        let chunk = u32::from(GCR_ENCODE_TABLE[nibble]);
        encoded = (encoded << 5) | chunk;
    }
    encoded | (1 << 20)
}

#[test]
fn gcr_decode_reference_vector() {
    assert_eq!(decode_gcr_symbols(0x15EA6F), Some(0xB83F));
}

#[test]
fn gcr_roundtrip_known_values() {
    for &payload in &[0xB83F, 0xAAAA, 0x5555, 0x1234, 0xFEDC, 0xFFFF, 0x0000] {
        let gcr = encode_gcr_for_test(payload);
        assert_eq!(decode_gcr_symbols(gcr), Some(payload));
    }
}

#[test]
fn gcr_rejects_invalid_symbols() {
    let invalid = encode_gcr_for_test(0xB83F) & !0x1F;
    assert_eq!(decode_gcr_symbols(invalid), None);
    assert_eq!(decode_response(invalid), Err(TelemetryError::InvalidGcrSymbol));
}

#[test]
fn telemetry_crc_motor_stop_bidir() {
    assert_eq!(telemetry_crc(0x001), 0x0E);
}

#[test]
fn parse_erpm_simple() {
    let frame = parse_data_12(0x100).unwrap();
    assert_eq!(frame, TelemetryFrame::ErpmPeriod(256));
}

#[test]
fn parse_erpm_with_exponent() {
    let data_12 = (2 << 9) | 257;
    let frame = parse_data_12(data_12).unwrap();
    assert_eq!(frame, TelemetryFrame::ErpmPeriod(1028));
}

#[test]
fn parse_erpm_out_of_range_sentinel() {
    assert_eq!(parse_data_12(0x0FFF).unwrap(), TelemetryFrame::ErpmPeriod(0));
}

#[test]
fn parse_temperature_extended() {
    let frame = parse_data_12(0x0219).unwrap();
    assert_eq!(frame, TelemetryFrame::Temperature(25));
}

#[test]
fn parse_voltage_extended() {
    let frame = parse_data_12(0x042A).unwrap();
    assert_eq!(frame, TelemetryFrame::Voltage(42));
}

#[test]
fn period_to_rpm_sanity() {
    let rpm = period_to_rpm(1000, 7);
    assert!(rpm > 8400 && rpm < 8700, "got {rpm}");
}

#[test]
fn period_to_rpm_zero_period() {
    assert_eq!(period_to_rpm(0, 7), 0);
}

#[test]
fn decode_response_end_to_end() {
    let raw_16 = 0x123F;
    let gcr = encode_gcr_for_test(raw_16);
    let frame = decode_response(gcr).unwrap();
    assert_eq!(frame, TelemetryFrame::ErpmPeriod(291));
}

#[test]
fn decode_response_bad_crc() {
    let gcr = encode_gcr_for_test(0x1230);
    match decode_response(gcr) {
        Err(TelemetryError::InvalidCrc { calculated, packet }) => {
            assert_eq!(calculated, 0x0F);
            assert_eq!(packet, 0x00);
        }
        other => panic!("expected InvalidCrc, got {:?}", other),
    }
}

// ---- Bit-banged output ----

#[test]
fn mapping_errors_are_told_apart() {
    assert_eq!(parse_mapping(None, None), Ok([Some(0), Some(1), Some(2), Some(3)]));
    assert_eq!(parse_mapping(Some("4321"), None), Ok([Some(3), Some(2), Some(1), Some(0)]));
    assert_eq!(parse_mapping(Some("0300"), None), Ok([None, Some(2), None, None]));
    assert_eq!(parse_mapping(None, Some("2")), Ok([None, Some(1), None, None]));
    assert_eq!(parse_mapping(Some("1234"), Some("1")), Err(MappingError::BothSet));
    assert_eq!(parse_mapping(None, Some("5")), Err(MappingError::OnlyMotor));
    assert_eq!(parse_mapping(Some("123"), None), Err(MappingError::OrderLength));
    assert_eq!(parse_mapping(Some("1294"), None), Err(MappingError::OrderDigit));
    assert_eq!(parse_mapping(Some("1123"), None), Err(MappingError::OrderRepeated));
    assert_eq!(parse_mapping(Some("0000"), None), Err(MappingError::OrderEmpty));
}

#[test]
fn mapping_decides_what_is_driven() {
    let pads = parse_mapping(Some("0300"), None).unwrap();
    assert!(is_active(&pads, 1));
    assert!(!is_active(&pads, 0));
    assert_eq!(active_pins(&pads), vec![2]);
    assert_eq!(active_mask(&pads), 0b0100);
    assert!(is_remapped(&pads));
    assert_eq!(idle_word(&pads, true), 0b0100);
    assert_eq!(idle_word(&pads, false), 0b0100 << 16);
    let plain = parse_mapping(None, None).unwrap();
    assert!(!is_remapped(&plain));
    assert_eq!(motor_pins(&plain), [0, 1, 2, 3]);
}

#[test]
fn each_motor_gets_its_own_frame_and_reply() {
    let pads = parse_mapping(Some("4321"), None).unwrap();
    let mut out = DshotBitbang::new(pads, true);
    let mut buf = [0u32; BB_BUF_LEN];
    let frames = [
        DshotFrame { raw: 0x0000 },
        DshotFrame { raw: 0xFFFF },
        DshotFrame { raw: 0xFFFF },
        DshotFrame { raw: 0xFFFF },
    ];
    out.send(&mut buf, frames);
    assert_eq!(out.frame_count, 1);
    for i in 0..16 {
        assert_eq!(buf[i * 3 + 1], 1 << 3, "motor 1 is on the last pad");
    }
    let samples = samples_from_gcr(gcr_from_payload(word_with_crc(100)), 3);
    let replies = out.decode_replies(&samples);
    assert_eq!(replies[0], BbTelemetry::Erpm { period_us: 100 });
    assert_eq!(replies[1], BbTelemetry::NoSignal);
}

#[test]
fn an_exchange_listens_only_while_pads_are_inputs() {
    let pads = parse_mapping(None, None).unwrap();
    let out = DshotBitbang::new(pads, true);
    let mut step = ExchangeStep::Transmit;
    let mut seen = vec![step];
    while step != ExchangeStep::Done {
        step = out.next_step(step);
        seen.push(step);
    }
    assert_eq!(
        seen,
        vec![
            ExchangeStep::Transmit,
            ExchangeStep::Release,
            ExchangeStep::Sample { arr: RX_ARR },
            ExchangeStep::RestorePacer { arr: TX_ARR },
            ExchangeStep::DriveIdle { word: 0b1111 },
            ExchangeStep::Drive,
            ExchangeStep::Done,
        ]
    );
}

#[test]
fn probes_report_the_line() {
    let samples = samples_from_runs(M4_BAD[0], 2);
    let probe = probe_line(&samples, 2);
    assert_eq!(probe.runs, vec![71, 3, 2, 2, 62]);
    assert_eq!(probe.low, 5);
    assert_eq!(probe.transitions, 4);
    assert_eq!(probe.first_edge, Some(71));
    assert_eq!(probe.levels, 0b10101);
    assert_eq!(probe_line(&samples, 0).first_edge, None);
}

#[test]
fn probes_are_due_now_and_then() {
    let pads = parse_mapping(None, None).unwrap();
    let mut out = DshotBitbang::new(pads, true);
    out.frame_count = 4000;
    assert!(!out.probe_due());
    out.frame_count = 8000;
    assert!(out.probe_due());
    out.frame_count = 8001;
    assert!(!out.probe_due());
}

// ---- Timer output ----

#[test]
fn deadtime_errors_are_told_apart() {
    assert_eq!(dshot_hw::parse_deadtime_us(None), Ok(80));
    assert_eq!(dshot_hw::parse_deadtime_us(Some("  ")), Ok(80));
    assert_eq!(dshot_hw::parse_deadtime_us(Some(" 120 ")), Ok(120));
    assert_eq!(dshot_hw::parse_deadtime_us(Some("12us")), Err(DeadtimeError::NotDecimal));
    assert_eq!(dshot_hw::parse_deadtime_us(Some("0")), Err(DeadtimeError::Zero));
    assert_eq!(
        dshot_hw::parse_deadtime_us(Some("99999999999999999999")),
        Err(DeadtimeError::TooLarge)
    );
}

#[test]
fn cells_follow_the_bits() {
    let mut buf = [9u32; 18];
    dshot_hw::fill_buffer(&mut buf, &DshotFrame { raw: 0x8001 });
    assert_eq!(buf[0], 14);
    assert_eq!(buf[1], 7);
    assert_eq!(buf[15], 14);
    assert_eq!(buf[16], 0);
    assert_eq!(buf[17], 0);
}

/// Edge times of a reply at sixteen ticks per bit, and how many there are.
fn edges_of(word: u16) -> ([u32; 22], usize) {
    let levels = gcr_from_payload(word);
    let mut stamps = [0u32; 22];
    let mut n = 0usize;
    let mut level = 1;
    for k in 0..21u32 {
        let l = (levels >> (20 - k)) & 1;
        if l != level {
            stamps[n] = 1000 + 16 * k;
            n += 1;
            level = l;
        }
    }
    (stamps, n)
}

#[test]
fn captured_edges_decode_to_a_period() {
    let (stamps, n) = edges_of(word_with_crc(100));
    assert_eq!(
        dshot_hw::decode_telemetry(&stamps, n),
        TelemetryResult::Erpm { period_us: 100 }
    );
    let (bad, m) = edges_of(word_with_crc(100) ^ 1);
    assert_eq!(dshot_hw::decode_telemetry(&bad, m), TelemetryResult::InvalidCrc);
    assert_eq!(dshot_hw::decode_telemetry(&stamps, 3), TelemetryResult::NoEdge);
    let still = [0u32; 22];
    assert_eq!(dshot_hw::decode_telemetry(&still, 10), TelemetryResult::InvalidGcr);
}

#[test]
fn a_bidirectional_frame_leaves_the_channels_inputs() {
    let empty = [0u32; 22];
    let mut quad = DshotQuad::new(true);
    assert!(!quad.begin().switch_to_output);
    assert!(quad.receive_plan().listen);
    let (stamps, n) = edges_of(word_with_crc(100));
    let (out, _) = quad.finish([22 - n as u32, 22, 22, 22], &stamps, &empty, &empty, &empty);
    assert_eq!(out[0], TelemetryResult::Erpm { period_us: 100 });
    assert_eq!(out[1], TelemetryResult::NoEdge);
    assert!(quad.begin().switch_to_output);

    let mut plain = DshotQuad::new(false);
    plain.begin();
    assert!(!plain.receive_plan().listen);
    let (out, _) = plain.finish([0; 4], &stamps, &stamps, &stamps, &stamps);
    assert_eq!(out, [TelemetryResult::NoEdge; 4]);
    assert!(!plain.begin().switch_to_output);
}

#[test]
fn direction_switches_guard_the_pads() {
    let to_input = dshot_hw::switch_channels_to_input_capture();
    assert_eq!(to_input[0], TimerStep::GuardPads);
    assert_eq!(to_input[to_input.len() - 1], TimerStep::ReleasePads);
    let to_output = dshot_hw::switch_channels_to_output_compare();
    let clears = to_output.iter().filter(|s| **s == TimerStep::ClearCompare).count();
    assert_eq!(clears, 2);
    assert_eq!(dshot_hw::edges_captured(22), 0);
    assert_eq!(dshot_hw::edges_captured(30), 0);
    assert_eq!(dshot_hw::edges_captured(1), 21);
}

// ---- Register diagnostics ----

#[test]
fn register_fields_are_taken_apart() {
    let s = dshot_diag::pin_state(0b10_00, 0b10, 0b11_00, 0b01_00, 0x10, 1);
    assert_eq!((s.mode, s.output_type, s.speed, s.pull, s.alternate), (2, 1, 3, 1, 1));
    assert_eq!(dshot_diag::cache_bits(1 << 17), (true, false));
    assert_eq!(dshot_diag::stream_slot(6), (1, 16));
    let f = dshot_diag::stream_flags(1 << (16 + 3), 2);
    assert!(f.transfer_error && f.failed());
    assert!(!f.transfer_complete);
    assert_eq!(dshot_diag::clear_word(5), 0x3D << 6);
}

#[test]
fn canaries_show_what_changed() {
    let mut buf = [0u16; 6];
    dshot_diag::canary_fill(&mut buf);
    assert_eq!(buf[1], dshot_diag::canary_expected(1));
    assert_eq!(dshot_diag::canary_expected(0), 0xA5A5);
    assert_eq!(dshot_diag::canary_expected(1), 0x5A5A);
    assert_eq!(dshot_diag::canary_check(&buf), 0);
    buf[3] = 0;
    assert_eq!(dshot_diag::canary_check(&buf), 1);
}
