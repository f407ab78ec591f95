//! RC receiver, GPS receivers and the external IMU.

use fc_rusty::drivers::crsf;
use fc_rusty::drivers::crsf::{crc8, CrsfEvent, CrsfParser, RcChannels, SYNC_BYTE};
use fc_rusty::drivers::gps_adapt::ubx_to_nmea;
use fc_rusty::drivers::gps_number::{parse_decimal, Decimal, GpsNumber};
use fc_rusty::drivers::nmea;
use fc_rusty::drivers::nmea::{
    parse_nmea_coord, FixMode, FixQuality, NmeaParser, SentenceType, UPDATED_GGA, UPDATED_GSA,
    UPDATED_RMC, UPDATED_VTG,
};
use fc_rusty::drivers::ubx;
use fc_rusty::drivers::ubx::{
    build_frame, fletcher16, FixType, MsgType, ParserState, UbxParser, SYNC_1, SYNC_2,
};
use fc_rusty::drivers::ubx_config as cfg;
use fc_rusty::drivers::ubx_search;
use fc_rusty::drivers::ubx_search::{
    evidence, rank, setup_steps, BaudSearch, LineError, Probe, ProbeResult, ProbeStats,
    SearchAction, SetupStep, ALT_FACTORY_BAUD, CANDIDATE_BAUDS, CENSUS_WINDOW_MS, FACTORY_BAUD,
    FULL_WINDOW_ATTEMPTS, NAV_RATE_MS, PROBE_WINDOW_MS, TARGET_BAUD,
};
use fc_rusty::drivers::wt901b;
use fc_rusty::drivers::wt901b::{
    write_command, PacketType, Wt901bParser, UNLOCK, UPDATED_ACCEL, UPDATED_GYRO, UPDATED_QUAT,
};
use fc_rusty::drivers::wt901b_config;
use fc_rusty::ratio::Ratio;

fn ratio(r: Ratio) -> f64 {
    r.num as f64 / r.den as f64
}

// ---- CRSF ----

#[test]
fn test_crc8_empty() {
    assert_eq!(crc8(&[]), 0);
}

#[test]
fn test_parser_rejects_bad_sync() {
    let mut parser = CrsfParser::new();
    assert!(parser.push_byte(0x00).is_none());
    assert!(parser.push_byte(0xFF).is_none());
    assert!(parser.push_byte(0x42).is_none());
}

#[test]
fn test_parser_rejects_invalid_length() {
    let mut parser = CrsfParser::new();
    parser.push_byte(SYNC_BYTE);
    assert!(parser.push_byte(0x00).is_none());
    assert!(parser.push_byte(SYNC_BYTE).is_none());
}

/// A complete frame of a type and payload.
fn crsf_frame(frame_type: u8, payload: &[u8]) -> Vec<u8> {
    let mut covered = vec![frame_type];
    covered.extend_from_slice(payload);
    let mut frame = vec![SYNC_BYTE, (payload.len() + 2) as u8];
    frame.extend_from_slice(&covered);
    frame.push(crc8(&covered));
    frame
}

#[test]
fn test_rc_channels_round_trip() {
    let mut payload = [0u8; 22];
    payload[0] = (992 & 0xFF) as u8;
    payload[1] = ((992 >> 8) & 0x07) as u8;

    let frame_type = 0x16u8;
    let frame_length = (1 + 22 + 1) as u8;

    let mut crc_data = [0u8; 23];
    crc_data[0] = frame_type;
    crc_data[1..23].copy_from_slice(&payload);
    let crc = crc8(&crc_data);

    let mut parser = CrsfParser::new();
    assert!(parser.push_byte(SYNC_BYTE).is_none());
    assert!(parser.push_byte(frame_length).is_none());
    assert!(parser.push_byte(frame_type).is_none());
    for &b in &payload {
        assert!(parser.push_byte(b).is_none());
    }
    let event = parser.push_byte(crc);

    match event {
        Some(CrsfEvent::Channels(ch)) => {
            assert_eq!(ch.channels[0], 992);
            assert_eq!(ch.channels[1], 0);
        }
        other => panic!("Expected Channels event, got {:?}", other),
    }
}

#[test]
fn test_normalised_conversion() {
    let centre = ratio(RcChannels::to_normalised(992));
    assert!((centre).abs() < 0.01);

    let min = ratio(RcChannels::to_normalised(172));
    assert!((min + 1.0).abs() < 0.01);

    let max = ratio(RcChannels::to_normalised(1811));
    assert!((max - 1.0).abs() < 0.01);
}

#[test]
fn stick_ends_map_to_microseconds_and_unit() {
    assert_eq!(RcChannels::to_us(172), 988);
    assert_eq!(RcChannels::to_us(992), 1500);
    assert_eq!(RcChannels::to_us(1811), 2012);
    assert_eq!(RcChannels::to_us(0), 880);
    assert_eq!(RcChannels::to_us(171), 987);
    assert_eq!(RcChannels::to_us(1984), 2120);
    assert_eq!(ratio(RcChannels::to_unit(172)), 0.0);
    assert_eq!(ratio(RcChannels::to_unit(1811)), 1.0);
}

#[test]
fn link_statistics_are_signed_where_they_should_be() {
    let frame = crsf_frame(0x14, &[60, 61, 99, 0xF6, 1, 4, 3, 70, 98, 5]);
    match crsf::decode_frame(&frame) {
        Some(CrsfEvent::Link(l)) => {
            assert_eq!(l.uplink_rssi_ant1, 60);
            assert_eq!(l.uplink_link_quality, 99);
            assert_eq!(l.uplink_snr, -10);
            assert_eq!(l.downlink_snr, 5);
        }
        other => panic!("expected Link, got {:?}", other),
    }
}

#[test]
fn all_channels_full_scale() {
    let frame = crsf_frame(0x16, &[0xFF; 22]);
    match crsf::decode_frame(&frame) {
        Some(CrsfEvent::Channels(c)) => assert_eq!(c.channels, [2047; 16]),
        other => panic!("expected Channels, got {:?}", other),
    }
}

#[test]
fn one_corrupt_crsf_byte_silences_the_frame() {
    let good = crsf_frame(0x16, &[0x5A; 22]);
    assert!(crsf::decode_frame(&good).is_some());
    for at in 2..good.len() {
        let mut bad = good.clone();
        bad[at] ^= 0x40;
        assert!(crsf::decode_frame(&bad).is_none(), "byte {}", at);
    }
}

#[test]
fn crsf_frames_follow_each_other() {
    let mut parser = CrsfParser::new();
    for &b in &[0x01u8, 0x02, 0x03] {
        assert!(parser.push_byte(b).is_none());
    }
    let mut events = 0;
    for _ in 0..2 {
        for &b in &crsf_frame(0x14, &[0; 10]) {
            if parser.push_byte(b).is_some() {
                events += 1;
            }
        }
    }
    assert_eq!(events, 2);
}

// ---- Numbers of the GPS sentences ----

fn decimal(d: &Decimal) -> f64 {
    let mut v = 0.0;
    for b in &d.int_digits {
        v = v * 10.0 + *b as f64;
    }
    let mut scale = 0.1;
    for b in &d.frac_digits {
        v += *b as f64 * scale;
        scale /= 10.0;
    }
    if d.negative {
        -v
    } else {
        v
    }
}

fn number(n: &GpsNumber) -> f64 {
    match n {
        GpsNumber::Decimal(d) => decimal(d),
        GpsNumber::Knots(d) => decimal(d) * 0.514444,
        GpsNumber::DegMin { degrees, minutes, negated } => {
            let v = decimal(degrees) + decimal(minutes) / 60.0;
            if *negated {
                -v
            } else {
                v
            }
        }
        GpsNumber::Scaled { raw, decimals } => *raw as f64 / 10f64.powi(*decimals as i32),
        GpsNumber::Heading { north_mms, east_mms } => heading_deg(*north_mms, *east_mms),
    }
}

fn heading_deg(vn: i32, ve: i32) -> f64 {
    let deg = (ve as f64).atan2(vn as f64).to_degrees();
    if deg < 0.0 {
        deg + 360.0
    } else {
        deg
    }
}

// ---- NMEA ----

const GGA: &str = "$GPGGA,123519.00,4807.038,N,01131.000,E,1,08,0.9,545.4,M,47.0,M,,*61\r\n";
const RMC: &str = "$GPRMC,123519.00,A,4807.038,N,01131.000,E,022.4,084.4,230394,,,A*52\r\n";
const VTG: &str = "$GPVTG,054.7,T,034.4,M,005.5,N,010.2,K,A*25\r\n";
const GSA: &str = "$GPGSA,A,3,04,05,09,12,24,25,,,,,,,2.5,1.3,2.1*3E\r\n";

fn feed_sentence(parser: &mut NmeaParser, sentence: &str) -> Option<SentenceType> {
    let mut result = None;
    for &b in sentence.as_bytes() {
        if let Some(t) = parser.push_byte(b) {
            result = Some(t);
        }
    }
    result
}

#[test]
fn test_parse_gga() {
    let mut parser = NmeaParser::new();
    let result = feed_sentence(&mut parser, GGA);

    assert_eq!(result, Some(SentenceType::Gga));
    assert_eq!(parser.data.fix, FixQuality::GpsFix);
    assert_eq!(parser.data.satellites, 8);
    assert!((number(&parser.data.hdop) - 0.9).abs() < 0.01);
    assert!((number(&parser.data.altitude_m) - 545.4).abs() < 0.1);
    assert!((number(&parser.data.latitude) - 48.1173).abs() < 0.001);
    assert!((number(&parser.data.longitude) - 11.51667).abs() < 0.001);
    assert!(parser.data.updated & UPDATED_GGA != 0);
}

#[test]
fn test_parse_rmc() {
    let mut parser = NmeaParser::new();
    let result = feed_sentence(&mut parser, RMC);

    assert_eq!(result, Some(SentenceType::Rmc));
    assert!(parser.data.rmc_valid);
    assert_eq!(parser.data.hour, 12);
    assert_eq!(parser.data.minute, 35);
    assert_eq!(parser.data.second, 19);
    assert!((number(&parser.data.ground_speed_ms) - 11.52).abs() < 0.1);
    assert!((number(&parser.data.course_deg) - 84.4).abs() < 0.1);
    assert!((number(&parser.data.latitude) - 48.1173).abs() < 0.001);
    assert!((number(&parser.data.longitude) - 11.51667).abs() < 0.001);
    assert!(parser.data.updated & UPDATED_RMC != 0);
}

#[test]
fn test_south_west_coordinates() {
    let mut parser = NmeaParser::new();
    let sentence = "$GPGGA,120000.00,2333.000,S,04638.000,W,1,10,1.0,760.0,M,,,,*3A\r\n";
    let result = feed_sentence(&mut parser, sentence);

    assert_eq!(result, Some(SentenceType::Gga));
    let latitude = number(&parser.data.latitude);
    let longitude = number(&parser.data.longitude);
    assert!(latitude < 0.0, "South should be negative");
    assert!(longitude < 0.0, "West should be negative");
    assert!((latitude - (-23.55)).abs() < 0.001);
    assert!((longitude - (-46.6333)).abs() < 0.001);
}

#[test]
fn nmea_test_bad_checksum_rejected() {
    let mut parser = NmeaParser::new();
    let sentence = "$GPGGA,123519.00,4807.038,N,01131.000,E,1,08,0.9,545.4,M,47.0,M,,*FF\r\n";
    let result = feed_sentence(&mut parser, sentence);
    assert_eq!(result, None);
}

#[test]
fn test_gn_talker_id() {
    let mut parser = NmeaParser::new();
    let sentence = "$GNGGA,120000.00,5133.000,N,00007.000,W,1,12,0.8,100.0,M,47.0,M,,*69\r\n";
    let result = feed_sentence(&mut parser, sentence);
    assert_eq!(result, Some(SentenceType::Gga));
    assert_eq!(parser.data.satellites, 12);
}

#[test]
fn test_no_fix() {
    let mut parser = NmeaParser::new();
    let sentence = "$GPGGA,120000.00,,,,,0,00,99.9,,,,,,*5C\r\n";
    let result = feed_sentence(&mut parser, sentence);
    assert_eq!(result, Some(SentenceType::Gga));
    assert_eq!(parser.data.fix, FixQuality::NoFix);
    assert_eq!(parser.data.satellites, 0);
    assert!(!parser.data.has_fix());
}

#[test]
fn test_rmc_void() {
    let mut parser = NmeaParser::new();
    let sentence = "$GPRMC,120000.00,V,,,,,,,230394,,,N*71\r\n";
    let result = feed_sentence(&mut parser, sentence);
    assert_eq!(result, Some(SentenceType::Rmc));
    assert!(!parser.data.rmc_valid);
    assert!(!parser.data.has_fix());
}

#[test]
fn test_sequential_sentences() {
    let mut parser = NmeaParser::new();
    feed_sentence(&mut parser, GGA);
    assert_eq!(parser.data.fix, FixQuality::GpsFix);

    feed_sentence(&mut parser, RMC);
    assert!(parser.data.rmc_valid);
    assert!(parser.data.has_fix());

    assert!(parser.data.updated & UPDATED_GGA != 0);
    assert!(parser.data.updated & UPDATED_RMC != 0);
}

#[test]
fn test_interleaved_garbage() {
    let mut parser = NmeaParser::new();
    for &b in b"\x00\xFF\x55garbage" {
        assert_eq!(parser.push_byte(b), None);
    }
    let result = feed_sentence(&mut parser, GGA);
    assert_eq!(result, Some(SentenceType::Gga));
}

#[test]
fn test_parse_vtg() {
    let mut parser = NmeaParser::new();
    let result = feed_sentence(&mut parser, VTG);

    assert_eq!(result, Some(SentenceType::Vtg));
    assert!((number(&parser.data.course_true_deg) - 54.7).abs() < 0.1);
    assert!((number(&parser.data.course_magnetic_deg) - 34.4).abs() < 0.1);
    assert!((number(&parser.data.ground_speed_ms) - 2.829).abs() < 0.1);
    assert!((number(&parser.data.ground_speed_kmh) - 10.2).abs() < 0.1);
    assert!(parser.data.updated & UPDATED_VTG != 0);
}

#[test]
fn test_parse_vtg_empty_fields() {
    let mut parser = NmeaParser::new();
    let sentence = "$GPVTG,,T,,M,,N,,K,N*2C\r\n";
    let result = feed_sentence(&mut parser, sentence);

    assert_eq!(result, Some(SentenceType::Vtg));
    assert!((number(&parser.data.course_true_deg) - 0.0).abs() < 0.01);
    assert!((number(&parser.data.ground_speed_kmh) - 0.0).abs() < 0.01);
}

#[test]
fn test_parse_gsa() {
    let mut parser = NmeaParser::new();
    let result = feed_sentence(&mut parser, GSA);

    assert_eq!(result, Some(SentenceType::Gsa));
    assert_eq!(parser.data.fix_mode, FixMode::Fix3D);
    assert!((number(&parser.data.pdop) - 2.5).abs() < 0.01);
    assert!((number(&parser.data.hdop) - 1.3).abs() < 0.01);
    assert!((number(&parser.data.vdop) - 2.1).abs() < 0.01);
    assert!(parser.data.updated & UPDATED_GSA != 0);
}

#[test]
fn test_parse_gsa_no_fix() {
    let mut parser = NmeaParser::new();
    let sentence = "$GPGSA,A,1,,,,,,,,,,,,,99.9,99.9,99.9*09\r\n";
    let result = feed_sentence(&mut parser, sentence);

    assert_eq!(result, Some(SentenceType::Gsa));
    assert_eq!(parser.data.fix_mode, FixMode::NoFix);
    assert!((number(&parser.data.pdop) - 99.9).abs() < 0.1);
}

#[test]
fn test_3d_fix_requires_gsa() {
    let mut parser = NmeaParser::new();
    feed_sentence(&mut parser, GGA);
    feed_sentence(&mut parser, RMC);
    assert!(parser.data.has_fix());
    assert!(!parser.data.has_3d_fix());

    feed_sentence(&mut parser, GSA);
    assert!(parser.data.has_3d_fix());
}

#[test]
fn test_vtg_updates_speed() {
    let mut parser = NmeaParser::new();
    feed_sentence(&mut parser, RMC);
    let rmc_speed = number(&parser.data.ground_speed_ms);

    feed_sentence(&mut parser, VTG);
    assert!((number(&parser.data.ground_speed_ms) - 2.829).abs() < 0.1);
    assert!(number(&parser.data.ground_speed_ms) != rmc_speed);
    assert!((number(&parser.data.ground_speed_kmh) - 10.2).abs() < 0.1);
}

#[test]
fn test_parse_nmea_coord() {
    let (deg, min) = parse_nmea_coord(b"4807.038").unwrap();
    assert!((decimal(&deg) + decimal(&min) / 60.0 - 48.1173).abs() < 0.001);
    let (deg, min) = parse_nmea_coord(b"01131.000").unwrap();
    assert!((decimal(&deg) + decimal(&min) / 60.0 - 11.51667).abs() < 0.001);
    assert!(parse_nmea_coord(b"").is_none());
}

#[test]
fn test_parse_f64() {
    assert!((decimal(&parse_decimal(b"123.456").unwrap()) - 123.456).abs() < 0.0001);
    assert!((decimal(&parse_decimal(b"-42.5").unwrap()) - (-42.5)).abs() < 0.0001);
    assert!((decimal(&parse_decimal(b"0.9").unwrap()) - 0.9).abs() < 0.0001);
    assert!((decimal(&parse_decimal(b"100").unwrap()) - 100.0).abs() < 0.0001);
    assert!(parse_decimal(b"").is_none());
}

#[test]
fn update_flags_are_read_once() {
    let mut parser = NmeaParser::new();
    feed_sentence(&mut parser, GGA);
    assert!(parser.data.was_updated(UPDATED_GGA));
    assert!(!parser.data.was_updated(UPDATED_GGA));
}

#[test]
fn a_sentence_of_only_its_name_is_rejected() {
    let mut parser = NmeaParser::new();
    assert_eq!(feed_sentence(&mut parser, "$GPGGA*56\r\n"), None);
    assert_eq!(feed_sentence(&mut parser, GGA), Some(SentenceType::Gga));
}

#[test]
fn an_overlong_sentence_is_dropped_whole() {
    let mut parser = NmeaParser::new();
    let mut long = String::from("$GPGGA,");
    for _ in 0..120 {
        long.push('1');
    }
    long.push_str("*00\r\n");
    assert_eq!(feed_sentence(&mut parser, &long), None);
    assert_eq!(feed_sentence(&mut parser, GGA), Some(SentenceType::Gga));
}

// ---- UBX to NMEA record ----

fn fix3d() -> ubx::GpsData {
    let mut u = ubx::GpsData::new();
    u.fix_type = ubx::FixType::Fix3D;
    u.fix_ok = true;
    u.satellites = 12;
    u.pdop_e2 = 140;
    u
}

#[test]
fn heading_follows_the_ned_convention() {
    let heading = |vn: i32, ve: i32| -> f64 {
        let mut u = fix3d();
        u.vel_n_mms = vn;
        u.vel_e_mms = ve;
        number(&ubx_to_nmea(&u).course_deg)
    };
    assert!((heading(1000, 0) - 0.0).abs() < 1e-3);
    assert!((heading(0, 1000) - 90.0).abs() < 1e-3);
    assert!((heading(-1000, 0) - 180.0).abs() < 1e-3);
    assert!((heading(0, -1000) - 270.0).abs() < 1e-3);
}

#[test]
fn speed_and_course_round_trip_back_to_the_original_velocity() {
    let mut u = fix3d();
    u.vel_n_mms = 3000;
    u.vel_e_mms = -4000;
    u.ground_speed_mms = 5000;

    let g = ubx_to_nmea(&u);
    let crs = number(&g.course_deg).to_radians();
    let vn = number(&g.ground_speed_ms) * crs.cos();
    let ve = number(&g.ground_speed_ms) * crs.sin();
    assert!((vn - 3.0).abs() < 1e-3, "vn={vn}");
    assert!((ve + 4.0).abs() < 1e-3, "ve={ve}");
}

#[test]
fn fix_not_ok_is_reported_as_no_fix() {
    let mut u = fix3d();
    u.fix_ok = false;
    let g = ubx_to_nmea(&u);
    assert_eq!(g.fix_mode, nmea::FixMode::NoFix);
    assert_eq!(g.fix, nmea::FixQuality::NoFix);
    assert!(!g.rmc_valid);
}

#[test]
fn dead_reckoning_is_not_a_position_fix() {
    let mut u = fix3d();
    u.fix_type = ubx::FixType::DeadReckoning;
    assert_eq!(ubx_to_nmea(&u).fix_mode, nmea::FixMode::NoFix);
    u.fix_type = ubx::FixType::TimeOnly;
    assert_eq!(ubx_to_nmea(&u).fix_mode, nmea::FixMode::NoFix);
}

#[test]
fn fix_types_that_are_positions_map_across() {
    let mut u = fix3d();
    assert_eq!(ubx_to_nmea(&u).fix_mode, nmea::FixMode::Fix3D);
    u.fix_type = ubx::FixType::Fix2D;
    assert_eq!(ubx_to_nmea(&u).fix_mode, nmea::FixMode::Fix2D);
    u.fix_type = ubx::FixType::GnssDeadReckoning;
    assert_eq!(ubx_to_nmea(&u).fix_mode, nmea::FixMode::Fix3D);
}

#[test]
fn position_and_dop_carry_through() {
    let mut u = fix3d();
    u.latitude_e7 = 515_074_000;
    u.longitude_e7 = -1_278_000;
    u.altitude_msl_mm = 35_000;
    let g = ubx_to_nmea(&u);
    assert!((number(&g.latitude) - 51.5074).abs() < 1e-9);
    assert!((number(&g.longitude) + 0.1278).abs() < 1e-9);
    assert!((number(&g.altitude_m) - 35.0).abs() < 1e-6);
    assert_eq!(g.satellites, 12);
    assert!((number(&g.hdop) - 1.4).abs() < 1e-6);
}

#[test]
fn a_complete_nav_pvt_marks_every_sentence_present() {
    let g = ubx_to_nmea(&fix3d());
    for bit in [nmea::UPDATED_GGA, nmea::UPDATED_RMC, nmea::UPDATED_VTG, nmea::UPDATED_GSA] {
        assert_ne!(g.updated & bit, 0);
    }
}

#[test]
fn kmh_matches_ms() {
    let mut u = fix3d();
    u.ground_speed_mms = 10_000;
    assert!((number(&ubx_to_nmea(&u).ground_speed_kmh) - 36.0).abs() < 1e-4);
}

// ---- UBX ----

fn make_frame(class: u8, id: u8, payload: &[u8]) -> Vec<u8> {
    let mut buf = vec![0u8; 8 + payload.len()];
    let n = build_frame(&mut buf, class, id, payload);
    buf.truncate(n);
    buf
}

#[test]
fn test_parse_nav_pvt() {
    let mut parser = UbxParser::new();
    let mut payload = [0u8; 92];

    payload[8] = 14;
    payload[9] = 30;
    payload[10] = 45;
    payload[11] = 0x03;

    payload[20] = 3;
    payload[21] = 0x01;
    payload[23] = 12;

    let lon: i32 = 115_000_000;
    payload[24..28].copy_from_slice(&lon.to_le_bytes());
    let lat: i32 = 480_000_000;
    payload[28..32].copy_from_slice(&lat.to_le_bytes());
    let h_msl: i32 = 500_000;
    payload[36..40].copy_from_slice(&h_msl.to_le_bytes());
    let h_acc: u32 = 2500;
    payload[40..44].copy_from_slice(&h_acc.to_le_bytes());
    let vel_n: i32 = 5000;
    payload[48..52].copy_from_slice(&vel_n.to_le_bytes());
    let vel_e: i32 = -3000;
    payload[52..56].copy_from_slice(&vel_e.to_le_bytes());
    let g_speed: i32 = 5831;
    payload[60..64].copy_from_slice(&g_speed.to_le_bytes());
    let head_mot: i32 = 32_904_000;
    payload[64..68].copy_from_slice(&head_mot.to_le_bytes());
    let pdop: u16 = 150;
    payload[76..78].copy_from_slice(&pdop.to_le_bytes());

    let frame = make_frame(0x01, 0x07, &payload);

    let mut result = None;
    for &b in &frame {
        if let Some(t) = parser.push_byte(b) {
            result = Some(t);
        }
    }

    let d = &parser.data;
    assert_eq!(result, Some(MsgType::NavPvt));
    assert!((d.latitude_e7 as f64 * 1e-7 - 48.0).abs() < 0.0001);
    assert!((d.longitude_e7 as f64 * 1e-7 - 11.5).abs() < 0.0001);
    assert!((d.altitude_msl_mm as f64 * 1e-3 - 500.0).abs() < 0.1);
    assert!((d.h_acc_mm as f64 * 1e-3 - 2.5).abs() < 0.01);
    assert!((d.vel_n_mms as f64 * 1e-3 - 5.0).abs() < 0.01);
    assert!((d.vel_e_mms as f64 * 1e-3 - (-3.0)).abs() < 0.01);
    assert!((d.ground_speed_mms as f64 * 1e-3 - 5.831).abs() < 0.01);
    assert_eq!(d.fix_type, FixType::Fix3D);
    assert!(d.fix_ok);
    assert_eq!(d.satellites, 12);
    assert!((d.pdop_e2 as f64 * 1e-2 - 1.5).abs() < 0.01);
    assert_eq!(d.hour, 14);
    assert_eq!(d.minute, 30);
    assert_eq!(d.second, 45);
    assert!(d.time_valid);
    assert!(d.updated);
    assert_eq!(d.heading_motion_e5, 32_904_000);
}

#[test]
fn ubx_test_bad_checksum_rejected() {
    let mut parser = UbxParser::new();
    let mut frame = make_frame(0x01, 0x07, &[0u8; 92]);
    let last = frame.len() - 1;
    frame[last] = frame[last].wrapping_add(1);

    let mut got_msg = false;
    for &b in &frame {
        if parser.push_byte(b).is_some() {
            got_msg = true;
        }
    }
    assert!(!got_msg);
}

#[test]
fn ubx_test_resyncs_after_garbage() {
    let mut parser = UbxParser::new();
    for &b in &[0x12, 0x34, 0xB5, 0x00, 0x56, 0x78] {
        parser.push_byte(b);
    }

    let frame = make_frame(0x01, 0x07, &[0u8; 92]);
    let mut got_msg = false;
    for &b in &frame {
        if parser.push_byte(b).is_some() {
            got_msg = true;
        }
    }
    assert!(got_msg);
}

#[test]
fn test_too_large_payload_rejected() {
    let mut parser = UbxParser::new();
    let bytes = [SYNC_1, SYNC_2, 0x01, 0x07, 0xC8, 0x00];
    for &b in &bytes {
        parser.push_byte(b);
    }
    assert_eq!(parser.state(), ParserState::WaitSync1);
}

#[test]
fn test_fletcher16() {
    let data = [0x01, 0x07, 0x00, 0x00];
    let (a, b) = fletcher16(&data);
    assert_eq!(a, 0x08);
    assert_eq!(b, 0x19);
}

#[test]
fn every_candidate_baud_is_distinct_and_starts_at_the_target() {
    for (i, a) in CANDIDATE_BAUDS.iter().enumerate() {
        for b in CANDIDATE_BAUDS.iter().skip(i + 1) {
            assert_ne!(a, b, "duplicate candidate baud {a}");
        }
    }
    assert_eq!(CANDIDATE_BAUDS[0], TARGET_BAUD);
}

#[test]
fn both_factory_defaults_are_probed() {
    assert!(CANDIDATE_BAUDS.contains(&FACTORY_BAUD), "M8 default missing");
    assert!(CANDIDATE_BAUDS.contains(&ALT_FACTORY_BAUD), "M10 default missing");
    assert_eq!(ALT_FACTORY_BAUD, 38_400);
}

#[test]
fn probe_window_outlasts_an_unconfigured_receivers_burst() {
    assert!(PROBE_WINDOW_MS > 1000, "{PROBE_WINDOW_MS} ms can miss a 1 Hz burst entirely");
}

#[test]
fn worst_case_probe_time_stays_reasonable() {
    let census_ms = CENSUS_WINDOW_MS * CANDIDATE_BAUDS.len() as u64;
    let full_ms = PROBE_WINDOW_MS * FULL_WINDOW_ATTEMPTS as u64;
    let worst_ms = census_ms + full_ms;
    assert!(worst_ms <= 5000, "{worst_ms} ms of probing at boot");
}

#[test]
fn census_pass_is_cheap_enough_to_afford_every_candidate() {
    assert!(
        CENSUS_WINDOW_MS * CANDIDATE_BAUDS.len() as u64 <= PROBE_WINDOW_MS * 2,
        "census sweep is no longer cheap relative to a full window",
    );
    assert!(FULL_WINDOW_ATTEMPTS <= CANDIDATE_BAUDS.len());
}

#[test]
fn the_factory_defaults_are_all_still_candidates() {
    for b in [TARGET_BAUD, FACTORY_BAUD, ALT_FACTORY_BAUD] {
        assert!(CANDIDATE_BAUDS.contains(&b), "{b} baud is no longer probed");
    }
}

#[test]
fn key_ids_declare_the_widths_the_datasheet_gives_them() {
    assert_eq!(cfg::key_value_len(cfg::KEY_RATE_MEAS), 2, "CFG-RATE-MEAS is U2");
    assert_eq!(cfg::key_value_len(cfg::KEY_RATE_NAV), 2, "CFG-RATE-NAV is U2");
    assert_eq!(
        cfg::key_value_len(cfg::KEY_MSGOUT_NAV_PVT_UART1),
        1,
        "CFG-MSGOUT-UBX_NAV_PVT_UART1 is U1",
    );
    assert_eq!(cfg::key_value_len(cfg::KEY_UART1_BAUDRATE), 4, "CFG-UART1-BAUDRATE is U4");
    assert_eq!(cfg::key_value_len(cfg::KEY_UART1_OUTPROT_UBX), 1);
    assert_eq!(cfg::key_value_len(cfg::KEY_UART1_OUTPROT_NMEA), 1);
    assert_eq!(cfg::key_value_len(0x0000_0001), 0);
    assert_eq!(cfg::key_value_len(0x6000_0001), 0);
}

#[test]
fn valset_rate_frame_is_byte_exact() {
    let mut out = [0u8; 64];
    let n = cfg::valset(
        &mut out,
        cfg::LAYER_RAM,
        &[
            (cfg::KEY_RATE_MEAS, NAV_RATE_MS as u64),
            (cfg::KEY_RATE_NAV, 1),
            (cfg::KEY_MSGOUT_NAV_PVT_UART1, 1),
        ],
    );

    let expect: [u8; 29] = [
        0xB5, 0x62, 0x06, 0x8A, 21, 0x00, 0x00, 0x01, 0x00, 0x00, 0x01, 0x00, 0x21, 0x30, 0x64,
        0x00, 0x02, 0x00, 0x21, 0x30, 0x01, 0x00, 0x07, 0x00, 0x91, 0x20, 0x01, 0x00, 0x00,
    ];
    assert_eq!(n, expect.len(), "frame length");

    let (ck_a, ck_b) = fletcher16(&out[2..n - 2]);
    let mut want = expect;
    want[27] = ck_a;
    want[28] = ck_b;
    assert_eq!(&out[..n], &want[..], "frame bytes");
    assert_eq!(NAV_RATE_MS, 100);
}

#[test]
fn valset_truncates_each_value_to_its_keys_width() {
    let mut out = [0u8; 64];
    let n = cfg::valset(
        &mut out,
        cfg::LAYER_RAM,
        &[(cfg::KEY_MSGOUT_NAV_PVT_UART1, 0xFFFF_FFFF_FFFF_FF01)],
    );
    assert_eq!(n, 8 + 4 + 4 + 1, "header + framing + key + one value byte");
    assert_eq!(&out[10..14], &cfg::KEY_MSGOUT_NAV_PVT_UART1.to_le_bytes(), "key");
    assert_eq!(out[14], 0x01, "value truncated to its low byte");

    let n = cfg::valset(&mut out, cfg::LAYER_RAM, &[(cfg::KEY_UART1_BAUDRATE, 115_200)]);
    assert_eq!(n, 8 + 4 + 4 + 4);
    assert_eq!(&out[10..14], &cfg::KEY_UART1_BAUDRATE.to_le_bytes(), "key");
    assert_eq!(&out[14..18], &115_200u32.to_le_bytes(), "value");
}

#[test]
fn valset_refuses_rather_than_emitting_a_bad_frame() {
    let mut out = [0u8; 64];
    assert_eq!(cfg::valset(&mut out, cfg::LAYER_RAM, &[(0x0000_0001, 1)]), 0);
    let mut small = [0u8; 8];
    assert_eq!(cfg::valset(&mut small, cfg::LAYER_RAM, &[(cfg::KEY_RATE_MEAS, 100)]), 0);
}

#[test]
fn valset_frame_is_self_consistent_for_any_pair_list() {
    let cases: [&[(u32, u64)]; 3] = [
        &[(cfg::KEY_RATE_MEAS, 100)],
        &[(cfg::KEY_RATE_MEAS, 100), (cfg::KEY_RATE_NAV, 1)],
        &[
            (cfg::KEY_UART1_BAUDRATE, 115_200),
            (cfg::KEY_UART1_OUTPROT_UBX, 1),
            (cfg::KEY_UART1_OUTPROT_NMEA, 0),
        ],
    ];

    for pairs in cases {
        let mut out = [0u8; 64];
        let n = cfg::valset(&mut out, cfg::LAYER_RAM, pairs);
        assert!(n > 0, "frame failed to build");

        assert_eq!(&out[..2], &[SYNC_1, SYNC_2]);
        assert_eq!(out[2], 0x06, "class");
        assert_eq!(out[3], 0x8A, "id");

        let plen = u16::from_le_bytes([out[4], out[5]]) as usize;
        let want: usize =
            4 + pairs.iter().map(|&(k, _)| 4 + cfg::key_value_len(k)).sum::<usize>();
        assert_eq!(plen, want, "length field disagrees with the payload");
        assert_eq!(n, 6 + plen + 2, "frame length");

        let (ck_a, ck_b) = fletcher16(&out[2..n - 2]);
        assert_eq!((ck_a, ck_b), (out[n - 2], out[n - 1]), "checksum");
    }
}

#[test]
fn layer_is_ram_only() {
    assert_eq!(cfg::LAYER_RAM, 0x01);
    assert_eq!(cfg::LAYER_RAM & 0x04, 0, "flash layer bit must not be set");
}

#[test]
fn cfg_rate_frame_asks_for_ten_hz() {
    let mut out = [0u8; 16];
    let n = cfg::set_nav_rate(&mut out, NAV_RATE_MS, 1);
    assert_eq!(n, 14, "6-byte payload plus 8 bytes of framing");
    assert_eq!(&out[..2], &[SYNC_1, SYNC_2]);
    assert_eq!(out[2], 0x06, "class");
    assert_eq!(out[3], 0x08, "id");
    assert_eq!(&out[4..6], &[6, 0], "payload length, little-endian");
    assert_eq!(&out[6..8], &[0x64, 0x00], "measRate = 100 ms = 10 Hz");
    assert_eq!(&out[8..10], &[0x01, 0x00], "navRate = 1 solution");
    let (a, b) = fletcher16(&out[2..12]);
    assert_eq!((out[12], out[13]), (a, b));
}

#[test]
fn nav_rate_fits_the_configured_link() {
    let bytes_per_s = 100.0 * (1000.0 / NAV_RATE_MS as f32);
    let link_bytes_per_s = TARGET_BAUD as f32 / 10.0;
    assert!(
        bytes_per_s < link_bytes_per_s * 0.5,
        "{bytes_per_s} B/s needs more than half of {link_bytes_per_s} B/s"
    );
}

#[test]
fn test_build_frame() {
    let mut buf = [0u8; 16];
    let n = build_frame(&mut buf, 0x01, 0x07, &[]);
    assert_eq!(n, 8);
    assert_eq!(buf[0], SYNC_1);
    assert_eq!(buf[1], SYNC_2);
    assert_eq!(buf[2], 0x01);
    assert_eq!(buf[3], 0x07);
    assert_eq!(buf[4], 0x00);
    assert_eq!(buf[5], 0x00);
    assert_eq!(buf[6], 0x08);
    assert_eq!(buf[7], 0x19);
}

#[test]
fn poll_and_rate_requests_are_byte_exact() {
    let mut out = [0u8; 16];
    assert_eq!(ubx::poll_msg(&mut out, 0x01, 0x07), 8);
    assert_eq!(&out[..8], &[0xB5, 0x62, 0x01, 0x07, 0x00, 0x00, 0x08, 0x19]);
    assert_eq!(cfg::set_msg_rate(&mut out, 0x01, 0x07, 1), 11);
    assert_eq!(&out[2..9], &[0x06, 0x01, 3, 0, 0x01, 0x07, 1]);
}

#[test]
fn uart_frame_carries_the_baud() {
    let mut out = [0u8; 64];
    let n = cfg::set_uart_baud(&mut out, 115_200);
    assert_eq!(n, 28);
    assert_eq!(&out[2..6], &[0x06, 0x00, 20, 0]);
    assert_eq!(&out[14..18], &115_200u32.to_le_bytes());
}

// ---- Baud search ----

#[test]
fn census_ranks_the_rate_with_evidence_first() {
    assert_eq!(rank(&[0; 6]), [0, 1, 2, 3, 4, 5]);
    assert_eq!(rank(&[0, 5, 9, 5, 0, 0])[0], 2);
    assert_eq!(rank(&[0, 5, 9, 5, 0, 0])[1..4], [1, 3, 0]);
}

#[test]
fn a_silent_line_is_given_up_after_both_passes() {
    let (mut search, first) = BaudSearch::new();
    assert_eq!(first, SearchAction::Listen { baud: 115_200, window_ms: CENSUS_WINDOW_MS });
    let mut windows = 1;
    loop {
        match search.heard(ProbeResult::Silent, 0) {
            SearchAction::Listen { .. } => windows += 1,
            other => {
                assert_eq!(other, SearchAction::NotFound);
                break;
            }
        }
    }
    assert_eq!(windows, CANDIDATE_BAUDS.len() + FULL_WINDOW_ATTEMPTS);
}

#[test]
fn a_receiver_that_answers_ends_the_search() {
    let (mut search, _) = BaudSearch::new();
    search.heard(ProbeResult::Silent, 0);
    assert_eq!(
        search.heard(ProbeResult::Nmea, 40),
        SearchAction::Found { baud: 9600, speaks: ProbeResult::Nmea }
    );
}

#[test]
fn the_full_window_opens_where_the_census_heard_most() {
    let (mut search, _) = BaudSearch::new();
    let mut action = SearchAction::NotFound;
    for at in 0..6 {
        action = search.heard(ProbeResult::Silent, if at == 3 { 50 } else { 0 });
    }
    assert_eq!(action, SearchAction::Listen { baud: 230_400, window_ms: PROBE_WINDOW_MS });
}

#[test]
fn a_probe_recognises_either_protocol() {
    let mut p = Probe::new();
    assert_eq!(p.push_bytes(b"noise"), ProbeResult::Silent);
    assert_eq!(p.push_bytes(GGA.as_bytes()), ProbeResult::Nmea);
    assert_eq!(p.stats.head[..5], b"noise"[..]);
    // A sentence may be cut into several bursts.
    let mut r = Probe::new();
    let (first, second) = GGA.as_bytes().split_at(40);
    assert_eq!(r.push_bytes(first), ProbeResult::Silent);
    assert_eq!(r.push_bytes(second), ProbeResult::Nmea);

    let mut q = Probe::new();
    assert_eq!(q.push_bytes(&make_frame(0x01, 0x07, &[0; 92])), ProbeResult::Ubx);
}

#[test]
fn line_errors_are_counted_by_sort() {
    let mut p = Probe::new();
    p.note_error(LineError::Framing);
    p.note_error(LineError::Framing);
    p.note_error(LineError::Noise);
    p.note_error(LineError::Overrun);
    p.note_error(LineError::Other);
    assert_eq!((p.stats.framing, p.stats.noise, p.stats.overrun, p.stats.other), (2, 1, 1, 1));
    assert_eq!(p.stats.errors(), 5);
    assert_eq!(evidence(&ProbeStats::new()), 0);
}

#[test]
fn setup_moves_a_slow_receiver_to_the_target() {
    let steps = setup_steps(9600);
    assert!(steps.contains(&SetupStep::SetBaud { baud: TARGET_BAUD }));
    for step in steps {
        let mut out = [0u8; 64];
        let n = ubx_search::build_step(step, &mut out);
        match step {
            SetupStep::SetBaud { .. } | SetupStep::Wait { .. } => assert_eq!(n, 0),
            _ => {
                assert!(n > 8);
                assert_eq!(fletcher16(&out[2..n - 2]), (out[n - 2], out[n - 1]));
            }
        }
    }
}

// ---- WT901B ----

fn make_packet(ptype: u8, data: &[u8; 8]) -> [u8; 11] {
    let mut pkt = [0u8; 11];
    pkt[0] = wt901b::SYNC_BYTE;
    pkt[1] = ptype;
    pkt[2..10].copy_from_slice(data);
    let sum: u8 = pkt[..10].iter().fold(0u8, |a, &b| a.wrapping_add(b));
    pkt[10] = sum;
    pkt
}

#[test]
fn test_parse_acceleration() {
    let mut parser = Wt901bParser::new();
    let data = [0x00, 0x00, 0x00, 0x00, 0x00, 0x08, 0x00, 0x00];
    let pkt = make_packet(0x51, &data);

    let mut result = None;
    for &b in &pkt {
        if let Some(t) = parser.push_byte(b) {
            result = Some(t);
        }
    }

    assert_eq!(result, Some(PacketType::Acceleration));
    let accel_z = ratio(parser.data.accel_ms2()[2]);
    assert!((accel_z - 9.8).abs() < 0.1);
    assert!(parser.data.updated & UPDATED_ACCEL != 0);
}

#[test]
fn test_parse_angle() {
    let mut parser = Wt901bParser::new();
    let data = [0x00, 0x20, 0x00, 0x00, 0x00, 0x00, 0x00, 0x00];
    let pkt = make_packet(0x53, &data);
    for &b in &pkt {
        parser.push_byte(b);
    }
    let roll = ratio(parser.data.angle_deg()[0]);
    assert!((roll - 45.0).abs() < 0.1);
}

#[test]
fn test_parse_quaternion() {
    let mut parser = Wt901bParser::new();
    let data = [0x00, 0x40, 0x00, 0x00, 0x00, 0x00, 0x00, 0x00];
    let pkt = make_packet(0x59, &data);
    for &b in &pkt {
        parser.push_byte(b);
    }
    let w = ratio(parser.data.quaternion_unit()[0]);
    assert!((w - 0.5).abs() < 0.01);
    assert!(parser.data.updated & UPDATED_QUAT != 0);
}

#[test]
fn readings_come_in_physical_units() {
    let mut parser = Wt901bParser::new();
    assert_eq!(parser.data.quaternion_unit()[0], Ratio { num: 32768, den: 32768 });
    for &b in &make_packet(0x51, &[0x00, 0x80, 0x00, 0x08, 0x00, 0x00, 0xC4, 0x09]) {
        parser.push_byte(b);
    }
    for &b in &make_packet(0x52, &[0x00, 0x40, 0x00, 0xC0, 0x01, 0x00, 0x00, 0x00]) {
        parser.push_byte(b);
    }
    let a = parser.data.accel_ms2();
    assert_eq!(a[0], Ratio { num: -32768 * 1568, den: 327_680 });
    assert_eq!(ratio(a[1]), 9.8);
    assert_eq!(parser.data.temperature_c(), Ratio { num: 2500, den: 100 });
    let g = parser.data.gyro_dps();
    assert_eq!((ratio(g[0]), ratio(g[1])), (1000.0, -1000.0));
    assert_eq!(g[2], Ratio { num: 2000, den: 32768 });
}

#[test]
fn wt901b_test_bad_checksum_rejected() {
    let mut parser = Wt901bParser::new();
    let mut pkt = make_packet(0x51, &[0; 8]);
    pkt[10] = pkt[10].wrapping_add(1);

    let mut got_packet = false;
    for &b in &pkt {
        if parser.push_byte(b).is_some() {
            got_packet = true;
        }
    }
    assert!(!got_packet);
}

#[test]
fn test_barometer_parsing() {
    let mut parser = Wt901bParser::new();
    let data = [0xCD, 0x8B, 0x01, 0x00, 0xF4, 0x01, 0x00, 0x00];
    let pkt = make_packet(0x56, &data);
    for &b in &pkt {
        parser.push_byte(b);
    }
    assert_eq!(parser.data.pressure, 101325);
    assert_eq!(parser.data.altitude_cm, 500);
}

#[test]
fn wt901b_test_resyncs_after_garbage() {
    let mut parser = Wt901bParser::new();
    for &b in &[0x12, 0x34, 0x56, 0x78, 0x9A] {
        parser.push_byte(b);
    }

    let data = [0x00, 0x00, 0x00, 0x00, 0x00, 0x00, 0x00, 0x00];
    let pkt = make_packet(0x52, &data);
    let mut got_packet = false;
    for &b in &pkt {
        if parser.push_byte(b).is_some() {
            got_packet = true;
        }
    }
    assert!(got_packet);
    assert!(parser.data.was_updated(UPDATED_GYRO));
    assert!(!parser.data.was_updated(UPDATED_GYRO));
}

#[test]
fn test_write_command_format() {
    let cmd = write_command(0x03, 0x000B);
    assert_eq!(cmd, [0xFF, 0xAA, 0x03, 0x0B, 0x00]);
}

#[test]
fn test_unlock_command() {
    assert_eq!(UNLOCK, [0xFF, 0xAA, 0x69, 0x88, 0xB5]);
}

#[test]
fn settings_address_their_registers() {
    assert_eq!(wt901b_config::set_output_rate(0x0B), [0xFF, 0xAA, 0x03, 0x0B, 0x00]);
    assert_eq!(wt901b_config::set_baud_rate(0x06), [0xFF, 0xAA, 0x04, 0x06, 0x00]);
    assert_eq!(wt901b_config::set_output_content(0x021E), [0xFF, 0xAA, 0x02, 0x1E, 0x02]);
    assert_ne!(wt901b_config::set_6axis_mode(), wt901b_config::set_9axis_mode());
    assert_eq!(wt901b_config::set_bandwidth(2)[3], 2);
    assert_eq!(PacketType::from_byte(0x5F), None);
}
