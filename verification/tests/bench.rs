//! Bench builds: motor test, plant capture, solver statistics.

use fc_rusty::drivers::dshot_bb_decode::BbTelemetry;
use fc_rusty::drivers::dshot_frame::DshotFrame;
use fc_rusty::motor_test::{parse_config, percent_frame, profile_sample, profile_step};
use fc_rusty::mpc_bench::{cycles_to_us, scenarios, CycleStats};
use fc_rusty::plant_capture::{
    capacity, cmd_units, command_at, profile, profile_ms, Capture, IDLE_PCT, MAX_PCT, SAMPLE_HZ,
};
use fc_rusty::plant_log::{PlantSample, CMD_SCALE, NO_TELEMETRY};
use fc_rusty::text::{env_bidir_ok, env_u8_ok};
use fc_rusty::usart::baud_divisor;

#[test]
fn defaults_when_all_unset() {
    let c = parse_config([None; 4], None, None, None);
    assert_eq!(c.motor_pct, [5, 5, 5, 5]);
    assert!(c.bidir);
    assert_eq!(c.loop_khz, 8);
}

#[test]
fn explicit_zero_still_stops_motor() {
    let c = parse_config([Some("0"), None, None, None], None, None, None);
    assert_eq!(c.motor_pct[0], 0);
}

#[test]
fn parses_each_motor_independently() {
    let c = parse_config([Some("3"), None, Some("7"), None], None, None, None);
    assert_eq!(c.motor_pct, [3, 5, 7, 5]);
}

#[test]
fn clamps_motor_to_max_pct() {
    let c = parse_config([Some("90"), Some("25"), Some("26"), Some("0")], None, None, None);
    assert_eq!(c.motor_pct, [25, 25, 25, 0]);
}

#[test]
fn bidir_explicit_zero_one_else_default() {
    assert!(!parse_config([None; 4], Some("0"), None, None).bidir);
    assert!(parse_config([None; 4], Some("1"), None, None).bidir);
    assert!(parse_config([None; 4], Some("yes"), None, None).bidir);
}

#[test]
fn profile_is_opt_in_and_only_on_an_exact_one() {
    assert!(!parse_config([None; 4], None, None, None).profile);
    assert!(parse_config([None; 4], None, None, Some("1")).profile);
    for junk in ["0", "", "yes", "true", "2", " "] {
        assert!(
            !parse_config([None; 4], None, None, Some(junk)).profile,
            "PROFILE={junk:?} must not enable the profile"
        );
    }
    assert!(parse_config([None; 4], None, None, Some(" 1 ")).profile);
}

#[test]
fn env_u8_ok_accepts_unset_blank_and_integers() {
    assert!(env_u8_ok(None));
    assert!(env_u8_ok(Some("")));
    assert!(env_u8_ok(Some("  ")));
    assert!(env_u8_ok(Some("0")));
    assert!(env_u8_ok(Some(" 10 ")));
    assert!(env_u8_ok(Some("255")));
}

#[test]
fn env_u8_ok_rejects_garbage() {
    assert!(!env_u8_ok(Some("ten")));
    assert!(!env_u8_ok(Some("10%")));
    assert!(!env_u8_ok(Some("-1")));
    assert!(!env_u8_ok(Some("256")));
    assert!(!env_u8_ok(Some("1.5")));
}

#[test]
fn env_bidir_ok_accepts_only_unset_blank_zero_one() {
    assert!(env_bidir_ok(None));
    assert!(env_bidir_ok(Some("")));
    assert!(env_bidir_ok(Some("0")));
    assert!(env_bidir_ok(Some(" 1 ")));
    assert!(!env_bidir_ok(Some("false")));
    assert!(!env_bidir_ok(Some("true")));
    assert!(!env_bidir_ok(Some("2")));
}

#[test]
fn loop_khz_clamped_to_range() {
    assert_eq!(parse_config([None; 4], None, Some("1"), None).loop_khz, 2);
    assert_eq!(parse_config([None; 4], None, Some("9"), None).loop_khz, 8);
    assert_eq!(parse_config([None; 4], None, Some("4"), None).loop_khz, 4);
    assert_eq!(parse_config([None; 4], None, Some("x"), None).loop_khz, 8);
}

#[test]
fn loop_counts_follow_the_frequency() {
    let c = parse_config([None; 4], None, Some("4"), None);
    assert_eq!(c.period_us(), 250);
    assert_eq!(c.log_every(), 400);
    assert_eq!(c.arming_frames(), 12_000);
    assert_eq!(c.stop_frames(), 2_000);
    assert_eq!(c.decimation(), 8);
    assert_eq!(c.hold_frames()[0].raw, percent_frame(5, true).raw);
}

#[test]
fn percent_frames_span_the_throttle_range() {
    assert_eq!(percent_frame(0, true).raw, DshotFrame::motor_stop(true).raw);
    assert_eq!(percent_frame(100, false).data_12() >> 1, 2047);
    assert_eq!(percent_frame(25, false).data_12() >> 1, 48 + 499);
}

#[test]
fn a_capture_run_records_and_then_ends() {
    let c = parse_config([None; 4], None, None, Some("1"));
    let first = profile_step(&c, 0).unwrap();
    assert_eq!((first.t_ms, first.pct, first.record), (0, IDLE_PCT, true));
    assert!(!profile_step(&c, 1).unwrap().record);
    assert!(profile_step(&c, 8 * profile_ms()).is_none());
    let s = profile_sample(
        &first,
        [
            BbTelemetry::Erpm { period_us: 700 },
            BbTelemetry::Erpm { period_us: 70_000 },
            BbTelemetry::NoSignal,
            BbTelemetry::Erpm { period_us: 0 },
        ],
    );
    assert_eq!(s.period_us, [700, NO_TELEMETRY, NO_TELEMETRY, NO_TELEMETRY]);
    assert_eq!(s.cmd, [80; 4]);
}

#[test]
fn stats_track_min_max_and_mean() {
    let mut s = CycleStats::new();
    for c in [300u32, 100, 200] {
        s.add(c);
    }
    assert_eq!((s.n, s.min, s.max, s.mean()), (3, 100, 300, 200));
}

#[test]
fn empty_stats_report_a_zero_mean() {
    assert_eq!(CycleStats::new().mean(), 0);
}

#[test]
fn cycles_convert_at_the_core_clock() {
    let us = cycles_to_us(480, 480_000_000);
    assert!((us.num as f64 / us.den as f64 - 1.0).abs() < 1e-6);
}

#[test]
fn scenarios_span_level_flight_to_a_large_upset() {
    let s = scenarios();
    assert_eq!((s[0].angles_deg, s[0].rates_dps), ([0; 3], [0; 3]));
    let max_angle = s.iter().flat_map(|x| x.angles_deg.iter()).fold(0, |m, v| v.abs().max(m));
    assert!(max_angle > 100);
    assert_eq!(s[5].rates_dps, [200, -200, 100]);
}

#[test]
fn no_hold_exceeds_the_ceiling() {
    for h in profile().iter() {
        assert!(h.pct <= MAX_PCT, "hold at {}% exceeds {}%", h.pct, MAX_PCT);
    }
}

#[test]
fn the_profile_steps_both_up_and_down() {
    let mut up = 0;
    let mut down = 0;
    for w in profile().windows(2) {
        if w[1].pct > w[0].pct {
            up += 1;
        } else if w[1].pct < w[0].pct {
            down += 1;
        }
    }
    assert!(up >= 3, "only {up} steps up");
    assert!(down >= 3, "only {down} steps down");
}

#[test]
fn every_step_is_large_enough_for_the_fitter_to_see() {
    for w in profile().windows(2) {
        if w[0].pct != w[1].pct {
            let delta = (w[1].pct as i16 - w[0].pct as i16).unsigned_abs();
            assert!(delta >= 2, "step of {delta}% is below the detection floor");
        }
    }
}

#[test]
fn steps_start_from_idle_not_from_a_stop() {
    for h in profile().iter() {
        assert!(h.pct >= IDLE_PCT, "hold at {}% is below idle", h.pct);
    }
}

#[test]
fn command_at_walks_the_profile_and_then_ends() {
    assert_eq!(command_at(0), Some(IDLE_PCT));
    assert_eq!(command_at(599), Some(IDLE_PCT));
    assert_eq!(command_at(600), Some(15));
    assert_eq!(command_at(999), Some(15));
    assert_eq!(command_at(1000), Some(IDLE_PCT));
    assert_eq!(command_at(profile_ms() - 1), Some(IDLE_PCT));
    assert_eq!(command_at(profile_ms()), None, "profile must terminate");
    assert_eq!(command_at(profile_ms() + 10_000), None);
}

#[test]
fn the_buffer_holds_the_whole_profile() {
    let needed = (profile_ms() * SAMPLE_HZ / 1000) as usize;
    assert!(capacity() > needed, "{} <= {needed}", capacity());
}

#[test]
fn the_profile_fits_in_a_u16_millisecond_timestamp() {
    assert!(profile_ms() < u16::MAX as u32, "{} ms", profile_ms());
}

#[test]
fn overrun_is_counted_not_silently_dropped() {
    let mut c: Capture<2> = Capture::new();
    for i in 0..5 {
        c.push(PlantSample { t_ms: i, ..PlantSample::default() });
    }
    assert_eq!(c.len(), 2);
    assert_eq!(c.dropped(), 3);
    assert_eq!(c.as_slice()[0].t_ms, 0);
}

#[test]
fn cmd_units_round_trip_through_the_sample() {
    let s = PlantSample { cmd: [cmd_units(25); 4], ..PlantSample::default() };
    let cmd = s.cmd[0] as f32 / CMD_SCALE as f32;
    assert!((cmd - 0.25).abs() < 1e-3);
}

#[test]
fn baud_divisors_are_rounded_to_nearest() {
    assert_eq!(baud_divisor(120_000_000, 115_200), 1042);
    assert_eq!(baud_divisor(120_000_000, 9_600), 12_500);
    assert_eq!(baud_divisor(3, 2), 2);
    assert_eq!(baud_divisor(4, 3), 1);
}
