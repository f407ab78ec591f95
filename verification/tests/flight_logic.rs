//! Modes, fusion and the tasks around the sensors.

use fc_rusty::drivers::baro::{BaroChip, DetectError};
use fc_rusty::drivers::icm42688::{Orientation, RawImu};
use fc_rusty::drivers::lis2mdl;
use fc_rusty::drivers::nmea::FixMode;
use fc_rusty::flight::attitude::{
    mag_anchor_ready, mag_slot, predict_interval_us, Attitude, FitStep, MagStep,
};
use fc_rusty::flight::baro_recovery::{Attempt, BaroBus, Detected};
use fc_rusty::flight::blink::{Blink, CalLed};
use fc_rusty::flight::fusion::{Fusion, GpsFix, HomeAtArm, VelocityFuse};
use fc_rusty::flight::gps_accel::VelocityAnchor;
use fc_rusty::flight::gps_feed::GpsFeed;
use fc_rusty::flight::imu_read::{disagreement, filtered, ImuReader, ReadCounts};
use fc_rusty::flight::inner_loop;
use fc_rusty::flight::inner_loop::{Drive, OuterLoopCommand, TelemetryLog};
use fc_rusty::flight::navigation::{
    baro_ready, fuses_course, guidance, select_mode, stick_moves, throttle_moves, AttitudeFrom,
    CalCommand, Estimate, FlightMode, LoopTimes, Navigator, References, Sensed, ThrustFrom,
};
use fc_rusty::float_bits::{eq32, eq64, lt32};
use fc_rusty::persist::record::Config;

fn f(v: f32) -> u32 {
    v.to_bits()
}

// ---- Float patterns ----

#[test]
fn patterns_compare_as_numbers() {
    let all = [
        f32::NEG_INFINITY,
        -2.5,
        -1.0e-40,
        -0.0,
        0.0,
        1.0e-40,
        0.3,
        2.5,
        f32::INFINITY,
        f32::NAN,
    ];
    for a in all {
        for b in all {
            assert_eq!(lt32(f(a), f(b)), a < b, "{a} < {b}");
            assert_eq!(eq32(f(a), f(b)), a == b, "{a} == {b}");
            let (x, y) = (a as f64, b as f64);
            assert_eq!(eq64(x.to_bits(), y.to_bits()), x == y);
        }
    }
}

// ---- Modes ----

const BOTH: References = References { altitude: true, home: true };
const BARO: References = References { altitude: true, home: false };
const NONE: References = References { altitude: false, home: false };

#[test]
fn modes_need_what_they_fly_by() {
    assert_eq!(select_mode(false, true, BOTH, 2000, 2000), FlightMode::Acro);
    assert_eq!(select_mode(true, false, BOTH, 1000, 1000), FlightMode::Acro);
    assert_eq!(select_mode(true, false, BOTH, 1500, 1000), FlightMode::AltHold);
    assert_eq!(select_mode(true, false, BOTH, 1700, 1000), FlightMode::PosHold);
    assert_eq!(select_mode(true, false, BOTH, 1000, 1600), FlightMode::GpsHome);
    assert_eq!(select_mode(true, false, BARO, 1000, 1600), FlightMode::Acro);
    assert_eq!(select_mode(true, false, NONE, 1700, 1600), FlightMode::Acro);
}

#[test]
fn link_loss_picks_the_best_rescue() {
    assert_eq!(select_mode(true, true, BOTH, 1000, 1000), FlightMode::GpsRescue);
    assert_eq!(select_mode(true, true, BARO, 1000, 1000), FlightMode::FailsafeLand);
    assert_eq!(select_mode(true, true, NONE, 1700, 1700), FlightMode::FailsafeBlind);
}

fn estimate(alt: f32, ready: bool, home: bool) -> Estimate {
    Estimate {
        north: f(3.0),
        east: f(-4.0),
        altitude_up: f(alt),
        baro_age_ms: 20,
        altitude_ready: ready,
        home_latched: home,
    }
}

#[test]
fn stale_pressure_blocks_arming() {
    assert!(!baro_ready(None));
    assert!(baro_ready(Some(estimate(0.0, true, true))));
    assert!(!baro_ready(Some(Estimate { baro_age_ms: 500, ..estimate(0.0, true, true) })));
}

#[test]
fn sticks_have_a_dead_band() {
    assert!(!stick_moves(992));
    assert!(!stick_moves(1032));
    assert!(stick_moves(1033));
    assert!(stick_moves(951));
    assert!(!throttle_moves(992));
    assert!(throttle_moves(172));
    assert!(throttle_moves(1811));
}

#[test]
fn course_is_heading_only_in_forward_flight() {
    assert!(fuses_course(true, true, f(2.5), 1300));
    assert!(!fuses_course(true, true, f(2.0), 1300));
    assert!(!fuses_course(true, true, f(2.5), 992));
    assert!(!fuses_course(true, false, f(2.5), 1300));
    assert!(!fuses_course(false, true, f(2.5), 1300));
    assert!(!fuses_course(true, true, f(f32::NAN), 1300));
}

// ---- Ticks ----

fn sensed(armed: bool, mode_switch: u16, est: Option<Estimate>) -> Sensed {
    let mut channels = [992u16; 16];
    channels[4] = 172;
    channels[5] = mode_switch;
    channels[6] = 172;
    channels[7] = 172;
    Sensed {
        armed,
        failsafe: false,
        channels,
        estimate: est,
        reoriginated: true,
        fix_3d: true,
        ground_speed: f(0.0),
    }
}

#[test]
fn targets_are_captured_on_entry_only() {
    let mut nav = Navigator::new();
    let plan = nav.tick(&sensed(true, 992, Some(estimate(12.0, true, true))));
    assert_eq!(plan.mode, FlightMode::AltHold);
    assert_eq!(plan.left, Some(FlightMode::Acro));
    assert!(plan.latch && plan.capture);
    assert_eq!(nav.targets.altitude_up, f(12.0));
    let plan = nav.tick(&sensed(true, 992, Some(estimate(20.0, true, true))));
    assert!(!plan.latch && !plan.capture);
    assert_eq!(plan.left, None);
    assert_eq!(nav.targets.altitude_up, f(12.0));
}

#[test]
fn capture_waits_for_the_new_origin() {
    let mut nav = Navigator::new();
    let mut s = sensed(true, 992, Some(estimate(12.0, true, true)));
    s.reoriginated = false;
    assert!(!nav.tick(&s).capture);
    s.reoriginated = true;
    assert!(nav.tick(&s).capture);
}

#[test]
fn going_home_climbs_to_a_safe_altitude() {
    let mut nav = Navigator::new();
    let mut s = sensed(true, 172, Some(estimate(12.0, true, true)));
    s.channels[6] = 1811;
    assert_eq!(nav.tick(&s).mode, FlightMode::GpsHome);
    assert_eq!(nav.targets.altitude_up, f(50.0));
    assert_eq!((nav.targets.north, nav.targets.east), (f(0.0), f(0.0)));

    let mut high = Navigator::new();
    s.estimate = Some(estimate(80.0, true, true));
    high.tick(&s);
    assert_eq!(high.targets.altitude_up, f(80.0));
}

#[test]
fn home_is_loitered_over_before_landing() {
    let mut nav = Navigator::new();
    let far = nav.homeward(f(50.0), f(30.0), 0);
    assert!(!far.arrived && !far.lands);
    assert!(nav.homeward(f(50.0), f(4.0), 1_000).arrived);
    assert!(!nav.homeward(f(50.0), f(4.0), 31_000).lands);
    assert!(nav.homeward(f(50.0), f(4.0), 31_001).lands);
    let down = nav.homeward(f(20.0), f(4.0), 31_010);
    assert!(down.descend && !down.disarm);
    assert!(nav.homeward(f(0.9), f(4.0), 60_000).disarm);
    nav.rest();
    assert!(!nav.landing);
}

#[test]
fn the_calibration_switch_works_on_the_ground() {
    let mut nav = Navigator::new();
    let mut s = sensed(false, 172, None);
    s.channels[7] = 1811;
    assert_eq!(nav.tick(&s).cal, Some(CalCommand::Start));
    assert_eq!(nav.tick(&s).cal, None);
    s.armed = true;
    assert_eq!(nav.tick(&s).cal, Some(CalCommand::Abort));
    s.channels[7] = 172;
    assert_eq!(nav.tick(&s).cal, Some(CalCommand::Abort));
    s.channels[7] = 1811;
    assert_eq!(nav.tick(&s).cal, None);
}

#[test]
fn a_refused_arming_is_reported_now_and_then() {
    let mut nav = Navigator::new();
    let mut s = sensed(false, 172, None);
    s.channels[4] = 1811;
    let reports = (0..400).filter(|_| nav.tick(&s).report_refusal).count();
    assert_eq!(reports, 2);
}

#[test]
fn guidance_degrades_with_what_is_known() {
    let g = guidance(FlightMode::PosHold, Some(estimate(5.0, true, true)));
    assert_eq!((g.attitude, g.thrust), (AttitudeFrom::Position, ThrustFrom::Altitude));
    assert!(g.yaw_stick);
    let g = guidance(FlightMode::PosHold, Some(estimate(5.0, true, false)));
    assert_eq!((g.attitude, g.thrust), (AttitudeFrom::Position, ThrustFrom::Altitude));
    assert!(g.yaw_stick);
    let g = guidance(FlightMode::PosHold, Some(estimate(5.0, false, false)));
    assert_eq!((g.attitude, g.thrust), (AttitudeFrom::Level, ThrustFrom::Hover));
    for mode in [FlightMode::GpsRescue, FlightMode::GpsHome] {
        let g = guidance(mode, Some(estimate(5.0, true, true)));
        assert_eq!((g.attitude, g.thrust), (AttitudeFrom::Position, ThrustFrom::Altitude));
        let g = guidance(mode, Some(estimate(5.0, true, false)));
        assert_eq!((g.attitude, g.thrust), (AttitudeFrom::Level, ThrustFrom::Hover));
    }
    let g = guidance(FlightMode::AltHold, None);
    assert_eq!((g.attitude, g.thrust), (AttitudeFrom::Sticks, ThrustFrom::Unchanged));
    let g = guidance(FlightMode::FailsafeLand, Some(estimate(0.2, true, false)));
    assert!(g.disarm && !g.yaw_stick);
    let g = guidance(FlightMode::FailsafeLand, Some(estimate(0.4, true, false)));
    assert!(!g.disarm);
    let g = guidance(FlightMode::FailsafeBlind, None);
    assert_eq!((g.attitude, g.thrust, g.disarm), (AttitudeFrom::Level, ThrustFrom::Blind, false));
}

#[test]
fn loop_times_keep_the_worst_case() {
    let mut t = LoopTimes::new();
    assert_eq!(t.mean_us(), 0);
    t.ticked(1000);
    t.ticked(6000);
    t.solved(700, 12);
    t.solved(500, 20);
    assert_eq!((t.max_us, t.mean_us(), t.overruns), (6000, 3500, 1));
    assert_eq!((t.mpc_max_us, t.mpc_iters_max), (700, 20));
    assert!(LoopTimes::report_due(100));
    assert!(!LoopTimes::report_due(150));
    t.restart();
    assert_eq!((t.max_us, t.count), (0, 0));
}

// ---- Fusion ----

fn fix(lat: f64, hdop: f32) -> GpsFix {
    GpsFix {
        fix_mode: FixMode::Fix3D,
        satellites: 9,
        hdop: f(hdop),
        latitude: lat.to_bits(),
        longitude: 11.5f64.to_bits(),
        altitude_msl: f(500.0),
        ground_speed: f(0.1),
        course: f(90.0),
    }
}

#[test]
fn home_is_latched_by_the_third_good_fix() {
    let mut fusion = Fusion::new();
    assert!(fusion.gps(&fix(48.0, 1.2)).position.is_none());
    assert!(fusion.gps(&fix(48.1, 1.2)).position.is_none());
    let plan = fusion.gps(&fix(48.2, 1.2));
    assert!(plan.latched);
    let p = plan.position.unwrap();
    assert_eq!(p.home.latitude, 48.2f64.to_bits());
    assert_eq!(p.noise_scale, f(1.2));
    assert_eq!(plan.velocity, None);
    assert_eq!(fusion.gps(&fix(48.2, 1.2)).position, None);
    let plan = fusion.gps(&fix(48.3, 0.6));
    assert!(!plan.latched);
    assert_eq!(plan.position.unwrap().noise_scale, f(1.0));
    assert_eq!(plan.position.unwrap().home.latitude, 48.2f64.to_bits());
}

#[test]
fn repeats_of_a_position_do_not_count_towards_home() {
    let mut fusion = Fusion::new();
    for _ in 0..10 {
        assert!(!fusion.gps(&fix(48.0, 1.2)).latched);
    }
    assert_eq!(fusion.streak, 1);
    assert!(fusion.home.is_none());
    for _ in 0..5 {
        assert!(!fusion.gps(&fix(48.1, 1.2)).latched);
    }
    assert!(fusion.gps(&fix(48.0, 1.2)).latched);
    assert_eq!(fusion.home.unwrap().latitude, 48.0f64.to_bits());
}

#[test]
fn a_bad_fix_starts_the_streak_again() {
    let mut fusion = Fusion::new();
    fusion.gps(&fix(48.0, 1.2));
    fusion.gps(&fix(48.1, 1.2));
    fusion.gps(&fix(48.2, 3.0));
    assert!(!fusion.gps(&fix(48.3, 1.2)).latched);
    assert!(!fusion.gps(&fix(48.4, 1.2)).latched);
    assert!(fusion.gps(&fix(48.5, 1.2)).latched);
}

#[test]
fn velocities_need_some_fix_and_change() {
    let mut fusion = Fusion::new();
    let mut g = fix(48.0, 9.0);
    assert_eq!(fusion.gps(&g).velocity, Some(VelocityFuse::Still));
    assert_eq!(fusion.gps(&g).velocity, None);
    g.ground_speed = f(3.0);
    assert_eq!(fusion.gps(&g).velocity, Some(VelocityFuse::Moving));
    g.ground_speed = f(4.0);
    g.fix_mode = FixMode::NoFix;
    assert_eq!(fusion.gps(&g).velocity, None);
    g.fix_mode = FixMode::Fix2D;
    g.satellites = 2;
    assert_eq!(fusion.gps(&g).velocity, None);
}

#[test]
fn arming_moves_both_origins() {
    let mut fusion = Fusion::new();
    assert_eq!(fusion.arm().home, HomeAtArm::Unset);
    assert_eq!(fusion.baro(f(101_000.0), 10), f(101_000.0));
    assert_eq!(fusion.arm_pressure(), 0);
    assert_eq!(fusion.baro(f(100_500.0), 20), f(101_000.0));
    for k in 0..3 {
        fusion.gps(&fix(48.0 + k as f64, 1.0));
    }
    fusion.gps(&fix(52.0, 1.0));
    let plan = fusion.arm();
    assert!(plan.pressure);
    assert_eq!(plan.home, HomeAtArm::Anchored);
    assert_eq!(fusion.home.unwrap().latitude, 52.0f64.to_bits());
    assert_eq!(fusion.arm_pressure(), f(100_500.0));
    assert_eq!(fusion.baro(f(100_000.0), 30), f(100_500.0));
    assert_eq!(fusion.arm_origin_seq, 2);
    fusion.gps(&fix(53.0, 8.0));
    assert_eq!(fusion.arm().home, HomeAtArm::Kept);
}

#[test]
fn readiness_follows_the_pressure_sensor() {
    let mut fusion = Fusion::new();
    let r = fusion.readiness(5_000);
    assert!(!r.baro_fresh && !r.altitude_ready && !r.home_latched);
    fusion.baro(f(101_000.0), 5_000);
    assert!(fusion.readiness(5_400).baro_fresh);
    assert_eq!(fusion.readiness(5_400).baro_age_ms, 400);
    assert!(!fusion.readiness(6_500).baro_fresh);
    assert_eq!(fusion.take_tally().baro, 1);
    assert_eq!(fusion.take_tally().baro, 0);
}

// ---- Attitude ----

fn imu(accel: [i16; 3], gyro: [i16; 3]) -> RawImu {
    RawImu { accel, gyro, temp: 0, orientation: Orientation::Identity }
}

#[test]
fn prediction_intervals_are_bounded() {
    assert_eq!(predict_interval_us(1000, 1010), 50);
    assert_eq!(predict_interval_us(1000, 1125), 125);
    assert_eq!(predict_interval_us(1000, 9000), 2000);
}

#[test]
fn anchoring_needs_rest() {
    assert!(mag_anchor_ready(&imu([0, 0, 2048], [0, 0, 0])));
    assert!(!mag_anchor_ready(&imu([0, 0, 2300], [0, 0, 0])));
    assert!(!mag_anchor_ready(&imu([0, 0, 2048], [0, 0, 100])));
    assert!(mag_anchor_ready(&imu([0, 0, 2048], [0, 0, 80])));
}

#[test]
fn the_field_slot_saturates() {
    let m = lis2mdl::MagSample {
        raw: [100, -30_000, 30_000],
        orientation: lis2mdl::Orientation::Identity,
    };
    assert_eq!(mag_slot(&m), [1500, -32768, 32767]);
}

#[test]
fn heading_is_anchored_once() {
    let mut a = Attitude::new(0);
    let cfg = Config { mag_hard_iron_ut: [0; 3], declination_rad: 0, mag_calibrated: true };
    assert!(!a.stored(&Config::default()));
    assert!(a.stored(&cfg));
    assert_eq!(a.mag(false, true, 10), MagStep::Seed);
    assert_eq!(a.mag(true, false, 20), MagStep::Fuse { anchor: false });
    assert_eq!(a.mag(true, true, 30), MagStep::Fuse { anchor: true });
    assert_eq!(a.mag(true, true, 40), MagStep::Fuse { anchor: false });
}

#[test]
fn a_calibration_ends_in_a_config_or_a_fault() {
    let mut a = Attitude::new(0);
    assert_eq!(a.command(CalCommand::Start), CalLed::Calibrating(0));
    assert_eq!(a.mag(true, true, 100), MagStep::Collect { report: false });
    assert_eq!(a.mag(true, true, 500), MagStep::Collect { report: true });
    assert!(matches!(a.collected(false, None, 7), FitStep::Collecting));
    match a.collected(true, Some([1, 2, 3]), 7) {
        FitStep::Complete(c) => {
            assert_eq!(c.mag_hard_iron_ut, [1, 2, 3]);
            assert_eq!(c.declination_rad, 7);
            assert!(c.mag_calibrated);
        }
        _ => panic!("expected a config"),
    }
    a.command(CalCommand::Start);
    assert!(matches!(a.collected(true, None, 7), FitStep::Fault));
    assert_eq!(a.command(CalCommand::Abort), CalLed::Idle);
}

#[test]
fn one_sample_in_eighty_corrects() {
    let mut a = Attitude::new(0);
    let mut corrections = 0;
    for _ in 0..800 {
        if a.corrects() {
            corrections += 1;
            a.accel_corrected(true);
        }
        a.sampled();
    }
    a.mag_fused(false);
    assert_eq!(corrections, 10);
    let c = a.take_counts();
    assert_eq!((c.samples, c.accel_applied, c.accel_rejected), (800, 10, 0));
    assert_eq!((c.mag_applied, c.mag_rejected), (0, 1));
}

// ---- Barometer bus ----

#[test]
fn five_failed_attempts_are_the_end() {
    let mut bus = BaroBus::new();
    assert_eq!(bus.attempt(), Attempt::Build { unstick: false });
    for _ in 0..4 {
        assert_eq!(bus.detected(Err(DetectError::NotFound)), Detected::Retry);
        assert_eq!(bus.attempt(), Attempt::Build { unstick: true });
    }
    bus.brought_up(false);
    assert_eq!(bus.attempt(), Attempt::GiveUp);
}

#[test]
fn only_the_supported_chip_is_brought_up() {
    let mut bus = BaroBus::new();
    assert_eq!(
        bus.detected(Ok(BaroChip::Dps310 { addr: 0x77 })),
        Detected::BringUp { addr: 0x77 }
    );
    assert_eq!(bus.detected(Ok(BaroChip::Bmp280 { addr: 0x76 })), Detected::Unsupported);
}

#[test]
fn fifty_errors_in_a_row_rebuild_the_bus() {
    let mut bus = BaroBus::new();
    for _ in 0..49 {
        assert!(!bus.read(false, Some(false)));
    }
    assert!(!bus.read(true, Some(false)));
    for _ in 0..49 {
        assert!(!bus.read(false, None));
    }
    assert!(bus.read(false, None));
    assert_eq!(bus.recoveries, 1);
    let c = bus.take_counts();
    assert_eq!((c.reads, c.errors, c.mag_reads, c.mag_errors), (1, 99, 0, 50));
    bus.brought_up(true);
    assert_eq!(bus.streak, 0);
}

// ---- Inertial readings ----

#[test]
fn one_working_sensor_is_enough() {
    let a = imu([10, 0, 0], [0; 3]);
    let b = imu([20, 0, 0], [0; 3]);
    let mut reader = ImuReader::new(0);
    let r = reader.dual(None, None, 5);
    assert!(r.sample.is_none() && r.error && !r.prime);
    let r = reader.dual(Some(a), None, 10);
    assert_eq!(r.sample.unwrap().accel, [10, 0, 0]);
    assert!(r.prime && r.error);
    let r = reader.dual(Some(a), Some(b), 20);
    assert_eq!(r.sample.unwrap().accel, [15, 0, 0]);
    assert!(!r.prime && !r.error && !r.diagnose);
    assert!(reader.dual(Some(a), Some(b), 1000).diagnose);
    assert!(!reader.dual(Some(a), Some(b), 1500).diagnose);
    let r = reader.single(Some(b));
    assert_eq!(r.sample.unwrap().accel, [20, 0, 0]);
    let mut counts = ReadCounts { samples: 0, errors: 0 };
    counts.count(&r);
    counts.count(&reader.single(None));
    assert_eq!(counts.take(), ReadCounts { samples: 1, errors: 1 });
    assert_eq!(counts.samples, 0);
}

#[test]
fn disagreement_is_on_the_worst_axis() {
    let a = imu([10, -20, 30], [1, 2, 3]);
    let b = imu([12, 20, 29], [1, 2, -7]);
    assert_eq!(disagreement(&a, &b), (40, 10));
    let s = filtered(&a, [1, 1, 1], [2, 2, 2]);
    assert_eq!((s.accel, s.gyro), ([1, 1, 1], [2, 2, 2]));
}

// ---- Fast loop ----

#[test]
fn torques_need_airmode() {
    assert!(matches!(inner_loop::drive(None, true).drive, Drive::Stop));
    let armed = OuterLoopCommand { thrust: f(0.3), rate_sp_degs: [0; 3], armed: true };
    assert!(matches!(inner_loop::drive(Some(armed), false).drive, Drive::Collective));
    assert!(matches!(inner_loop::drive(Some(armed), true).drive, Drive::Full));
    assert!(matches!(inner_loop::drive(Some(OuterLoopCommand::idle()), true).drive, Drive::Stop));
    assert_eq!(inner_loop::AIRMODE_ACTIVATE_THROTTLE, f(0.05));
}

#[test]
fn telemetry_is_reported_every_so_many_frames() {
    let mut log = TelemetryLog { frames: 0 };
    let reports = (0..1600).filter(|_| log.sent(true)).count();
    assert_eq!(reports, 2);
    assert_eq!((0..800).filter(|_| log.sent(false)).count(), 0);
}

// ---- GPS feed ----

#[test]
fn complete_sentences_are_published() {
    let gga = b"$GPGGA,123519.00,4807.038,N,01131.000,E,1,08,0.9,545.4,M,47.0,M,,*61\r\n";
    let mut feed = GpsFeed::new(0);
    let mut published = 0;
    let mut announced = 0;
    let mut reported = 0;
    for round in 0..3u64 {
        for &b in gga.iter() {
            let step = feed.feed(b, round * 4000);
            published += step.publish as u32;
            announced += step.announce as u32;
            reported += step.report as u32;
        }
    }
    assert_eq!((published, announced, reported), (3, 1, 1));
    assert_eq!(feed.sentences, 3);
    assert_eq!(feed.parser.data.satellites, 8);
}

// ---- Status light ----

#[test]
fn progress_does_not_restart_the_pattern() {
    let mut b = Blink::new(100);
    b.show(Some(CalLed::Calibrating(1)), 200);
    b.show(Some(CalLed::Calibrating(50)), 300);
    assert_eq!(b.elapsed_ms(350), 150);
    b.show(None, 360);
    assert_eq!(b.elapsed_ms(400), 200);
    b.show(Some(CalLed::Saved), 500);
    assert_eq!(b.elapsed_ms(500), 0);
    assert_eq!(b.phase, CalLed::Saved);
}

// ---- Acceleration from velocity ----

#[test]
fn the_first_fix_is_not_differenced() {
    let mut a = VelocityAnchor::new();
    assert!(!a.is_fresh());
    assert!(!a.tick(0.5f32.to_bits()));
    assert_eq!(a.update([1, 2], 0.1f32.to_bits()), None);
    assert!(a.is_fresh());
    assert_eq!(a.update([3, 4], 0.1f32.to_bits()), Some([1, 2]));
    assert_eq!(a.update([5, 6], 0.1f32.to_bits()), Some([3, 4]));
}

#[test]
fn fixes_on_top_of_each_other_are_not_differenced() {
    let mut a = VelocityAnchor::new();
    a.update([1, 2], 0.1f32.to_bits());
    assert_eq!(a.update([3, 4], 1e-3f32.to_bits()), None);
    assert_eq!(a.update([5, 6], f32::NAN.to_bits()), None);
    assert_eq!(a.update([7, 8], 1.1e-3f32.to_bits()), Some([5, 6]));
}

#[test]
fn an_outage_drops_the_velocity_before_it() {
    let mut a = VelocityAnchor::new();
    a.update([1, 2], 0.1f32.to_bits());
    assert!(!a.tick(1.0f32.to_bits()));
    assert!(a.is_fresh());
    assert!(a.tick(1.01f32.to_bits()));
    assert!(!a.is_fresh());
    assert_eq!(a.since_fix_s, 1.01f32.to_bits());
    assert_eq!(a.update([3, 4], 5.0f32.to_bits()), None);
    assert_eq!(a.since_fix_s, 0);
    assert_eq!(a.update([5, 6], 0.1f32.to_bits()), Some([3, 4]));
}
