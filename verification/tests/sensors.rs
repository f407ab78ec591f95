//! Magnetometers, barometer and inertial sensors.

use fc_rusty::drivers::baro;
use fc_rusty::drivers::baro::{
    detect, detect_first, sign_extend, sign_extend_24, BaroChip, DetectError, Dps310, Dps310Cal,
    Dps310Error, Dps310Init, Ids, K_P, K_T,
};
use fc_rusty::drivers::bring_up::{BringUp, Next, Step, StepError};
use fc_rusty::drivers::hmc5883l;
use fc_rusty::drivers::icm42688;
use fc_rusty::drivers::icm42688::{Icm42688, RawImu};
use fc_rusty::drivers::ism6hg256x;
use fc_rusty::drivers::ist8310;
use fc_rusty::drivers::lis2mdl;
use fc_rusty::drivers::mag;
use fc_rusty::drivers::mag::{describe_addr, MagError, MagSample, Orientation, Scale};
use fc_rusty::drivers::mpu6000;
use fc_rusty::drivers::orientation;
use fc_rusty::drivers::qmc5883l;
use fc_rusty::drivers::qmc5883p;
use fc_rusty::ratio::Ratio;

fn value(r: Ratio) -> f64 {
    r.num as f64 / r.den as f64
}

fn values(r: [Ratio; 3]) -> [f64; 3] {
    [value(r[0]), value(r[1]), value(r[2])]
}

fn scale(s: Scale) -> f64 {
    s.num as f64 / s.den as f64
}

fn magnitude_ut(s: &MagSample) -> f64 {
    (s.magnitude_squared() as f64).sqrt() * scale(s.scale)
}

/// A tenth of a microtesla per count.
const TENTH: Scale = Scale { num: 1, den: 10 };

/// One microtesla per count.
const UNIT: Scale = Scale { num: 1, den: 1 };

// ---- HMC5883L ----

#[test]
fn cfg_a_matches_the_datasheet_example_at_15hz() {
    assert_eq!(
        hmc5883l::cfg_a(
            hmc5883l::Average::X8,
            hmc5883l::Rate::Hz15,
            hmc5883l::Bias::Normal,
        ),
        0x70
    );
    assert_eq!(
        hmc5883l::cfg_a(
            hmc5883l::Average::X1,
            hmc5883l::Rate::Hz15,
            hmc5883l::Bias::Normal,
        ),
        0x10
    );
}

#[test]
fn cfg_a_run_is_8_averages_at_75hz() {
    assert_eq!(hmc5883l::CFG_A_RUN, 0x78, "got 0x{:02X}", hmc5883l::CFG_A_RUN);
    assert_eq!(hmc5883l::CFG_A_RUN & 0x80, 0);
    assert_eq!(
        hmc5883l::cfg_a(hmc5883l::CFG_AVG, hmc5883l::CFG_RATE, hmc5883l::Bias::Normal),
        hmc5883l::CFG_A_RUN
    );
}

#[test]
fn cfg_b_matches_the_datasheet_example_and_default() {
    assert_eq!(hmc5883l::cfg_b(hmc5883l::Gain::Ga4_7), 0xA0);
    assert_eq!(hmc5883l::cfg_b(hmc5883l::Gain::Ga1_3), 0x20);
    assert_eq!(hmc5883l::CFG_B_RUN & 0x1F, 0);
    assert_eq!(hmc5883l::cfg_b(hmc5883l::CFG_GAIN), hmc5883l::CFG_B_RUN);
}

#[test]
fn gain_scales_match_table_9() {
    assert!((scale(hmc5883l::Gain::Ga1_3.ut_per_lsb()) - 0.09174).abs() < 1e-4);
    assert!((scale(hmc5883l::Gain::Ga1_9.ut_per_lsb()) - 0.12195).abs() < 1e-4);
    let fs_gauss = 2047.0 / hmc5883l::Gain::Ga1_9.lsb_per_gauss() as f64;
    assert!(fs_gauss >= 1.9, "fs={fs_gauss}");
}

#[test]
fn decode_is_x_z_y_big_endian() {
    let raw = hmc5883l::decode_raw([0x00, 0x01, 0x00, 0x02, 0x00, 0x03]);
    assert_eq!(raw, [1, 3, 2]);
    assert_eq!(hmc5883l::decode_raw([0xFF, 0xFF, 0, 0, 0, 0])[0], -1);
}

#[test]
fn overflow_sentinel_rejects_the_sample() {
    let buf = [0xF0, 0x00, 0x00, 0x10, 0x00, 0x10];
    assert!(hmc5883l::is_overflowed(hmc5883l::decode_raw(buf)));
    assert!(hmc5883l::decode_sample(buf, Orientation::Identity).is_none());
    assert!(!hmc5883l::is_overflowed([2047, -2048, 0]));
}

#[test]
fn hmc5883l_a_plausible_earth_field_decodes_to_a_plausible_magnitude() {
    let s = hmc5883l::decode_sample([0x01, 0x9A, 0, 0, 0, 0], Orientation::Identity).unwrap();
    assert_eq!(s.raw[0], 410);
    let m = magnitude_ut(&s);
    assert!((25.0..65.0).contains(&m), "magnitude {m} uT is not an Earth field");
}

#[test]
fn id_string_is_h43() {
    assert_eq!(hmc5883l::ID_VALUE, [0x48, 0x34, 0x33]);
}

#[test]
fn hmc5883l_refuses_another_chip() {
    assert_eq!(hmc5883l::Hmc5883l::init(None), Err(MagError::I2c));
    assert_eq!(hmc5883l::Hmc5883l::init(Some([0x40, 0, 0])), Err(MagError::IdMismatch(0x40)));
    assert!(hmc5883l::Hmc5883l::init(Some([0x48, 0x34, 0x33])).is_ok());
    let chip = hmc5883l::Hmc5883l { addr: 0x1E, orientation: Orientation::Identity };
    assert_eq!(chip.read(None), Err(MagError::I2c));
    assert_eq!(chip.read(Some([0xF0, 0x00, 0, 0, 0, 0])), Err(MagError::Overflow));
    assert_eq!(chip.read(Some([0, 1, 0, 2, 0, 3])).unwrap().raw, [1, 3, 2]);
}

// ---- IST8310 ----

#[test]
fn avgcntl_matches_the_datasheet_recommendation() {
    assert_eq!(ist8310::AVGCNTL_RUN, 0x24, "got 0x{:02X}", ist8310::AVGCNTL_RUN);
    assert_eq!(ist8310::avgcntl(ist8310::Average::X4, ist8310::Average::X4), 0x12);
}

#[test]
fn pdcntl_matches_the_datasheet_recommendation() {
    assert_eq!(ist8310::PDCNTL_RUN, 0xC0);
}

#[test]
fn decode_is_little_endian_x_y_z_with_z_flipped() {
    let raw = ist8310::decode_raw([0x01, 0x00, 0x02, 0x00, 0x03, 0x00]);
    assert_eq!(raw, [1, 2, -3]);
    assert_eq!(ist8310::decode_raw([0xFF, 0xFF, 0, 0, 0, 0])[0], -1);
}

#[test]
fn z_flip_saturates_at_the_i16_edge() {
    let raw = ist8310::decode_raw([0, 0, 0, 0, 0x00, 0x80]);
    assert_eq!(raw[2], i16::MAX);
}

#[test]
fn handedness_fix_has_determinant_minus_one() {
    let e = |i: usize| {
        let mut b = [0u8; 6];
        b[2 * i] = 0x01;
        ist8310::decode_raw(b)
    };
    let det = e(0)[0] as i32 * e(1)[1] as i32 * e(2)[2] as i32;
    assert_eq!(det, -1);
}

#[test]
fn ist8310_a_plausible_earth_field_decodes_to_a_plausible_magnitude() {
    let s = ist8310::decode_sample([0xA7, 0x00, 0, 0, 0, 0], Orientation::Identity);
    assert_eq!(s.raw[0], 167);
    let m = magnitude_ut(&s);
    assert!((25.0..65.0).contains(&m), "magnitude {m} uT is not an Earth field");
}

#[test]
fn full_scale_fits_in_i16() {
    assert!(2500.0 / scale(ist8310::sens_ut_per_lsb()) < 32767.0);
}

#[test]
fn addresses_cover_every_cad_combination() {
    assert_eq!(ist8310::I2C_ADDRS, [0x0C, 0x0D, 0x0E, 0x0F]);
    assert!(ist8310::I2C_ADDRS.contains(&ist8310::I2C_ADDR_DEFAULT));
}

#[test]
fn a_measurement_is_handed_out_once_the_next_is_triggered() {
    let chip = ist8310::Ist8310 { addr: 0x0E, orientation: Orientation::Identity };
    assert!(matches!(chip.read(None), ist8310::Collected::Failed));
    assert!(matches!(chip.read(Some([0; 7])), ist8310::Collected::NotReady));
    let got = || chip.read(Some([1, 1, 0, 2, 0, 3, 0]));
    assert_eq!(ist8310::Ist8310::collected(got(), true).unwrap().unwrap().raw, [1, 2, -3]);
    assert_eq!(ist8310::Ist8310::collected(got(), false), Err(MagError::I2c));
    assert_eq!(ist8310::Ist8310::collected(ist8310::Collected::NotReady, false), Ok(None));
    assert_eq!(ist8310::Ist8310::collected(ist8310::Collected::Failed, true), Err(MagError::I2c));
    assert_eq!(ist8310::Ist8310::trigger(), Step::Write { reg: 0x0A, value: 1 });
}

// ---- LIS2MDL ----

const LIS_UT: f64 = lis2mdl::SENS_UT_HUNDREDTHS_PER_LSB as f64 / 100.0;
const LIS_MGAUSS: f64 = lis2mdl::SENS_MGAUSS_TENTHS_PER_LSB as f64 / 10.0;

#[test]
fn sensitivity_constants_consistent() {
    assert!((LIS_UT - LIS_MGAUSS * 0.1).abs() < 1e-6);
}

#[test]
fn full_scale_lsb_matches_datasheet() {
    let span_mgauss = 32768.0 * LIS_MGAUSS;
    assert!((span_mgauss - 49152.0).abs() < 1.0, "span={span_mgauss}");
}

#[test]
fn cfg_a_bits_match_intent() {
    assert_eq!(lis2mdl::CFG_A_RUN_HR_100HZ & 0x80, 0x80);
    assert_eq!(lis2mdl::CFG_A_RUN_HR_100HZ & 0x10, 0x00);
    assert_eq!(lis2mdl::CFG_A_RUN_HR_100HZ & 0x0C, 0x0C);
    assert_eq!(lis2mdl::CFG_A_RUN_HR_100HZ & 0x03, 0x00);
}

#[test]
fn cfg_b_enables_offcanc_and_lpf() {
    assert_eq!(lis2mdl::CFG_B_OFFCANC_LPF & 0x02, 0x02);
    assert_eq!(lis2mdl::CFG_B_OFFCANC_LPF & 0x01, 0x01);
}

#[test]
fn orientation_signs_unit_magnitude() {
    for o in [
        lis2mdl::Orientation::Identity,
        lis2mdl::Orientation::Roll180,
        lis2mdl::Orientation::Pitch180,
        lis2mdl::Orientation::Yaw180,
    ] {
        for s in o.sign() {
            assert_eq!(s.abs(), 1);
        }
    }
}

#[test]
fn sample_applies_orientation_sign() {
    let s = lis2mdl::MagSample {
        raw: [100, 200, 300],
        orientation: lis2mdl::Orientation::Roll180,
    };
    let ut = values(s.ut());
    assert!((ut[0] - 100.0 * LIS_UT).abs() < 1e-6);
    assert!((ut[1] + 200.0 * LIS_UT).abs() < 1e-6);
    assert!((ut[2] + 300.0 * LIS_UT).abs() < 1e-6);
    assert_eq!(values(s.ut_sensor()), [15.0, 30.0, 45.0]);
    assert_eq!(values(s.mgauss()), [150.0, -300.0, -450.0]);
}

#[test]
fn lis2mdl_reads_words_low_byte_first() {
    let chip = lis2mdl::Lis2mdl { addr: 0x1E, orientation: lis2mdl::Orientation::Identity };
    assert_eq!(chip.read(None), Err(lis2mdl::InitError::I2c));
    assert_eq!(chip.read(Some([1, 0, 0xFF, 0xFF, 0, 0x80])).unwrap().raw, [1, -1, -32768]);
    assert_eq!(value(lis2mdl::Lis2mdl::read_temp_c(Some([8, 0])).unwrap()), 1.0);
    assert_eq!(lis2mdl::Lis2mdl::data_ready(Some(0x08)), Ok(true));
    assert_eq!(lis2mdl::Lis2mdl::data_ready(Some(0xF7)), Ok(false));
    assert_eq!(lis2mdl::Lis2mdl::data_ready(None), Err(lis2mdl::InitError::I2c));
    assert_eq!(
        lis2mdl::step_failure(StepError::WrongId(0x3D)),
        lis2mdl::InitError::WhoAmIMismatch(0x3D)
    );
}

// ---- Common magnetometer code ----

/// Where the basis vectors land.
fn matrix(f: impl Fn([i32; 3]) -> [i32; 3]) -> [[i32; 3]; 3] {
    [f([1, 0, 0]), f([0, 1, 0]), f([0, 0, 1])]
}

fn matrix_of(o: Orientation) -> [[i32; 3]; 3] {
    matrix(|v| o.apply(v))
}

fn det(m: [[i32; 3]; 3]) -> i32 {
    let [a, b, c] = m;
    a[0] * (b[1] * c[2] - b[2] * c[1]) - a[1] * (b[0] * c[2] - b[2] * c[0])
        + a[2] * (b[0] * c[1] - b[1] * c[0])
}

#[test]
fn scale_is_applied_per_axis() {
    let s = MagSample::new([100, -200, 300], TENTH, Orientation::Identity);
    let ut = values(s.ut());
    assert!((ut[0] - 10.0).abs() < 1e-6);
    assert!((ut[1] + 20.0).abs() < 1e-6);
    assert!((ut[2] - 30.0).abs() < 1e-6);
}

#[test]
fn orientation_reaches_the_sample() {
    let raw = [100, 200, 300];
    let ident = values(MagSample::new(raw, UNIT, Orientation::Identity).ut());
    let roll = values(MagSample::new(raw, UNIT, Orientation::Roll180).ut());
    let yaw90 = values(MagSample::new(raw, UNIT, Orientation::Yaw90).ut());
    assert_eq!(ident, [100.0, 200.0, 300.0]);
    assert_eq!(roll, [100.0, -200.0, -300.0]);
    assert_eq!(yaw90, [-200.0, 100.0, 300.0]);
}

#[test]
fn the_betaflight_alignment_table_is_what_the_docs_claim() {
    let v = [2, 3, 5];
    let [x, y, z] = v;
    for (o, want, name) in [
        (Orientation::Identity, [x, y, z], "CW0"),
        (Orientation::Yaw90, [-y, x, z], "CW90"),
        (Orientation::Yaw180, [-x, -y, z], "CW180"),
        (Orientation::Yaw270, [y, -x, z], "CW270"),
        (Orientation::Pitch180, [-x, y, -z], "CW0FLIP"),
        (Orientation::Yaw90Flip, [y, x, -z], "CW90FLIP"),
        (Orientation::Roll180, [x, -y, -z], "CW180FLIP"),
        (Orientation::Yaw270Flip, [-y, -x, -z], "CW270FLIP"),
    ] {
        assert_eq!(o.apply(v), want, "{name} ({o:?})");
    }

    let cw180flip = matrix(|v| Orientation::Pitch180.apply(Orientation::Yaw180.apply(v)));
    assert_eq!(cw180flip, matrix_of(Orientation::Roll180));
    assert_ne!(cw180flip, matrix_of(Orientation::Pitch180));
}

#[test]
fn every_orientation_is_a_proper_rotation() {
    for o in Orientation::all() {
        let d = det(matrix_of(o));
        assert_eq!(d, 1, "{o:?} has determinant {d}, not +1");
    }
}

#[test]
fn the_variants_are_closed_under_composition() {
    for a in Orientation::all() {
        for b in Orientation::all() {
            let c = matrix(|v| a.apply(b.apply(v)));
            assert!(
                Orientation::all().iter().any(|&o| matrix_of(o) == c),
                "{a:?} * {b:?} escaped the enum",
            );
        }
    }
}

#[test]
fn all_eight_are_distinct() {
    let all = Orientation::all();
    for (i, &a) in all.iter().enumerate() {
        for &b in &all[i + 1..] {
            assert_ne!(matrix_of(a), matrix_of(b), "{a:?} and {b:?} are the same rotation");
        }
    }
}

#[test]
fn the_sign_flip_variants_are_the_complete_diagonal_set() {
    let mut found = 0;
    for sx in [1, -1] {
        for sy in [1, -1] {
            for sz in [1, -1] {
                if sx * sy * sz < 0 {
                    continue;
                }
                let want = [[sx, 0, 0], [0, sy, 0], [0, 0, sz]];
                assert!(
                    Orientation::all().iter().any(|&o| matrix_of(o) == want),
                    "proper sign flip [{sx}, {sy}, {sz}] has no variant",
                );
                found += 1;
            }
        }
    }
    assert_eq!(found, 4);
}

#[test]
fn exactly_the_odd_yaw_steps_swap_xy() {
    for o in Orientation::all() {
        let m = matrix_of(o);
        let diagonal = m[0][1] == 0 && m[1][0] == 0;
        assert_eq!(!diagonal, o.swaps_xy(), "{o:?}");
    }
    assert_eq!(Orientation::all().iter().filter(|o| o.swaps_xy()).count(), 4);
}

#[test]
fn magnitude_ignores_mounting() {
    let raw = [300, -400, 0];
    let base = MagSample::new(raw, TENTH, Orientation::Identity);
    assert!((magnitude_ut(&base) - 50.0).abs() < 1e-4);
    for o in Orientation::all() {
        let s = MagSample::new(raw, TENTH, o);
        assert!(
            (magnitude_ut(&s) - magnitude_ut(&base)).abs() < 1e-6,
            "{o:?} changed the magnitude",
        );
    }
}

#[test]
fn mgauss_is_ten_times_microtesla() {
    let s = MagSample::new([1000, 0, 0], Scale { num: 1, den: 20 }, Orientation::Identity);
    assert!((value(s.ut()[0]) - 50.0).abs() < 1e-6);
    assert!((value(s.mgauss()[0]) - 500.0).abs() < 1e-4);
}

#[test]
fn ut_sensor_ignores_mounting() {
    let raw = [100, 200, 300];
    for o in Orientation::all() {
        let s = MagSample::new(raw, Scale { num: 1, den: 2 }, o);
        assert_eq!(values(s.ut_sensor()), [50.0, 100.0, 150.0], "{o:?}");
    }
}

#[test]
fn addresses_are_described() {
    assert_eq!(describe_addr(0x1E), "LIS2MDL or HMC5883L");
    assert_eq!(describe_addr(0x0D), "QMC5883L or IST8310");
    assert_eq!(describe_addr(0x2C), "QMC5883P");
    assert_eq!(describe_addr(0x2B), "BNO055 / AK09916 range");
    assert_eq!(describe_addr(0x50), "unknown");
    assert_eq!(mag::step_failure(StepError::NotHeld), MagError::NotResponding);
}

// ---- QMC5883L ----

#[test]
fn ctrl1_matches_the_datasheet_worked_example() {
    assert_eq!(qmc5883l::CTRL1_RUN, 0x1D, "got 0x{:02X}", qmc5883l::CTRL1_RUN);
}

#[test]
fn ctrl1_fields_land_in_the_right_bits() {
    assert_eq!(
        qmc5883l::ctrl1(
            qmc5883l::Osr::X512,
            qmc5883l::Range::G2,
            qmc5883l::Odr::Hz10,
            qmc5883l::Mode::Standby,
        ),
        0x00
    );
    assert_eq!(
        qmc5883l::ctrl1(
            qmc5883l::Osr::X512,
            qmc5883l::Range::G2,
            qmc5883l::Odr::Hz10,
            qmc5883l::Mode::Continuous,
        ),
        0x01
    );
    assert_eq!(
        qmc5883l::ctrl1(
            qmc5883l::Osr::X512,
            qmc5883l::Range::G2,
            qmc5883l::Odr::Hz200,
            qmc5883l::Mode::Standby,
        ),
        0x0C
    );
    assert_eq!(
        qmc5883l::ctrl1(
            qmc5883l::Osr::X512,
            qmc5883l::Range::G8,
            qmc5883l::Odr::Hz10,
            qmc5883l::Mode::Standby,
        ),
        0x10
    );
    assert_eq!(
        qmc5883l::ctrl1(
            qmc5883l::Osr::X64,
            qmc5883l::Range::G2,
            qmc5883l::Odr::Hz10,
            qmc5883l::Mode::Standby,
        ),
        0xC0
    );
}

#[test]
fn ctrl2_disables_the_interrupt_pin_by_setting_the_bit() {
    assert_eq!(qmc5883l::CTRL2_RUN & 0x01, 0x01);
    assert_eq!(qmc5883l::CTRL2_RUN & 0x80, 0x00);
}

#[test]
fn qmc5883l_range_scales_match_the_datasheet() {
    assert!((scale(qmc5883l::Range::G2.ut_per_lsb()) - 0.008333).abs() < 1e-6);
    assert!((scale(qmc5883l::Range::G8.ut_per_lsb()) - 0.033333).abs() < 1e-6);
    let fs = 32768.0 * scale(qmc5883l::Range::G8.ut_per_lsb());
    assert!((fs - 1092.0).abs() < 2.0, "fs={fs}");
}

#[test]
fn qmc5883l_decode_is_little_endian_twos_complement() {
    let raw = qmc5883l::decode_raw([0x01, 0x00, 0xFF, 0xFF, 0x00, 0x80]);
    assert_eq!(raw, [1, -1, -32768]);
}

#[test]
fn qmc5883l_a_plausible_earth_field_decodes_to_a_plausible_magnitude() {
    let s = qmc5883l::decode_sample([0xDC, 0x05, 0, 0, 0, 0], Orientation::Identity);
    assert_eq!(s.raw[0], 1500);
    let m = magnitude_ut(&s);
    assert!((25.0..65.0).contains(&m), "magnitude {m} uT is not an Earth field");
}

#[test]
fn qmc5883l_orientation_reaches_the_decoded_sample() {
    let buf = [0xDC, 0x05, 0, 0, 0, 0];
    let a = values(qmc5883l::decode_sample(buf, Orientation::Identity).ut());
    let b = values(qmc5883l::decode_sample(buf, Orientation::Yaw180).ut());
    assert!((a[0] + b[0]).abs() < 1e-6, "Yaw180 must negate X");
}

#[test]
fn qmc5883l_status_bits_are_distinct() {
    assert_eq!(qmc5883l::STATUS_DRDY | qmc5883l::STATUS_OVL | qmc5883l::STATUS_DOR, 0b111);
}

// ---- QMC5883P ----

#[test]
fn conf1_matches_the_datasheet_worked_example() {
    assert_eq!(qmc5883p::CONF1_RUN, 0xCD, "got 0x{:02X}", qmc5883p::CONF1_RUN);
}

#[test]
fn conf2_matches_the_datasheet_worked_example() {
    assert_eq!(qmc5883p::CONF2_RUN, 0x08, "got 0x{:02X}", qmc5883p::CONF2_RUN);
    assert_eq!(qmc5883p::CONF2_RUN & 0xC0, 0x00);
}

#[test]
fn conf1_fields_land_in_the_right_bits() {
    assert_eq!(
        qmc5883p::conf1(
            qmc5883p::Osr2::X1,
            qmc5883p::Osr1::X8,
            qmc5883p::Odr::Hz10,
            qmc5883p::Mode::Suspend,
        ),
        0x00
    );
    assert_eq!(
        qmc5883p::conf1(
            qmc5883p::Osr2::X1,
            qmc5883p::Osr1::X8,
            qmc5883p::Odr::Hz10,
            qmc5883p::Mode::Continuous,
        ),
        0x03
    );
    assert_eq!(
        qmc5883p::conf1(
            qmc5883p::Osr2::X1,
            qmc5883p::Osr1::X8,
            qmc5883p::Odr::Hz200,
            qmc5883p::Mode::Suspend,
        ),
        0x0C
    );
    assert_eq!(
        qmc5883p::conf1(
            qmc5883p::Osr2::X1,
            qmc5883p::Osr1::X1,
            qmc5883p::Odr::Hz10,
            qmc5883p::Mode::Suspend,
        ),
        0x30
    );
    assert_eq!(
        qmc5883p::conf1(
            qmc5883p::Osr2::X8,
            qmc5883p::Osr1::X8,
            qmc5883p::Odr::Hz10,
            qmc5883p::Mode::Suspend,
        ),
        0xC0
    );
}

#[test]
fn conf2_fields_land_in_the_right_bits() {
    assert_eq!(qmc5883p::conf2(qmc5883p::Range::G30, qmc5883p::SetReset::SetAndResetOn), 0x00);
    assert_eq!(qmc5883p::conf2(qmc5883p::Range::G12, qmc5883p::SetReset::SetAndResetOn), 0x04);
    assert_eq!(qmc5883p::conf2(qmc5883p::Range::G8, qmc5883p::SetReset::SetAndResetOn), 0x08);
    assert_eq!(qmc5883p::conf2(qmc5883p::Range::G2, qmc5883p::SetReset::SetAndResetOn), 0x0C);
    assert_eq!(qmc5883p::conf2(qmc5883p::Range::G30, qmc5883p::SetReset::SetOnlyOn), 0x01);
    assert_eq!(qmc5883p::conf2(qmc5883p::Range::G30, qmc5883p::SetReset::SetAndResetOff), 0x02);
}

#[test]
fn qmc5883p_range_scales_match_the_datasheet() {
    assert!((scale(qmc5883p::Range::G30.ut_per_lsb()) - 0.1).abs() < 1e-6);
    assert!((scale(qmc5883p::Range::G12.ut_per_lsb()) - 0.04).abs() < 1e-6);
    assert!((scale(qmc5883p::Range::G8.ut_per_lsb()) - 0.0266667).abs() < 1e-6);
    assert!((scale(qmc5883p::Range::G2.ut_per_lsb()) - 0.0066667).abs() < 1e-6);
}

#[test]
fn the_p_does_not_share_the_ls_sensitivity() {
    let l_8g = 100.0 / 3000.0;
    assert!((scale(qmc5883p::CFG_RANGE.ut_per_lsb()) - l_8g).abs() > 1e-3);
}

#[test]
fn full_scale_reaches_the_nominal_range() {
    let fs = qmc5883p::OVFL_COUNT_LIMIT as f64 * scale(qmc5883p::Range::G8.ut_per_lsb());
    assert!((fs - 800.0).abs() < 0.5, "fs={fs}");
}

#[test]
fn qmc5883p_decode_is_little_endian_twos_complement() {
    let raw = qmc5883p::decode_raw([0x01, 0x00, 0xFF, 0xFF, 0x00, 0x80]);
    assert_eq!(raw, [1, -1, -32768]);
}

#[test]
fn saturated_samples_are_rejected_not_clamped() {
    let ok = [0x30, 0x75, 0, 0, 0, 0];
    assert_eq!(qmc5883p::decode_raw(ok)[0], 30000);
    assert!(qmc5883p::decode_sample(ok, Orientation::Identity).is_some());

    let over = [0x31, 0x75, 0, 0, 0, 0];
    assert!(qmc5883p::decode_sample(over, Orientation::Identity).is_none());

    let under = [0xCF, 0x8A, 0, 0, 0, 0];
    assert_eq!(qmc5883p::decode_raw(under)[0], -30001);
    assert!(qmc5883p::decode_sample(under, Orientation::Identity).is_none());

    let over_z = [0, 0, 0, 0, 0x31, 0x75];
    assert!(qmc5883p::decode_sample(over_z, Orientation::Identity).is_none());
}

#[test]
fn qmc5883p_a_plausible_earth_field_decodes_to_a_plausible_magnitude() {
    let s = qmc5883p::decode_sample([0x53, 0x07, 0, 0, 0, 0], Orientation::Identity).unwrap();
    assert_eq!(s.raw[0], 1875);
    let m = magnitude_ut(&s);
    assert!((25.0..65.0).contains(&m), "magnitude {m} uT is not an Earth field");
}

#[test]
fn qmc5883p_orientation_reaches_the_decoded_sample() {
    let buf = [0x53, 0x07, 0, 0, 0, 0];
    let a = values(qmc5883p::decode_sample(buf, Orientation::Identity).unwrap().ut());
    let b = values(qmc5883p::decode_sample(buf, Orientation::Yaw180).unwrap().ut());
    assert!((a[0] + b[0]).abs() < 1e-6, "Yaw180 must negate X");
}

#[test]
fn qmc5883p_status_bits_are_distinct() {
    assert_eq!(qmc5883p::STATUS_DRDY | qmc5883p::STATUS_OVFL, 0b11);
}

#[test]
fn the_address_is_not_one_of_the_other_mags() {
    assert_ne!(qmc5883p::I2C_ADDR, mag::QMC5883L_ADDR);
    assert_ne!(qmc5883p::I2C_ADDR, mag::LIS2MDL_OR_HMC5883L_ADDR);
    assert!(!mag::IST8310_ADDRS.contains(&qmc5883p::I2C_ADDR));
}

#[test]
fn an_overflowed_read_is_an_error() {
    let p = qmc5883p::Qmc5883p { addr: 0x2C, orientation: Orientation::Identity };
    assert_eq!(p.read(Some([0x31, 0x75, 0, 0, 0, 0])), Err(MagError::Overflow));
    assert_eq!(p.read(None), Err(MagError::I2c));
    let l = qmc5883l::Qmc5883l { addr: 0x0D, orientation: Orientation::Identity };
    assert_eq!(l.read(None), Err(MagError::I2c));
    assert_eq!(qmc5883l::Qmc5883l::read_temp_c_relative(None), Err(MagError::I2c));
}

// ---- Walking a configuration ----

/// Walks a chip's configuration with a chip that holds what is written and has
/// an identity; returns how it ended.
fn walk(steps: Vec<Step>, id: u8, fail_at: Option<usize>) -> Next {
    let (mut walk, mut next) = BringUp::new(steps);
    let mut regs = [0u8; 256];
    let mut n = 0;
    loop {
        let answer = match next {
            Next::Perform(Step::Write { reg, value }) => {
                regs[reg as usize] = value;
                0
            }
            Next::Perform(Step::Confirm { reg, .. }) => regs[reg as usize],
            Next::Perform(Step::Identify { .. }) => id,
            Next::Perform(_) => 0,
            end => return end,
        };
        next = walk.answered(if fail_at == Some(n) { None } else { Some(answer) });
        n += 1;
    }
}

#[test]
fn configurations_run_to_the_end() {
    assert_eq!(walk(Icm42688::new(), icm42688::WHO_AM_I_VALUE, None), Next::Ready);
    assert_eq!(walk(mpu6000::Mpu6000::new(), mpu6000::WHO_AM_I_VALUE, None), Next::Ready);
    assert_eq!(
        walk(ism6hg256x::Ism6hg256x::new(), ism6hg256x::WHO_AM_I_VALUE, None),
        Next::Ready
    );
    assert_eq!(walk(lis2mdl::Lis2mdl::init(), lis2mdl::WHO_AM_I_VALUE, None), Next::Ready);
    assert_eq!(walk(ist8310::Ist8310::init(), ist8310::WAI_VALUE, None), Next::Ready);
    assert_eq!(walk(qmc5883p::Qmc5883p::init(), qmc5883p::CHIP_ID_VALUE, None), Next::Ready);
    assert_eq!(walk(Vec::new(), 0, None), Next::Ready);
}

#[test]
fn a_strange_chip_or_a_dead_bus_ends_the_walk() {
    assert_eq!(walk(Icm42688::new(), 0x12, None), Next::Failed(StepError::WrongId(0x12)));
    assert_eq!(
        walk(Icm42688::new(), icm42688::WHO_AM_I_VALUE, Some(4)),
        Next::Failed(StepError::Bus)
    );
    let steps = vec![Step::Write { reg: 1, value: 2 }, Step::Confirm { reg: 1, value: 3 }];
    assert_eq!(walk(steps, 0, None), Next::Failed(StepError::NotHeld));
    assert_eq!(
        icm42688::step_failure(StepError::WrongId(0x12)),
        icm42688::InitError::WhoAmIMismatch(0x12)
    );
    assert_eq!(icm42688::step_failure(StepError::Bus), icm42688::InitError::Spi);
}

// ---- Inertial sensors ----

fn imu(accel: [i16; 3], gyro: [i16; 3], temp: i16, orientation: icm42688::Orientation) -> RawImu {
    RawImu { accel, gyro, temp, orientation }
}

#[test]
fn icm_block_is_temperature_then_acceleration_then_rates() {
    let chip = Icm42688 { orientation: icm42688::Orientation::Identity };
    let d = [0, 1, 0, 2, 0, 3, 0, 4, 0, 5, 0, 6, 0xFF, 0xFF];
    let r = chip.read_raw(Some(d)).unwrap();
    assert_eq!(r.temp, 1);
    assert_eq!(r.accel, [2, 3, 4]);
    assert_eq!(r.gyro, [5, 6, -1]);
    assert!(chip.read_raw(None).is_err());
}

#[test]
fn icm_units_follow_the_ranges() {
    let r = imu([2048, 0, -2048], [16384, 0, 0], 0, icm42688::Orientation::Roll180);
    assert_eq!(values(r.accel_g()), [1.0, 0.0, 1.0]);
    assert_eq!(values(r.accel_g_sensor()), [1.0, 0.0, -1.0]);
    assert_eq!(value(r.gyro_dps()[0]), 1000.0);
    assert_eq!(value(r.gyro_dps_sensor()[0]), 1000.0);
    assert_eq!(value(r.temp_c()), 25.0);
}

#[test]
fn averaging_undoes_both_mountings() {
    let a = imu([100, 10, 30], [2, 4, 6], 10, icm42688::Orientation::Identity);
    let b = imu([100, -10, -30], [2, -4, -6], 20, icm42688::Orientation::Roll180);
    let m = RawImu::averaged(&a, &b);
    assert_eq!(m.accel, [100, 10, 30]);
    assert_eq!(m.gyro, [2, 4, 6]);
    assert_eq!(m.temp, 15);
    assert_eq!(m.orientation, icm42688::Orientation::Identity);
}

#[test]
fn mpu_temperature_is_in_the_other_chips_counts() {
    assert_eq!(mpu6000::convert_temp(0), 1527);
    assert_eq!(mpu6000::convert_temp(-3920), 0);
    let chip = mpu6000::Mpu6000 { orientation: icm42688::Orientation::Identity };
    let d = [0, 1, 0, 2, 0, 3, 0, 0, 0, 5, 0, 6, 0, 7];
    let r = chip.read_raw(Some(d)).unwrap();
    assert_eq!((r.accel, r.gyro, r.temp), ([1, 2, 3], [5, 6, 7], 1527));
}

#[test]
fn ism_words_are_low_byte_first() {
    let chip = ism6hg256x::Ism6hg256x { orientation: ism6hg256x::Orientation::Yaw180 };
    let mut d = [0u8; 14];
    d[0] = 0;
    d[1] = 1;
    d[2] = 0xE8;
    d[3] = 0x03;
    d[8] = 0x00;
    d[9] = 0x08;
    let r = chip.read_raw(Some(d)).unwrap();
    assert_eq!(r.temp, 256);
    assert_eq!(value(r.temp_c()), 26.0);
    assert_eq!(values(r.gyro_dps()), [-140.0, 0.0, 0.0]);
    assert_eq!(values(r.accel_g()), [-1.0, 0.0, 0.0]);
}

#[test]
fn board_orientations_turn_two_axes() {
    assert_eq!(orientation::Orientation::Roll180.apply([1, 2, 3]), [1, -2, -3]);
    assert_eq!(orientation::Orientation::Pitch180.apply([1, 2, 3]), [-1, 2, -3]);
    assert_eq!(orientation::Orientation::Identity.apply([1, 2, 3]), [1, 2, 3]);
}

// ---- Barometer ----

#[test]
fn sign_extend_positive() {
    assert_eq!(sign_extend(0x7FF, 12), 2047);
    assert_eq!(sign_extend(0x000, 12), 0);
}

#[test]
fn sign_extend_negative() {
    assert_eq!(sign_extend(0x800, 12), -2048);
    assert_eq!(sign_extend(0xFFF, 12), -1);
}

#[test]
fn sign_extend_24bit() {
    assert_eq!(sign_extend_24(0x7FFFFF), 8388607);
    assert_eq!(sign_extend_24(0x800000), -8388608);
    assert_eq!(sign_extend_24(0xFFFFFF), -1);
}

#[test]
fn detection_tells_the_chips_apart() {
    let none = Ids { bmp: None, dps: None };
    let dps = Ids { bmp: Some(0), dps: Some(0x10) };
    let bmp = Ids { bmp: Some(0x58), dps: Some(0) };
    let bmp388 = Ids { bmp: Some(0x50), dps: Some(0) };
    let odd = Ids { bmp: Some(0x60), dps: Some(0) };
    assert_eq!(detect_first(none), None);
    assert_eq!(detect(none, none), Err(DetectError::NotFound));
    assert_eq!(detect(none, dps), Ok(BaroChip::Dps310 { addr: 0x77 }));
    assert_eq!(detect(bmp, dps), Ok(BaroChip::Bmp280 { addr: 0x76 }));
    assert_eq!(detect(bmp388, dps), Err(DetectError::UnknownChip { addr: 0x76, id: 0x50 }));
    assert_eq!(detect(odd, none), Err(DetectError::UnknownChip { addr: 0x76, id: 0x60 }));
    assert_eq!(detect(odd, dps), Ok(BaroChip::Dps310 { addr: 0x77 }));
    assert_eq!(baro::name(BaroChip::Dps310 { addr: 0x76 }), "DPS310");
}

/// Answers a bring-up like a chip whose registers hold `status` and `source`.
fn answer(action: baro::Action, id: u8, status: u8, source: u8) -> baro::Reply {
    match action {
        baro::Action::ReadByte { reg: baro::DPS310_REG_ID } => baro::Reply::Byte(id),
        baro::Action::ReadByte { reg: baro::DPS310_REG_COEF_SRCE } => baro::Reply::Byte(source),
        baro::Action::ReadByte { .. } => baro::Reply::Byte(status),
        baro::Action::ReadBlock { .. } => baro::Reply::Block([0x11; 18]),
        _ => baro::Reply::Done,
    }
}

fn bring_up_baro(id: u8, status: u8, source: u8) -> (Dps310Init, baro::Action) {
    let (mut init, mut action) = Dps310Init::new();
    loop {
        match action {
            baro::Action::Ready | baro::Action::Failed(_) => return (init, action),
            _ => action = init.answered(answer(action, id, status, source)),
        }
    }
}

#[test]
fn baro_comes_up_with_its_temperature_source() {
    let (init, end) = bring_up_baro(0x10, 0xC0, 0x80);
    assert_eq!(end, baro::Action::Ready);
    assert!(init.chip.uses_external_tmp());
    assert_eq!(init.chip.cal, Dps310Cal::parse(&[0x11; 18]));
    let (init, _) = bring_up_baro(0x10, 0xC0, 0x00);
    assert!(!init.chip.uses_external_tmp());
}

#[test]
fn baro_bring_up_errors_are_told_apart() {
    assert_eq!(
        bring_up_baro(0x11, 0xC0, 0).1,
        baro::Action::Failed(Dps310Error::WhoAmIMismatch(0x11))
    );
    assert_eq!(bring_up_baro(0x10, 0x40, 0).1, baro::Action::Failed(Dps310Error::CoefTimeout));
    assert_eq!(bring_up_baro(0x10, 0x80, 0).1, baro::Action::Failed(Dps310Error::SensorTimeout));
    let (mut init, _) = Dps310Init::new();
    assert_eq!(init.answered(baro::Reply::Failed), baro::Action::Failed(Dps310Error::I2c));
}

#[test]
fn pressure_follows_the_polynomial() {
    let cal = Dps310Cal {
        c0: 200,
        c1: -260,
        c00: 80_000,
        c10: -50_000,
        c01: -2_000,
        c11: 1_200,
        c20: -9_000,
        c21: 150,
        c30: -1_500,
    };
    let chip = Dps310 { cal, tmp_source_bit: 0 };
    let p_raw: i32 = -200_000;
    let t_raw: i32 = 150_000;
    let p = p_raw.to_be_bytes();
    let t = t_raw.to_be_bytes();
    let s = chip.read(Some([p[1], p[2], p[3], t[1], t[2], t[3]])).unwrap();
    let kp = K_P as f64;
    let kt = K_T as f64;
    let pr = p_raw as f64 / kp;
    let tr = t_raw as f64 / kt;
    let want = 80_000.0 + pr * (-50_000.0 + pr * (-9_000.0 + pr * -1_500.0)) + tr * -2_000.0
        + tr * pr * (1_200.0 + pr * 150.0);
    let got = s.pressure_num as f64 / (kp * kp * kp * kt);
    assert!((got - want).abs() < 1e-6, "{got} {want}");
    assert!((value(s.temperature_c) - (100.0 + -260.0 * tr)).abs() < 1e-9);
    assert_eq!(chip.read(None), Err(Dps310Error::I2c));
}

#[test]
fn measurement_registers_are_packed() {
    assert_eq!(baro::measurement_cfg(baro::Rate::Hz16, baro::Osr::X16), 0x44);
    assert_eq!(baro::shift_cfg(baro::Osr::X16, baro::Osr::X1), 0x04);
    assert_eq!(baro::K_SCALE[baro::P_OSR.code() as usize] as i32, K_P);
    assert_eq!(baro::K_SCALE[baro::T_OSR.code() as usize] as i32, K_T);
}
