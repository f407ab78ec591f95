//! What the attitude filter does with each sample: how often it is corrected,
//! and how a magnetometer calibration runs alongside.

use crate::counter;
use crate::drivers::axes;
use crate::drivers::icm42688::RawImu;
use crate::drivers::lis2mdl;
use crate::drivers::lis2mdl::MagSample;
use crate::flight::blink::CalLed;
use crate::flight::navigation::CalCommand;
use crate::persist::record::Config;
use vstd::prelude::*;

verus! {

/// Samples per correction by acceleration.
pub const ACCEL_DECIMATION: u32 = 80;

/// Bounds of a prediction interval.
pub const MIN_DT_US: u64 = 50;

pub const MAX_DT_US: u64 = 2000;

/// Interval of progress reports during a calibration.
pub const CAL_LOG_MS: u64 = 500;

/// A time within the bounds of a prediction.
pub open spec fn bounded_interval(elapsed_us: int) -> int {
    if elapsed_us < MIN_DT_US {
        MIN_DT_US as int
    } else if elapsed_us > MAX_DT_US {
        MAX_DT_US as int
    } else {
        elapsed_us
    }
}

/// The interval to predict over: the time since the last prediction, within
/// bounds.
pub fn predict_interval_us(last_us: u64, now_us: u64) -> (dt: u64)
    requires
        last_us <= now_us,
    ensures
        MIN_DT_US <= dt <= MAX_DT_US,
        now_us - last_us < MIN_DT_US ==> dt == MIN_DT_US,
        now_us - last_us > MAX_DT_US ==> dt == MAX_DT_US,
        MIN_DT_US <= now_us - last_us <= MAX_DT_US ==> dt == now_us - last_us,
        dt == bounded_interval(now_us - last_us),
{
    let dt: u64 = now_us - last_us;
    if dt < MIN_DT_US {
        MIN_DT_US
    } else if dt > MAX_DT_US {
        MAX_DT_US
    } else {
        dt
    }
}

/// Whether a reading is near one g and near rest: acceleration within a tenth of
/// one g, rates below 5 °/s.
pub open spec fn is_at_rest(accel_sq: int, gyro_sq: int) -> bool {
    &&& 81 * 2048 * 2048 < 100 * accel_sq < 121 * 2048 * 2048
    &&& 1_000_000 * gyro_sq < 25 * 16384 * 16384
}

fn length_squared_of(c: [i16; 3]) -> (s: i64)
    ensures
        s == axes::length_squared(axes::counts(c@)),
        0 <= s <= 0xC000_0000,
{
    let x: i64 = c[0] as i64;
    let y: i64 = c[1] as i64;
    let z: i64 = c[2] as i64;
    assert(0 <= x * x <= 0x4000_0000 && 0 <= y * y <= 0x4000_0000 && 0 <= z * z <= 0x4000_0000)
        by (nonlinear_arith)
        requires
            -32768 <= x < 32768,
            -32768 <= y < 32768,
            -32768 <= z < 32768,
    ;
    x * x + y * y + z * z
}

/// Whether heading may be anchored: the craft is level-headed enough, near rest
/// and near one g.
pub fn mag_anchor_ready(raw: &RawImu) -> (b: bool)
    ensures
        b == is_at_rest(
            axes::length_squared(axes::counts(raw.accel@)),
            axes::length_squared(axes::counts(raw.gyro@)),
        ),
{
    let a: i64 = length_squared_of(raw.accel);
    let g: i64 = length_squared_of(raw.gyro);
    339_738_624 < 100 * a && 100 * a < 507_510_784 && 1_000_000 * g < 6_710_886_400
}

/// A field in tenths of a milligauss that stays within its slot.
pub open spec fn slot(count: int) -> int {
    if 15 * count > 32767 {
        32767
    } else if 15 * count < -32768 {
        -32768
    } else {
        15 * count
    }
}

fn slot_of(count: i16, sign: i32) -> (s: i16)
    ensures
        s == slot(lis2mdl::signed(count, sign)),
{
    let c: i32 = if sign < 0 {
        -(count as i32)
    } else {
        count as i32
    };
    let v: i32 = 15 * c;
    if v > 32767 {
        32767
    } else if v < -32768 {
        -32768
    } else {
        v as i16
    }
}

/// The field in the body frame, in tenths of a milligauss.
pub fn mag_slot(m: &MagSample) -> (s: [i16; 3])
    ensures
        forall|i: int|
            0 <= i < 3 ==> #[trigger] s@[i] == slot(
                lis2mdl::signed(m.raw@[i], m.orientation.signs()[i]),
            ),
{
    let sign: [i32; 3] = m.orientation.sign();
    [slot_of(m.raw[0], sign[0]), slot_of(m.raw[1], sign[1]), slot_of(m.raw[2], sign[2])]
}

/// What to do with a field sample.
#[derive(Clone, Copy, Debug, PartialEq, Eq, Structural)]
pub enum MagStep {
    /// Collect it for the calibration, without fusing it; report progress if
    /// `report`.
    Collect { report: bool },
    /// Seed the reference from it.
    Seed,
    /// Fuse it, after anchoring heading to it if `anchor`.
    Fuse { anchor: bool },
}

/// What a collected sample leads to.
#[derive(Clone, Copy, Debug, PartialEq, Eq)]
pub enum FitStep {
    Collecting,
    /// Use these offsets and store them.
    Complete(Config),
    /// The samples fit no sphere: keep the calibration there was.
    Fault,
}

/// Corrections in the current second.
#[derive(Clone, Copy, Debug, PartialEq, Eq, Structural)]
pub struct Corrections {
    pub samples: u32,
    pub accel_applied: u32,
    pub accel_rejected: u32,
    pub mag_applied: u32,
    pub mag_rejected: u32,
}

/// No corrections.
pub open spec fn none() -> Corrections {
    Corrections {
        samples: 0,
        accel_applied: 0,
        accel_rejected: 0,
        mag_applied: 0,
        mag_rejected: 0,
    }
}

/// State of the attitude task.
#[derive(Clone, Copy, Debug, PartialEq, Eq, Structural)]
pub struct Attitude {
    pub counts: Corrections,
    /// A calibration is running.
    pub cal_active: bool,
    /// Heading is to be anchored at the next chance.
    pub anchor_pending: bool,
    /// When progress was last reported.
    pub last_cal_log_ms: u64,
}

impl Attitude {
    /// The state after a calibration command.
    pub open spec fn after_command(self, c: CalCommand) -> Attitude {
        Attitude { cal_active: c == CalCommand::Start, ..self }
    }

    /// What to do with a field sample.
    pub open spec fn mag_step(self, seeded: bool, at_rest: bool, now_ms: u64) -> MagStep {
        if self.cal_active {
            MagStep::Collect { report: now_ms - self.last_cal_log_ms >= CAL_LOG_MS }
        } else if !seeded {
            MagStep::Seed
        } else {
            MagStep::Fuse { anchor: self.anchor_pending && at_rest }
        }
    }

    /// The state after a field sample.
    pub open spec fn after_mag(self, seeded: bool, at_rest: bool, now_ms: u64) -> Attitude {
        let step = self.mag_step(seeded, at_rest, now_ms);
        Attitude {
            last_cal_log_ms: if step == (MagStep::Collect { report: true }) {
                now_ms
            } else {
                self.last_cal_log_ms
            },
            anchor_pending: self.anchor_pending && step != (MagStep::Fuse { anchor: true }),
            ..self
        }
    }

    /// The state after a sample was collected, given whether the collection is
    /// complete and whether it fits.
    pub open spec fn after_collected(self, complete: bool, fits: bool) -> Attitude {
        if !complete {
            self
        } else {
            Attitude {
                cal_active: false,
                anchor_pending: self.anchor_pending || fits,
                ..self
            }
        }
    }

    /// The state once the stored configuration was taken.
    pub open spec fn after_stored(self, calibrated: bool) -> Attitude {
        Attitude { anchor_pending: self.anchor_pending || calibrated, ..self }
    }

    pub fn new(now_ms: u64) -> (a: Self)
        ensures
            a == (Attitude {
                counts: none(),
                cal_active: false,
                anchor_pending: false,
                last_cal_log_ms: now_ms,
            }),
    {
        Attitude {
            counts: Corrections {
                samples: 0,
                accel_applied: 0,
                accel_rejected: 0,
                mag_applied: 0,
                mag_rejected: 0,
            },
            cal_active: false,
            anchor_pending: false,
            last_cal_log_ms: now_ms,
        }
    }

    /// Takes the stored configuration. Says whether to use its offsets.
    pub fn stored(&mut self, cfg: &Config) -> (apply: bool)
        ensures
            apply == cfg.mag_calibrated,
            *final(self) == (Attitude {
                anchor_pending: old(self).anchor_pending || cfg.mag_calibrated,
                ..*old(self)
            }),
            *final(self) == old(self).after_stored(cfg.mag_calibrated),
    {
        if cfg.mag_calibrated {
            self.anchor_pending = true;
        }
        cfg.mag_calibrated
    }

    /// Takes a calibration command. Says what the light shows; a start also
    /// empties the collection.
    pub fn command(&mut self, c: CalCommand) -> (led: CalLed)
        ensures
            led == (match c {
                CalCommand::Start => CalLed::Calibrating(0),
                CalCommand::Abort => CalLed::Idle,
            }),
            *final(self) == (Attitude { cal_active: c == CalCommand::Start, ..*old(self) }),
            *final(self) == old(self).after_command(c),
    {
        match c {
            CalCommand::Start => {
                self.cal_active = true;
                CalLed::Calibrating(0)
            },
            CalCommand::Abort => {
                self.cal_active = false;
                CalLed::Idle
            },
        }
    }

    /// Whether this sample corrects by acceleration and feeds the position
    /// filter.
    pub fn corrects(&self) -> (b: bool)
        ensures
            b == (self.counts.samples % ACCEL_DECIMATION == 0),
    {
        self.counts.samples % ACCEL_DECIMATION == 0
    }

    /// Counts a correction by acceleration.
    pub fn accel_corrected(&mut self, applied: bool)
        ensures
            *final(self) == (Attitude {
                counts: if applied {
                    Corrections {
                        accel_applied: counter::next(old(self).counts.accel_applied),
                        ..old(self).counts
                    }
                } else {
                    Corrections {
                        accel_rejected: counter::next(old(self).counts.accel_rejected),
                        ..old(self).counts
                    }
                },
                ..*old(self)
            }),
    {
        if applied {
            self.counts.accel_applied = self.counts.accel_applied.wrapping_add(1);
        } else {
            self.counts.accel_rejected = self.counts.accel_rejected.wrapping_add(1);
        }
    }

    /// Takes a field sample. `seeded` says whether the filter has a reference,
    /// `at_rest` whether heading may be anchored.
    pub fn mag(&mut self, seeded: bool, at_rest: bool, now_ms: u64) -> (step: MagStep)
        requires
            old(self).last_cal_log_ms <= now_ms,
        ensures
            step == (if old(self).cal_active {
                MagStep::Collect { report: now_ms - old(self).last_cal_log_ms >= CAL_LOG_MS }
            } else if !seeded {
                MagStep::Seed
            } else {
                MagStep::Fuse { anchor: old(self).anchor_pending && at_rest }
            }),
            *final(self) == (Attitude {
                last_cal_log_ms: if step == (MagStep::Collect { report: true }) {
                    now_ms
                } else {
                    old(self).last_cal_log_ms
                },
                anchor_pending: old(self).anchor_pending && step != (MagStep::Fuse {
                    anchor: true,
                }),
                ..*old(self)
            }),
            step == old(self).mag_step(seeded, at_rest, now_ms),
            *final(self) == old(self).after_mag(seeded, at_rest, now_ms),
    {
        if self.cal_active {
            let report: bool = now_ms - self.last_cal_log_ms >= CAL_LOG_MS;
            if report {
                self.last_cal_log_ms = now_ms;
            }
            return MagStep::Collect { report };
        }
        if !seeded {
            return MagStep::Seed;
        }
        let anchor: bool = self.anchor_pending && at_rest;
        if anchor {
            self.anchor_pending = false;
        }
        MagStep::Fuse { anchor }
    }

    /// Takes what the collection amounts to: whether it is complete, and the
    /// offsets of the fit if there is one.
    pub fn collected(
        &mut self,
        complete: bool,
        fit: Option<[u32; 3]>,
        declination_rad: u32,
    ) -> (step: FitStep)
        requires
            old(self).cal_active,
        ensures
            !complete ==> step is Collecting && *final(self) == *old(self),
            complete && fit is None ==> step is Fault && *final(self) == (Attitude {
                cal_active: false,
                ..*old(self)
            }),
            complete && fit is Some ==> {
                &&& step matches FitStep::Complete(cfg) && cfg.mag_hard_iron_ut == fit->0
                    && cfg.declination_rad == declination_rad && cfg.mag_calibrated
                &&& *final(self) == (Attitude {
                    cal_active: false,
                    anchor_pending: true,
                    ..*old(self)
                })
            },
            *final(self) == old(self).after_collected(complete, fit is Some),
    {
        if !complete {
            return FitStep::Collecting;
        }
        self.cal_active = false;
        match fit {
            Some(offset) => {
                self.anchor_pending = true;
                FitStep::Complete(
                    Config { mag_hard_iron_ut: offset, declination_rad, mag_calibrated: true },
                )
            },
            None => FitStep::Fault,
        }
    }

    /// Counts a fused field sample.
    pub fn mag_fused(&mut self, applied: bool)
        ensures
            *final(self) == (Attitude {
                counts: if applied {
                    Corrections {
                        mag_applied: counter::next(old(self).counts.mag_applied),
                        ..old(self).counts
                    }
                } else {
                    Corrections {
                        mag_rejected: counter::next(old(self).counts.mag_rejected),
                        ..old(self).counts
                    }
                },
                ..*old(self)
            }),
    {
        if applied {
            self.counts.mag_applied = self.counts.mag_applied.wrapping_add(1);
        } else {
            self.counts.mag_rejected = self.counts.mag_rejected.wrapping_add(1);
        }
    }

    /// Counts the sample.
    pub fn sampled(&mut self)
        ensures
            *final(self) == (Attitude {
                counts: Corrections {
                    samples: counter::next(old(self).counts.samples),
                    ..old(self).counts
                },
                ..*old(self)
            }),
    {
        self.counts.samples = self.counts.samples.wrapping_add(1);
    }

    /// Starts the next second and gives the last one's counts.
    pub fn take_counts(&mut self) -> (c: Corrections)
        ensures
            c == old(self).counts,
            *final(self) == (Attitude { counts: none(), ..*old(self) }),
    {
        let c: Corrections = self.counts;
        self.counts = Corrections {
            samples: 0,
            accel_applied: 0,
            accel_rejected: 0,
            mag_applied: 0,
            mag_rejected: 0,
        };
        c
    }
}

// ---- Laws ----

/// Rest does not depend on how the sensor is mounted.
pub proof fn law_rest_ignores_mounting(raw: RawImu)
    ensures
        axes::length_squared(raw.orientation.rotated(axes::counts(raw.accel@)))
            == axes::length_squared(axes::counts(raw.accel@)),
{
    let v = axes::counts(raw.accel@);
    let (x, y, z) = (v.x, v.y, v.z);
    assert((-x) * (-x) == x * x) by (nonlinear_arith);
    assert((-y) * (-y) == y * y) by (nonlinear_arith);
    assert((-z) * (-z) == z * z) by (nonlinear_arith);
}

/// Of any eighty samples in a row within a second, one corrects by acceleration.
pub proof fn law_one_sample_in_eighty_corrects(n: u32) -> (k: u32)
    requires
        n + ACCEL_DECIMATION <= u32::MAX,
    ensures
        is_correction_in(n, k),
{
    let r = n % ACCEL_DECIMATION;
    if r == 0 {
        n
    } else {
        (n + (ACCEL_DECIMATION - r)) as u32
    }
}

/// Of any eighty samples in a row within a second, no two correct by
/// acceleration.
pub proof fn law_no_two_samples_in_eighty_correct(n: u32, j: u32, k: u32)
    requires
        is_correction_in(n, j),
        is_correction_in(n, k),
    ensures
        j == k,
{
}

/// Whether sample `k` is one of the eighty from `n` on and corrects.
pub open spec fn is_correction_in(n: u32, k: u32) -> bool {
    n <= k < n + ACCEL_DECIMATION && k % ACCEL_DECIMATION == 0
}

/// A prediction covers the time that passed, but no less than 50 microseconds and no
/// more than two milliseconds.
pub proof fn law_prediction_interval(elapsed_us: int)
    ensures
        50 <= bounded_interval(elapsed_us) <= 2000,
        50 <= elapsed_us <= 2000 ==> bounded_interval(elapsed_us) == elapsed_us,
        elapsed_us < 50 ==> bounded_interval(elapsed_us) == 50,
        elapsed_us > 2000 ==> bounded_interval(elapsed_us) == 2000,
{
}

/// The craft is at rest when acceleration is within a tenth of one g, 2048 counts, and
/// rates are below 5 degrees per second, 16384 counts to a thousand.
pub proof fn law_rest(a: int, w: int)
    requires
        a >= 0,
        w >= 0,
    ensures
        is_at_rest(a * a, w * w) <==> 9 * 2048 < 10 * a < 11 * 2048 && 1000 * w < 5 * 16384,
{
    assert(100 * (a * a) == (10 * a) * (10 * a)) by (nonlinear_arith);
    assert(1_000_000 * (w * w) == (1000 * w) * (1000 * w)) by (nonlinear_arith);
    lemma_squares_are_ordered(18432, 10 * a);
    lemma_squares_are_ordered(10 * a, 22528);
    lemma_squares_are_ordered(1000 * w, 81920);
}

proof fn lemma_squares_are_ordered(x: int, y: int)
    requires
        x >= 0,
        y >= 0,
    ensures
        x * x < y * y <==> x < y,
{
    if x < y {
        assert(x * x < y * y) by (nonlinear_arith)
            requires
                0 <= x < y,
        ;
    } else {
        assert(x * x >= y * y) by (nonlinear_arith)
            requires
                0 <= y <= x,
        ;
    }
}

/// A count is one and a half milligauss: twice the slot is thirty times the count,
/// as long as a slot can hold it, and the nearest that one can hold beyond.
pub proof fn law_field_slot(count: int)
    ensures
        -2184 <= count <= 2184 ==> 2 * slot(count) == 30 * count,
        count > 2184 ==> slot(count) == 32767,
        count < -2184 ==> slot(count) == -32768,
{
}

/// While a calibration runs, samples are collected and none is fused, whatever else
/// holds; it runs from the start to an abort or to a complete collection.
pub proof fn law_calibration_collects(
    a: Attitude,
    seeded: bool,
    at_rest: bool,
    fits: bool,
    now_ms: u64,
)
    ensures
        a.after_command(CalCommand::Start).mag_step(seeded, at_rest, now_ms) is Collect,
        !(a.after_command(CalCommand::Abort).mag_step(seeded, at_rest, now_ms) is Collect),
        !(a.after_collected(true, fits).mag_step(seeded, at_rest, now_ms) is Collect),
        a.cal_active ==> a.after_collected(false, fits).mag_step(seeded, at_rest, now_ms)
            is Collect,
        a.cal_active ==> a.after_mag(seeded, at_rest, now_ms).cal_active,
        a.cal_active && !(a.mag_step(seeded, at_rest, now_ms) == (MagStep::Collect {
            report: true,
        })) ==> a.after_mag(seeded, at_rest, now_ms) == a,
{
}

/// Heading is anchored once, at rest, after a calibration that fits or a stored one:
/// it stays due until then and is not due again afterwards.
pub proof fn law_heading_is_anchored_once(a: Attitude, at_rest: bool, now_ms: u64)
    requires
        !a.cal_active,
    ensures
        a.after_stored(true).mag_step(true, true, now_ms) == (MagStep::Fuse { anchor: true }),
        a.after_stored(false) == a,
        a.after_collected(true, true).mag_step(true, true, now_ms) == (MagStep::Fuse {
            anchor: true,
        }),
        a.after_collected(true, false).anchor_pending == a.anchor_pending,
        a.mag_step(true, false, now_ms) == (MagStep::Fuse { anchor: false }),
        a.after_mag(true, false, now_ms) == a,
        !a.after_mag(true, true, now_ms).anchor_pending,
        a.after_mag(true, true, now_ms).mag_step(true, at_rest, now_ms) == (MagStep::Fuse {
            anchor: false,
        }),
        a.mag_step(false, at_rest, now_ms) == MagStep::Seed,
        a.after_mag(false, at_rest, now_ms) == a,
{
}

/// Progress is reported when half a second has passed since the last report.
pub proof fn law_progress_twice_a_second(a: Attitude, seeded: bool, at_rest: bool, now_ms: u64)
    requires
        a.cal_active,
        a.last_cal_log_ms <= now_ms,
    ensures
        a.mag_step(seeded, at_rest, now_ms) == (MagStep::Collect {
            report: now_ms - a.last_cal_log_ms >= 500,
        }),
        now_ms - a.last_cal_log_ms >= 500 ==> a.after_mag(
            seeded,
            at_rest,
            now_ms,
        ).last_cal_log_ms == now_ms,
{
}

/// A second starts with nothing counted.
pub proof fn law_nothing_counted()
    ensures
        none().samples + none().accel_applied + none().accel_rejected + none().mag_applied
            + none().mag_rejected == 0,
{
}

} // verus!
