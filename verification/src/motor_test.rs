//! Bench motor test: per-motor throttles given at build time, fully decoupled
//! from arming and flight, and the schedule of a plant-capture run.

use crate::drivers::dshot_bb_decode::BbTelemetry;
use crate::drivers::dshot_frame;
use crate::drivers::dshot_frame::DshotFrame;
use crate::plant_capture;
use crate::plant_log::{PlantSample, NO_TELEMETRY};
use crate::text;
use vstd::prelude::*;
use vstd::string::*;

verus! {

/// Resolved, clamped motor-test configuration.
#[derive(Debug, Clone, Copy, PartialEq, Eq)]
pub struct MotorTestConfig {
    /// Per-motor throttle percent, after the clamp. 0 = stopped.
    pub motor_pct: [u8; 4],
    /// Bidirectional DShot.
    pub bidir: bool,
    /// Send-loop frequency in kHz (2 to 8).
    pub loop_khz: u8,
    /// Fly the plant-capture profile instead of holding a throttle.
    pub profile: bool,
}

/// Hard ceiling on any motor's throttle.
pub const MAX_PCT: u8 = 25;

/// Throttle of a motor whose value is unset.
pub const DEFAULT_PCT: u8 = 5;

pub const DEFAULT_BIDIR: bool = true;

pub const DEFAULT_LOOP_KHZ: u8 = 8;

pub const MIN_LOOP_KHZ: u8 = 2;

pub const MAX_LOOP_KHZ: u8 = 8;

/// The byte an optional text spells once trimmed.
pub open spec fn given_u8(v: Option<&str>) -> Option<u8> {
    match v {
        Some(s) => text::u8_of_chars(text::trim_chars(s@)),
        None => None,
    }
}

/// The throttle of one motor.
pub open spec fn resolved_pct(v: Option<&str>) -> u8 {
    let pct = match given_u8(v) {
        Some(p) => p,
        None => DEFAULT_PCT,
    };
    if pct > MAX_PCT {
        MAX_PCT
    } else {
        pct
    }
}

/// The loop rate.
pub open spec fn resolved_khz(v: Option<&str>) -> u8 {
    let khz = match given_u8(v) {
        Some(k) => k,
        None => DEFAULT_LOOP_KHZ,
    };
    if khz < MIN_LOOP_KHZ {
        MIN_LOOP_KHZ
    } else if khz > MAX_LOOP_KHZ {
        MAX_LOOP_KHZ
    } else {
        khz
    }
}

/// Whether an optional text is exactly one given character once trimmed.
pub open spec fn is_char(v: Option<&str>, c: char) -> bool {
    v is Some && text::trim_chars(v->0@) == seq![c]
}

fn spells(v: Option<&str>, c: char) -> (r: bool)
    ensures
        r == is_char(v, c),
{
    match v {
        None => false,
        Some(s) => {
            let t: &str = text::trim(s);
            if t.unicode_len() == 1 && t.get_char(0) == c {
                assert(t@ =~= seq![c]);
                true
            } else {
                assert(t@ == seq![c] ==> t@.len() == 1 && t@[0] == c);
                false
            }
        },
    }
}

fn read_u8(v: Option<&str>) -> (r: Option<u8>)
    ensures
        r == given_u8(v),
{
    match v {
        None => None,
        Some(s) => text::parse_u8(text::trim(s)),
    }
}

fn resolve_pct(v: Option<&str>) -> (pct: u8)
    ensures
        pct == resolved_pct(v),
{
    let pct: u8 = match read_u8(v) {
        Some(p) => p,
        None => DEFAULT_PCT,
    };
    if pct > MAX_PCT {
        MAX_PCT
    } else {
        pct
    }
}

/// Resolves raw texts into a configuration. What cannot be read takes its
/// default, what is out of range is clamped, and the profile is opt-in: only an
/// exact `1` starts a scripted run.
pub fn parse_config(
    motor: [Option<&str>; 4],
    bidir: Option<&str>,
    loop_khz: Option<&str>,
    profile: Option<&str>,
) -> (cfg: MotorTestConfig)
    ensures
        forall|i: int| 0 <= i < 4 ==> #[trigger] cfg.motor_pct@[i] == resolved_pct(motor@[i]),
        cfg.bidir == !is_char(bidir, '0'),
        cfg.loop_khz == resolved_khz(loop_khz),
        cfg.profile == is_char(profile, '1'),
{
    let motor_pct: [u8; 4] = [
        resolve_pct(motor[0]),
        resolve_pct(motor[1]),
        resolve_pct(motor[2]),
        resolve_pct(motor[3]),
    ];
    let khz: u8 = match read_u8(loop_khz) {
        Some(k) => k,
        None => DEFAULT_LOOP_KHZ,
    };
    let loop_khz: u8 = if khz < MIN_LOOP_KHZ {
        MIN_LOOP_KHZ
    } else if khz > MAX_LOOP_KHZ {
        MAX_LOOP_KHZ
    } else {
        khz
    };
    let bidir: bool = if spells(bidir, '0') {
        false
    } else {
        DEFAULT_BIDIR
    };
    MotorTestConfig { motor_pct, bidir, loop_khz, profile: spells(profile, '1') }
}

impl MotorTestConfig {
    /// Within the safety limits.
    pub open spec fn wf(&self) -> bool {
        &&& MIN_LOOP_KHZ <= self.loop_khz <= MAX_LOOP_KHZ
        &&& forall|i: int| 0 <= i < 4 ==> #[trigger] self.motor_pct@[i] <= MAX_PCT
    }

    /// Send-loop period in microseconds.
    pub fn period_us(&self) -> (us: u64)
        requires
            self.wf(),
        ensures
            us == 1000int / self.loop_khz as int,
    {
        1000 / (self.loop_khz as u64)
    }

    /// Frames between two telemetry reports, about ten per second.
    pub fn log_every(&self) -> (n: u32)
        requires
            self.wf(),
        ensures
            n == self.loop_khz * 100,
    {
        self.loop_khz as u32 * 100
    }

    /// Motor-stop frames that arm the ESCs: three seconds of them.
    pub fn arming_frames(&self) -> (n: u32)
        requires
            self.wf(),
        ensures
            n == self.loop_khz * 3000,
    {
        self.loop_khz as u32 * 3000
    }

    /// Motor-stop frames after a profile: half a second of them.
    pub fn stop_frames(&self) -> (n: u32)
        requires
            self.wf(),
        ensures
            n == self.loop_khz * 500,
    {
        self.loop_khz as u32 * 500
    }

    /// Frames between two captured samples.
    pub fn decimation(&self) -> (n: u32)
        requires
            self.wf(),
        ensures
            n == self.loop_khz * 1000 / plant_capture::SAMPLE_HZ as int,
            n >= 1,
    {
        self.loop_khz as u32 * 1000 / plant_capture::SAMPLE_HZ
    }

    /// The frame each motor is held at.
    pub fn hold_frames(&self) -> (frames: [DshotFrame; 4])
        requires
            self.wf(),
        ensures
            forall|i: int|
                0 <= i < 4 ==> #[trigger] frames@[i].raw == percent_raw(
                    self.motor_pct@[i],
                    self.bidir,
                ),
    {
        [
            percent_frame(self.motor_pct[0], self.bidir),
            percent_frame(self.motor_pct[1], self.bidir),
            percent_frame(self.motor_pct[2], self.bidir),
            percent_frame(self.motor_pct[3], self.bidir),
        ]
    }
}

/// The frame of a throttle percent: a stop at zero, else that share of the
/// throttle range.
pub open spec fn percent_raw(pct: u8, bidir: bool) -> int {
    if pct == 0 {
        dshot_frame::frame_raw(0, bidir)
    } else if pct >= 100 {
        dshot_frame::frame_raw(2047, bidir)
    } else {
        dshot_frame::frame_raw((pct as int * 1999 / 100 + 48) as u16, bidir)
    }
}

/// The frame of a throttle percent.
pub fn percent_frame(pct: u8, bidir: bool) -> (frame: DshotFrame)
    ensures
        frame.raw == percent_raw(pct, bidir),
{
    if pct == 0 {
        DshotFrame::motor_stop(bidir)
    } else {
        DshotFrame::throttle((pct as u32 * 1999 / 100) as u16, bidir)
    }
}

// ---- Plant capture run ----

/// What one frame of a capture run does.
#[derive(Debug, Clone, Copy, PartialEq, Eq, Structural)]
pub struct ProfileStep {
    /// Time into the profile, milliseconds.
    pub t_ms: u32,
    /// Throttle of all four motors, percent.
    pub pct: u8,
    /// Whether the reply to this frame is recorded.
    pub record: bool,
}

/// Time into the profile at a frame.
pub open spec fn frame_ms(frame: u32, loop_khz: u8) -> int {
    frame as int / loop_khz as int
}

/// What frame number `frame` does, `None` once the profile is over.
pub fn profile_step(cfg: &MotorTestConfig, frame: u32) -> (step: Option<ProfileStep>)
    requires
        cfg.wf(),
    ensures
        step is None <==> frame_ms(frame, cfg.loop_khz) >= plant_capture::elapsed(9),
        step matches Some(s) ==> {
            &&& s.t_ms == frame_ms(frame, cfg.loop_khz)
            &&& s.record == (cfg.bidir && frame as int % (cfg.loop_khz * 1000
                / plant_capture::SAMPLE_HZ as int) == 0)
            &&& forall|k: int|
                #![trigger plant_capture::hold(k)]
                0 <= k < 9 && plant_capture::elapsed(k as nat) <= s.t_ms < plant_capture::elapsed(
                    (k + 1) as nat,
                ) ==> s.pct == plant_capture::hold(k).pct
        },
{
    let t_ms: u32 = frame / (cfg.loop_khz as u32);
    match plant_capture::command_at(t_ms) {
        None => None,
        Some(pct) => {
            let record: bool = cfg.bidir && frame % cfg.decimation() == 0;
            Some(ProfileStep { t_ms, pct, record })
        },
    }
}

/// The period recorded for a reply. Absent, zero and over-long periods are all
/// recorded as no telemetry rather than as a plausible number.
pub open spec fn recorded_period(t: BbTelemetry) -> u16 {
    match t {
        BbTelemetry::Erpm { period_us } => if 0 < period_us <= u16::MAX {
            period_us as u16
        } else {
            NO_TELEMETRY
        },
        _ => NO_TELEMETRY,
    }
}

fn record_period(t: BbTelemetry) -> (p: u16)
    ensures
        p == recorded_period(t),
{
    match t {
        BbTelemetry::Erpm { period_us } => if period_us > 0 && period_us <= 65535 {
            period_us as u16
        } else {
            NO_TELEMETRY
        },
        _ => NO_TELEMETRY,
    }
}

/// The sample of one recorded frame. There is no gyro in a motor test.
pub fn profile_sample(step: &ProfileStep, telem: [BbTelemetry; 4]) -> (s: PlantSample)
    ensures
        s.t_ms == step.t_ms,
        forall|i: int|
            0 <= i < 4 ==> #[trigger] s.cmd@[i] == step.pct as int
                * crate::plant_log::CMD_SCALE as int / 100,
        forall|i: int| 0 <= i < 4 ==> #[trigger] s.period_us@[i] == recorded_period(telem@[i]),
        s.gyro_dps10@ == seq![0i16, 0i16, 0i16],
{
    let units: u16 = plant_capture::cmd_units(step.pct);
    PlantSample {
        t_ms: step.t_ms,
        cmd: [units, units, units, units],
        period_us: [
            record_period(telem[0]),
            record_period(telem[1]),
            record_period(telem[2]),
            record_period(telem[3]),
        ],
        gyro_dps10: [0, 0, 0],
    }
}

// ---- Laws ----

/// Whatever is given, the configuration stays within the safety limits.
pub proof fn law_config_is_within_limits(v: Option<&str>)
    ensures
        resolved_pct(v) <= MAX_PCT,
        MIN_LOOP_KHZ <= resolved_khz(v) <= MAX_LOOP_KHZ,
{
}

/// A capture run ends, and until then commands between idle and the ceiling.
pub proof fn law_capture_run_stays_in_range(frame: u32, loop_khz: u8, pct: u8)
    requires
        MIN_LOOP_KHZ <= loop_khz <= MAX_LOOP_KHZ,
        frame_ms(frame, loop_khz) < plant_capture::elapsed(9),
        forall|k: int|
            #![trigger plant_capture::hold(k)]
            0 <= k < 9 && plant_capture::elapsed(k as nat) <= frame_ms(frame, loop_khz)
                < plant_capture::elapsed((k + 1) as nat) ==> pct == plant_capture::hold(k).pct,
    ensures
        plant_capture::IDLE_PCT <= pct <= plant_capture::MAX_PCT,
{
    plant_capture::law_command_stays_in_range(frame_ms(frame, loop_khz) as nat, Some(pct));
}

/// A throttle that is given is used up to 25 percent, and is 5 where none is; the loop
/// runs at 2 to 8 kHz, and at 8 where nothing is given.
pub proof fn law_settings_are_clamped(v: Option<&str>)
    ensures
        given_u8(v) is None ==> resolved_pct(v) == 5 && resolved_khz(v) == 8,
        given_u8(v) matches Some(n) ==> {
            &&& n <= 25 ==> resolved_pct(v) == n
            &&& n >= 25 ==> resolved_pct(v) == 25
            &&& n <= 2 ==> resolved_khz(v) == 2
            &&& 2 <= n <= 8 ==> resolved_khz(v) == n
            &&& n >= 8 ==> resolved_khz(v) == 8
        },
        v is None ==> given_u8(v) is None,
{
}

/// A throttle of some percent is that share of the 2000 throttle values, which start at
/// 48; no throttle is a stop, and more than all of it is all of it.
pub proof fn law_percent_is_a_share(pct: u8, bidir: bool, raw: u16)
    requires
        raw == percent_raw(pct, bidir),
    ensures
        pct == 0 ==> raw / 32 == 0,
        1 <= pct <= 100 ==> 100 * (raw / 32 - 48) <= 1999 * pct < 100 * (raw / 32 - 47),
        pct >= 100 ==> raw / 32 == 2047,
        raw / 16 % 2 == (if bidir {
            1u16
        } else {
            0u16
        }),
{
    let value = if pct == 0 {
        0int
    } else if pct >= 100 {
        2047
    } else {
        pct as int * 1999 / 100 + 48
    };
    dshot_frame::law_nibbles_cancel(value as u16, bidir, raw);
}

/// A frame of a run at some kilohertz belongs to the millisecond in which it is sent.
pub proof fn law_frames_fill_milliseconds(frame: u32, loop_khz: u8)
    requires
        loop_khz > 0,
    ensures
        loop_khz * frame_ms(frame, loop_khz) <= frame < loop_khz * (frame_ms(frame, loop_khz) + 1),
{
    let (f, k) = (frame as int, loop_khz as int);
    vstd::arithmetic::div_mod::lemma_fundamental_div_mod(f, k);
    assert(k * (f / k + 1) == k * (f / k) + k) by (nonlinear_arith);
}

/// A period that two bytes can hold is recorded as it is, except none at all; nothing
/// else is recorded.
pub proof fn law_periods_are_recorded(period_us: u32)
    ensures
        period_us <= 65535 ==> recorded_period(BbTelemetry::Erpm { period_us }) == period_us,
        period_us > 65535 ==> recorded_period(BbTelemetry::Erpm { period_us }) == 0,
        recorded_period(BbTelemetry::NoSignal) == 0,
        recorded_period(BbTelemetry::InvalidGcr) == 0,
        recorded_period(BbTelemetry::InvalidCrc) == 0,
{
}

/// A switch is one character, whatever white space stands around it.
pub proof fn law_switch_is_one_character(v: Option<&str>, c: char)
    ensures
        is_char(None, c) == false,
        v is Some && v->0@ == seq![c] && !text::is_white(c) ==> is_char(v, c),
        v is Some && v->0@.len() == 0 ==> !is_char(v, c),
{
    let none = Seq::<char>::empty();
    if v is Some && v->0@ == seq![c] && !text::is_white(c) {
        text::law_white_space_is_trimmed(none, seq![c], none);
        assert(none + seq![c] + none =~= seq![c]);
    }
    if v is Some && v->0@.len() == 0 {
        assert(text::trim_chars(v->0@).len() == 0);
        assert(seq![c].len() == 1);
    }
}

} // verus!
