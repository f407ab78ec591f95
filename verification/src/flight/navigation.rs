//! Navigation: flight modes, targets, return to home and failsafe descent.

use crate::drivers::crsf::RcChannels;
use crate::float_bits;
use crate::float_bits::lt32;
use vstd::prelude::*;

verus! {

/// How sticks, position and altitude control interact.
#[derive(Clone, Copy, Debug, PartialEq, Eq, Structural)]
pub enum FlightMode {
    /// Sticks set the angle, the throttle stick sets thrust.
    Acro,
    /// Sticks set the angle; altitude is held, the throttle stick moves it.
    AltHold,
    /// Altitude and position are held; sticks move them. Without home the position
    /// is the estimate's own and drifts.
    PosHold,
    /// Return to home, on a switch.
    GpsHome,
    /// Radio lost, home known: hover.
    GpsRescue,
    /// Radio lost, altitude known: controlled descent.
    FailsafeLand,
    /// Radio lost, nothing known: thrust a little below hover.
    FailsafeBlind,
}

/// Altitude to climb to on the way home: 50 m.
pub const RESCUE_ALT_M: u32 = 0x4248_0000;

/// Distance that counts as home: 5 m.
pub const RESCUE_ARRIVAL_RADIUS_M: u32 = 0x40A0_0000;

/// Altitude below which an automatic landing disarms: 1 m.
pub const RESCUE_DISARM_ALT_M: u32 = 0x3F80_0000;

/// Time at home before landing.
pub const RESCUE_LAND_TIMEOUT_MS: u64 = 30_000;

/// Altitude below which a failsafe landing disarms: 0.3 m.
pub const FAILSAFE_LAND_DISARM_ALT_M: u32 = 0x3E99_999A;

/// Speed above which course is heading: 2 m/s.
pub const V_MIN_COG: u32 = 0x4000_0000;

/// The position estimate, as far as decisions need it. Quantities in metres are
/// single-precision patterns.
#[derive(Clone, Copy, Debug, PartialEq, Eq, Structural)]
pub struct Estimate {
    pub north: u32,
    pub east: u32,
    pub altitude_up: u32,
    /// Time since the last pressure sample.
    pub baro_age_ms: u32,
    /// Altitude is anchored by pressure or by GPS.
    pub altitude_ready: bool,
    /// The position is relative to a known home.
    pub home_latched: bool,
}

/// What a position estimate offers.
#[derive(Clone, Copy, Debug, PartialEq, Eq, Structural)]
pub struct References {
    pub altitude: bool,
    pub home: bool,
}

/// What an estimate offers; nothing before there is one.
pub open spec fn references_of(est: Option<Estimate>) -> References {
    match est {
        None => References { altitude: false, home: false },
        Some(e) => References { altitude: e.altitude_ready, home: e.home_latched },
    }
}

fn references(est: Option<Estimate>) -> (r: References)
    ensures
        r == references_of(est),
{
    match est {
        None => References { altitude: false, home: false },
        Some(e) => References { altitude: e.altitude_ready, home: e.home_latched },
    }
}

/// Whether pressure of an age is recent enough to arm on.
pub open spec fn is_recent_pressure(age_ms: int) -> bool {
    age_ms < 500
}

/// Whether pressure is recent enough to arm on.
pub fn baro_ready(est: Option<Estimate>) -> (b: bool)
    ensures
        b == (est matches Some(e) && e.baro_age_ms < 500),
        b == (est matches Some(e) && is_recent_pressure(e.baro_age_ms as int)),
{
    match est {
        None => false,
        Some(e) => e.baro_age_ms < 500,
    }
}

// ---- Mode ----

/// The mode for what the pilot asks and what is known. `switch` is the mode
/// switch and `home_switch` the return switch, in microseconds.
pub open spec fn mode_for(
    armed: bool,
    failsafe: bool,
    refs: References,
    switch: int,
    home_switch: int,
) -> FlightMode {
    if !armed {
        FlightMode::Acro
    } else if failsafe {
        if refs.home {
            FlightMode::GpsRescue
        } else if refs.altitude {
            FlightMode::FailsafeLand
        } else {
            FlightMode::FailsafeBlind
        }
    } else if home_switch > 1500 && refs.home {
        FlightMode::GpsHome
    } else if switch > 1600 && refs.altitude {
        FlightMode::PosHold
    } else if switch > 1200 && refs.altitude {
        FlightMode::AltHold
    } else {
        FlightMode::Acro
    }
}

/// Selects the mode.
pub fn select_mode(
    armed: bool,
    failsafe: bool,
    refs: References,
    switch: u16,
    home_switch: u16,
) -> (m: FlightMode)
    ensures
        m == mode_for(armed, failsafe, refs, switch as int, home_switch as int),
{
    if !armed {
        return FlightMode::Acro;
    }
    if failsafe {
        return if refs.home {
            FlightMode::GpsRescue
        } else if refs.altitude {
            FlightMode::FailsafeLand
        } else {
            FlightMode::FailsafeBlind
        };
    }
    if home_switch > 1500 && refs.home {
        FlightMode::GpsHome
    } else if switch > 1600 && refs.altitude {
        FlightMode::PosHold
    } else if switch > 1200 && refs.altitude {
        FlightMode::AltHold
    } else {
        FlightMode::Acro
    }
}

// ---- Sticks ----

/// Whether the throttle stick is away from its centre by more than a twentieth
/// of its travel, which runs from 172 to 1811.
pub open spec fn throttle_off_centre(raw: u16) -> bool {
    20 * (2 * (raw - 172) - 1639) > 3278 || 20 * (2 * (raw - 172) - 1639) < -3278
}

/// Whether the throttle stick asks for a climb or a descent.
pub fn throttle_moves(raw: u16) -> (b: bool)
    ensures
        b == throttle_off_centre(raw),
{
    let d: i32 = 20 * (2 * (raw as i32 - 172) - 1639);
    d > 3278 || d < -3278
}

/// Whether a stick is away from its centre at 992 by more than a twentieth of
/// its half travel, 819.5.
pub open spec fn stick_off_centre(raw: u16) -> bool {
    40 * (raw - 992) > 1639 || 40 * (raw - 992) < -1639
}

/// Whether a roll or pitch stick asks for motion.
pub fn stick_moves(raw: u16) -> (b: bool)
    ensures
        b == stick_off_centre(raw),
{
    let d: i32 = 40 * (raw as i32 - 992);
    d > 1639 || d < -1639
}

/// Whether the pitch stick is forward by more than three tenths of its half
/// travel.
pub open spec fn pushed_forward(raw: u16) -> bool {
    20 * (raw - 992) > 4917
}

/// Whether course over ground is heading: in deliberate forward flight with a
/// good fix.
pub open spec fn course_is_heading(armed: bool, fix_3d: bool, speed: u32, pitch: u16) -> bool {
    armed && fix_3d && float_bits::less32(V_MIN_COG, speed) && pushed_forward(pitch)
}

/// Whether to fuse course over ground as heading.
pub fn fuses_course(armed: bool, fix_3d: bool, speed: u32, pitch: u16) -> (b: bool)
    ensures
        b == course_is_heading(armed, fix_3d, speed, pitch),
{
    armed && fix_3d && lt32(V_MIN_COG, speed) && 20 * (pitch as i32 - 992) > 4917
}

// ---- Magnetometer calibration ----

/// Commands to the calibrator.
#[derive(Clone, Copy, Debug, PartialEq, Eq, Structural)]
pub enum CalCommand {
    Start,
    Abort,
}

/// What the calibration switch asks for: its rising edge starts, unless armed;
/// its falling edge aborts, and so does arming with the switch on.
pub open spec fn cal_request(
    switch: bool,
    switch_before: bool,
    armed: bool,
    armed_before: bool,
) -> Option<CalCommand> {
    if switch && !switch_before && !armed {
        Some(CalCommand::Start)
    } else if (!switch && switch_before) || (switch && armed && !armed_before) {
        Some(CalCommand::Abort)
    } else {
        None
    }
}

// ---- Targets ----

/// What altitude and position control hold, in metres.
#[derive(Clone, Copy, Debug, PartialEq, Eq, Structural)]
pub struct Targets {
    pub altitude_up: u32,
    pub north: u32,
    pub east: u32,
}

/// Whether a mode can capture targets with what is known.
pub open spec fn can_capture(mode: FlightMode, refs: References) -> bool {
    match mode {
        FlightMode::AltHold | FlightMode::FailsafeLand | FlightMode::PosHold => refs.altitude,
        FlightMode::GpsRescue | FlightMode::GpsHome => refs.home,
        FlightMode::Acro | FlightMode::FailsafeBlind => false,
    }
}

/// The targets a mode captures from an estimate.
pub open spec fn captured(mode: FlightMode, est: Estimate, before: Targets) -> Targets {
    match mode {
        FlightMode::AltHold | FlightMode::FailsafeLand => Targets {
            altitude_up: est.altitude_up,
            ..before
        },
        FlightMode::PosHold | FlightMode::GpsRescue => Targets {
            altitude_up: est.altitude_up,
            north: est.north,
            east: est.east,
        },
        FlightMode::GpsHome => Targets {
            altitude_up: if float_bits::less32(RESCUE_ALT_M, est.altitude_up) {
                est.altitude_up
            } else {
                RESCUE_ALT_M
            },
            north: 0,
            east: 0,
        },
        FlightMode::Acro | FlightMode::FailsafeBlind => before,
    }
}

// ---- One tick ----

/// What a tick sees.
pub struct Sensed {
    pub armed: bool,
    /// The radio link is lost.
    pub failsafe: bool,
    pub channels: [u16; 16],
    pub estimate: Option<Estimate>,
    /// The estimate has been zeroed since arming.
    pub reoriginated: bool,
    pub fix_3d: bool,
    /// Ground speed in m/s.
    pub ground_speed: u32,
}

/// What a tick decides.
#[derive(Clone, Copy, Debug, PartialEq, Eq, Structural)]
pub struct Plan {
    pub mode: FlightMode,
    /// The mode before, where it changed.
    pub left: Option<FlightMode>,
    /// Arming has just happened: the estimator is to latch its origin.
    pub latch: bool,
    pub cal: Option<CalCommand>,
    /// Course over ground is heading.
    pub fuse_course: bool,
    /// Targets were captured: altitude control starts afresh.
    pub capture: bool,
    /// Arming is being asked for and refused, and it is time to say why.
    pub report_refusal: bool,
}

/// State of navigation.
#[derive(Clone, Copy, Debug, PartialEq, Eq, Structural)]
pub struct Navigator {
    pub mode: FlightMode,
    pub armed: bool,
    pub cal_switch: bool,
    /// The mode's targets have been captured.
    pub targets_captured: bool,
    pub targets: Targets,
    /// When home was reached.
    pub loiter_since_ms: Option<u64>,
    /// An automatic landing is under way.
    pub landing: bool,
    /// Ticks so far.
    pub cycle: u32,
}

/// Mode of a tick.
pub open spec fn tick_mode(s: Sensed) -> FlightMode {
    mode_for(
        s.armed,
        s.failsafe,
        references_of(s.estimate),
        RcChannels::spec_us(s.channels@[5]),
        RcChannels::spec_us(s.channels@[6]),
    )
}

/// Whether a tick captures targets: the mode has none yet, what it needs is
/// known, and the estimate has been zeroed for this arming.
pub open spec fn tick_captures(nav: Navigator, s: Sensed) -> bool {
    &&& tick_mode(s) != nav.mode || !nav.targets_captured
    &&& can_capture(tick_mode(s), references_of(s.estimate))
    &&& s.reoriginated
    &&& s.estimate is Some
}

/// The state after a tick.
pub open spec fn after_tick(nav: Navigator, s: Sensed) -> Navigator {
    let mode = tick_mode(s);
    let captures = tick_captures(nav, s);
    Navigator {
        mode,
        armed: s.armed,
        cal_switch: s.channels@[7] > 1500,
        targets_captured: captures || (mode == nav.mode && nav.targets_captured),
        targets: if captures {
            captured(mode, s.estimate->0, nav.targets)
        } else {
            nav.targets
        },
        loiter_since_ms: if captures && mode == FlightMode::GpsHome {
            None
        } else {
            nav.loiter_since_ms
        },
        landing: if captures && mode == FlightMode::GpsHome {
            false
        } else {
            nav.landing
        },
        cycle: if nav.cycle == u32::MAX {
            0
        } else {
            (nav.cycle + 1) as u32
        },
    }
}

/// What a tick decides.
pub open spec fn tick_plan(nav: Navigator, s: Sensed) -> Plan {
    Plan {
        mode: tick_mode(s),
        left: if tick_mode(s) != nav.mode {
            Some(nav.mode)
        } else {
            None
        },
        latch: s.armed && !nav.armed,
        cal: cal_request(s.channels@[7] > 1500, nav.cal_switch, s.armed, nav.armed),
        fuse_course: course_is_heading(s.armed, s.fix_3d, s.ground_speed, s.channels@[1]),
        capture: tick_captures(nav, s),
        report_refusal: s.channels@[4] > 1500 && !s.armed && after_tick(nav, s).cycle % 200 == 0,
    }
}

impl Navigator {
    pub fn new() -> (n: Self)
        ensures
            n == (Navigator {
                mode: FlightMode::Acro,
                armed: false,
                cal_switch: false,
                targets_captured: false,
                targets: Targets { altitude_up: 0, north: 0, east: 0 },
                loiter_since_ms: None,
                landing: false,
                cycle: 0,
            }),
    {
        Navigator {
            mode: FlightMode::Acro,
            armed: false,
            cal_switch: false,
            targets_captured: false,
            targets: Targets { altitude_up: 0, north: 0, east: 0 },
            loiter_since_ms: None,
            landing: false,
            cycle: 0,
        }
    }

    /// Takes in what a tick sees, up to the control laws.
    pub fn tick(&mut self, s: &Sensed) -> (plan: Plan)
        ensures
            plan == tick_plan(*old(self), *s),
            *final(self) == after_tick(*old(self), *s),
    {
        self.cycle = self.cycle.wrapping_add(1);
        let refs: References = references(s.estimate);
        let latch: bool = s.armed && !self.armed;
        let report_refusal: bool = s.channels[4] > 1500 && !s.armed && self.cycle % 200 == 0;
        let mode: FlightMode = select_mode(
            s.armed,
            s.failsafe,
            refs,
            RcChannels::to_us(s.channels[5]),
            RcChannels::to_us(s.channels[6]),
        );
        let cal_switch: bool = s.channels[7] > 1500;
        let cal: Option<CalCommand> = if cal_switch && !self.cal_switch && !s.armed {
            Some(CalCommand::Start)
        } else if (!cal_switch && self.cal_switch) || (cal_switch && s.armed && !self.armed) {
            Some(CalCommand::Abort)
        } else {
            None
        };
        self.cal_switch = cal_switch;
        self.armed = s.armed;
        let fuse_course: bool = fuses_course(s.armed, s.fix_3d, s.ground_speed, s.channels[1]);
        let left: Option<FlightMode> = if mode != self.mode {
            Some(self.mode)
        } else {
            None
        };
        if mode != self.mode {
            self.mode = mode;
            self.targets_captured = false;
        }
        let mut capture: bool = false;
        if !self.targets_captured && s.reoriginated {
            let open: bool = match mode {
                FlightMode::AltHold | FlightMode::FailsafeLand | FlightMode::PosHold => {
                    refs.altitude
                },
                FlightMode::GpsRescue | FlightMode::GpsHome => refs.home,
                FlightMode::Acro | FlightMode::FailsafeBlind => false,
            };
            if open {
                if let Some(est) = s.estimate {
                    self.capture(est);
                    capture = true;
                }
            }
        }
        Plan { mode, left, latch, cal, fuse_course, capture, report_refusal }
    }

    fn capture(&mut self, est: Estimate)
        ensures
            *final(self) == (Navigator {
                targets: captured(old(self).mode, est, old(self).targets),
                targets_captured: true,
                loiter_since_ms: if old(self).mode == FlightMode::GpsHome {
                    None
                } else {
                    old(self).loiter_since_ms
                },
                landing: if old(self).mode == FlightMode::GpsHome {
                    false
                } else {
                    old(self).landing
                },
                ..*old(self)
            }),
    {
        self.targets_captured = true;
        match self.mode {
            FlightMode::AltHold | FlightMode::FailsafeLand => {
                self.targets.altitude_up = est.altitude_up;
            },
            FlightMode::PosHold | FlightMode::GpsRescue => {
                self.targets = Targets {
                    altitude_up: est.altitude_up,
                    north: est.north,
                    east: est.east,
                };
            },
            FlightMode::GpsHome => {
                let altitude_up: u32 = if lt32(RESCUE_ALT_M, est.altitude_up) {
                    est.altitude_up
                } else {
                    RESCUE_ALT_M
                };
                self.targets = Targets { altitude_up, north: 0, east: 0 };
                self.loiter_since_ms = None;
                self.landing = false;
            },
            FlightMode::Acro | FlightMode::FailsafeBlind => {},
        }
    }

    /// What being disarmed resets.
    pub fn rest(&mut self)
        ensures
            *final(self) == (Navigator { loiter_since_ms: None, landing: false, ..*old(self) }),
    {
        self.loiter_since_ms = None;
        self.landing = false;
    }

    /// Advances the way home: wait at home for the timeout, then land, and
    /// disarm near the ground. `distance` is the distance to home in metres.
    pub fn homeward(&mut self, altitude_up: u32, distance: u32, now_ms: u64) -> (step: HomeStep)
        ensures
            step == home_step(*old(self), altitude_up, distance, now_ms),
            *final(self) == after_home(*old(self), distance, now_ms),
    {
        let mut step = HomeStep { descend: false, disarm: false, arrived: false, lands: false };
        if self.landing {
            step.descend = true;
            step.disarm = lt32(altitude_up, RESCUE_DISARM_ALT_M);
        } else if lt32(distance, RESCUE_ARRIVAL_RADIUS_M) {
            let since: u64 = match self.loiter_since_ms {
                Some(t) => t,
                None => {
                    self.loiter_since_ms = Some(now_ms);
                    step.arrived = true;
                    now_ms
                },
            };
            if now_ms > since && now_ms - since > RESCUE_LAND_TIMEOUT_MS {
                self.landing = true;
                step.lands = true;
            }
        }
        step
    }
}

// ---- Way home ----

/// What a tick on the way home does.
#[derive(Clone, Copy, Debug, PartialEq, Eq, Structural)]
pub struct HomeStep {
    /// The altitude target goes down.
    pub descend: bool,
    /// The landing is complete.
    pub disarm: bool,
    /// Home has just been reached.
    pub arrived: bool,
    /// The landing starts.
    pub lands: bool,
}

/// When home was reached, as of this tick.
pub open spec fn at_home_since(nav: Navigator, now_ms: u64) -> u64 {
    match nav.loiter_since_ms {
        Some(t) => t,
        None => now_ms,
    }
}

/// Whether the wait at home is over.
pub open spec fn wait_is_over(nav: Navigator, now_ms: u64) -> bool {
    now_ms - at_home_since(nav, now_ms) > RESCUE_LAND_TIMEOUT_MS
}

/// What a tick on the way home does.
pub open spec fn home_step(
    nav: Navigator,
    altitude_up: u32,
    distance: u32,
    now_ms: u64,
) -> HomeStep {
    let near = float_bits::less32(distance, RESCUE_ARRIVAL_RADIUS_M);
    HomeStep {
        descend: nav.landing,
        disarm: nav.landing && float_bits::less32(altitude_up, RESCUE_DISARM_ALT_M),
        arrived: !nav.landing && near && nav.loiter_since_ms is None,
        lands: !nav.landing && near && wait_is_over(nav, now_ms),
    }
}

/// The state after a tick on the way home.
pub open spec fn after_home(nav: Navigator, distance: u32, now_ms: u64) -> Navigator {
    let near = !nav.landing && float_bits::less32(distance, RESCUE_ARRIVAL_RADIUS_M);
    Navigator {
        loiter_since_ms: if near {
            Some(at_home_since(nav, now_ms))
        } else {
            nav.loiter_since_ms
        },
        landing: nav.landing || (near && wait_is_over(nav, now_ms)),
        ..nav
    }
}

// ---- Control laws ----

/// Where the desired attitude comes from.
#[derive(Clone, Copy, Debug, PartialEq, Eq, Structural)]
pub enum AttitudeFrom {
    Sticks,
    Position,
    Level,
}

/// Where thrust comes from.
#[derive(Clone, Copy, Debug, PartialEq, Eq, Structural)]
pub enum ThrustFrom {
    Stick,
    Altitude,
    /// As in the tick before.
    Unchanged,
    Hover,
    /// A fixed fraction of hover.
    Blind,
}

/// How a mode flies.
#[derive(Clone, Copy, Debug, PartialEq, Eq, Structural)]
pub struct Guidance {
    pub attitude: AttitudeFrom,
    /// The yaw stick sets the yaw rate.
    pub yaw_stick: bool,
    pub thrust: ThrustFrom,
    /// Landing is complete.
    pub disarm: bool,
}

/// Whether a mode that holds a position can: with home known, and in position hold
/// also with altitude alone.
pub open spec fn holds_position(mode: FlightMode, refs: References) -> bool {
    refs.home || (mode == FlightMode::PosHold && refs.altitude)
}

/// How a mode flies with what is known.
pub open spec fn guidance_for(mode: FlightMode, est: Option<Estimate>) -> Guidance {
    let refs = references_of(est);
    match mode {
        FlightMode::Acro => Guidance {
            attitude: AttitudeFrom::Sticks,
            yaw_stick: true,
            thrust: ThrustFrom::Stick,
            disarm: false,
        },
        FlightMode::AltHold => Guidance {
            attitude: AttitudeFrom::Sticks,
            yaw_stick: true,
            thrust: if refs.altitude {
                ThrustFrom::Altitude
            } else {
                ThrustFrom::Unchanged
            },
            disarm: false,
        },
        FlightMode::PosHold | FlightMode::GpsRescue | FlightMode::GpsHome => Guidance {
            attitude: if holds_position(mode, refs) {
                AttitudeFrom::Position
            } else {
                AttitudeFrom::Level
            },
            yaw_stick: mode == FlightMode::PosHold,
            thrust: if holds_position(mode, refs) {
                ThrustFrom::Altitude
            } else {
                ThrustFrom::Hover
            },
            disarm: false,
        },
        FlightMode::FailsafeLand => Guidance {
            attitude: AttitudeFrom::Level,
            yaw_stick: false,
            thrust: if refs.altitude {
                ThrustFrom::Altitude
            } else {
                ThrustFrom::Blind
            },
            disarm: refs.altitude && float_bits::less32(
                est->0.altitude_up,
                FAILSAFE_LAND_DISARM_ALT_M,
            ),
        },
        FlightMode::FailsafeBlind => Guidance {
            attitude: AttitudeFrom::Level,
            yaw_stick: false,
            thrust: ThrustFrom::Blind,
            disarm: false,
        },
    }
}

/// How a mode flies with what is known.
pub fn guidance(mode: FlightMode, est: Option<Estimate>) -> (g: Guidance)
    ensures
        g == guidance_for(mode, est),
{
    let refs: References = references(est);
    match mode {
        FlightMode::Acro => Guidance {
            attitude: AttitudeFrom::Sticks,
            yaw_stick: true,
            thrust: ThrustFrom::Stick,
            disarm: false,
        },
        FlightMode::AltHold => Guidance {
            attitude: AttitudeFrom::Sticks,
            yaw_stick: true,
            thrust: if refs.altitude {
                ThrustFrom::Altitude
            } else {
                ThrustFrom::Unchanged
            },
            disarm: false,
        },
        FlightMode::PosHold | FlightMode::GpsRescue | FlightMode::GpsHome => {
            let yaw_stick: bool = mode == FlightMode::PosHold;
            if refs.home || (yaw_stick && refs.altitude) {
                Guidance {
                    attitude: AttitudeFrom::Position,
                    yaw_stick,
                    thrust: ThrustFrom::Altitude,
                    disarm: false,
                }
            } else {
                Guidance {
                    attitude: AttitudeFrom::Level,
                    yaw_stick,
                    thrust: ThrustFrom::Hover,
                    disarm: false,
                }
            }
        },
        FlightMode::FailsafeLand => {
            let thrust: ThrustFrom = if refs.altitude {
                ThrustFrom::Altitude
            } else {
                ThrustFrom::Blind
            };
            let disarm: bool = match est {
                Some(e) => e.altitude_ready && lt32(e.altitude_up, FAILSAFE_LAND_DISARM_ALT_M),
                None => false,
            };
            Guidance { attitude: AttitudeFrom::Level, yaw_stick: false, thrust, disarm }
        },
        FlightMode::FailsafeBlind => Guidance {
            attitude: AttitudeFrom::Level,
            yaw_stick: false,
            thrust: ThrustFrom::Blind,
            disarm: false,
        },
    }
}

// ---- Loop timing ----

/// How long ticks took, over a reporting period.
#[derive(Clone, Copy, Debug, PartialEq, Eq, Structural)]
pub struct LoopTimes {
    pub max_us: u32,
    pub sum_us: u64,
    pub count: u32,
    pub mpc_max_us: u32,
    pub mpc_iters_max: u32,
    /// Ticks over budget since start-up.
    pub overruns: u32,
}

/// Budget of a tick.
pub const LOOP_BUDGET_US: u32 = 5000;

/// Ticks per report.
pub const REPORT_CYCLES: u32 = 100;

/// Whether a tick reports.
pub open spec fn is_report_cycle(cycle: u32) -> bool {
    cycle % REPORT_CYCLES == 0
}

impl LoopTimes {
    /// The times after one more tick.
    pub open spec fn after_tick(self, us: u32) -> LoopTimes {
        LoopTimes {
            max_us: if us > self.max_us {
                us
            } else {
                self.max_us
            },
            sum_us: (self.sum_us + us) as u64,
            count: (self.count + 1) as u32,
            overruns: if us > LOOP_BUDGET_US && self.overruns < u32::MAX {
                (self.overruns + 1) as u32
            } else {
                self.overruns
            },
            ..self
        }
    }

    /// The times after one more solve of the attitude controller.
    pub open spec fn after_solve(self, us: u32, iterations: u32) -> LoopTimes {
        LoopTimes {
            mpc_max_us: if us > self.mpc_max_us {
                us
            } else {
                self.mpc_max_us
            },
            mpc_iters_max: if iterations > self.mpc_iters_max {
                iterations
            } else {
                self.mpc_iters_max
            },
            ..self
        }
    }

    /// Fewer ticks than a counter holds.
    pub open spec fn wf(&self) -> bool {
        self.count < u32::MAX && self.sum_us <= self.count * u32::MAX
    }

    pub fn new() -> (t: Self)
        ensures
            t.wf(),
            t == (LoopTimes {
                max_us: 0,
                sum_us: 0,
                count: 0,
                mpc_max_us: 0,
                mpc_iters_max: 0,
                overruns: 0,
            }),
    {
        LoopTimes { max_us: 0, sum_us: 0, count: 0, mpc_max_us: 0, mpc_iters_max: 0, overruns: 0 }
    }

    /// Counts one solve of the attitude controller.
    pub fn solved(&mut self, us: u32, iterations: u32)
        requires
            old(self).wf(),
        ensures
            final(self).wf(),
            *final(self) == (LoopTimes {
                mpc_max_us: if us > old(self).mpc_max_us {
                    us
                } else {
                    old(self).mpc_max_us
                },
                mpc_iters_max: if iterations > old(self).mpc_iters_max {
                    iterations
                } else {
                    old(self).mpc_iters_max
                },
                ..*old(self)
            }),
            *final(self) == old(self).after_solve(us, iterations),
    {
        if us > self.mpc_max_us {
            self.mpc_max_us = us;
        }
        if iterations > self.mpc_iters_max {
            self.mpc_iters_max = iterations;
        }
    }

    /// Counts one tick.
    pub fn ticked(&mut self, us: u32)
        requires
            old(self).wf(),
            old(self).count + 1 < u32::MAX,
        ensures
            final(self).wf(),
            *final(self) == (LoopTimes {
                max_us: if us > old(self).max_us {
                    us
                } else {
                    old(self).max_us
                },
                sum_us: (old(self).sum_us + us) as u64,
                count: (old(self).count + 1) as u32,
                overruns: if us > LOOP_BUDGET_US && old(self).overruns < u32::MAX {
                    (old(self).overruns + 1) as u32
                } else {
                    old(self).overruns
                },
                ..*old(self)
            }),
            *final(self) == old(self).after_tick(us),
    {
        assert(self.count * u32::MAX + u32::MAX == (self.count + 1) * u32::MAX)
            by (nonlinear_arith);
        assert((self.count + 1) * u32::MAX <= u64::MAX) by (nonlinear_arith)
            requires
                self.count + 1 < u32::MAX,
        ;
        self.sum_us = self.sum_us + us as u64;
        self.count = self.count + 1;
        if us > self.max_us {
            self.max_us = us;
        }
        if us > LOOP_BUDGET_US {
            self.overruns = self.overruns.saturating_add(1);
        }
    }

    /// The mean time of a tick, 0 before the first.
    pub fn mean_us(&self) -> (m: u32)
        requires
            self.wf(),
        ensures
            m == (if self.count == 0 {
                0
            } else {
                self.sum_us as int / self.count as int
            }),
    {
        if self.count == 0 {
            return 0;
        }
        let m: u64 = self.sum_us / self.count as u64;
        assert(m <= u32::MAX) by (nonlinear_arith)
            requires
                m == self.sum_us as int / self.count as int,
                self.count > 0,
                self.sum_us <= self.count * u32::MAX,
        ;
        m as u32
    }

    /// Whether a report is due in this tick.
    pub fn report_due(cycle: u32) -> (b: bool)
        ensures
            b == (cycle % REPORT_CYCLES == 0),
            b == is_report_cycle(cycle),
    {
        cycle % REPORT_CYCLES == 0
    }

    /// Starts the next reporting period.
    pub fn restart(&mut self)
        ensures
            final(self).wf(),
            *final(self) == (LoopTimes {
                max_us: 0,
                sum_us: 0,
                count: 0,
                mpc_max_us: 0,
                mpc_iters_max: 0,
                overruns: old(self).overruns,
            }),
    {
        self.max_us = 0;
        self.sum_us = 0;
        self.count = 0;
        self.mpc_max_us = 0;
        self.mpc_iters_max = 0;
    }
}

// ---- Laws ----

/// A mode is only selected with the references it needs.
pub proof fn law_mode_has_its_references(
    armed: bool,
    failsafe: bool,
    refs: References,
    switch: int,
    home_switch: int,
)
    ensures
        ({
            let m = mode_for(armed, failsafe, refs, switch, home_switch);
            &&& m == FlightMode::GpsHome || m == FlightMode::GpsRescue ==> refs.home
            &&& m == FlightMode::PosHold || m == FlightMode::AltHold || m
                == FlightMode::FailsafeLand ==> refs.altitude
            &&& m == FlightMode::FailsafeBlind ==> !refs.altitude && !refs.home
        }),
{
}

/// Disarmed is always the direct mode, and a failsafe mode comes exactly when the
/// link is lost while armed.
pub proof fn law_failsafe_modes_come_from_link_loss(
    armed: bool,
    failsafe: bool,
    refs: References,
    switch: int,
    home_switch: int,
)
    ensures
        ({
            let m = mode_for(armed, failsafe, refs, switch, home_switch);
            &&& !armed ==> m == FlightMode::Acro
            &&& (m == FlightMode::GpsRescue || m == FlightMode::FailsafeLand || m
                == FlightMode::FailsafeBlind) <==> (armed && failsafe)
        }),
{
}

/// The pilot's switches do not matter once the link is lost.
pub proof fn law_failsafe_ignores_switches(refs: References, a: int, b: int, c: int, d: int)
    ensures
        mode_for(true, true, refs, a, b) == mode_for(true, true, refs, c, d),
{
}

/// Targets are captured at most once per mode entry, and never before the
/// estimate has been zeroed for the arming.
pub proof fn law_targets_are_captured_once(nav: Navigator, first: Sensed, second: Sensed)
    requires
        tick_captures(nav, first),
        tick_mode(second) == tick_mode(first),
    ensures
        first.reoriginated,
        !tick_captures(after_tick(nav, first), second),
        after_tick(after_tick(nav, first), second).targets == after_tick(nav, first).targets,
{
}

/// A mode entered while the estimate was not yet zeroed still captures once it
/// is.
pub proof fn law_late_origin_still_captures(nav: Navigator, first: Sensed, second: Sensed)
    requires
        !first.reoriginated,
        tick_mode(first) != nav.mode,
        tick_mode(second) == tick_mode(first),
        second.reoriginated,
        second.estimate is Some,
        can_capture(tick_mode(second), references_of(second.estimate)),
    ensures
        !tick_captures(nav, first),
        tick_captures(after_tick(nav, first), second),
{
}

/// The origin is latched exactly once per arming: a second armed tick does not
/// latch again.
pub proof fn law_origin_is_latched_once(nav: Navigator, first: Sensed, second: Sensed)
    requires
        first.armed,
        second.armed,
    ensures
        !tick_plan(after_tick(nav, first), second).latch,
        tick_plan(nav, first).latch == !nav.armed,
{
}

/// A calibration never starts while armed, and arming during one aborts it.
pub proof fn law_calibration_is_for_the_ground(nav: Navigator, s: Sensed)
    ensures
        s.armed ==> tick_plan(nav, s).cal != Some(CalCommand::Start),
        s.armed && !nav.armed && s.channels@[7] > 1500 ==> tick_plan(nav, s).cal == Some(
            CalCommand::Abort,
        ),
{
}

/// The way home never goes below the return altitude on capture.
pub proof fn law_return_altitude_is_kept(est: Estimate, before: Targets)
    requires
        !float_bits::is_nan32(est.altitude_up),
    ensures
        ({
            let t = captured(FlightMode::GpsHome, est, before).altitude_up;
            &&& !float_bits::less32(t, RESCUE_ALT_M)
            &&& !float_bits::less32(t, est.altitude_up)
            &&& t == est.altitude_up || t == RESCUE_ALT_M
        }),
{
}

/// Landing at home starts only after a full wait there, and once started it
/// goes on until the mode captures anew or the craft is disarmed.
pub proof fn law_landing_needs_a_full_wait(nav: Navigator, distance: u32, now_ms: u64)
    ensures
        after_home(nav, distance, now_ms).landing && !nav.landing ==> nav.loiter_since_ms
            is Some && now_ms - nav.loiter_since_ms->0 > RESCUE_LAND_TIMEOUT_MS,
        nav.landing ==> after_home(nav, distance, now_ms).landing,
        home_step(nav, 0, distance, now_ms).descend ==> nav.landing,
{
}

/// Automatic disarming happens only in a landing and only near the ground.
pub proof fn law_disarm_is_near_the_ground(
    nav: Navigator,
    altitude_up: u32,
    distance: u32,
    now_ms: u64,
    mode: FlightMode,
    est: Option<Estimate>,
)
    ensures
        home_step(nav, altitude_up, distance, now_ms).disarm ==> nav.landing
            && float_bits::less32(altitude_up, RESCUE_DISARM_ALT_M),
        guidance_for(mode, est).disarm ==> mode == FlightMode::FailsafeLand && est is Some
            && float_bits::less32(est->0.altitude_up, FAILSAFE_LAND_DISARM_ALT_M),
{
}

/// Position hold, once selected, holds altitude and position, with home or without.
pub proof fn law_position_hold_holds(s: Sensed)
    requires
        tick_mode(s) == FlightMode::PosHold,
    ensures
        guidance_for(tick_mode(s), s.estimate).attitude == AttitudeFrom::Position,
        guidance_for(tick_mode(s), s.estimate).thrust == ThrustFrom::Altitude,
        guidance_for(tick_mode(s), s.estimate).yaw_stick,
        can_capture(tick_mode(s), references_of(s.estimate)),
{
}

/// Without the link no stick moves the craft.
pub proof fn law_failsafe_guidance_ignores_sticks(mode: FlightMode, est: Option<Estimate>)
    requires
        mode == FlightMode::GpsRescue || mode == FlightMode::FailsafeLand || mode
            == FlightMode::FailsafeBlind,
    ensures
        guidance_for(mode, est).attitude != AttitudeFrom::Sticks,
        !guidance_for(mode, est).yaw_stick,
        guidance_for(mode, est).thrust != ThrustFrom::Stick,
{
}

/// Holding means holding where the craft is: the targets that position hold and the
/// radio-loss hover capture differ from the estimate on no axis.
pub proof fn law_hold_captures_where_the_craft_is(nav: Navigator, s: Sensed)
    requires
        tick_captures(nav, s),
        tick_mode(s) == FlightMode::PosHold || tick_mode(s) == FlightMode::GpsRescue,
    ensures
        after_tick(nav, s).targets.north == s.estimate->0.north,
        after_tick(nav, s).targets.east == s.estimate->0.east,
        after_tick(nav, s).targets.altitude_up == s.estimate->0.altitude_up,
        after_tick(nav, s).targets_captured,
        tick_plan(nav, s).capture,
{
}

/// The altitude modes capture the altitude of the craft and leave the position alone.
pub proof fn law_altitude_modes_capture_altitude(nav: Navigator, s: Sensed)
    requires
        tick_captures(nav, s),
        tick_mode(s) == FlightMode::AltHold || tick_mode(s) == FlightMode::FailsafeLand,
    ensures
        after_tick(nav, s).targets.altitude_up == s.estimate->0.altitude_up,
        after_tick(nav, s).targets.north == nav.targets.north,
        after_tick(nav, s).targets.east == nav.targets.east,
        tick_plan(nav, s).capture,
{
}

/// The way home leads to the origin, at 50 m (pattern 0x42480000) or higher where the
/// craft is higher, and starts a new wait there.
pub proof fn law_way_home_leads_to_the_origin(nav: Navigator, s: Sensed)
    requires
        tick_captures(nav, s),
        tick_mode(s) == FlightMode::GpsHome,
    ensures
        after_tick(nav, s).targets.north == 0,
        after_tick(nav, s).targets.east == 0,
        0x4248_0000 < s.estimate->0.altitude_up <= 0x7F80_0000 ==> after_tick(
            nav,
            s,
        ).targets.altitude_up == s.estimate->0.altitude_up,
        s.estimate->0.altitude_up <= 0x4248_0000 || s.estimate->0.altitude_up >= 0x8000_0000
            ==> after_tick(nav, s).targets.altitude_up == 0x4248_0000,
        after_tick(nav, s).loiter_since_ms is None,
        !after_tick(nav, s).landing,
{
}

/// Without a capture the targets stay, and so does the wait at home.
pub proof fn law_targets_stay_without_a_capture(nav: Navigator, s: Sensed)
    requires
        !tick_captures(nav, s),
    ensures
        after_tick(nav, s).targets == nav.targets,
        after_tick(nav, s).loiter_since_ms == nav.loiter_since_ms,
        after_tick(nav, s).landing == nav.landing,
        !tick_plan(nav, s).capture,
{
}

/// A fresh mode captures at once where what it needs is known: altitude, or home for
/// the modes that go by it.
pub proof fn law_fresh_mode_captures(nav: Navigator, s: Sensed)
    requires
        tick_mode(s) != nav.mode,
        s.reoriginated,
    ensures
        ({
            let m = tick_mode(s);
            tick_captures(nav, s) <==> m != FlightMode::Acro && m != FlightMode::FailsafeBlind
        }),
{
}

/// Where the switches stand decides the mode while the link is up: the return switch
/// (the seventh channel) past its centre goes home, and the mode switch (the sixth)
/// gives direct control, altitude hold or position hold, by thirds of its travel.
pub proof fn law_switches_select_the_mode(s: Sensed)
    requires
        s.armed,
        !s.failsafe,
        s.estimate is Some,
        s.estimate->0.altitude_ready,
    ensures
        s.channels@[6] >= 994 && s.estimate->0.home_latched ==> tick_mode(s)
            == FlightMode::GpsHome,
        s.channels@[6] < 994 || !s.estimate->0.home_latched ==> tick_mode(s) == (if s.channels@[5]
            >= 1154 {
            FlightMode::PosHold
        } else if s.channels@[5] >= 513 {
            FlightMode::AltHold
        } else {
            FlightMode::Acro
        }),
{
}

/// On the ground, and in the air without altitude or home, the pilot flies directly.
pub proof fn law_pilot_flies_without_references(s: Sensed)
    ensures
        !s.armed ==> tick_mode(s) == FlightMode::Acro,
        s.armed && !s.failsafe && s.estimate is None ==> tick_mode(s) == FlightMode::Acro,
        s.armed && !s.failsafe && s.estimate is Some && !s.estimate->0.altitude_ready
            && !s.estimate->0.home_latched ==> tick_mode(s) == FlightMode::Acro,
{
}

/// Losing the link leads to the best that what is known allows: a hover with home, a
/// controlled descent with altitude, a blind one otherwise.
pub proof fn law_link_loss_takes_the_best_descent(s: Sensed)
    requires
        s.armed,
        s.failsafe,
    ensures
        s.estimate is Some && s.estimate->0.home_latched ==> tick_mode(s) == FlightMode::GpsRescue,
        s.estimate is Some && !s.estimate->0.home_latched && s.estimate->0.altitude_ready
            ==> tick_mode(s) == FlightMode::FailsafeLand,
        s.estimate is None ==> tick_mode(s) == FlightMode::FailsafeBlind,
        s.estimate is Some && !s.estimate->0.home_latched && !s.estimate->0.altitude_ready
            ==> tick_mode(s) == FlightMode::FailsafeBlind,
{
}

/// A tick remembers what it saw: mode, arming and the calibration switch, and names
/// the mode it leaves.
pub proof fn law_tick_remembers(nav: Navigator, s: Sensed)
    ensures
        after_tick(nav, s).mode == tick_mode(s),
        tick_plan(nav, s).mode == tick_mode(s),
        tick_plan(nav, s).left == (if nav.mode == tick_mode(s) {
            None
        } else {
            Some(nav.mode)
        }),
        after_tick(nav, s).armed == s.armed,
        after_tick(nav, s).cal_switch <==> s.channels@[7] > 1500,
        nav.cycle < u32::MAX ==> after_tick(nav, s).cycle == nav.cycle + 1,
        tick_plan(nav, s).latch <==> s.armed && !nav.armed,
{
}

/// Flipping the calibration switch on the ground starts, and flipping it back aborts.
pub proof fn law_calibration_switch(nav: Navigator, first: Sensed, second: Sensed)
    requires
        !first.armed,
        !second.armed,
        !nav.cal_switch,
        first.channels@[7] > 1500,
    ensures
        tick_plan(nav, first).cal == Some(CalCommand::Start),
        second.channels@[7] > 1500 ==> tick_plan(after_tick(nav, first), second).cal is None,
        second.channels@[7] <= 1500 ==> tick_plan(after_tick(nav, first), second).cal == Some(
            CalCommand::Abort,
        ),
{
}

/// A refused arming, asked for on the fifth channel, is reported on every two
/// hundredth tick and on no other.
pub proof fn law_refusal_is_reported_now_and_then(nav: Navigator, s: Sensed)
    requires
        nav.cycle < u32::MAX,
    ensures
        tick_plan(nav, s).report_refusal <==> !s.armed && s.channels@[4] > 1500 && (nav.cycle + 1)
            % 200 == 0,
{
}

/// Course is taken for heading in forward flight only: armed, with a fix in three
/// dimensions, faster than 2 m/s (pattern 0x40000000) and the pitch stick, the second
/// channel, forward by three tenths.
pub proof fn law_course_needs_forward_flight(nav: Navigator, s: Sensed)
    ensures
        tick_plan(nav, s).fuse_course <==> s.armed && s.fix_3d && 0x4000_0000 < s.ground_speed
            <= 0x7F80_0000 && s.channels@[1] >= 1238,
{
}

/// A stick moves the targets once it is off its centre by a twentieth.
pub proof fn law_stick_dead_zones(raw: u16)
    ensures
        stick_off_centre(raw) <==> raw >= 1033 || raw <= 951,
        throttle_off_centre(raw) <==> raw >= 1074 || raw <= 909,
{
}

/// Arriving within 5 m (pattern 0x40A00000) of home starts a wait of 30 seconds there,
/// after which the landing starts.
pub proof fn law_wait_at_home(
    nav: Navigator,
    altitude_up: u32,
    near: u32,
    then: u32,
    at_ms: u64,
    now_ms: u64,
)
    requires
        !nav.landing,
        nav.loiter_since_ms is None,
        near < 0x40A0_0000,
    ensures
        ({
            let waiting = after_home(nav, near, at_ms);
            let step = home_step(waiting, altitude_up, then, now_ms);
            &&& home_step(nav, altitude_up, near, at_ms).arrived
            &&& !home_step(nav, altitude_up, near, at_ms).lands
            &&& !waiting.landing
            &&& !step.arrived
            &&& then <= 0x7F80_0000 ==> (step.lands <==> then < 0x40A0_0000 && now_ms - at_ms
                > 30_000)
            &&& step.lands <==> after_home(waiting, then, now_ms).landing
            &&& !step.descend && !step.disarm
        }),
{
}

/// A landing descends, and disarms below 1 m (pattern 0x3F800000). Elsewhere than at
/// home nothing changes.
pub proof fn law_landing_descends(
    nav: Navigator,
    altitude_up: u32,
    distance: u32,
    now_ms: u64,
)
    ensures
        home_step(nav, altitude_up, distance, now_ms).descend <==> nav.landing,
        nav.landing && altitude_up <= 0x7F80_0000 ==> (home_step(
            nav,
            altitude_up,
            distance,
            now_ms,
        ).disarm <==> altitude_up < 0x3F80_0000),
        !nav.landing && 0x40A0_0000 <= distance <= 0x7F80_0000 ==> after_home(
            nav,
            distance,
            now_ms,
        ) == nav,
        after_home(nav, distance, now_ms).targets == nav.targets,
        after_home(nav, distance, now_ms).mode == nav.mode,
{
}

/// Who flies in which mode: the sticks tilt the craft in direct control and altitude
/// hold, the throttle stick is obeyed in direct control alone, the yaw stick in all
/// three modes of the pilot.
pub proof fn law_who_flies(mode: FlightMode, est: Option<Estimate>)
    ensures
        guidance_for(mode, est).attitude == AttitudeFrom::Sticks <==> mode == FlightMode::Acro
            || mode == FlightMode::AltHold,
        guidance_for(mode, est).thrust == ThrustFrom::Stick <==> mode == FlightMode::Acro,
        guidance_for(mode, est).yaw_stick <==> mode == FlightMode::Acro || mode
            == FlightMode::AltHold || mode == FlightMode::PosHold,
{
}

/// Altitude control gives the thrust in every mode that holds or changes altitude,
/// once the mode has the reference it goes by. Without it altitude hold keeps its
/// thrust, the positional modes level out and hover, and a failsafe descent goes blind.
pub proof fn law_thrust_follows_the_references(mode: FlightMode, est: Estimate)
    ensures
        est.altitude_ready && est.home_latched && mode != FlightMode::Acro && mode
            != FlightMode::FailsafeBlind ==> guidance_for(mode, Some(est)).thrust
            == ThrustFrom::Altitude,
        est.altitude_ready && (mode == FlightMode::AltHold || mode == FlightMode::FailsafeLand)
            ==> guidance_for(mode, Some(est)).thrust == ThrustFrom::Altitude,
        est.home_latched && (mode == FlightMode::GpsRescue || mode == FlightMode::GpsHome)
            ==> guidance_for(mode, Some(est)).attitude == AttitudeFrom::Position,
        guidance_for(FlightMode::AltHold, None).thrust == ThrustFrom::Unchanged,
        guidance_for(FlightMode::PosHold, None).thrust == ThrustFrom::Hover,
        guidance_for(FlightMode::GpsRescue, None).thrust == ThrustFrom::Hover,
        guidance_for(FlightMode::GpsHome, None).attitude == AttitudeFrom::Level,
        guidance_for(FlightMode::FailsafeLand, None).thrust == ThrustFrom::Blind,
        guidance_for(FlightMode::FailsafeBlind, Some(est)).thrust == ThrustFrom::Blind,
        guidance_for(FlightMode::FailsafeLand, Some(est)).attitude == AttitudeFrom::Level,
        guidance_for(FlightMode::FailsafeBlind, Some(est)).attitude == AttitudeFrom::Level,
{
}

/// A failsafe descent with altitude disarms below 0.3 m (pattern 0x3E99999A), and no
/// other mode does so by itself.
pub proof fn law_failsafe_descent_disarms_on_the_ground(mode: FlightMode, est: Estimate)
    requires
        est.altitude_up <= 0x7F80_0000,
    ensures
        guidance_for(mode, Some(est)).disarm <==> mode == FlightMode::FailsafeLand
            && est.altitude_ready && est.altitude_up < 0x3E99_999A,
        !guidance_for(mode, None).disarm,
{
}

/// Pressure is recent for half a second, and one tick in a hundred reports.
pub proof fn law_recent_pressure_and_reports(age_ms: int, cycle: u32, later: u32)
    ensures
        2 * age_ms < 1000 <==> is_recent_pressure(age_ms),
        is_report_cycle(cycle) && cycle < later < cycle + 100 ==> !is_report_cycle(later),
        is_report_cycle(cycle) && later == cycle + 100 ==> is_report_cycle(later),
        is_report_cycle(0),
{
}

/// A tick counts once, adds its time, and overruns when it takes more than five
/// milliseconds; the longest tick is the longest so far. Solves are kept apart.
pub proof fn law_ticks_are_timed(t: LoopTimes, us: u32, iterations: u32)
    requires
        t.count < u32::MAX,
        t.overruns < u32::MAX,
        t.sum_us + us <= u64::MAX,
    ensures
        t.after_tick(us).count == t.count + 1,
        t.after_tick(us).sum_us == t.sum_us + us,
        t.after_tick(us).overruns == t.overruns + (if us > 5000 { 1int } else { 0int }),
        t.after_tick(us).max_us >= us && t.after_tick(us).max_us >= t.max_us,
        t.after_tick(us).max_us == us || t.after_tick(us).max_us == t.max_us,
        t.after_tick(us).mpc_max_us == t.mpc_max_us,
        t.after_tick(us).mpc_iters_max == t.mpc_iters_max,
        t.after_solve(us, iterations).mpc_max_us >= us,
        t.after_solve(us, iterations).mpc_max_us == us || t.after_solve(us, iterations).mpc_max_us
            == t.mpc_max_us && t.mpc_max_us > us,
        t.after_solve(us, iterations).mpc_iters_max >= iterations,
        t.after_solve(us, iterations).mpc_iters_max == iterations || t.after_solve(
            us,
            iterations,
        ).mpc_iters_max == t.mpc_iters_max && t.mpc_iters_max > iterations,
        t.after_solve(us, iterations).count == t.count,
        t.after_solve(us, iterations).sum_us == t.sum_us,
        t.after_solve(us, iterations).max_us == t.max_us,
        t.after_solve(us, iterations).overruns == t.overruns,
{
}

} // verus!
