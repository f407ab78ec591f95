//! Which measurements the position filter fuses, and against which origins.
//!
//! GPS and pressure are independent. A fix is fused once home is known; home is
//! the third good fix in a row that is somewhere else than the one before, and
//! arming anchors it anew. A receiver reports each position several times: the
//! repeats neither count towards home nor are fused. Pressure is fused from the
//! first sample on, against a reference that arming anchors anew.

use crate::counter;
use crate::drivers::nmea::FixMode;
use crate::float_bits;
use crate::float_bits::{eq32, eq64, lt32};
use vstd::prelude::*;

verus! {

/// Fewest satellites of a good fix.
pub const MIN_SATS: u8 = 4;

/// Dilution below which a fix is good: 2.5.
pub const HDOP_THRESH: u32 = 0x4020_0000;

/// Good fixes in a row that make home, repeats of a position not counted.
pub const STREAK_TO_LATCH: u8 = 3;

/// Fewest satellites for a velocity.
pub const MIN_SATS_VELOCITY: u8 = 3;

/// Speed below which course is noise: 0.3 m/s.
pub const STILL_SPEED: u32 = 0x3E99_999A;

/// The number one.
pub const ONE: u32 = 0x3F80_0000;

/// Time without pressure after which altitude is no longer anchored by it.
pub const BARO_FRESH_MS: u64 = 1000;

/// A GPS report. Positions are double-precision patterns, the rest single.
#[derive(Clone, Copy, Debug, PartialEq, Eq, Structural)]
pub struct GpsFix {
    pub fix_mode: FixMode,
    pub satellites: u8,
    pub hdop: u32,
    pub latitude: u64,
    pub longitude: u64,
    pub altitude_msl: u32,
    pub ground_speed: u32,
    pub course: u32,
}

/// An origin for positions.
#[derive(Clone, Copy, Debug, PartialEq, Eq, Structural)]
pub struct Home {
    pub latitude: u64,
    pub longitude: u64,
    pub altitude_msl: u32,
}

/// The place of a fix.
pub open spec fn place(g: GpsFix) -> Home {
    Home { latitude: g.latitude, longitude: g.longitude, altitude_msl: g.altitude_msl }
}

/// A horizontal position.
#[derive(Clone, Copy, Debug, PartialEq, Eq, Structural)]
pub struct Position {
    pub latitude: u64,
    pub longitude: u64,
}

/// A velocity that was fused.
#[derive(Clone, Copy, Debug, PartialEq, Eq, Structural)]
pub struct FusedVelocity {
    pub ground_speed: u32,
    pub course: u32,
}

/// Whether a fix is good enough to fuse.
pub open spec fn is_good(g: GpsFix) -> bool {
    &&& g.fix_mode == FixMode::Fix3D
    &&& g.satellites >= MIN_SATS
    &&& float_bits::less32(0, g.hdop)
    &&& float_bits::less32(g.hdop, HDOP_THRESH)
}

fn good(g: &GpsFix) -> (b: bool)
    ensures
        b == is_good(*g),
{
    g.fix_mode == FixMode::Fix3D && g.satellites >= MIN_SATS && lt32(0, g.hdop) && lt32(
        g.hdop,
        HDOP_THRESH,
    )
}

/// Whether a fix is somewhere else than the last good one.
pub open spec fn is_fresh(g: GpsFix, last: Option<Position>) -> bool {
    match last {
        None => true,
        Some(p) => !float_bits::equal64(g.latitude, p.latitude) || !float_bits::equal64(
            g.longitude,
            p.longitude,
        ),
    }
}

/// Whether a velocity is to be fused: it differs from the last one, and there
/// is a fix of some kind.
pub open spec fn fuses_velocity(g: GpsFix, last: Option<FusedVelocity>) -> bool {
    &&& match last {
        None => true,
        Some(v) => !float_bits::equal32(g.ground_speed, v.ground_speed) || !float_bits::equal32(
            g.course,
            v.course,
        ),
    }
    &&& g.fix_mode != FixMode::NoFix
    &&& g.satellites >= MIN_SATS_VELOCITY
}

/// How much to scale the noise of a fix: by its dilution, and by one at least.
pub open spec fn noise_scale(hdop: u32) -> u32 {
    if float_bits::less32(hdop, ONE) {
        ONE
    } else {
        hdop
    }
}

/// A velocity to fuse.
#[derive(Clone, Copy, Debug, PartialEq, Eq, Structural)]
pub enum VelocityFuse {
    /// Too slow for a course: fuse zero.
    Still,
    /// Fuse speed and course as reported.
    Moving,
}

/// A position to fuse.
#[derive(Clone, Copy, Debug, PartialEq, Eq, Structural)]
pub struct PositionFuse {
    /// What the position is relative to.
    pub home: Home,
    /// What the noise of the fix is scaled by.
    pub noise_scale: u32,
}

/// What to fuse of a GPS report.
#[derive(Clone, Copy, Debug, PartialEq, Eq, Structural)]
pub struct GpsPlan {
    /// Home has just been set.
    pub latched: bool,
    pub position: Option<PositionFuse>,
    pub velocity: Option<VelocityFuse>,
}

/// What becomes of home on arming.
#[derive(Clone, Copy, Debug, PartialEq, Eq, Structural)]
pub enum HomeAtArm {
    /// Set to the last fix.
    Anchored,
    /// Kept where it was.
    Kept,
    /// Still unknown.
    Unset,
}

/// What arming anchors.
#[derive(Clone, Copy, Debug, PartialEq, Eq, Structural)]
pub struct ArmPlan {
    /// The reference pressure was set to the last sample.
    pub pressure: bool,
    pub home: HomeAtArm,
}

/// Measurements in the current second.
#[derive(Clone, Copy, Debug, PartialEq, Eq, Structural)]
pub struct Tally {
    pub baro: u32,
    pub gps_signals: u32,
    pub gps_positions: u32,
    pub gps_velocities: u32,
}

/// State of the fusion.
#[derive(Clone, Copy, Debug, PartialEq, Eq, Structural)]
pub struct Fusion {
    /// Reference pressure in Pa, once there is one.
    pub p_ref: Option<u32>,
    /// The reference is that of the last arming.
    pub p_ref_at_arm: bool,
    pub last_pressure: Option<u32>,
    /// When the last pressure sample came.
    pub last_baro_ms: Option<u64>,
    pub home: Option<Home>,
    /// Good fixes in a row, repeats of a position not counted.
    pub streak: u8,
    pub last_gps: Option<GpsFix>,
    /// Where the last good fix was, fused or not.
    pub last_position: Option<Position>,
    pub fused_velocity: Option<FusedVelocity>,
    /// Armings whose origins are in effect.
    pub arm_origin_seq: u32,
    pub tally: Tally,
}

/// The streak after a report: a fresh good fix makes it longer, a bad one ends
/// it, and one that repeats the last position does neither.
pub open spec fn streak_after(streak: u8, good: bool, fresh: bool) -> u8 {
    if good && fresh {
        if streak == u8::MAX {
            u8::MAX
        } else {
            (streak + 1) as u8
        }
    } else if !good {
        0
    } else {
        streak
    }
}

/// Home after a report.
pub open spec fn home_after(f: Fusion, g: GpsFix) -> Option<Home> {
    let fresh = is_fresh(g, f.last_position);
    if f.home is None && is_good(g) && fresh && streak_after(f.streak, true, true)
        >= STREAK_TO_LATCH {
        Some(place(g))
    } else {
        f.home
    }
}

/// Whether a report's position is fused.
pub open spec fn fuses_position(f: Fusion, g: GpsFix) -> bool {
    is_good(g) && is_fresh(g, f.last_position) && home_after(f, g) is Some
}

/// What to fuse of a report.
pub open spec fn gps_plan(f: Fusion, g: GpsFix) -> GpsPlan {
    GpsPlan {
        latched: f.home is None && home_after(f, g) is Some,
        position: if fuses_position(f, g) {
            Some(
                PositionFuse { home: home_after(f, g)->0, noise_scale: noise_scale(g.hdop) },
            )
        } else {
            None
        },
        velocity: if fuses_velocity(g, f.fused_velocity) {
            if float_bits::less32(g.ground_speed, STILL_SPEED) {
                Some(VelocityFuse::Still)
            } else {
                Some(VelocityFuse::Moving)
            }
        } else {
            None
        },
    }
}

/// The state after a report.
pub open spec fn after_gps(f: Fusion, g: GpsFix) -> Fusion {
    Fusion {
        home: home_after(f, g),
        streak: streak_after(f.streak, is_good(g), is_fresh(g, f.last_position)),
        last_gps: Some(g),
        last_position: if is_good(g) && is_fresh(g, f.last_position) {
            Some(Position { latitude: g.latitude, longitude: g.longitude })
        } else {
            f.last_position
        },
        fused_velocity: if fuses_velocity(g, f.fused_velocity) {
            Some(FusedVelocity { ground_speed: g.ground_speed, course: g.course })
        } else {
            f.fused_velocity
        },
        tally: Tally {
            baro: f.tally.baro,
            gps_signals: counter::next(f.tally.gps_signals),
            gps_positions: if fuses_position(f, g) {
                counter::next(f.tally.gps_positions)
            } else {
                f.tally.gps_positions
            },
            gps_velocities: if fuses_velocity(g, f.fused_velocity) {
                counter::next(f.tally.gps_velocities)
            } else {
                f.tally.gps_velocities
            },
        },
        ..f
    }
}

/// The state after a pressure sample.
pub open spec fn after_baro(f: Fusion, pressure: u32, now_ms: u64) -> Fusion {
    Fusion {
        p_ref: match f.p_ref {
            Some(p) => Some(p),
            None => Some(pressure),
        },
        last_pressure: Some(pressure),
        last_baro_ms: Some(now_ms),
        tally: Tally { baro: counter::next(f.tally.baro), ..f.tally },
        ..f
    }
}

/// What becomes of home on arming, given whether there is a good fix and whether there
/// is a home.
pub open spec fn home_at_arm(fixed: bool, known: bool) -> HomeAtArm {
    if fixed {
        HomeAtArm::Anchored
    } else if known {
        HomeAtArm::Kept
    } else {
        HomeAtArm::Unset
    }
}

/// The state after arming. Positions and velocities start from zero.
pub open spec fn after_arm(f: Fusion) -> Fusion {
    let fixed = f.last_gps is Some && is_good(f.last_gps->0);
    Fusion {
        p_ref: match f.last_pressure {
            Some(p) => Some(p),
            None => f.p_ref,
        },
        p_ref_at_arm: f.p_ref_at_arm || f.last_pressure is Some,
        home: if fixed {
            Some(place(f.last_gps->0))
        } else {
            f.home
        },
        last_position: if fixed {
            Some(
                Position {
                    latitude: f.last_gps->0.latitude,
                    longitude: f.last_gps->0.longitude,
                },
            )
        } else {
            f.last_position
        },
        arm_origin_seq: counter::next(f.arm_origin_seq),
        ..f
    }
}

/// What is known of altitude.
#[derive(Clone, Copy, Debug, PartialEq, Eq, Structural)]
pub struct Readiness {
    pub baro_fresh: bool,
    /// Pressure is fresh, or home is known.
    pub altitude_ready: bool,
    pub home_latched: bool,
    /// Time since the last pressure sample, the maximum before the first.
    pub baro_age_ms: u32,
}

/// What is known of altitude at a time not before the last pressure sample.
pub open spec fn readiness_at(f: Fusion, now_ms: u64) -> Readiness {
    let age = now_ms - f.last_baro_ms->0;
    let baro_fresh = f.last_baro_ms is Some && age < BARO_FRESH_MS;
    Readiness {
        baro_fresh,
        altitude_ready: baro_fresh || f.home is Some,
        home_latched: f.home is Some,
        baro_age_ms: if f.last_baro_ms is None || age > u32::MAX {
            u32::MAX
        } else {
            age as u32
        },
    }
}

impl Fusion {
    pub fn new() -> (f: Self)
        ensures
            f.p_ref is None,
            f.last_pressure is None,
            f.last_baro_ms is None,
            f.home is None,
            f.streak == 0,
            f.last_gps is None,
            f.last_position is None,
            f.fused_velocity is None,
            f.arm_origin_seq == 0,
            !f.p_ref_at_arm,
            f.tally == (Tally { baro: 0, gps_signals: 0, gps_positions: 0, gps_velocities: 0 }),
    {
        Fusion {
            p_ref: None,
            p_ref_at_arm: false,
            last_pressure: None,
            last_baro_ms: None,
            home: None,
            streak: 0,
            last_gps: None,
            last_position: None,
            fused_velocity: None,
            arm_origin_seq: 0,
            tally: Tally { baro: 0, gps_signals: 0, gps_positions: 0, gps_velocities: 0 },
        }
    }

    /// Takes a GPS report.
    pub fn gps(&mut self, g: &GpsFix) -> (plan: GpsPlan)
        ensures
            plan == gps_plan(*old(self), *g),
            *final(self) == after_gps(*old(self), *g),
    {
        self.last_gps = Some(*g);
        self.tally.gps_signals = self.tally.gps_signals.wrapping_add(1);
        let good_fix: bool = good(g);
        let fresh: bool = match self.last_position {
            None => true,
            Some(p) => !eq64(g.latitude, p.latitude) || !eq64(g.longitude, p.longitude),
        };
        let mut latched: bool = false;
        let mut position: Option<PositionFuse> = None;
        if good_fix && fresh {
            self.streak = self.streak.saturating_add(1);
            self.last_position = Some(Position { latitude: g.latitude, longitude: g.longitude });
            let here = Home {
                latitude: g.latitude,
                longitude: g.longitude,
                altitude_msl: g.altitude_msl,
            };
            if self.home.is_none() && self.streak >= STREAK_TO_LATCH {
                self.home = Some(here);
                latched = true;
            }
            if let Some(home) = self.home {
                let noise_scale: u32 = if lt32(g.hdop, ONE) {
                    ONE
                } else {
                    g.hdop
                };
                position = Some(PositionFuse { home, noise_scale });
                self.tally.gps_positions = self.tally.gps_positions.wrapping_add(1);
            }
        } else if !good_fix {
            self.streak = 0;
        }
        let velocity: Option<VelocityFuse> = self.velocity(g);
        GpsPlan { latched, position, velocity }
    }

    fn velocity(&mut self, g: &GpsFix) -> (v: Option<VelocityFuse>)
        ensures
            fuses_velocity(*g, old(self).fused_velocity) ==> v == Some(
                if float_bits::less32(g.ground_speed, STILL_SPEED) {
                    VelocityFuse::Still
                } else {
                    VelocityFuse::Moving
                },
            ) && *final(self) == (Fusion {
                fused_velocity: Some(
                    FusedVelocity { ground_speed: g.ground_speed, course: g.course },
                ),
                tally: Tally {
                    gps_velocities: counter::next(old(self).tally.gps_velocities),
                    ..old(self).tally
                },
                ..*old(self)
            }),
            !fuses_velocity(*g, old(self).fused_velocity) ==> v is None && *final(self) == *old(
                self,
            ),
    {
        let fresh: bool = match self.fused_velocity {
            None => true,
            Some(v) => !eq32(g.ground_speed, v.ground_speed) || !eq32(g.course, v.course),
        };
        if !fresh || g.fix_mode == FixMode::NoFix || g.satellites < MIN_SATS_VELOCITY {
            return None;
        }
        self.tally.gps_velocities = self.tally.gps_velocities.wrapping_add(1);
        self.fused_velocity = Some(
            FusedVelocity { ground_speed: g.ground_speed, course: g.course },
        );
        if lt32(g.ground_speed, STILL_SPEED) {
            Some(VelocityFuse::Still)
        } else {
            Some(VelocityFuse::Moving)
        }
    }

    /// Takes a pressure sample and gives the reference to fuse it against.
    pub fn baro(&mut self, pressure: u32, now_ms: u64) -> (p_ref: u32)
        ensures
            *final(self) == after_baro(*old(self), pressure, now_ms),
            p_ref == final(self).p_ref->0,
    {
        self.last_pressure = Some(pressure);
        self.last_baro_ms = Some(now_ms);
        self.tally.baro = self.tally.baro.wrapping_add(1);
        match self.p_ref {
            Some(p) => p,
            None => {
                self.p_ref = Some(pressure);
                pressure
            },
        }
    }

    /// Anchors both origins on arming. The filter's state is then to be zeroed.
    pub fn arm(&mut self) -> (plan: ArmPlan)
        ensures
            *final(self) == after_arm(*old(self)),
            plan.pressure == old(self).last_pressure is Some,
            plan.home == (if old(self).last_gps is Some && is_good(old(self).last_gps->0) {
                HomeAtArm::Anchored
            } else if old(self).home is Some {
                HomeAtArm::Kept
            } else {
                HomeAtArm::Unset
            }),
            plan.home == home_at_arm(
                old(self).last_gps is Some && is_good(old(self).last_gps->0),
                old(self).home is Some,
            ),
    {
        let pressure: bool = match self.last_pressure {
            Some(p) => {
                self.p_ref = Some(p);
                self.p_ref_at_arm = true;
                true
            },
            None => false,
        };
        let mut home: HomeAtArm = if self.home.is_some() {
            HomeAtArm::Kept
        } else {
            HomeAtArm::Unset
        };
        if let Some(g) = self.last_gps {
            if good(&g) {
                self.home = Some(
                    Home {
                        latitude: g.latitude,
                        longitude: g.longitude,
                        altitude_msl: g.altitude_msl,
                    },
                );
                self.last_position = Some(
                    Position { latitude: g.latitude, longitude: g.longitude },
                );
                home = HomeAtArm::Anchored;
            }
        }
        self.arm_origin_seq = self.arm_origin_seq.wrapping_add(1);
        ArmPlan { pressure, home }
    }

    /// The reference pressure that arming has set, zero before that.
    pub open spec fn armed_reference(self) -> u32 {
        if self.p_ref_at_arm && self.p_ref is Some {
            self.p_ref->0
        } else {
            0
        }
    }

    /// The reference pressure that arming has set, zero before that.
    pub fn arm_pressure(&self) -> (p: u32)
        ensures
            p == (if self.p_ref_at_arm && self.p_ref is Some {
                self.p_ref->0
            } else {
                0
            }),
            p == self.armed_reference(),
    {
        match self.p_ref {
            Some(p) if self.p_ref_at_arm => p,
            _ => 0,
        }
    }

    /// What is known of altitude now.
    pub fn readiness(&self, now_ms: u64) -> (r: Readiness)
        requires
            self.last_baro_ms matches Some(t) ==> t <= now_ms,
        ensures
            r == readiness_at(*self, now_ms),
    {
        let home_latched: bool = self.home.is_some();
        match self.last_baro_ms {
            None => Readiness {
                baro_fresh: false,
                altitude_ready: home_latched,
                home_latched,
                baro_age_ms: u32::MAX,
            },
            Some(t) => {
                let age: u64 = now_ms - t;
                let baro_fresh: bool = age < BARO_FRESH_MS;
                let baro_age_ms: u32 = if age > 0xFFFF_FFFF {
                    u32::MAX
                } else {
                    age as u32
                };
                Readiness {
                    baro_fresh,
                    altitude_ready: baro_fresh || home_latched,
                    home_latched,
                    baro_age_ms,
                }
            },
        }
    }

    /// Starts the next second's tally and gives the last one.
    pub fn take_tally(&mut self) -> (t: Tally)
        ensures
            t == old(self).tally,
            *final(self) == (Fusion {
                tally: Tally { baro: 0, gps_signals: 0, gps_positions: 0, gps_velocities: 0 },
                ..*old(self)
            }),
    {
        let t: Tally = self.tally;
        self.tally = Tally { baro: 0, gps_signals: 0, gps_positions: 0, gps_velocities: 0 };
        t
    }
}

// ---- Laws ----

/// Once known, home stays known, and only arming moves it.
pub proof fn law_home_stays_known(f: Fusion, g: GpsFix, pressure: u32, now_ms: u64)
    requires
        f.home is Some,
    ensures
        after_gps(f, g).home == f.home,
        after_baro(f, pressure, now_ms).home == f.home,
        after_arm(f).home is Some,
{
}

/// Home is set by a report only as the third good fix in a row that is somewhere
/// else than the one before, and then to the place of that fix.
pub proof fn law_home_needs_three_good_fixes(f: Fusion, g: GpsFix)
    requires
        f.home is None,
        after_gps(f, g).home is Some,
    ensures
        is_good(g),
        is_fresh(g, f.last_position),
        f.streak >= 2,
        after_gps(f, g).home == Some(place(g)),
{
}

/// Three good fixes in a row, each somewhere else than the one before, make home.
pub proof fn law_three_places_make_home(f: Fusion, a: GpsFix, b: GpsFix, c: GpsFix)
    requires
        is_good(a),
        is_good(b),
        is_good(c),
        is_fresh(a, f.last_position),
        is_fresh(b, Some(Position { latitude: a.latitude, longitude: a.longitude })),
        is_fresh(c, Some(Position { latitude: b.latitude, longitude: b.longitude })),
    ensures
        after_gps(after_gps(after_gps(f, a), b), c).home is Some,
        f.home is None && f.streak == 0 ==> after_gps(after_gps(after_gps(f, a), b), c).home
            == Some(place(c)),
{
}

/// A bad fix undoes the streak: at least three good fixes must follow it.
pub proof fn law_bad_fix_breaks_the_streak(f: Fusion, bad: GpsFix, b: GpsFix, c: GpsFix)
    requires
        f.home is None,
        !is_good(bad),
    ensures
        after_gps(f, bad).streak == 0,
        after_gps(after_gps(after_gps(f, bad), b), c).home is None,
{
}

/// Repeating the last good position neither lengthens nor ends a streak, and
/// fuses nothing.
pub proof fn law_repeated_position_is_ignored(f: Fusion, g: GpsFix)
    requires
        is_good(g),
        !is_fresh(g, f.last_position),
    ensures
        after_gps(f, g).streak == f.streak,
        gps_plan(f, g).position is None,
        after_gps(f, g).home == f.home,
        after_gps(f, g).last_position == f.last_position,
{
}

/// The state after reports in turn.
pub open spec fn after_reports(f: Fusion, reports: Seq<GpsFix>) -> Fusion
    decreases reports.len(),
{
    if reports.len() == 0 {
        f
    } else {
        after_gps(after_reports(f, reports.drop_last()), reports.last())
    }
}

/// However often one position is reported, it counts once towards home: alone it
/// never makes home, nor after one good fix before it. A position that is no
/// number is not covered, as it never equals itself.
pub proof fn law_repeats_never_make_home(f: Fusion, reports: Seq<GpsFix>, at: Position)
    requires
        f.home is None,
        f.streak <= 1,
        float_bits::equal64(at.latitude, at.latitude),
        float_bits::equal64(at.longitude, at.longitude),
        forall|i: int|
            0 <= i < reports.len() ==> (#[trigger] reports[i]).latitude == at.latitude
                && reports[i].longitude == at.longitude,
    ensures
        after_reports(f, reports).home is None,
        after_reports(f, reports).streak <= f.streak + 1,
        after_reports(f, reports).streak > f.streak ==> after_reports(f, reports).last_position
            == Some(at),
    decreases reports.len(),
{
    if reports.len() > 0 {
        let head = reports.drop_last();
        assert forall|i: int| 0 <= i < head.len() implies (#[trigger] head[i]).latitude
            == at.latitude && head[i].longitude == at.longitude by {
            assert(head[i] == reports[i]);
        }
        law_repeats_never_make_home(f, head, at);
        let g = reports[reports.len() - 1];
        assert(g.latitude == at.latitude && g.longitude == at.longitude);
    }
}

/// A position that has been fused is not fused a second time, unless it is no
/// number.
pub proof fn law_position_is_fused_once(f: Fusion, g: GpsFix, again: GpsFix)
    requires
        fuses_position(f, g),
        float_bits::equal64(g.latitude, g.latitude),
        float_bits::equal64(g.longitude, g.longitude),
        again.latitude == g.latitude,
        again.longitude == g.longitude,
    ensures
        gps_plan(after_gps(f, g), again).position is None,
{
}

/// Pressure is fused from the first sample on, and its reference only moves on
/// arming.
pub proof fn law_reference_pressure_only_moves_on_arming(
    f: Fusion,
    g: GpsFix,
    pressure: u32,
    now_ms: u64,
)
    ensures
        after_baro(f, pressure, now_ms).p_ref is Some,
        f.p_ref is Some ==> after_baro(f, pressure, now_ms).p_ref == f.p_ref,
        after_gps(f, g).p_ref == f.p_ref,
{
}

/// Arming right after a pressure sample makes that sample the reference, so that
/// altitude reads zero; arming right after a good fix makes that fix home.
pub proof fn law_arming_zeroes_the_origins(f: Fusion, g: GpsFix, pressure: u32, now_ms: u64)
    ensures
        after_arm(after_baro(f, pressure, now_ms)).p_ref == Some(pressure),
        is_good(g) ==> after_arm(after_gps(f, g)).home == Some(place(g)),
{
}

/// The count of armings moves on arming and only then.
pub proof fn law_arm_count_counts_armings(f: Fusion, g: GpsFix, pressure: u32, now_ms: u64)
    ensures
        after_gps(f, g).arm_origin_seq == f.arm_origin_seq,
        after_baro(f, pressure, now_ms).arm_origin_seq == f.arm_origin_seq,
        after_arm(f).arm_origin_seq != f.arm_origin_seq,
{
}

/// Before any sample altitude is not ready; a sample makes it ready at once.
pub proof fn law_altitude_needs_a_sensor(f: Fusion, pressure: u32, now_ms: u64)
    ensures
        f.last_baro_ms is None && f.home is None ==> !readiness_at(f, now_ms).altitude_ready,
        readiness_at(after_baro(f, pressure, now_ms), now_ms).altitude_ready,
        f.last_baro_ms is None ==> readiness_at(f, now_ms).baro_age_ms == u32::MAX,
{
}

/// Home is where the fix was: latitude, longitude and altitude of the fix that sets
/// it, and positions are fused relative to just that.
pub proof fn law_home_is_where_the_fix_was(f: Fusion, g: GpsFix)
    ensures
        f.home is None && after_gps(f, g).home is Some ==> {
            let home = after_gps(f, g).home->0;
            &&& home.latitude == g.latitude
            &&& home.longitude == g.longitude
            &&& home.altitude_msl == g.altitude_msl
            &&& gps_plan(f, g).latched
        },
        f.home is Some ==> !gps_plan(f, g).latched,
        gps_plan(f, g).position is Some ==> after_gps(f, g).home == Some(
            gps_plan(f, g).position->0.home,
        ),
{
}

/// Arming with a good fix puts home where that fix was, in all three coordinates,
/// and a repeat of it is then not fused. Without one home stays.
pub proof fn law_arming_puts_home_at_the_fix(f: Fusion, again: GpsFix)
    ensures
        f.last_gps is Some && is_good(f.last_gps->0) ==> {
            let g = f.last_gps->0;
            let home = after_arm(f).home->0;
            &&& after_arm(f).home is Some
            &&& home.latitude == g.latitude
            &&& home.longitude == g.longitude
            &&& home.altitude_msl == g.altitude_msl
            &&& again.latitude == g.latitude && again.longitude == g.longitude
                && !float_bits::is_nan64(g.latitude) && !float_bits::is_nan64(g.longitude)
                ==> gps_plan(after_arm(f), again).position is None
        },
        !(f.last_gps is Some && is_good(f.last_gps->0)) ==> after_arm(f).home == f.home,
        after_arm(f).streak == f.streak,
        after_arm(f).tally == f.tally,
{
}

/// A fix is good with three dimensions, four satellites and a dilution above zero and
/// below 2.5, whose pattern is 0x40200000.
pub proof fn law_good_fix(g: GpsFix)
    ensures
        is_good(g) <==> g.fix_mode == FixMode::Fix3D && g.satellites >= 4 && 0 < g.hdop
            < 0x4020_0000,
{
}

/// The noise of a fused fix is scaled by its dilution and by one, pattern 0x3F800000,
/// at least, so that a better fix never weighs less.
pub proof fn law_noise_follows_dilution(f: Fusion, g: GpsFix)
    requires
        gps_plan(f, g).position is Some,
    ensures
        gps_plan(f, g).position->0.noise_scale >= g.hdop,
        gps_plan(f, g).position->0.noise_scale >= 0x3F80_0000,
        gps_plan(f, g).position->0.noise_scale == g.hdop || gps_plan(f, g).position->0.noise_scale
            == 0x3F80_0000,
{
}

/// A move along either axis makes a position fresh: it is stale only where both
/// coordinates are those of the last good fix.
pub proof fn law_either_coordinate_makes_fresh(g: GpsFix, p: Position)
    requires
        !float_bits::is_nan64(g.latitude),
        !float_bits::is_nan64(g.longitude),
        g.latitude % 0x8000_0000_0000_0000 != 0,
        g.longitude % 0x8000_0000_0000_0000 != 0,
    ensures
        is_fresh(g, None),
        is_fresh(g, Some(p)) <==> g.latitude != p.latitude || g.longitude != p.longitude,
{
}

/// The last good fix is what the next one is compared with.
pub proof fn law_last_good_fix_is_kept(f: Fusion, g: GpsFix)
    ensures
        is_good(g) && is_fresh(g, f.last_position) ==> after_gps(f, g).last_position is Some
            && after_gps(f, g).last_position->0.latitude == g.latitude && after_gps(
            f,
            g,
        ).last_position->0.longitude == g.longitude,
        !is_good(g) ==> after_gps(f, g).last_position == f.last_position,
        after_gps(f, g).last_gps == Some(g),
        is_good(g) && is_fresh(g, f.last_position) && f.streak < u8::MAX ==> after_gps(f, g).streak
            == f.streak + 1,
{
}

/// A velocity is fused with a fix of some kind and three satellites, when speed or
/// course has changed. Below 0.3 m/s, pattern 0x3E99999A, it counts as standing still.
pub proof fn law_velocity_fusion(f: Fusion, g: GpsFix)
    requires
        g.ground_speed <= 0x7F80_0000,
        f.fused_velocity is None,
    ensures
        gps_plan(f, g).velocity is Some <==> g.fix_mode != FixMode::NoFix && g.satellites >= 3,
        gps_plan(f, g).velocity == Some(VelocityFuse::Still) ==> g.ground_speed < 0x3E99_999A,
        gps_plan(f, g).velocity == Some(VelocityFuse::Moving) ==> g.ground_speed >= 0x3E99_999A,
{
}

/// A velocity is fused once: the same speed and course again are not, and a change of
/// either is.
pub proof fn law_velocity_is_fused_once(f: Fusion, g: GpsFix, again: GpsFix)
    requires
        gps_plan(f, g).velocity is Some,
        !float_bits::is_nan32(g.ground_speed),
        !float_bits::is_nan32(g.course),
        again.fix_mode == g.fix_mode,
        again.satellites == g.satellites,
    ensures
        again.ground_speed == g.ground_speed && again.course == g.course ==> gps_plan(
            after_gps(f, g),
            again,
        ).velocity is None,
        again.ground_speed == g.ground_speed && again.course != g.course && g.course
            % 0x8000_0000 != 0 ==> gps_plan(after_gps(f, g), again).velocity is Some,
        again.course == g.course && again.ground_speed != g.ground_speed && g.ground_speed
            % 0x8000_0000 != 0 ==> gps_plan(after_gps(f, g), again).velocity is Some,
{
}

/// Each report and each fused measurement is counted once, and armings are not.
pub proof fn law_tally_counts_what_happened(f: Fusion, g: GpsFix, pressure: u32, now_ms: u64)
    requires
        f.tally.baro < u32::MAX,
        f.tally.gps_signals < u32::MAX,
        f.tally.gps_positions < u32::MAX,
        f.tally.gps_velocities < u32::MAX,
    ensures
        after_gps(f, g).tally.gps_signals == f.tally.gps_signals + 1,
        after_gps(f, g).tally.gps_positions - f.tally.gps_positions == (if gps_plan(f, g).position
            is Some {
            1int
        } else {
            0int
        }),
        after_gps(f, g).tally.gps_velocities - f.tally.gps_velocities == (if gps_plan(
            f,
            g,
        ).velocity is Some {
            1int
        } else {
            0int
        }),
        after_gps(f, g).tally.baro == f.tally.baro,
        after_baro(f, pressure, now_ms).tally.baro == f.tally.baro + 1,
        after_baro(f, pressure, now_ms).tally.gps_signals == f.tally.gps_signals,
{
}

/// A pressure sample is kept with its time, and is fresh for a second. Altitude is
/// ready while it is, and whenever home is known.
pub proof fn law_pressure_is_fresh_for_a_second(
    f: Fusion,
    pressure: u32,
    at_ms: u64,
    now_ms: u64,
)
    requires
        at_ms <= now_ms,
    ensures
        ({
            let after = after_baro(f, pressure, at_ms);
            let r = readiness_at(after, now_ms);
            &&& after.last_pressure == Some(pressure)
            &&& r.baro_fresh <==> now_ms - at_ms < 1000
            &&& r.altitude_ready <==> now_ms - at_ms < 1000 || f.home is Some
            &&& r.home_latched <==> f.home is Some
            &&& now_ms - at_ms <= u32::MAX ==> r.baro_age_ms == now_ms - at_ms
            &&& f.p_ref is None ==> after.p_ref == Some(pressure)
            &&& after_arm(after).p_ref_at_arm
        }),
{
}

/// The reference is given out once arming has set it, and only then.
pub proof fn law_reference_is_that_of_arming(f: Fusion, p: u32)
    requires
        f.p_ref == Some(p),
    ensures
        (Fusion { p_ref_at_arm: true, ..f }).armed_reference() == p,
        (Fusion { p_ref_at_arm: false, ..f }).armed_reference() == 0,
        (Fusion { p_ref: None, ..f }).armed_reference() == 0,
{
}

/// Home is unknown after arming exactly when there is neither a fix nor a home, and is
/// moved exactly when there is a fix.
pub proof fn law_what_becomes_of_home(fixed: bool, known: bool)
    ensures
        home_at_arm(fixed, known) is Anchored <==> fixed,
        home_at_arm(fixed, known) is Kept <==> known && !fixed,
        home_at_arm(fixed, known) is Unset <==> !known && !fixed,
{
}

/// Arming takes the last pressure for the reference, keeps the one there was where there
/// is none, and marks a new origin.
pub proof fn law_arming_sets_the_reference(f: Fusion, p: u32)
    ensures
        f.last_pressure == Some(p) ==> after_arm(f).p_ref == Some(p) && after_arm(f).p_ref_at_arm
            && after_arm(f).armed_reference() == p,
        f.last_pressure is None ==> after_arm(f).p_ref == f.p_ref && after_arm(f).p_ref_at_arm
            == f.p_ref_at_arm,
        f.arm_origin_seq < u32::MAX ==> after_arm(f).arm_origin_seq == f.arm_origin_seq + 1,
        after_arm(f).streak == f.streak,
        after_arm(f).last_gps == f.last_gps,
        after_arm(f).last_pressure == f.last_pressure,
{
}

} // verus!
