//! Which velocities from the receiver may be differenced into an acceleration.
//!
//! A difference needs two fixes that belong together: one taken against a velocity
//! from before an outage would show an acceleration that never happened. Once fixes
//! stop, the estimate fades out rather than stepping to zero.
//!
//! Velocities and times pass through as single-precision bit patterns.

use crate::float_bits;
use crate::float_bits::{eq32, lt32};
use vstd::prelude::*;

verus! {

/// 1 s: age of the last fix beyond which the estimate fades.
pub const STALE_AFTER_S: u32 = 0x3F80_0000;

/// 1 ms: fixes no further apart are not differenced.
pub const MIN_INTERVAL_S: u32 = 0x3A83_126F;

/// The velocity that the next fix is differenced against.
#[derive(Debug, Clone, Copy)]
pub struct VelocityAnchor {
    /// North and east velocity of the last fix, none before the first one and after
    /// an outage.
    pub last_vel: Option<[u32; 2]>,
    /// Time since the last fix.
    pub since_fix_s: u32,
}

/// Whether a fix of that age is too old.
pub open spec fn stale(age_s: u32) -> bool {
    float_bits::less32(STALE_AFTER_S, age_s)
}

/// Whether the age is a number and not too old.
pub open spec fn recent(age_s: u32) -> bool {
    float_bits::less32(age_s, STALE_AFTER_S) || float_bits::equal32(age_s, STALE_AFTER_S)
}

impl VelocityAnchor {
    /// The anchor before any fix.
    pub open spec fn none() -> Self {
        VelocityAnchor { last_vel: None, since_fix_s: 0 }
    }

    /// The anchor once the last fix has reached an age.
    pub open spec fn aged(self, age_s: u32) -> Self {
        VelocityAnchor {
            last_vel: if stale(age_s) {
                None
            } else {
                self.last_vel
            },
            since_fix_s: age_s,
        }
    }

    /// The anchor after ages in turn without a fix.
    pub open spec fn aged_through(self, ages_s: Seq<u32>) -> Self
        decreases ages_s.len(),
    {
        if ages_s.len() == 0 {
            self
        } else {
            self.aged_through(ages_s.drop_last()).aged(ages_s.last())
        }
    }

    /// What a fix is differenced against.
    pub open spec fn basis(self, dt_s: u32) -> Option<[u32; 2]> {
        if float_bits::less32(MIN_INTERVAL_S, dt_s) {
            self.last_vel
        } else {
            None
        }
    }

    /// The anchor right after a fix.
    pub open spec fn at(v: [u32; 2]) -> Self {
        VelocityAnchor { last_vel: Some(v), since_fix_s: 0 }
    }

    /// Whether the estimate rests on recent fixes.
    pub open spec fn fresh(self) -> bool {
        self.last_vel is Some && recent(self.since_fix_s)
    }

    pub fn new() -> (a: Self)
        ensures
            a == Self::none(),
    {
        VelocityAnchor { last_vel: None, since_fix_s: 0 }
    }

    /// Time passes without a fix; the last one is now `since_fix_s` old. Says
    /// whether the estimate fades.
    pub fn tick(&mut self, since_fix_s: u32) -> (fades: bool)
        ensures
            fades == stale(since_fix_s),
            *final(self) == old(self).aged(since_fix_s),
    {
        let fades: bool = lt32(STALE_AFTER_S, since_fix_s);
        self.since_fix_s = since_fix_s;
        if fades {
            self.last_vel = None;
        }
        fades
    }

    /// A fix arrives, `dt_s` after the one before. Gives the velocity to difference
    /// it against, if there is one.
    pub fn update(&mut self, v: [u32; 2], dt_s: u32) -> (basis: Option<[u32; 2]>)
        ensures
            basis == old(self).basis(dt_s),
            *final(self) == Self::at(v),
    {
        let basis: Option<[u32; 2]> = if lt32(MIN_INTERVAL_S, dt_s) {
            self.last_vel
        } else {
            None
        };
        self.last_vel = Some(v);
        self.since_fix_s = 0;
        basis
    }

    /// Whether the estimate is backed by recent fixes.
    pub fn is_fresh(&self) -> (yes: bool)
        ensures
            yes == self.fresh(),
    {
        self.last_vel.is_some() && (lt32(self.since_fix_s, STALE_AFTER_S) || eq32(
            self.since_fix_s,
            STALE_AFTER_S,
        ))
    }
}

// ---- Laws ----

/// However long it takes to come, the first fix is differenced against nothing.
pub proof fn law_first_fix_has_no_basis(ages_s: Seq<u32>, dt_s: u32)
    ensures
        VelocityAnchor::none().aged_through(ages_s).last_vel is None,
        VelocityAnchor::none().aged_through(ages_s).basis(dt_s) is None,
        !VelocityAnchor::none().aged_through(ages_s).fresh(),
    decreases ages_s.len(),
{
    if ages_s.len() > 0 {
        law_first_fix_has_no_basis(ages_s.drop_last(), dt_s);
    }
}

/// Once fixes have been missing for too long, the next one is differenced against
/// nothing, whatever was received before and however the wait goes on.
pub proof fn law_outage_drops_the_anchor(a: VelocityAnchor, ages_s: Seq<u32>, i: int, dt_s: u32)
    requires
        0 <= i < ages_s.len(),
        stale(ages_s[i]),
    ensures
        a.aged_through(ages_s).last_vel is None,
        a.aged_through(ages_s).basis(dt_s) is None,
        !a.aged_through(ages_s).fresh(),
    decreases ages_s.len(),
{
    if i < ages_s.len() - 1 {
        law_outage_drops_the_anchor(a, ages_s.drop_last(), i, dt_s);
    }
}

/// While no wait is too long, a fix is differenced against the one before it.
pub proof fn law_fixes_are_differenced_in_turn(v: [u32; 2], ages_s: Seq<u32>, dt_s: u32)
    requires
        forall|i: int| 0 <= i < ages_s.len() ==> !stale(#[trigger] ages_s[i]),
        float_bits::less32(MIN_INTERVAL_S, dt_s),
    ensures
        VelocityAnchor::at(v).aged_through(ages_s).basis(dt_s) == Some(v),
    decreases ages_s.len(),
{
    if ages_s.len() > 0 {
        assert forall|i: int| 0 <= i < ages_s.drop_last().len() implies !stale(
            #[trigger] ages_s.drop_last()[i],
        ) by {
            assert(ages_s.drop_last()[i] == ages_s[i]);
        }
        law_fixes_are_differenced_in_turn(v, ages_s.drop_last(), dt_s);
        assert(!stale(ages_s[ages_s.len() - 1]));
    }
}

/// An estimate that fades is not fresh.
pub proof fn law_fading_is_not_fresh(a: VelocityAnchor, age_s: u32)
    requires
        stale(age_s),
    ensures
        !a.aged(age_s).fresh(),
        !recent(age_s),
{
}

/// A fix is too old beyond one second, whose pattern is 3F80 0000 hex; up to it, and
/// for any number below, it is recent. What is no number is neither.
pub proof fn law_stale_beyond_a_second(age_s: u32)
    ensures
        stale(age_s) <==> 0x3F80_0000 < age_s <= 0x7F80_0000,
        recent(age_s) <==> age_s <= 0x3F80_0000 || 0x8000_0000 <= age_s <= 0xFF80_0000,
{
}

/// Two fixes are differenced when they are more than a millisecond apart, whose pattern
/// is 3A83 126F hex.
pub proof fn law_fixes_apart_are_differenced(a: VelocityAnchor, dt_s: u32)
    ensures
        a.basis(dt_s) == (if 0x3A83_126F < dt_s <= 0x7F80_0000 {
            a.last_vel
        } else {
            None
        }),
{
}

/// Right after a fix the estimate is fresh, rests on that fix and is of no age.
pub proof fn law_fix_is_fresh(v: [u32; 2], dt_s: u32)
    ensures
        VelocityAnchor::at(v).fresh(),
        VelocityAnchor::at(v).since_fix_s == 0,
        0x3A83_126F < dt_s <= 0x7F80_0000 ==> VelocityAnchor::at(v).basis(dt_s) == Some(v),
        VelocityAnchor::none().since_fix_s == 0,
        VelocityAnchor::none().last_vel is None,
{
}

} // verus!
