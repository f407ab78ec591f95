//! Keeping the pressure sensor's bus alive.
//!
//! Every build of the bus but the first is preceded by clocking it free. A run
//! of read errors rebuilds the bus; a run of failed bring-ups gives up. The
//! magnetometer shares the bus, but its errors do not count.

use crate::counter;
use crate::drivers::baro::{BaroChip, DetectError};
use vstd::prelude::*;

verus! {

/// Read errors in a row that rebuild the bus.
pub const BARO_ERR_STREAK_RECOVERY: u32 = 50;

/// Failed bring-ups in a row after which the sensor is given up.
pub const BARO_MAX_INIT_ATTEMPTS: u32 = 5;

/// What to do before a bring-up.
#[derive(Clone, Copy, Debug, PartialEq, Eq, Structural)]
pub enum Attempt {
    /// Too many failures.
    GiveUp,
    /// Build the bus, after clocking it free if `unstick`.
    Build { unstick: bool },
}

/// What a detection leads to.
#[derive(Clone, Copy, Debug, PartialEq, Eq, Structural)]
pub enum Detected {
    /// Bring the chip up at this address.
    BringUp { addr: u8 },
    /// A chip without a driver: stop.
    Unsupported,
    /// Try again in a second.
    Retry,
}

/// Reads and errors in the current second.
#[derive(Clone, Copy, Debug, PartialEq, Eq, Structural)]
pub struct BaroCounts {
    pub reads: u32,
    pub errors: u32,
    pub mag_reads: u32,
    pub mag_errors: u32,
}

/// Adds one, up to the maximum.
pub open spec fn capped(n: u32) -> u32 {
    if n == u32::MAX {
        n
    } else {
        (n + 1) as u32
    }
}

/// How to go about a bring-up.
pub open spec fn attempt_of(first: bool, init_failures: u32) -> Attempt {
    if init_failures >= BARO_MAX_INIT_ATTEMPTS {
        Attempt::GiveUp
    } else {
        Attempt::Build { unstick: !first }
    }
}

/// State of the sensor's bus.
#[derive(Clone, Copy, Debug, PartialEq, Eq, Structural)]
pub struct BaroBus {
    /// The bus has not been built yet.
    pub first: bool,
    /// Failed bring-ups in a row.
    pub init_failures: u32,
    /// Read errors in a row.
    pub streak: u32,
    /// Rebuilds so far.
    pub recoveries: u32,
    pub counts: BaroCounts,
}

impl BaroBus {
    pub fn new() -> (b: Self)
        ensures
            b.first,
            b.init_failures == 0,
            b.streak == 0,
            b.recoveries == 0,
            b.counts == (BaroCounts { reads: 0, errors: 0, mag_reads: 0, mag_errors: 0 }),
    {
        BaroBus {
            first: true,
            init_failures: 0,
            streak: 0,
            recoveries: 0,
            counts: BaroCounts { reads: 0, errors: 0, mag_reads: 0, mag_errors: 0 },
        }
    }

    /// Says how to go about the next bring-up.
    pub fn attempt(&mut self) -> (a: Attempt)
        ensures
            old(self).init_failures >= BARO_MAX_INIT_ATTEMPTS ==> a == Attempt::GiveUp && *final(self) == *old(self),
            old(self).init_failures < BARO_MAX_INIT_ATTEMPTS ==> a == (Attempt::Build {
                unstick: !old(self).first,
            }) && *final(self) == (BaroBus { first: false, ..*old(self) }),
            a == attempt_of(old(self).first, old(self).init_failures),
    {
        if self.init_failures >= BARO_MAX_INIT_ATTEMPTS {
            return Attempt::GiveUp;
        }
        let unstick: bool = !self.first;
        self.first = false;
        Attempt::Build { unstick }
    }

    /// Takes the result of detection.
    pub fn detected(&mut self, found: Result<BaroChip, DetectError>) -> (d: Detected)
        ensures
            match found {
                Ok(BaroChip::Dps310 { addr }) => d == (Detected::BringUp { addr }) && *final(self)
                    == *old(self),
                Ok(BaroChip::Bmp280 { addr }) => d == Detected::Unsupported && *final(self)
                    == *old(self),
                Err(e) => d == Detected::Retry && *final(self) == (BaroBus {
                    init_failures: capped(old(self).init_failures),
                    ..*old(self)
                }),
            },
    {
        match found {
            Ok(BaroChip::Dps310 { addr }) => Detected::BringUp { addr },
            Ok(BaroChip::Bmp280 { addr: _ }) => Detected::Unsupported,
            Err(_) => {
                self.init_failures = self.init_failures.saturating_add(1);
                Detected::Retry
            },
        }
    }

    /// Takes the result of bringing the chip up. Success clears the failures and
    /// starts reading afresh.
    pub fn brought_up(&mut self, ok: bool)
        ensures
            !ok ==> *final(self) == (BaroBus {
                init_failures: capped(old(self).init_failures),
                ..*old(self)
            }),
            ok ==> *final(self) == (BaroBus {
                init_failures: 0,
                streak: 0,
                counts: BaroCounts { reads: 0, errors: 0, mag_reads: 0, mag_errors: 0 },
                ..*old(self)
            }),
    {
        if ok {
            self.init_failures = 0;
            self.streak = 0;
            self.counts = BaroCounts { reads: 0, errors: 0, mag_reads: 0, mag_errors: 0 };
        } else {
            self.init_failures = self.init_failures.saturating_add(1);
        }
    }

    /// Takes the result of a round of reads, `mag` being `None` where there is
    /// no magnetometer. Says whether the bus is to be rebuilt.
    pub fn read(&mut self, baro: bool, mag: Option<bool>) -> (recover: bool)
        ensures
            recover == (streak_after(old(self).streak, baro) >= BARO_ERR_STREAK_RECOVERY),
            *final(self) == after_round(*old(self), baro, mag),
    {
        if baro {
            self.counts.reads = self.counts.reads.wrapping_add(1);
            self.streak = 0;
        } else {
            self.counts.errors = self.counts.errors.wrapping_add(1);
            self.streak = self.streak.saturating_add(1);
        }
        if let Some(ok) = mag {
            if ok {
                self.counts.mag_reads = self.counts.mag_reads.wrapping_add(1);
            } else {
                self.counts.mag_errors = self.counts.mag_errors.wrapping_add(1);
            }
        }
        if self.streak >= BARO_ERR_STREAK_RECOVERY {
            self.recoveries = self.recoveries.saturating_add(1);
            return true;
        }
        false
    }

    /// Starts the next second and gives the last one's counts.
    pub fn take_counts(&mut self) -> (c: BaroCounts)
        ensures
            c == old(self).counts,
            *final(self) == (BaroBus {
                counts: BaroCounts { reads: 0, errors: 0, mag_reads: 0, mag_errors: 0 },
                ..*old(self)
            }),
    {
        let c: BaroCounts = self.counts;
        self.counts = BaroCounts { reads: 0, errors: 0, mag_reads: 0, mag_errors: 0 };
        c
    }
}

/// Errors in a row after a read.
pub open spec fn streak_after(streak: u32, ok: bool) -> u32 {
    if ok {
        0
    } else {
        capped(streak)
    }
}

/// Counts after a round of reads.
pub open spec fn counted(c: BaroCounts, baro: bool, mag: Option<bool>) -> BaroCounts {
    BaroCounts {
        reads: if baro {
            counter::next(c.reads)
        } else {
            c.reads
        },
        errors: if baro {
            c.errors
        } else {
            counter::next(c.errors)
        },
        mag_reads: if mag == Some(true) {
            counter::next(c.mag_reads)
        } else {
            c.mag_reads
        },
        mag_errors: if mag == Some(false) {
            counter::next(c.mag_errors)
        } else {
            c.mag_errors
        },
    }
}

/// The state after a round of reads.
pub open spec fn after_round(b: BaroBus, baro: bool, mag: Option<bool>) -> BaroBus {
    BaroBus {
        streak: streak_after(b.streak, baro),
        recoveries: if streak_after(b.streak, baro) >= BARO_ERR_STREAK_RECOVERY {
            capped(b.recoveries)
        } else {
            b.recoveries
        },
        counts: counted(b.counts, baro, mag),
        ..b
    }
}

/// The state after rounds in turn.
pub open spec fn after_rounds(b: BaroBus, reads: Seq<bool>, mags: Seq<Option<bool>>) -> BaroBus
    decreases reads.len(),
{
    if reads.len() == 0 {
        b
    } else {
        after_round(
            after_rounds(b, reads.drop_last(), mags.drop_last()),
            reads.last(),
            mags.last(),
        )
    }
}

/// Errors in a row after a run of reads.
pub open spec fn streak_after_all(streak: u32, reads: Seq<bool>) -> u32
    decreases reads.len(),
{
    if reads.len() == 0 {
        streak
    } else {
        streak_after(streak_after_all(streak, reads.drop_last()), reads.last())
    }
}

// ---- Laws ----

/// The bus is rebuilt exactly when the last fifty reads all failed, if a read
/// had succeeded before.
pub proof fn law_fifty_errors_rebuild(reads: Seq<bool>)
    ensures
        streak_after_all(0, reads) >= BARO_ERR_STREAK_RECOVERY <==> reads.len()
            >= BARO_ERR_STREAK_RECOVERY && forall|i: int|
            reads.len() - BARO_ERR_STREAK_RECOVERY <= i < reads.len() ==> !reads[i],
{
    lemma_streak_counts_errors(reads);
    let n = streak_after_all(0, reads) as int;
    if n >= BARO_ERR_STREAK_RECOVERY {
        assert forall|i: int|
            reads.len() - BARO_ERR_STREAK_RECOVERY <= i < reads.len() implies !reads[i] by {}
    } else if reads.len() >= BARO_ERR_STREAK_RECOVERY {
        assert(reads[reads.len() - n - 1]);
    }
}

proof fn lemma_streak_counts_errors(reads: Seq<bool>)
    ensures
        streak_after_all(0, reads) <= reads.len(),
        forall|i: int| reads.len() - streak_after_all(0, reads) <= i < reads.len() ==> !reads[i],
        streak_after_all(0, reads) < reads.len() && streak_after_all(0, reads) < u32::MAX
            ==> reads[reads.len() - streak_after_all(0, reads) - 1],
    decreases reads.len(),
{
    if reads.len() > 0 {
        let head = reads.drop_last();
        lemma_streak_counts_errors(head);
        let n = streak_after_all(0, head);
        if !reads.last() {
            assert forall|i: int|
                reads.len() - streak_after_all(0, reads) <= i < reads.len() implies !reads[i] by {
                if i < head.len() {
                    assert(head[i] == reads[i]);
                }
            }
            if n < head.len() && n < u32::MAX {
                assert(head[head.len() - n - 1] == reads[head.len() - n - 1]);
            }
        }
    }
}

/// Magnetometer errors never rebuild the bus: whatever the magnetometer did in two
/// runs of rounds with the same pressure reads, the errors in a row and the pressure
/// counts are the same.
pub proof fn law_magnetometer_errors_do_not_count(
    b: BaroBus,
    reads: Seq<bool>,
    mag1: Seq<Option<bool>>,
    mag2: Seq<Option<bool>>,
)
    requires
        mag1.len() == reads.len(),
        mag2.len() == reads.len(),
    ensures
        after_rounds(b, reads, mag1).streak == after_rounds(b, reads, mag2).streak,
        after_rounds(b, reads, mag1).recoveries == after_rounds(b, reads, mag2).recoveries,
        after_rounds(b, reads, mag1).counts.reads == after_rounds(b, reads, mag2).counts.reads,
        after_rounds(b, reads, mag1).counts.errors == after_rounds(b, reads, mag2).counts.errors,
    decreases reads.len(),
{
    if reads.len() > 0 {
        law_magnetometer_errors_do_not_count(
            b,
            reads.drop_last(),
            mag1.drop_last(),
            mag2.drop_last(),
        );
    }
}

/// The sensor is given up after five failed bring-ups in a row, and every build of the
/// bus but the first is preceded by clocking it free.
pub proof fn law_five_failures_give_up(first: bool, init_failures: u32)
    ensures
        attempt_of(first, init_failures) is GiveUp <==> init_failures >= 5,
        init_failures < 5 ==> attempt_of(true, init_failures) == (Attempt::Build {
            unstick: false,
        }),
        init_failures < 5 ==> attempt_of(false, init_failures) == (Attempt::Build {
            unstick: true,
        }),
{
}

/// After a read that worked, failures up to the forty-ninth rebuild nothing and the
/// fiftieth does; a read that works ends the run.
pub proof fn law_the_fiftieth_error_rebuilds(b: BaroBus, reads: Seq<bool>, mags: Seq<Option<bool>>)
    requires
        b.streak == 0,
        reads.len() <= 50,
        mags.len() == reads.len(),
        forall|i: int| 0 <= i < reads.len() ==> !reads[i],
    ensures
        after_rounds(b, reads, mags).streak == reads.len(),
        reads.len() < 50 ==> after_rounds(b, reads, mags).recoveries == b.recoveries,
        reads.len() == 50 ==> after_rounds(b, reads, mags).recoveries == capped(b.recoveries),
        after_round(after_rounds(b, reads, mags), true, None).streak == 0,
        after_round(after_rounds(b, reads, mags), true, None).recoveries == after_rounds(
            b,
            reads,
            mags,
        ).recoveries,
    decreases reads.len(),
{
    if reads.len() > 0 {
        law_the_fiftieth_error_rebuilds(b, reads.drop_last(), mags.drop_last());
        assert(!reads[reads.len() - 1]);
    }
}

/// A round counts one read or one error of the pressure sensor and one of the
/// magnetometer where there is one, and nothing else changes.
pub proof fn law_rounds_are_counted(c: BaroCounts, baro: bool, mag: Option<bool>)
    requires
        c.reads < u32::MAX,
        c.errors < u32::MAX,
        c.mag_reads < u32::MAX,
        c.mag_errors < u32::MAX,
    ensures
        counted(c, baro, mag).reads + counted(c, baro, mag).errors == c.reads + c.errors + 1,
        counted(c, baro, mag).reads == c.reads + (if baro { 1int } else { 0int }),
        counted(c, baro, mag).mag_reads + counted(c, baro, mag).mag_errors == c.mag_reads
            + c.mag_errors + (if mag is Some { 1int } else { 0int }),
        mag == Some(true) ==> counted(c, baro, mag).mag_reads == c.mag_reads + 1,
        mag == Some(false) ==> counted(c, baro, mag).mag_errors == c.mag_errors + 1,
{
    if let Some(ok) = mag {
        assert(mag == Some(true) <==> ok);
        assert(mag == Some(false) <==> !ok);
    }
}

} // verus!
