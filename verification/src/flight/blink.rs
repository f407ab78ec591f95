//! The status light during a magnetometer calibration.

use vstd::prelude::*;

verus! {

/// What the light shows.
#[derive(Clone, Copy, Debug, PartialEq, Eq, Structural)]
pub enum CalLed {
    Idle,
    /// Collecting, with so many percent covered.
    Calibrating(u8),
    /// Waiting to be held level.
    AwaitingLevel,
    Saved,
    Fault,
}

/// Whether two phases are of one kind, whatever the progress.
pub open spec fn same_kind(a: CalLed, b: CalLed) -> bool {
    a == b || (a is Calibrating && b is Calibrating)
}

/// The phase shown and when its pattern started.
#[derive(Clone, Copy, Debug, PartialEq, Eq, Structural)]
pub struct Blink {
    pub phase: CalLed,
    pub since_ms: u64,
}

/// A time as it is counted, up to the maximum.
pub open spec fn counted_ms(ms: int) -> int {
    if ms > u32::MAX {
        u32::MAX as int
    } else {
        ms
    }
}

impl Blink {
    /// What is shown after the latest phase.
    pub open spec fn showing(self, latest: Option<CalLed>, now_ms: u64) -> Blink {
        match latest {
            None => self,
            Some(p) => Blink {
                phase: p,
                since_ms: if same_kind(p, self.phase) {
                    self.since_ms
                } else {
                    now_ms
                },
            },
        }
    }

    pub fn new(now_ms: u64) -> (b: Self)
        ensures
            b == (Blink { phase: CalLed::Idle, since_ms: now_ms }),
    {
        Blink { phase: CalLed::Idle, since_ms: now_ms }
    }

    /// Takes the latest phase, if any. A pattern starts afresh when the kind of
    /// phase changes, not when progress does.
    pub fn show(&mut self, latest: Option<CalLed>, now_ms: u64)
        ensures
            latest is None ==> *final(self) == *old(self),
            latest matches Some(p) ==> final(self).phase == p && final(self).since_ms == (
            if same_kind(p, old(self).phase) {
                old(self).since_ms
            } else {
                now_ms
            }),
            *final(self) == old(self).showing(latest, now_ms),
    {
        if let Some(p) = latest {
            let same: bool = match (p, self.phase) {
                (CalLed::Calibrating(_), CalLed::Calibrating(_)) => true,
                _ => p == self.phase,
            };
            if !same {
                self.since_ms = now_ms;
            }
            self.phase = p;
        }
    }

    /// How long the pattern has run, in milliseconds, up to the maximum.
    pub fn elapsed_ms(&self, now_ms: u64) -> (e: u32)
        requires
            self.since_ms <= now_ms,
        ensures
            e == (if now_ms - self.since_ms > u32::MAX {
                u32::MAX as int
            } else {
                now_ms - self.since_ms
            }),
            e == counted_ms(now_ms - self.since_ms),
    {
        let e: u64 = now_ms - self.since_ms;
        if e > 0xFFFF_FFFF {
            u32::MAX
        } else {
            e as u32
        }
    }
}

// ---- Laws ----

/// Progress goes on in the same pattern; every other change of phase starts one.
pub proof fn law_progress_keeps_the_pattern(b: Blink, p: CalLed, now_ms: u64)
    ensures
        b.showing(Some(p), now_ms).phase == p,
        b.showing(None, now_ms) == b,
        b.showing(Some(b.phase), now_ms) == b,
        b.phase is Calibrating && p is Calibrating ==> b.showing(Some(p), now_ms).since_ms
            == b.since_ms,
        b.phase != p && !(b.phase is Calibrating && p is Calibrating) ==> b.showing(
            Some(p),
            now_ms,
        ).since_ms == now_ms,
{
}

/// Time is counted as it passes, up to the largest number of 32 bits.
pub proof fn law_time_is_counted(ms: int)
    ensures
        ms <= 0xFFFF_FFFF ==> counted_ms(ms) == ms,
        ms >= 0xFFFF_FFFF ==> counted_ms(ms) == 0xFFFF_FFFF,
{
}

} // verus!
