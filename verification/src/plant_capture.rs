//! The throttle profile a plant capture flies, and the buffer it lands in.

use crate::plant_log::{PlantSample, CMD_SCALE};
use vstd::prelude::*;

verus! {

/// One hold in the profile.
#[derive(Debug, Clone, Copy, PartialEq, Eq, Structural)]
pub struct Hold {
    /// Throttle percent for this hold.
    pub pct: u8,
    /// How long to stay there, milliseconds.
    pub ms: u16,
}

/// Hard ceiling on any commanded throttle, percent.
pub const MAX_PCT: u8 = 25;

/// Lowest throttle that still spins reliably under load, percent. Steps are
/// taken from here rather than from a stop, whose startup ramp is a different
/// behaviour.
pub const IDLE_PCT: u8 = 8;

/// Throttle of each hold, percent: alternating steps up and back to idle, each
/// held long enough for the response to settle.
pub const PROFILE_PCT: [u8; 9] = [8, 15, 8, 20, 8, 25, 8, 12, 8];

/// Duration of each hold, milliseconds.
pub const PROFILE_MS: [u16; 9] = [600, 400, 400, 400, 400, 400, 400, 400, 400];

/// Hold `k` of the profile.
pub open spec fn hold(k: int) -> Hold {
    Hold { pct: PROFILE_PCT[k], ms: PROFILE_MS[k] }
}

/// The capture profile.
pub fn profile() -> (holds: [Hold; 9])
    ensures
        forall|k: int| 0 <= k < 9 ==> #[trigger] holds@[k] == hold(k),
{
    let mut holds: [Hold; 9] = [Hold { pct: 0, ms: 0 }; 9];
    let mut i: usize = 0;
    while i < 9
        invariant
            i <= 9,
            forall|k: int| 0 <= k < i ==> #[trigger] holds@[k] == hold(k),
        decreases 9 - i,
    {
        holds[i] = Hold { pct: PROFILE_PCT[i], ms: PROFILE_MS[i] };
        i += 1;
    }
    holds
}

/// Capture sample rate.
pub const SAMPLE_HZ: u32 = 500;

/// When the first `n` holds are over, in milliseconds.
pub open spec fn elapsed(n: nat) -> nat
    decreases n,
{
    if n == 0 {
        0
    } else {
        elapsed((n - 1) as nat) + hold(n - 1).ms as nat
    }
}

proof fn lemma_elapsed()
    ensures
        elapsed(0) == 0,
        elapsed(1) == 600,
        elapsed(2) == 1000,
        elapsed(3) == 1400,
        elapsed(4) == 1800,
        elapsed(5) == 2200,
        elapsed(6) == 2600,
        elapsed(7) == 3000,
        elapsed(8) == 3400,
        elapsed(9) == 3800,
{
    reveal_with_fuel(elapsed, 10);
}

/// Total profile duration, milliseconds.
pub fn profile_ms() -> (ms: u32)
    ensures
        ms == elapsed(9),
        ms == 3800,
{
    proof {
        lemma_elapsed();
    }
    let mut sum: u32 = 0;
    let mut i: usize = 0;
    while i < 9
        invariant
            i <= 9,
            sum == elapsed(i as nat),
            sum <= 65535 * i,
        decreases 9 - i,
    {
        sum = sum + PROFILE_MS[i] as u32;
        i += 1;
    }
    sum
}

/// Samples the buffer must hold for the whole profile, with a margin for
/// jitter.
pub fn capacity() -> (n: usize)
    ensures
        n == elapsed(9) * SAMPLE_HZ / 1000 + 64,
{
    (profile_ms() * SAMPLE_HZ / 1000) as usize + 64
}

/// Commanded throttle percent at a time into the profile, `None` once it is
/// over.
pub fn command_at(t_ms: u32) -> (pct: Option<u8>)
    ensures
        pct is None <==> t_ms >= elapsed(9),
        forall|k: int|
            #![trigger hold(k)]
            0 <= k < 9 && elapsed(k as nat) <= t_ms < elapsed((k + 1) as nat) ==> pct == Some(
                hold(k).pct,
            ),
{
    let mut acc: u32 = 0;
    let mut i: usize = 0;
    proof {
        lemma_elapsed();
    }
    while i < 9
        invariant
            i <= 9,
            acc == elapsed(i as nat),
            acc <= 65535 * i,
            t_ms >= acc,
            elapsed(0) == 0,
            elapsed(1) == 600,
            elapsed(2) == 1000,
            elapsed(3) == 1400,
            elapsed(4) == 1800,
            elapsed(5) == 2200,
            elapsed(6) == 2600,
            elapsed(7) == 3000,
            elapsed(8) == 3400,
            elapsed(9) == 3800,
        decreases 9 - i,
    {
        acc = acc + PROFILE_MS[i] as u32;
        if t_ms < acc {
            return Some(PROFILE_PCT[i]);
        }
        i += 1;
    }
    None
}

/// Fixed-point command value for a throttle percent.
pub open spec fn units_of(pct: u8) -> int {
    pct as int * CMD_SCALE as int / 100
}

/// Fixed-point command value for a throttle percent.
pub fn cmd_units(pct: u8) -> (units: u16)
    ensures
        units == pct as int * CMD_SCALE as int / 100,
        units == units_of(pct),
{
    (pct as u32 * CMD_SCALE as u32 / 100) as u16
}

/// Fixed-size capture buffer. It keeps the start of a run, where the first step
/// is, and counts what no longer fits.
pub struct Capture<const N: usize> {
    samples: [PlantSample; N],
    len: usize,
    dropped: u32,
}

impl<const N: usize> View for Capture<N> {
    type V = Seq<PlantSample>;

    /// The recorded samples, oldest first.
    closed spec fn view(&self) -> Seq<PlantSample> {
        self.samples@.take(self.len as int)
    }
}

impl<const N: usize> Default for Capture<N> {
    fn default() -> (c: Self)
        ensures
            c.wf(),
            c@ == Seq::<PlantSample>::empty(),
            c.dropped_count() == 0,
    {
        Self::new()
    }
}

impl<const N: usize> Capture<N> {
    pub closed spec fn wf(&self) -> bool {
        self.len <= N
    }

    /// Samples that did not fit.
    pub closed spec fn dropped_count(&self) -> u32 {
        self.dropped
    }

    pub fn new() -> (c: Self)
        ensures
            c.wf(),
            c@ == Seq::<PlantSample>::empty(),
            c.dropped_count() == 0,
    {
        let blank: PlantSample = PlantSample::default();
        let c = Capture { samples: [blank; N], len: 0, dropped: 0 };
        assert(c@ =~= Seq::empty());
        c
    }

    /// Records one sample, or counts it as dropped when the buffer is full.
    pub fn push(&mut self, s: PlantSample)
        requires
            old(self).wf(),
        ensures
            final(self).wf(),
            old(self)@.len() < N ==> final(self)@ == old(self)@.push(s)
                && final(self).dropped_count() == old(self).dropped_count(),
            old(self)@.len() >= N ==> final(self)@ == old(self)@ && final(self).dropped_count()
                == (if old(self).dropped_count() == u32::MAX {
                0
            } else {
                old(self).dropped_count() + 1
            }),
    {
        if self.len < N {
            let at: usize = self.len;
            self.samples[at] = s;
            self.len = at + 1;
            assert(self@ =~= old(self)@.push(s));
        } else {
            self.dropped = self.dropped.wrapping_add(1);
        }
    }

    pub fn as_slice(&self) -> (s: &[PlantSample])
        requires
            self.wf(),
        ensures
            s@ == self@,
    {
        let all: &[PlantSample] = self.samples.as_slice();
        vstd::slice::slice_subrange(all, 0, self.len)
    }

    pub fn len(&self) -> (n: usize)
        requires
            self.wf(),
        ensures
            n == self@.len(),
    {
        self.len
    }

    pub fn is_empty(&self) -> (b: bool)
        requires
            self.wf(),
        ensures
            b == (self@.len() == 0),
    {
        self.len == 0
    }

    pub fn dropped(&self) -> (n: u32)
        ensures
            n == self.dropped_count(),
    {
        self.dropped
    }

    /// Samples in which some motor reported a period.
    pub fn with_telemetry(&self) -> (n: usize)
        requires
            self.wf(),
        ensures
            n == telemetry_count(self@),
    {
        let s: &[PlantSample] = self.as_slice();
        let mut n: usize = 0;
        let mut i: usize = 0;
        assert(s@.take(0) =~= Seq::empty());
        while i < s.len()
            invariant
                i <= s@.len(),
                n <= i,
                n == telemetry_count(s@.take(i as int)),
            decreases s.len() - i,
        {
            assert(s@.take(i + 1).drop_last() =~= s@.take(i as int));
            if s[i].has_telemetry() {
                n += 1;
            }
            i += 1;
        }
        assert(s@.take(s@.len() as int) =~= s@);
        n
    }
}

/// Samples in which some motor reported a period.
pub open spec fn telemetry_count(s: Seq<PlantSample>) -> nat
    decreases s.len(),
{
    if s.len() == 0 {
        0
    } else {
        telemetry_count(s.drop_last()) + if s.last().reported() { 1nat } else { 0nat }
    }
}

// ---- Laws ----

/// No hold exceeds the ceiling or falls below idle, and holds that follow each
/// other differ by at least two percent.
pub proof fn law_profile_is_safe(k: int)
    requires
        0 <= k < 9,
    ensures
        IDLE_PCT <= hold(k).pct <= MAX_PCT,
        k + 1 < 9 ==> hold(k).pct - hold(k + 1).pct >= 2 || hold(k + 1).pct
            - hold(k).pct >= 2,
{
}

/// Whatever the time, the profile commands something between idle and the
/// ceiling until it ends, and nothing afterwards.
pub proof fn law_command_stays_in_range(t_ms: nat, pct: Option<u8>)
    requires
        pct is None <==> t_ms >= elapsed(9),
        forall|k: int|
            #![trigger hold(k)]
            0 <= k < 9 && elapsed(k as nat) <= t_ms < elapsed((k + 1) as nat) ==> pct == Some(
                hold(k).pct,
            ),
    ensures
        pct matches Some(p) ==> IDLE_PCT <= p <= MAX_PCT,
{
    lemma_elapsed();
    if pct is Some {
        let k: int = if t_ms < 600 {
            0
        } else {
            1 + (t_ms - 600) / 400
        };
        assert(elapsed(k as nat) <= t_ms < elapsed((k + 1) as nat));
        assert(hold(k).pct <= MAX_PCT);
        law_profile_is_safe(k);
    }
}

/// The buffer has room for every sample of the profile.
pub proof fn law_buffer_holds_the_profile(t_ms: nat)
    requires
        t_ms < elapsed(9),
    ensures
        t_ms * SAMPLE_HZ / 1000 < elapsed(9) * SAMPLE_HZ / 1000 + 64,
        elapsed(9) < u16::MAX,
{
    lemma_elapsed();
}

/// The profile goes from 8 percent up and back, to 15, 20, 25 and 12 percent in turn,
/// staying for 400 ms each time and for 600 at first.
pub proof fn law_profile_steps_up_and_back(k: int)
    requires
        0 <= k < 9,
    ensures
        k % 2 == 0 ==> hold(k).pct == 8,
        k == 1 || k == 3 || k == 5 ==> 2 * hold(k).pct == 25 + 5 * k,
        k == 7 ==> hold(k).pct == 12,
        hold(k).ms == (if k == 0 {
            600int
        } else {
            400int
        }),
        elapsed((k + 1) as nat) == 600 + 400 * k,
        SAMPLE_HZ == 500,
        IDLE_PCT == 8 && MAX_PCT == 25,
{
    lemma_elapsed();
}

/// The telemetry of a run is what there is in its parts, one for each sample that
/// reports.
pub proof fn law_telemetry_adds_up(a: Seq<PlantSample>, b: Seq<PlantSample>)
    ensures
        telemetry_count(a + b) == telemetry_count(a) + telemetry_count(b),
        telemetry_count(Seq::empty()) == 0,
        a.len() == 1 ==> telemetry_count(a) == (if a[0].reported() {
            1nat
        } else {
            0nat
        }),
    decreases b.len(),
{
    if a.len() == 1 {
        assert(a.drop_last() =~= Seq::empty());
        reveal_with_fuel(telemetry_count, 2);
    }
    if b.len() == 0 {
        assert(a + b =~= a);
    } else {
        assert((a + b).drop_last() =~= a + b.drop_last());
        law_telemetry_adds_up(a, b.drop_last());
    }
}

/// A percent is ten units.
pub proof fn law_percent_is_ten_units(pct: u8)
    ensures
        units_of(pct) == 10 * pct,
{
}

} // verus!
