//! Solve-time statistics of the controller bench.

use crate::ratio::Ratio;
use vstd::prelude::*;

verus! {

/// Consecutive solves timed from each starting state.
pub const SOLVES_PER_SCENARIO: u32 = 50;

/// A starting state: attitude in degrees and rates in degrees per second.
#[derive(Clone, Copy, Debug, PartialEq, Eq)]
pub struct Scenario {
    pub angles_deg: [i16; 3],
    pub rates_dps: [i16; 3],
}

/// Attitudes of the starting states.
pub open spec fn angles(k: int) -> Seq<i16> {
    if k == 1 {
        seq![1, (-1int) as i16, 0]
    } else if k == 2 {
        seq![5, 5, 10]
    } else if k == 3 {
        seq![20, (-20int) as i16, 0]
    } else if k == 4 {
        seq![45, 0, 90]
    } else if k == 6 {
        seq![120, 30, 180]
    } else {
        seq![0, 0, 0]
    }
}

/// Rates of the starting states.
pub open spec fn rates(k: int) -> Seq<i16> {
    if k == 3 {
        seq![30, 0, 0]
    } else if k == 4 {
        seq![0, 60, 0]
    } else if k == 5 {
        seq![200, (-200int) as i16, 100]
    } else {
        seq![0, 0, 0]
    }
}

/// The starting states, from level flight to a large upset.
pub fn scenarios() -> (s: [Scenario; 7])
    ensures
        forall|k: int|
            #![trigger s@[k]]
            0 <= k < 7 ==> s@[k].angles_deg@ == angles(k) && s@[k].rates_dps@ == rates(k),
{
    let s: [Scenario; 7] = [
        Scenario { angles_deg: [0, 0, 0], rates_dps: [0, 0, 0] },
        Scenario { angles_deg: [1, -1, 0], rates_dps: [0, 0, 0] },
        Scenario { angles_deg: [5, 5, 10], rates_dps: [0, 0, 0] },
        Scenario { angles_deg: [20, -20, 0], rates_dps: [30, 0, 0] },
        Scenario { angles_deg: [45, 0, 90], rates_dps: [0, 60, 0] },
        Scenario { angles_deg: [0, 0, 0], rates_dps: [200, -200, 100] },
        Scenario { angles_deg: [120, 30, 180], rates_dps: [0, 0, 0] },
    ];
    assert forall|k: int|
        #![trigger s@[k]]
        0 <= k < 7 implies s@[k].angles_deg@ == angles(k) && s@[k].rates_dps@ == rates(k) by {
        assert(s@[k].angles_deg@ =~= angles(k));
        assert(s@[k].rates_dps@ =~= rates(k));
    }
    s
}

/// Cycles of a core with the given clock, in microseconds.
pub fn cycles_to_us(cycles: u32, core_hz: u32) -> (us: Ratio)
    ensures
        us.num == cycles * 1_000_000,
        us.den == core_hz,
{
    Ratio { num: cycles as i64 * 1_000_000, den: core_hz }
}

/// Running cycle-count statistics.
#[derive(Clone, Copy, Debug, PartialEq, Eq, Structural)]
pub struct CycleStats {
    pub n: u32,
    pub min: u32,
    pub max: u32,
    pub sum: u64,
}

/// Sum of a run of counts.
pub open spec fn total(counts: Seq<u32>) -> nat
    decreases counts.len(),
{
    if counts.len() == 0 {
        0
    } else {
        total(counts.drop_last()) + counts.last() as nat
    }
}

/// Smallest of a run of counts; of none, the largest there is.
pub open spec fn least(counts: Seq<u32>) -> u32
    decreases counts.len(),
{
    if counts.len() == 0 {
        u32::MAX
    } else {
        let m = least(counts.drop_last());
        if counts.last() < m {
            counts.last()
        } else {
            m
        }
    }
}

/// Largest of a run of counts; of none, zero.
pub open spec fn greatest(counts: Seq<u32>) -> u32
    decreases counts.len(),
{
    if counts.len() == 0 {
        0
    } else {
        let m = greatest(counts.drop_last());
        if counts.last() > m {
            counts.last()
        } else {
            m
        }
    }
}

impl CycleStats {
    /// Whether these are the statistics of the given counts.
    pub open spec fn describes(&self, counts: Seq<u32>) -> bool {
        &&& self.n == counts.len()
        &&& self.min == least(counts)
        &&& self.max == greatest(counts)
        &&& self.sum == total(counts)
    }

    pub fn new() -> (stats: Self)
        ensures
            stats == (CycleStats { n: 0, min: u32::MAX, max: 0, sum: 0 }),
            stats.describes(Seq::empty()),
    {
        CycleStats { n: 0, min: u32::MAX, max: 0, sum: 0 }
    }

    /// Takes one more count into the statistics.
    pub fn add(&mut self, cycles: u32)
        requires
            old(self).n < u32::MAX,
            old(self).sum + cycles <= u64::MAX,
        ensures
            final(self).n == old(self).n + 1,
            final(self).min == (if cycles < old(self).min { cycles } else { old(self).min }),
            final(self).max == (if cycles > old(self).max { cycles } else { old(self).max }),
            final(self).sum == old(self).sum + cycles,
    {
        self.n = self.n + 1;
        if cycles < self.min {
            self.min = cycles;
        }
        if cycles > self.max {
            self.max = cycles;
        }
        self.sum = self.sum + cycles as u64;
    }

    /// Mean count, rounded down; zero of no counts. A sum that `n` counts
    /// cannot reach gives the quotient's low 32 bits.
    pub fn mean(&self) -> (mean: u32)
        ensures
            mean == (if self.n == 0 {
                0
            } else {
                self.sum as int / self.n as int % 0x1_0000_0000
            }),
    {
        if self.n == 0 {
            0
        } else {
            ((self.sum / (self.n as u64)) % 0x1_0000_0000) as u32
        }
    }
}

/// Adding a count to the statistics of some counts gives the statistics of
/// those counts and the new one.
pub proof fn law_add_describes_one_more(
    before: CycleStats,
    after: CycleStats,
    counts: Seq<u32>,
    cycles: u32,
)
    requires
        before.describes(counts),
        after.n == before.n + 1,
        after.min == (if cycles < before.min { cycles } else { before.min }),
        after.max == (if cycles > before.max { cycles } else { before.max }),
        after.sum == before.sum + cycles,
    ensures
        after.describes(counts.push(cycles)),
{
    assert(counts.push(cycles).drop_last() =~= counts);
}

/// The mean lies between the smallest and the largest count, and neither the
/// counter nor the sum can overflow before `n` runs out.
pub proof fn law_mean_is_between(stats: CycleStats, counts: Seq<u32>)
    requires
        stats.describes(counts),
        stats.n > 0,
    ensures
        stats.min <= stats.sum as int / stats.n as int <= stats.max,
        stats.sum as int / stats.n as int % 0x1_0000_0000 == stats.sum as int / stats.n as int,
{
    lemma_total_bounds(counts);
    let s = stats.sum as int;
    let n = stats.n as int;
    assert(stats.min * n <= s <= stats.max * n ==> stats.min <= s / n <= stats.max)
        by (nonlinear_arith)
        requires
            n > 0,
    ;
}

proof fn lemma_total_bounds(counts: Seq<u32>)
    ensures
        counts.len() > 0 ==> least(counts) * counts.len() <= total(counts) <= greatest(counts)
            * counts.len(),
    decreases counts.len(),
{
    if counts.len() > 1 {
        let rest = counts.drop_last();
        lemma_total_bounds(rest);
        let m = least(counts) as int;
        let g = greatest(counts) as int;
        let k = rest.len() as int;
        assert(m * (k + 1) == m * k + m) by (nonlinear_arith);
        assert(g * (k + 1) == g * k + g) by (nonlinear_arith);
        assert(m * k <= least(rest) * k) by (nonlinear_arith)
            requires
                m <= least(rest),
                k >= 0,
        ;
        assert(greatest(rest) * k <= g * k) by (nonlinear_arith)
            requires
                greatest(rest) <= g,
                k >= 0,
        ;
    } else if counts.len() == 1 {
        assert(counts.drop_last() =~= Seq::empty());
        assert(total(counts.drop_last()) == 0);
        assert(least(counts) * 1 == least(counts) && greatest(counts) * 1 == greatest(counts))
            by (nonlinear_arith);
    }
}

/// The smallest count is one of them and no more than any; so is the largest, and no
/// less.
pub proof fn law_extremes(counts: Seq<u32>, i: int)
    requires
        0 <= i < counts.len(),
    ensures
        least(counts) <= counts[i] <= greatest(counts),
        counts.contains(least(counts)),
        counts.contains(greatest(counts)),
    decreases counts.len(),
{
    let rest = counts.drop_last();
    let n = counts.len() - 1;
    assert(counts[n] == counts.last());
    if n > 0 {
        let j: int = if i < n {
            i
        } else {
            0
        };
        law_extremes(rest, j);
        let a = choose|a: int| 0 <= a < rest.len() && rest[a] == least(rest);
        let b = choose|b: int| 0 <= b < rest.len() && rest[b] == greatest(rest);
        assert(counts[a] == least(rest) && counts[b] == greatest(rest));
        assert(rest[j] == counts[j]);
    } else {
        assert(rest =~= Seq::empty());
        assert(least(rest) == u32::MAX && greatest(rest) == 0);
        assert(counts[0] == least(counts) && counts[0] == greatest(counts));
    }
}

/// The sum of counts is that of their parts, and of one count it is that count.
pub proof fn law_sums_add_up(a: Seq<u32>, b: Seq<u32>, c: u32)
    ensures
        total(a + b) == total(a) + total(b),
        total(seq![c]) == c,
    decreases b.len(),
{
    assert(seq![c].drop_last() =~= Seq::empty());
    assert(total(seq![c].drop_last()) == 0);
    if b.len() == 0 {
        assert(a + b =~= a);
    } else {
        assert((a + b).drop_last() =~= a + b.drop_last());
        law_sums_add_up(a, b.drop_last(), c);
    }
}

/// The starting states: level; nudged; banked and turned; rolled over with a roll rate;
/// on edge with a pitch rate; level with rates; nearly upside down. Nothing else turns
/// or tilts.
pub proof fn law_starting_states(k: int)
    requires
        0 <= k < 7,
    ensures
        k == 0 || k == 5 ==> angles(k) == seq![0i16, 0i16, 0i16],
        k == 1 ==> angles(k) == seq![1i16, -1i16, 0i16],
        k == 2 ==> angles(k) == seq![5i16, 5i16, 10i16],
        k == 3 ==> angles(k) == seq![20i16, -20i16, 0i16] && rates(k) == seq![30i16, 0i16, 0i16],
        k == 4 ==> angles(k) == seq![45i16, 0i16, 90i16] && rates(k) == seq![0i16, 60i16, 0i16],
        k == 5 ==> rates(k) == seq![200i16, -200i16, 100i16],
        k == 6 ==> angles(k) == seq![120i16, 30i16, 180i16],
        k < 3 || k == 6 ==> rates(k) == seq![0i16, 0i16, 0i16],
{
}

} // verus!
