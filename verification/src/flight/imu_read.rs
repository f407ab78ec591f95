//! What to make of the inertial sensors' readings.
//!
//! Two readings are averaged; one alone stands in for both. Readings are
//! filtered downstream, and the filter starts from the first one.

use crate::counter;
use crate::drivers::axes;
use crate::drivers::axes::Vector;
use crate::drivers::icm42688;
use crate::drivers::icm42688::{widen, RawImu};
use vstd::prelude::*;

verus! {

/// What a round of reading gives.
pub struct ImuRead {
    /// The reading to filter and publish.
    pub sample: Option<RawImu>,
    /// The filter is to start from this reading.
    pub prime: bool,
    /// At least one sensor failed.
    pub error: bool,
    /// Both readings are to be kept for comparison.
    pub diagnose: bool,
}

/// Interval of comparisons.
pub const DIAG_PERIOD_MS: u64 = 1000;

/// State of reading.
#[derive(Clone, Copy, Debug, PartialEq, Eq, Structural)]
pub struct ImuReader {
    /// The filter has started.
    pub primed: bool,
    /// When readings were last kept for comparison.
    pub last_diag_ms: u64,
}

/// Whether `s` is what two readings amount to.
pub open spec fn is_fused(a: Option<RawImu>, b: Option<RawImu>, s: Option<RawImu>) -> bool {
    match (a, b) {
        (Some(x), Some(y)) => s matches Some(m) && icm42688::is_average(x, y, m),
        (Some(x), None) => s == Some(x),
        (None, Some(y)) => s == Some(y),
        (None, None) => s is None,
    }
}

impl ImuReader {
    /// Whether two readings are kept for comparison.
    pub open spec fn compares(self, both: bool, now_ms: u64) -> bool {
        both && now_ms - self.last_diag_ms >= DIAG_PERIOD_MS
    }

    pub fn new(now_ms: u64) -> (r: Self)
        ensures
            r == (ImuReader { primed: false, last_diag_ms: now_ms }),
    {
        ImuReader { primed: false, last_diag_ms: now_ms }
    }

    /// Takes the readings of two sensors, `None` where one failed.
    pub fn dual(&mut self, a: Option<RawImu>, b: Option<RawImu>, now_ms: u64) -> (r: ImuRead)
        requires
            old(self).last_diag_ms <= now_ms,
        ensures
            is_fused(a, b, r.sample),
            r.prime == (r.sample is Some && !old(self).primed),
            r.error == (a is None || b is None),
            r.diagnose == (a is Some && b is Some && now_ms - old(self).last_diag_ms
                >= DIAG_PERIOD_MS),
            r.diagnose == old(self).compares(a is Some && b is Some, now_ms),
            final(self).primed == (old(self).primed || r.sample is Some),
            final(self).last_diag_ms == (if r.diagnose {
                now_ms
            } else {
                old(self).last_diag_ms
            }),
    {
        let mut diagnose: bool = false;
        let sample: Option<RawImu> = match (a, b) {
            (Some(x), Some(y)) => {
                if now_ms - self.last_diag_ms >= DIAG_PERIOD_MS {
                    diagnose = true;
                    self.last_diag_ms = now_ms;
                }
                Some(RawImu::averaged(&x, &y))
            },
            (Some(x), None) => Some(x),
            (None, Some(y)) => Some(y),
            (None, None) => None,
        };
        let prime: bool = sample.is_some() && !self.primed;
        if sample.is_some() {
            self.primed = true;
        }
        ImuRead { sample, prime, error: a.is_none() || b.is_none(), diagnose }
    }

    /// Takes the reading of the only sensor, `None` where it failed.
    pub fn single(&mut self, a: Option<RawImu>) -> (r: ImuRead)
        ensures
            r.sample == a,
            r.prime == (a is Some && !old(self).primed),
            r.error == a is None,
            !r.diagnose,
            final(self).primed == (old(self).primed || a is Some),
            final(self).last_diag_ms == old(self).last_diag_ms,
    {
        let prime: bool = a.is_some() && !self.primed;
        if a.is_some() {
            self.primed = true;
        }
        ImuRead { sample: a, prime, error: a.is_none(), diagnose: false }
    }
}

/// A reading with its counts replaced by filtered ones.
pub fn filtered(s: &RawImu, accel: [i16; 3], gyro: [i16; 3]) -> (f: RawImu)
    ensures
        f == (RawImu { accel, gyro, ..*s }),
{
    RawImu { accel, gyro, temp: s.temp, orientation: s.orientation }
}

/// Readings and errors in the current second.
#[derive(Clone, Copy, Debug, PartialEq, Eq, Structural)]
pub struct ReadCounts {
    pub samples: u32,
    pub errors: u32,
}

impl ReadCounts {
    /// Counts a round: a reading if there was one, and an error if a sensor
    /// failed.
    pub fn count(&mut self, r: &ImuRead)
        ensures
            final(self).samples == (if r.sample is Some {
                counter::next(old(self).samples)
            } else {
                old(self).samples
            }),
            final(self).errors == (if r.error {
                counter::next(old(self).errors)
            } else {
                old(self).errors
            }),
    {
        if r.sample.is_some() {
            self.samples = self.samples.wrapping_add(1);
        }
        if r.error {
            self.errors = self.errors.wrapping_add(1);
        }
    }

    /// Starts the next second and gives the last one's counts.
    pub fn take(&mut self) -> (c: ReadCounts)
        ensures
            c == *old(self),
            *final(self) == (ReadCounts { samples: 0, errors: 0 }),
    {
        let c: ReadCounts = *self;
        self.samples = 0;
        self.errors = 0;
        c
    }
}

// ---- Comparison ----

/// Distance of two numbers.
pub open spec fn gap(a: int, b: int) -> int {
    if a > b {
        a - b
    } else {
        b - a
    }
}

/// Whether `m` is the largest distance of two vectors on any axis.
pub open spec fn is_largest_gap(a: Vector, b: Vector, m: int) -> bool {
    &&& gap(a.x, b.x) <= m
    &&& gap(a.y, b.y) <= m
    &&& gap(a.z, b.z) <= m
    &&& m == gap(a.x, b.x) || m == gap(a.y, b.y) || m == gap(a.z, b.z)
}

fn gap_of(a: i32, b: i32) -> (g: u32)
    requires
        -32768 <= a <= 32768,
        -32768 <= b <= 32768,
    ensures
        g == gap(a as int, b as int),
{
    if a > b {
        (a - b) as u32
    } else {
        (b - a) as u32
    }
}

fn largest_gap(a: [i32; 3], b: [i32; 3]) -> (m: u32)
    requires
        forall|i: int| 0 <= i < 3 ==> -32768 <= #[trigger] a@[i] <= 32768,
        forall|i: int| 0 <= i < 3 ==> -32768 <= #[trigger] b@[i] <= 32768,
    ensures
        is_largest_gap(axes::vector(a@), axes::vector(b@), m as int),
{
    let x: u32 = gap_of(a[0], b[0]);
    let y: u32 = gap_of(a[1], b[1]);
    let z: u32 = gap_of(a[2], b[2]);
    if x > y {
        if x > z {
            x
        } else {
            z
        }
    } else if y > z {
        y
    } else {
        z
    }
}

/// How far two readings disagree, in counts on the worst body axis:
/// acceleration, then rates.
pub fn disagreement(a: &RawImu, b: &RawImu) -> (d: (u32, u32))
    ensures
        is_largest_gap(
            a.orientation.rotated(axes::counts(a.accel@)),
            b.orientation.rotated(axes::counts(b.accel@)),
            d.0 as int,
        ),
        is_largest_gap(
            a.orientation.rotated(axes::counts(a.gyro@)),
            b.orientation.rotated(axes::counts(b.gyro@)),
            d.1 as int,
        ),
{
    let accel: u32 = largest_gap(
        a.orientation.apply(widen(a.accel)),
        b.orientation.apply(widen(b.accel)),
    );
    let gyro: u32 = largest_gap(
        a.orientation.apply(widen(a.gyro)),
        b.orientation.apply(widen(b.gyro)),
    );
    (accel, gyro)
}

// ---- Laws ----

/// A reading is published exactly when a sensor works.
pub proof fn law_one_sensor_is_enough(a: Option<RawImu>, b: Option<RawImu>, s: Option<RawImu>)
    requires
        is_fused(a, b, s),
    ensures
        s is Some <==> a is Some || b is Some,
{
}

/// The largest disagreement does not depend on the order of the sensors, and is
/// zero exactly for equal vectors.
pub proof fn law_disagreement_is_a_distance(a: Vector, b: Vector, m: int)
    requires
        is_largest_gap(a, b, m),
    ensures
        is_largest_gap(b, a, m),
        m == 0 <==> a == b,
{
}

/// Readings are compared once a second, and only where both sensors work.
pub proof fn law_compared_once_a_second(r: ImuReader, now_ms: u64)
    requires
        r.last_diag_ms <= now_ms,
    ensures
        r.compares(true, now_ms) <==> now_ms >= r.last_diag_ms + 1000,
        !r.compares(false, now_ms),
{
}

/// One sensor alone is taken as it reads; of two the mean is taken, which for equal
/// readings in the body frame is the reading.
pub proof fn law_one_sensor_stands_in(a: RawImu, s: Option<RawImu>)
    ensures
        is_fused(Some(a), None, s) <==> s == Some(a),
        is_fused(None, Some(a), s) <==> s == Some(a),
        is_fused(None, None, s) <==> s is None,
        is_fused(Some(a), Some(a), s) && a.orientation
            == icm42688::Orientation::Identity ==> s is Some && s->0.accel@ == a.accel@
            && s->0.gyro@ == a.gyro@ && s->0.temp == a.temp,
{
}

/// The disagreement is that of the axis on which two vectors differ most: it is no less
/// than on any, and moving one axis by more makes it that much.
pub proof fn law_disagreement_is_the_worst_axis(a: Vector, m: int, d: int)
    requires
        d >= 0,
    ensures
        is_largest_gap(a, Vector { x: a.x + d, ..a }, m) <==> m == d,
        is_largest_gap(a, Vector { y: a.y - d, ..a }, m) <==> m == d,
        is_largest_gap(a, Vector { z: a.z + d, ..a }, m) <==> m == d,
{
}

} // verus!
