//! One sample of a plant capture.

use vstd::prelude::*;

verus! {

/// Fixed-point scale of a commanded throttle: 1000 is full throttle.
pub const CMD_SCALE: u16 = 1000;

/// Period recorded where no telemetry arrived.
pub const NO_TELEMETRY: u16 = 0;

/// One sample: time, the commanded throttles, the reported eRPM periods and the
/// body rates in tenths of a degree per second.
#[derive(Debug, Clone, Copy, PartialEq, Eq)]
pub struct PlantSample {
    pub t_ms: u32,
    pub cmd: [u16; 4],
    pub period_us: [u16; 4],
    pub gyro_dps10: [i16; 3],
}

impl Default for PlantSample {
    fn default() -> (s: Self)
        ensures
            s.t_ms == 0,
            s.cmd@ == Seq::new(4, |i: int| 0u16),
            s.period_us@ == Seq::new(4, |i: int| 0u16),
            s.gyro_dps10@ == Seq::new(3, |i: int| 0i16),
    {
        let s = PlantSample { t_ms: 0, cmd: [0; 4], period_us: [0; 4], gyro_dps10: [0; 3] };
        assert(s.cmd@ =~= Seq::new(4, |i: int| 0u16));
        assert(s.period_us@ =~= Seq::new(4, |i: int| 0u16));
        assert(s.gyro_dps10@ =~= Seq::new(3, |i: int| 0i16));
        s
    }
}

impl PlantSample {
    /// Whether any motor reported a period.
    pub open spec fn reported(&self) -> bool {
        exists|i: int|
            #![trigger self.period_us@[i]]
            0 <= i < 4 && self.period_us@[i] != NO_TELEMETRY
    }

    /// Whether any motor reported a period.
    pub fn has_telemetry(&self) -> (any: bool)
        ensures
            any == self.reported(),
    {
        let any: bool = self.period_us[0] != NO_TELEMETRY || self.period_us[1] != NO_TELEMETRY
            || self.period_us[2] != NO_TELEMETRY || self.period_us[3] != NO_TELEMETRY;
        proof {
            assert(self.period_us@[0] == self.period_us@[0]);
            assert(self.period_us@[1] == self.period_us@[1]);
            assert(self.period_us@[2] == self.period_us@[2]);
            assert(self.period_us@[3] == self.period_us@[3]);
        }
        any
    }
}

/// A sample reports when one of the four periods is not zero.
pub proof fn law_a_period_is_a_report(s: PlantSample)
    ensures
        s.reported() <==> s.period_us@[0] != 0 || s.period_us@[1] != 0 || s.period_us@[2] != 0
            || s.period_us@[3] != 0,
{
    assert(s.period_us@[0] == s.period_us@[0]);
    assert(s.period_us@[1] == s.period_us@[1]);
    assert(s.period_us@[2] == s.period_us@[2]);
    assert(s.period_us@[3] == s.period_us@[3]);
}

} // verus!
