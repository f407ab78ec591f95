//! From the GPS byte stream to published fixes.

use crate::drivers::nmea;
use crate::drivers::nmea::NmeaParser;
use vstd::prelude::*;

verus! {

/// Interval of reports.
pub const GPS_REPORT_MS: u64 = 5000;

/// What a byte leads to.
#[derive(Clone, Copy, Debug, PartialEq, Eq, Structural)]
pub struct FeedStep {
    /// A sentence is complete: publish the data.
    pub publish: bool,
    /// It is the first.
    pub announce: bool,
    /// A report is due.
    pub report: bool,
}

/// State of the feed.
pub struct GpsFeed {
    pub parser: NmeaParser,
    /// Sentences so far, up to the maximum.
    pub sentences: u32,
    pub last_report_ms: u64,
}

/// Whether a report is due after a sentence.
pub open spec fn is_report_due(last_report_ms: u64, now_ms: u64) -> bool {
    now_ms - last_report_ms >= GPS_REPORT_MS
}

impl GpsFeed {
    pub open spec fn wf(&self) -> bool {
        self.parser.wf()
    }

    pub fn new(now_ms: u64) -> (f: Self)
        ensures
            f.wf(),
            f.parser.pending() == Seq::<u8>::empty(),
            f.parser.data@ == nmea::initial_view(),
            f.sentences == 0,
            f.last_report_ms == now_ms,
    {
        GpsFeed { parser: NmeaParser::new(), sentences: 0, last_report_ms: now_ms }
    }

    /// Takes one byte.
    pub fn feed(&mut self, byte: u8, now_ms: u64) -> (step: FeedStep)
        requires
            old(self).wf(),
            old(self).last_report_ms <= now_ms,
        ensures
            final(self).wf(),
            final(self).parser.pending() == nmea::pending_after(old(self).parser.pending(), byte),
            ({
                let s = old(self).parser.pending().push(byte);
                let whole = nmea::completes(old(self).parser.pending(), byte)
                    && nmea::sentence_type(s) is Some;
                &&& step.publish == whole
                &&& step.announce == (whole && old(self).sentences == 0)
                &&& step.report == (whole && now_ms - old(self).last_report_ms >= GPS_REPORT_MS)
                &&& step.report == (whole && is_report_due(old(self).last_report_ms, now_ms))
                &&& final(self).sentences == (if whole && old(self).sentences < u32::MAX {
                    (old(self).sentences + 1) as u32
                } else {
                    old(self).sentences
                })
                &&& final(self).last_report_ms == (if step.report {
                    now_ms
                } else {
                    old(self).last_report_ms
                })
                &&& nmea::completes(old(self).parser.pending(), byte) ==> final(self).parser.data@
                    == nmea::after_sentence(old(self).parser.data@, s)
                &&& !nmea::completes(old(self).parser.pending(), byte) ==> final(self).parser.data@ == old(self).parser.data@
            }),
    {
        if self.parser.push_byte(byte).is_none() {
            return FeedStep { publish: false, announce: false, report: false };
        }
        let announce: bool = self.sentences == 0;
        self.sentences = self.sentences.saturating_add(1);
        let report: bool = now_ms - self.last_report_ms >= GPS_REPORT_MS;
        if report {
            self.last_report_ms = now_ms;
        }
        FeedStep { publish: true, announce, report }
    }
}

/// Sentences are reported five seconds after the last report, and no sooner.
pub proof fn law_report_every_five_seconds(last_report_ms: u64, now_ms: u64)
    ensures
        is_report_due(last_report_ms, now_ms) <==> now_ms >= last_report_ms + 5000,
{
}

} // verus!
