//! Finding a GPS module on the UART and putting it on the target baud rate.
//!
//! Only a frame whose checksum verifies counts as a find: at a wrong baud rate
//! the line is a continuous stream of garbage. The search makes two passes. A
//! short census at every candidate rate records what the line does; full
//! windows then go to the candidates with the best evidence.

use crate::bytes;
use crate::drivers::nmea;
use crate::drivers::nmea::NmeaParser;
use crate::drivers::ubx;
use crate::drivers::ubx::UbxParser;
use crate::drivers::ubx_config;
use vstd::prelude::*;

verus! {

/// Navigation solution period in milliseconds.
pub const NAV_RATE_MS: u16 = 100;

/// Baud rate after a module has been configured.
pub const TARGET_BAUD: u32 = 115_200;

/// Factory default of M8 modules.
pub const FACTORY_BAUD: u32 = 9600;

/// Factory default of M10 modules.
pub const ALT_FACTORY_BAUD: u32 = 38_400;

/// Candidate baud rates, in probe order: first where a module configured by an
/// earlier boot already is, then the factory defaults, then the rates vendors
/// leave modules on.
pub const CANDIDATE_BAUDS: [u32; 6] = [115_200, 9_600, 38_400, 230_400, 57_600, 460_800];

/// Listening time of a full window, longer than one solution of an unconfigured
/// module.
pub const PROBE_WINDOW_MS: u64 = 1200;

/// Listening time of a census window.
pub const CENSUS_WINDOW_MS: u64 = 200;

/// Candidates that get a full window.
pub const FULL_WINDOW_ATTEMPTS: usize = 3;

/// What was heard at a baud rate.
#[derive(Debug, Clone, Copy, PartialEq, Eq, Structural)]
pub enum ProbeResult {
    /// A UBX message with a matching checksum.
    Ubx,
    /// An NMEA sentence with a matching checksum.
    Nmea,
    /// Nothing intelligible.
    Silent,
}

/// Receive errors of a UART.
#[derive(Debug, Clone, Copy, PartialEq, Eq, Structural)]
pub enum LineError {
    Framing,
    Noise,
    Overrun,
    Other,
}

/// What the line did during a window. Counters stop at their maximum.
#[derive(Debug, Clone, PartialEq, Eq)]
pub struct ProbeStats {
    pub bytes: u32,
    pub framing: u32,
    pub noise: u32,
    pub overrun: u32,
    pub other: u32,
    /// The first bytes, up to eight.
    pub head: Vec<u8>,
}

/// Addition that stops at the maximum.
pub open spec fn capped_sum(a: int, b: int) -> u32 {
    if a + b > u32::MAX {
        u32::MAX
    } else {
        (a + b) as u32
    }
}

impl ProbeStats {
    pub fn new() -> (st: Self)
        ensures
            st.bytes == 0,
            st.framing == 0,
            st.noise == 0,
            st.overrun == 0,
            st.other == 0,
            st.head@ == Seq::<u8>::empty(),
    {
        ProbeStats { bytes: 0, framing: 0, noise: 0, overrun: 0, other: 0, head: Vec::new() }
    }

    /// Receive errors of all kinds.
    pub open spec fn error_count(&self) -> u32 {
        capped_sum(
            capped_sum(
                capped_sum(self.framing as int, self.noise as int) as int,
                self.overrun as int,
            ) as int,
            self.other as int,
        )
    }

    /// Receive errors of all kinds.
    pub fn errors(&self) -> (n: u32)
        ensures
            n == self.error_count(),
    {
        self.framing.saturating_add(self.noise).saturating_add(self.overrun).saturating_add(
            self.other,
        )
    }
}

/// Rank of a census result. Characters outrank errors, and both outrank
/// silence.
pub open spec fn evidence_of(bytes: u32, errors: u32) -> u32 {
    let clocked: u32 = if bytes * 4 > u32::MAX {
        u32::MAX
    } else {
        (bytes * 4) as u32
    };
    capped_sum(clocked as int, errors as int)
}

/// Rank of a census result.
pub fn evidence(st: &ProbeStats) -> (e: u32)
    ensures
        e == evidence_of(st.bytes, st.error_count()),
{
    let clocked: u32 = if st.bytes > u32::MAX / 4 {
        u32::MAX
    } else {
        st.bytes * 4
    };
    clocked.saturating_add(st.errors())
}

// ---- One window ----

/// What a run of bytes amounts to for parsers holding `u` and `n`: the first
/// message or sentence and how many bytes it took, or all of them.
pub open spec fn scan(u: Seq<u8>, n: Seq<u8>, data: Seq<u8>) -> (ProbeResult, nat)
    decreases data.len(),
{
    if data.len() == 0 {
        (ProbeResult::Silent, 0)
    } else {
        let b = data[0];
        if ubx::is_frame(u.push(b)) && ubx::message_of(u.push(b)) is Some {
            (ProbeResult::Ubx, 1)
        } else if nmea::completes(n, b) && nmea::sentence_type(n.push(b)) is Some {
            (ProbeResult::Nmea, 1)
        } else {
            let rest = scan(ubx::pending_after(u, b), nmea::pending_after(n, b), data.skip(1));
            (rest.0, rest.1 + 1)
        }
    }
}

/// At most the first eight bytes.
pub open spec fn head_of(s: Seq<u8>) -> Seq<u8> {
    if s.len() > 8 {
        s.take(8)
    } else {
        s
    }
}

/// Listening at one baud rate.
pub struct Probe {
    pub ubx: UbxParser,
    pub nmea: NmeaParser,
    pub stats: ProbeStats,
}

impl Probe {
    pub open spec fn wf(&self) -> bool {
        self.ubx.wf() && self.nmea.wf() && self.stats.head@.len() <= 8
    }

    pub fn new() -> (p: Self)
        ensures
            p.wf(),
            p.ubx.pending() == Seq::<u8>::empty(),
            p.nmea.pending() == Seq::<u8>::empty(),
            p.stats.bytes == 0,
            p.stats.error_count() == 0,
            p.stats.head@ == Seq::<u8>::empty(),
    {
        Probe { ubx: UbxParser::new(), nmea: NmeaParser::new(), stats: ProbeStats::new() }
    }

    /// Takes a burst of bytes. The first valid message or sentence ends the
    /// window; the rest of the burst is then not looked at.
    pub fn push_bytes(&mut self, data: &[u8]) -> (result: ProbeResult)
        requires
            old(self).wf(),
        ensures
            final(self).wf(),
            result == scan(old(self).ubx.pending(), old(self).nmea.pending(), data@).0,
            final(self).stats.bytes == capped_sum(old(self).stats.bytes as int, data@.len() as int),
            final(self).stats.framing == old(self).stats.framing,
            final(self).stats.noise == old(self).stats.noise,
            final(self).stats.overrun == old(self).stats.overrun,
            final(self).stats.other == old(self).stats.other,
            final(self).stats.head@ == head_of(
                old(self).stats.head@ + data@.take(
                    scan(old(self).ubx.pending(), old(self).nmea.pending(), data@).1 as int,
                ),
            ),
            result == ProbeResult::Silent ==> final(self).ubx.pending() == ubx::pending_after_all(
                old(self).ubx.pending(),
                data@,
            ),
            result == ProbeResult::Silent ==> final(self).nmea.pending() == nmea::pending_after_all(
                old(self).nmea.pending(),
                data@,
            ),
    {
        let n: usize = data.len();
        let count: u32 = if n > u32::MAX as usize {
            u32::MAX
        } else {
            n as u32
        };
        self.stats.bytes = self.stats.bytes.saturating_add(count);
        let ghost u0 = self.ubx.pending();
        let ghost n0 = self.nmea.pending();
        let ghost h0 = self.stats.head@;
        let ghost whole = scan(u0, n0, data@);
        assert(data@.skip(0) =~= data@);
        assert(h0 + data@.take(0) =~= h0);
        assert(data@.take(0) =~= Seq::empty());
        let mut i: usize = 0;
        while i < n
            invariant
                i <= n,
                n == data@.len(),
                self.wf(),
                whole == scan(u0, n0, data@),
                u0 == old(self).ubx.pending(),
                n0 == old(self).nmea.pending(),
                h0 == old(self).stats.head@,
                h0.len() <= 8,
                whole.0 == scan(self.ubx.pending(), self.nmea.pending(), data@.skip(i as int)).0,
                whole.1 == i + scan(
                    self.ubx.pending(),
                    self.nmea.pending(),
                    data@.skip(i as int),
                ).1,
                self.ubx.pending() == ubx::pending_after_all(u0, data@.take(i as int)),
                self.nmea.pending() == nmea::pending_after_all(n0, data@.take(i as int)),
                self.stats.head@ == head_of(h0 + data@.take(i as int)),
                self.stats.bytes == capped_sum(old(self).stats.bytes as int, data@.len() as int),
                self.stats.framing == old(self).stats.framing,
                self.stats.noise == old(self).stats.noise,
                self.stats.overrun == old(self).stats.overrun,
                self.stats.other == old(self).stats.other,
            decreases n - i,
        {
            let byte: u8 = data[i];
            let ghost rest = data@.skip(i as int);
            let ghost head = self.stats.head@;
            assert(rest[0] == byte);
            assert(rest.skip(1) =~= data@.skip(i + 1));
            assert(data@.take(i + 1).drop_last() =~= data@.take(i as int));
            assert(h0 + data@.take(i + 1) =~= (h0 + data@.take(i as int)).push(byte));
            if self.stats.head.len() < 8 {
                self.stats.head.push(byte);
            }
            assert(self.stats.head@ =~= head_of(h0 + data@.take(i + 1)));
            if self.ubx.push_byte(byte).is_some() {
                return ProbeResult::Ubx;
            }
            if self.nmea.push_byte(byte).is_some() {
                return ProbeResult::Nmea;
            }
            i += 1;
        }
        assert(data@.take(n as int) =~= data@);
        assert(data@.skip(n as int).len() == 0);
        ProbeResult::Silent
    }

    /// Counts a receive error. Errors do not end a window: they are evidence
    /// about the baud rate.
    pub fn note_error(&mut self, e: LineError)
        requires
            old(self).wf(),
        ensures
            final(self).wf(),
            final(self).ubx.pending() == old(self).ubx.pending(),
            final(self).nmea.pending() == old(self).nmea.pending(),
            final(self).stats.bytes == old(self).stats.bytes,
            final(self).stats.head@ == old(self).stats.head@,
            final(self).stats.framing == capped_sum(
                old(self).stats.framing as int,
                if e == LineError::Framing { 1 } else { 0 },
            ),
            final(self).stats.noise == capped_sum(
                old(self).stats.noise as int,
                if e == LineError::Noise { 1 } else { 0 },
            ),
            final(self).stats.overrun == capped_sum(
                old(self).stats.overrun as int,
                if e == LineError::Overrun { 1 } else { 0 },
            ),
            final(self).stats.other == capped_sum(
                old(self).stats.other as int,
                if e == LineError::Other { 1 } else { 0 },
            ),
    {
        match e {
            LineError::Framing => {
                self.stats.framing = self.stats.framing.saturating_add(1);
            },
            LineError::Noise => {
                self.stats.noise = self.stats.noise.saturating_add(1);
            },
            LineError::Overrun => {
                self.stats.overrun = self.stats.overrun.saturating_add(1);
            },
            LineError::Other => {
                self.stats.other = self.stats.other.saturating_add(1);
            },
        }
    }
}

// ---- Ranking ----

/// Whether candidate `a` goes before candidate `b`: more evidence first, and
/// the probe order among equals.
pub open spec fn goes_before(census: Seq<u32>, a: usize, b: usize) -> bool {
    census[a as int] > census[b as int] || census[a as int] == census[b as int] && a < b
}

/// Whether the first `n` entries are in order.
pub open spec fn in_order(census: Seq<u32>, order: Seq<usize>, n: int) -> bool {
    forall|i: int, j: int|
        #![trigger order[i], order[j]]
        0 <= i < j < n ==> goes_before(census, order[i], order[j])
}

/// Orders the candidates by descending evidence, keeping the probe order among
/// equals.
pub fn rank(census: &[u32; 6]) -> (order: [usize; 6])
    ensures
        forall|i: int| 0 <= i < 6 ==> #[trigger] order@[i] < 6,
        in_order(census@, order@, 6),
{
    let mut order: [usize; 6] = [0, 1, 2, 3, 4, 5];
    let mut i: usize = 1;
    while i < 6
        invariant
            1 <= i <= 6,
            in_order(census@, order@, i as int),
            forall|k: int| 0 <= k < i ==> #[trigger] order@[k] < i,
            forall|k: int| i <= k < 6 ==> #[trigger] order@[k] == k,
        decreases 6 - i,
    {
        let mut j: usize = i;
        assert(order@[i as int] == i);
        while j > 0 && census[order[j]] > census[order[j - 1]]
            invariant
                0 <= j <= i < 6,
                order@[j as int] == i,
                forall|k: int| 0 <= k <= i && k != j ==> #[trigger] order@[k] < i,
                forall|k: int| i < k < 6 ==> #[trigger] order@[k] == k,
                forall|a: int, b: int|
                    #![trigger order@[a], order@[b]]
                    0 <= a < b <= i && a != j && b != j ==> goes_before(
                        census@,
                        order@[a],
                        order@[b],
                    ),
                forall|k: int|
                    j < k <= i ==> census@[i as int] > census@[#[trigger] order@[k] as int],
            decreases j,
        {
            let a: usize = order[j];
            let b: usize = order[j - 1];
            order[j] = b;
            order[j - 1] = a;
            j -= 1;
        }
        i += 1;
    }
    order
}

// ---- Search ----

/// What a search asks for next.
#[derive(Debug, Clone, Copy, PartialEq, Eq, Structural)]
pub enum SearchAction {
    /// Tune to `baud`, let the line settle, and listen for `window_ms`.
    Listen { baud: u32, window_ms: u64 },
    /// A module answers at `baud`.
    Found { baud: u32, speaks: ProbeResult },
    /// No candidate answers.
    NotFound,
}

/// State of a search.
pub struct BaudSearch {
    /// Evidence per candidate.
    pub census: [u32; 6],
    /// Candidates in the order of the second pass.
    pub order: [usize; 6],
    /// The first pass is over.
    pub full: bool,
    /// Window being listened to, within the pass.
    pub at: usize,
}

impl BaudSearch {
    pub open spec fn wf(&self) -> bool {
        &&& if self.full {
            &&& self.at < FULL_WINDOW_ATTEMPTS
            &&& in_order(self.census@, self.order@, 6)
        } else {
            self.at < 6
        }
        &&& forall|i: int| 0 <= i < 6 ==> #[trigger] self.order@[i] < 6
    }

    /// Candidate being listened to.
    pub open spec fn candidate(&self) -> int {
        if self.full {
            self.order@[self.at as int] as int
        } else {
            self.at as int
        }
    }

    /// Begins a search with a census of the first candidate.
    pub fn new() -> (out: (Self, SearchAction))
        ensures
            out.0.wf(),
            !out.0.full,
            out.0.at == 0,
            out.1 == (SearchAction::Listen {
                baud: CANDIDATE_BAUDS[0],
                window_ms: CENSUS_WINDOW_MS,
            }),
    {
        let search = BaudSearch {
            census: [0; 6],
            order: [0, 1, 2, 3, 4, 5],
            full: false,
            at: 0,
        };
        (
            search,
            SearchAction::Listen { baud: CANDIDATE_BAUDS[0], window_ms: CENSUS_WINDOW_MS },
        )
    }

    /// Takes what a window heard and its evidence, and says what is next. Any
    /// valid frame ends the search. Silence in the census moves on to the next
    /// candidate, and after the last one to the full windows, best evidence
    /// first; silence there too ends the search without a find.
    pub fn heard(&mut self, result: ProbeResult, evidence: u32) -> (action: SearchAction)
        requires
            old(self).wf(),
        ensures
            result != ProbeResult::Silent ==> action == (SearchAction::Found {
                baud: CANDIDATE_BAUDS[old(self).candidate()],
                speaks: result,
            }) && *final(self) == *old(self),
            result == ProbeResult::Silent && !old(self).full ==> {
                &&& final(self).wf()
                &&& final(self).census@ == old(self).census@.update(old(self).at as int, evidence)
                &&& old(self).at < 5 ==> !final(self).full && final(self).at == old(self).at + 1
                    && action == (SearchAction::Listen {
                    baud: CANDIDATE_BAUDS[old(self).at + 1],
                    window_ms: CENSUS_WINDOW_MS,
                })
                &&& old(self).at == 5 ==> final(self).full && final(self).at == 0 && action == (
                SearchAction::Listen {
                    baud: CANDIDATE_BAUDS[final(self).order@[0] as int],
                    window_ms: PROBE_WINDOW_MS,
                })
            },
            result == ProbeResult::Silent && old(self).full && old(self).at + 1
                < FULL_WINDOW_ATTEMPTS ==> {
                &&& final(self).wf()
                &&& final(self).full
                &&& final(self).at == old(self).at + 1
                &&& final(self).order == old(self).order
                &&& final(self).census == old(self).census
                &&& action == (SearchAction::Listen {
                    baud: CANDIDATE_BAUDS[old(self).order@[old(self).at + 1] as int],
                    window_ms: PROBE_WINDOW_MS,
                })
            },
            result == ProbeResult::Silent && old(self).full && old(self).at + 1
                >= FULL_WINDOW_ATTEMPTS ==> action == SearchAction::NotFound && *final(self)
                == *old(self),
            result == ProbeResult::Silent ==> match action {
                SearchAction::Listen { baud, window_ms } => {
                    &&& final(self).time_left() == old(self).time_left() - old(self).window()
                    &&& window_ms == final(self).window()
                },
                _ => old(self).time_left() == old(self).window(),
            },
    {
        if result != ProbeResult::Silent {
            let i: usize = if self.full {
                self.order[self.at]
            } else {
                self.at
            };
            return SearchAction::Found { baud: CANDIDATE_BAUDS[i], speaks: result };
        }
        if !self.full {
            let at: usize = self.at;
            self.census[at] = evidence;
            if at < 5 {
                self.at = at + 1;
                return SearchAction::Listen {
                    baud: CANDIDATE_BAUDS[at + 1],
                    window_ms: CENSUS_WINDOW_MS,
                };
            }
            self.order = rank(&self.census);
            self.full = true;
            self.at = 0;
            return SearchAction::Listen {
                baud: CANDIDATE_BAUDS[self.order[0]],
                window_ms: PROBE_WINDOW_MS,
            };
        }
        let next: usize = self.at + 1;
        if next < FULL_WINDOW_ATTEMPTS {
            self.at = next;
            return SearchAction::Listen {
                baud: CANDIDATE_BAUDS[self.order[next]],
                window_ms: PROBE_WINDOW_MS,
            };
        }
        SearchAction::NotFound
    }

    /// Length of the window being listened to.
    pub open spec fn window(&self) -> int {
        if self.full {
            PROBE_WINDOW_MS as int
        } else {
            CENSUS_WINDOW_MS as int
        }
    }

    /// Listening time still to come when every window stays silent, the current
    /// one counted.
    pub open spec fn time_left(&self) -> int {
        if self.full {
            (FULL_WINDOW_ATTEMPTS - self.at) * PROBE_WINDOW_MS
        } else {
            (6 - self.at) * CENSUS_WINDOW_MS + FULL_WINDOW_ATTEMPTS * PROBE_WINDOW_MS
        }
    }
}

// ---- Setting up a module that was found ----

/// One step of the setup.
#[derive(Debug, Clone, Copy, PartialEq, Eq, Structural)]
pub enum SetupStep {
    /// Send the port command for the target baud rate.
    SendPort,
    /// Send the same request as keys.
    SendPortKeys,
    /// Tune our side.
    SetBaud { baud: u32 },
    /// Send solution and message rates as keys.
    SendRateKeys,
    /// Send the solution rate command.
    SendNavRate,
    /// Send the message rate command.
    SendMsgRate,
    /// Wait.
    Wait { ms: u64 },
}

/// The setup of a module found at `baud`.
pub open spec fn setup_plan(baud: u32) -> Seq<SetupStep> {
    seq![SetupStep::SendPort, SetupStep::SendPortKeys, SetupStep::Wait { ms: 100 }] + (if baud
        != TARGET_BAUD {
        seq![SetupStep::SetBaud { baud: TARGET_BAUD }, SetupStep::Wait { ms: 100 }]
    } else {
        Seq::empty()
    }) + seq![
        SetupStep::SendRateKeys,
        SetupStep::Wait { ms: 50 },
        SetupStep::SendNavRate,
        SetupStep::Wait { ms: 50 },
        SetupStep::SendMsgRate,
        SetupStep::Wait { ms: 50 },
    ]
}

/// The setup of a module found at `baud`, in order. The acknowledgement drains
/// at the old rate before our side follows to the new one.
pub fn setup_steps(baud: u32) -> (steps: Vec<SetupStep>)
    ensures
        steps@ == setup_plan(baud),
{
    let mut steps: Vec<SetupStep> = Vec::new();
    steps.push(SetupStep::SendPort);
    steps.push(SetupStep::SendPortKeys);
    steps.push(SetupStep::Wait { ms: 100 });
    if baud != TARGET_BAUD {
        steps.push(SetupStep::SetBaud { baud: TARGET_BAUD });
        steps.push(SetupStep::Wait { ms: 100 });
    }
    steps.push(SetupStep::SendRateKeys);
    steps.push(SetupStep::Wait { ms: 50 });
    steps.push(SetupStep::SendNavRate);
    steps.push(SetupStep::Wait { ms: 50 });
    steps.push(SetupStep::SendMsgRate);
    steps.push(SetupStep::Wait { ms: 50 });
    assert(steps@ =~= setup_plan(baud));
    steps
}

/// Key/value pairs of the port request.
pub open spec fn port_keys() -> Seq<(u32, u64)> {
    seq![
        (ubx_config::KEY_UART1_BAUDRATE, 115_200u64),
        (ubx_config::KEY_UART1_OUTPROT_UBX, 1u64),
        (ubx_config::KEY_UART1_OUTPROT_NMEA, 0u64),
    ]
}

/// Key/value pairs of the rate request.
pub open spec fn rate_keys() -> Seq<(u32, u64)> {
    seq![
        (ubx_config::KEY_RATE_MEAS, 100u64),
        (ubx_config::KEY_RATE_NAV, 1u64),
        (ubx_config::KEY_MSGOUT_NAV_PVT_UART1, 1u64),
    ]
}

/// The frame a step sends; nothing for the others.
pub open spec fn step_frame(step: SetupStep) -> Option<Seq<u8>> {
    match step {
        SetupStep::SendPort => Some(
            ubx::frame_bytes(0x06, 0x00, ubx_config::port_payload(TARGET_BAUD)),
        ),
        SetupStep::SendPortKeys => Some(
            ubx::frame_bytes(
                0x06,
                0x8A,
                ubx_config::valset_payload(ubx_config::LAYER_RAM, port_keys(), 3)->0,
            ),
        ),
        SetupStep::SendRateKeys => Some(
            ubx::frame_bytes(
                0x06,
                0x8A,
                ubx_config::valset_payload(ubx_config::LAYER_RAM, rate_keys(), 3)->0,
            ),
        ),
        SetupStep::SendNavRate => Some(
            ubx::frame_bytes(0x06, 0x08, ubx_config::rate_payload(NAV_RATE_MS, 1)),
        ),
        SetupStep::SendMsgRate => Some(ubx::frame_bytes(0x06, 0x01, seq![0x01u8, 0x07u8, 1u8])),
        _ => None,
    }
}

/// Builds the frame a step sends at the start of `out` and returns its length,
/// 0 for a step that sends nothing.
pub fn build_step(step: SetupStep, out: &mut [u8; 64]) -> (n: usize)
    ensures
        step_frame(step) is None ==> n == 0 && final(out)@ == old(out)@,
        step_frame(step) matches Some(frame) ==> n == frame.len() && n <= 64 && final(out)@.take(
            n as int,
        ) == frame,
{
    let mut buf: [u8; 64] = [0; 64];
    let n: usize = match step {
        SetupStep::SendPort => ubx_config::set_uart_baud(&mut buf, TARGET_BAUD),
        SetupStep::SendPortKeys => {
            let pairs: [(u32, u64); 3] = [
                (ubx_config::KEY_UART1_BAUDRATE, 115_200),
                (ubx_config::KEY_UART1_OUTPROT_UBX, 1),
                (ubx_config::KEY_UART1_OUTPROT_NMEA, 0),
            ];
            proof {
                assert(pairs@ =~= port_keys());
                ubx_config::law_valset_accepts_the_documented_maximum(
                    ubx_config::LAYER_RAM,
                    port_keys(),
                    3,
                );
            }
            ubx_config::valset(&mut buf, ubx_config::LAYER_RAM, pairs.as_slice())
        },
        SetupStep::SendRateKeys => {
            let pairs: [(u32, u64); 3] = [
                (ubx_config::KEY_RATE_MEAS, NAV_RATE_MS as u64),
                (ubx_config::KEY_RATE_NAV, 1),
                (ubx_config::KEY_MSGOUT_NAV_PVT_UART1, 1),
            ];
            proof {
                assert(pairs@ =~= rate_keys());
                ubx_config::law_valset_accepts_the_documented_maximum(
                    ubx_config::LAYER_RAM,
                    rate_keys(),
                    3,
                );
            }
            ubx_config::valset(&mut buf, ubx_config::LAYER_RAM, pairs.as_slice())
        },
        SetupStep::SendNavRate => ubx_config::set_nav_rate(&mut buf, NAV_RATE_MS, 1),
        SetupStep::SendMsgRate => ubx_config::set_msg_rate(&mut buf, 0x01, 0x07, 1),
        _ => return 0,
    };
    assert(step_frame(step) matches Some(frame) ==> buf@.take(n as int) =~= frame);
    *out = buf;
    n
}

// ---- Laws ----

/// How the bytes of a window are cut into bursts does not matter: what a silent
/// burst leaves pending is taken up by the next one.
pub proof fn law_bursts_join(u: Seq<u8>, n: Seq<u8>, first: Seq<u8>, second: Seq<u8>)
    requires
        scan(u, n, first).0 == ProbeResult::Silent,
    ensures
        scan(u, n, first + second).0 == scan(
            ubx::pending_after_all(u, first),
            nmea::pending_after_all(n, first),
            second,
        ).0,
        scan(u, n, first + second).1 == first.len() + scan(
            ubx::pending_after_all(u, first),
            nmea::pending_after_all(n, first),
            second,
        ).1,
    decreases first.len(),
{
    if first.len() == 0 {
        assert(first + second =~= second);
    } else {
        let b = first[0];
        let rest = first.skip(1);
        assert((first + second).skip(1) =~= rest + second);
        law_bursts_join(ubx::pending_after(u, b), nmea::pending_after(n, b), rest, second);
        lemma_pending_from_the_front(u, n, first);
    }
}

/// Bytes may be taken from the front as well.
proof fn lemma_pending_from_the_front(u: Seq<u8>, n: Seq<u8>, data: Seq<u8>)
    requires
        data.len() > 0,
    ensures
        ubx::pending_after_all(u, data) == ubx::pending_after_all(
            ubx::pending_after(u, data[0]),
            data.skip(1),
        ),
        nmea::pending_after_all(n, data) == nmea::pending_after_all(
            nmea::pending_after(n, data[0]),
            data.skip(1),
        ),
    decreases data.len(),
{
    let head = data.drop_last();
    if data.len() == 1 {
        assert(ubx::pending_after_all(u, head) == u);
        assert(nmea::pending_after_all(n, head) == n);
    } else {
        lemma_pending_from_the_front(u, n, head);
        assert(data.skip(1).drop_last() =~= head.skip(1));
        assert(data.skip(1).last() == data.last());
    }
}

/// A search listens for at most five seconds in all. Every silent window uses up
/// its own length, which `heard` states.
pub proof fn law_search_time_is_bounded(search: BaudSearch)
    requires
        search.wf(),
    ensures
        search.window() <= search.time_left() <= 5000,
{
}

/// A census in which nothing was heard leaves the probe order untouched.
pub proof fn law_silent_census_keeps_the_order(census: Seq<u32>, order: Seq<usize>)
    requires
        census.len() == 6,
        order.len() == 6,
        forall|i: int, j: int|
            #![trigger census[i], census[j]]
            0 <= i < 6 && 0 <= j < 6 ==> census[i] == census[j],
        forall|i: int| 0 <= i < 6 ==> #[trigger] order[i] < 6,
        in_order(census, order, 6),
    ensures
        order == seq![0usize, 1usize, 2usize, 3usize, 4usize, 5usize],
{
    assert forall|i: int, j: int| 0 <= i < j < 6 implies #[trigger] order[i] < #[trigger] order[j] by {
        assert(goes_before(census, order[i], order[j]));
    }
    assert(order[0] < order[1] && order[1] < order[2] && order[2] < order[3] && order[3] < order[4]
        && order[4] < order[5]);
    assert(order =~= seq![0usize, 1usize, 2usize, 3usize, 4usize, 5usize]);
}

/// The candidates are all different, so no window is spent twice.
pub proof fn law_candidates_are_distinct(i: int, j: int)
    requires
        0 <= i < j < 6,
    ensures
        CANDIDATE_BAUDS[i] != CANDIDATE_BAUDS[j],
{
}

/// Evidence counts bytes above errors: one byte outweighs three errors.
pub proof fn law_bytes_outrank_errors(bytes: u32, errors: u32)
    requires
        bytes >= 1,
        errors <= 3,
    ensures
        evidence_of(bytes, 0) > evidence_of(0, errors),
        evidence_of(0, 0) == 0,
{
}

/// Counts add up until they reach the maximum and stay there.
pub proof fn law_counts_stop_at_the_maximum(a: u32, b: u32)
    ensures
        a + b <= 0xFFFF_FFFF ==> capped_sum(a as int, b as int) == a + b,
        a + b > 0xFFFF_FFFF ==> capped_sum(a as int, b as int) == 0xFFFF_FFFF,
{
}

/// A byte weighs as much as four errors, as long as the count holds it.
pub proof fn law_evidence_weighs_bytes_fourfold(bytes: u32, errors: u32)
    ensures
        4 * bytes + errors <= u32::MAX ==> evidence_of(bytes, errors) == 4 * bytes + errors,
        4 * bytes + errors > u32::MAX ==> evidence_of(bytes, errors) == u32::MAX,
{
}

/// All kinds of errors count alike.
pub proof fn law_errors_add_up(st: ProbeStats)
    requires
        st.framing + st.noise + st.overrun + st.other <= u32::MAX,
    ensures
        st.error_count() == st.framing + st.noise + st.overrun + st.other,
{
}

/// The first eight bytes are kept, in order.
pub proof fn law_head_is_the_first_eight(s: Seq<u8>)
    ensures
        s.len() <= 8 ==> head_of(s) == s,
        s.len() >= 8 ==> head_of(s).len() == 8,
        head_of(s).is_prefix_of(s),
{
}

/// Listening takes 200 ms for each of six candidates, and then 1200 ms for each of
/// three.
pub proof fn law_listening_times(search: BaudSearch)
    requires
        search.wf(),
    ensures
        search.full ==> search.window() == 1200 && search.time_left() == 1200 * (3 - search.at),
        !search.full ==> search.window() == 200 && search.time_left() == 200 * (6 - search.at)
            + 3600,
{
}

/// A module is told the new rate before our side follows to it, which it does only from
/// another one, and is set up only after that; whatever is sent, time is left for it.
pub proof fn law_setup_order(baud: u32)
    ensures
        ({
            let plan = setup_plan(baud);
            let n: int = if baud == 115_200 {
                3
            } else {
                5
            };
            &&& plan.len() == n + 6
            &&& plan[0] == SetupStep::SendPort && plan[1] == SetupStep::SendPortKeys && plan[2] == (
            SetupStep::Wait { ms: 100 })
            &&& baud != 115_200 ==> plan[3] == (SetupStep::SetBaud { baud: 115_200 }) && plan[4]
                == (SetupStep::Wait { ms: 100 })
            &&& plan[n] == SetupStep::SendRateKeys && plan[n + 2] == SetupStep::SendNavRate
                && plan[n + 4] == SetupStep::SendMsgRate
            &&& plan[n + 1] == (SetupStep::Wait { ms: 50 }) && plan[n + 3] == (SetupStep::Wait {
                ms: 50,
            }) && plan[n + 5] == (SetupStep::Wait { ms: 50 })
        }),
{
}

/// What the port request asks for, as keys: 115200 baud, UBX and no NMEA, in the layer
/// that is lost at power off.
pub proof fn law_port_request()
    ensures
        step_frame(SetupStep::SendPortKeys) == Some(
            ubx::frame_bytes(
                0x06,
                0x8A,
                seq![0u8, 1u8, 0u8, 0u8] + bytes::written_le(0x4052_0001, 4) + bytes::written_le(
                    115_200,
                    4,
                ) + bytes::written_le(0x1074_0001, 4) + bytes::written_le(1, 1)
                    + bytes::written_le(0x1074_0002, 4) + bytes::written_le(0, 1),
            ),
        ),
{
    let pairs = port_keys();
    ubx_config::law_valset_accepts_the_documented_maximum(1, pairs, 3);
    ubx_config::law_pairs_follow_the_header(1, pairs, 0);
    ubx_config::law_pairs_follow_the_header(1, pairs, 1);
    ubx_config::law_pairs_follow_the_header(1, pairs, 2);
    assert(ubx_config::valset_payload(1, pairs, 0 + 1) is Some);
    assert(ubx_config::valset_payload(1, pairs, 1 + 1) is Some);
    assert(ubx_config::valset_payload(1, pairs, 2 + 1) is Some);
}

/// What the rate request asks for, as keys: a measurement every 100 ms, a solution for
/// each, and a position message for each solution.
pub proof fn law_rate_request()
    ensures
        step_frame(SetupStep::SendRateKeys) == Some(
            ubx::frame_bytes(
                0x06,
                0x8A,
                seq![0u8, 1u8, 0u8, 0u8] + bytes::written_le(0x3021_0001, 4) + bytes::written_le(
                    100,
                    2,
                ) + bytes::written_le(0x3021_0002, 4) + bytes::written_le(1, 2)
                    + bytes::written_le(0x2091_0007, 4) + bytes::written_le(1, 1),
            ),
        ),
        step_frame(SetupStep::SendNavRate) == Some(
            ubx::frame_bytes(
                0x06,
                0x08,
                bytes::written_le(100, 2) + bytes::written_le(1, 2) + bytes::written_le(1, 2),
            ),
        ),
        step_frame(SetupStep::SendMsgRate) == Some(
            ubx::frame_bytes(0x06, 0x01, seq![0x01u8, 0x07u8, 1u8]),
        ),
        step_frame(SetupStep::SendPort) == Some(
            ubx::frame_bytes(0x06, 0x00, ubx_config::port_payload(115_200)),
        ),
{
    let pairs = rate_keys();
    ubx_config::law_valset_accepts_the_documented_maximum(1, pairs, 3);
    ubx_config::law_pairs_follow_the_header(1, pairs, 0);
    ubx_config::law_pairs_follow_the_header(1, pairs, 1);
    ubx_config::law_pairs_follow_the_header(1, pairs, 2);
    assert(ubx_config::valset_payload(1, pairs, 0 + 1) is Some);
    assert(ubx_config::valset_payload(1, pairs, 1 + 1) is Some);
    assert(ubx_config::valset_payload(1, pairs, 2 + 1) is Some);
    bytes::lemma_written_2(100);
    bytes::lemma_written_2(1);
    assert(ubx_config::rate_payload(100, 1) =~= bytes::written_le(100, 2) + bytes::written_le(1, 2)
        + bytes::written_le(1, 2));
}

/// The candidates: the target first, then the factory defaults, then the rest.
pub proof fn law_candidate_order(i: int)
    requires
        0 <= i < 6,
    ensures
        CANDIDATE_BAUDS[i] == (if i == 0 {
            115_200int
        } else if i == 1 {
            9_600
        } else if i == 2 {
            38_400
        } else if i == 3 {
            230_400
        } else if i == 4 {
            57_600
        } else {
            460_800
        }),
        TARGET_BAUD == 115_200 && FACTORY_BAUD == 9_600 && ALT_FACTORY_BAUD == 38_400,
{
}

/// Nothing is heard in silence, and what is heard is heard no later than its last byte:
/// bytes that follow do not change it.
pub proof fn law_what_is_heard_stays_heard(u: Seq<u8>, n: Seq<u8>, data: Seq<u8>, more: Seq<u8>)
    ensures
        scan(u, n, Seq::empty()) == (ProbeResult::Silent, 0nat),
        scan(u, n, data).1 <= data.len(),
        scan(u, n, data).0 == ProbeResult::Silent ==> scan(u, n, data).1 == data.len(),
        scan(u, n, data).0 != ProbeResult::Silent ==> scan(u, n, data + more) == scan(u, n, data),
    decreases data.len(),
{
    if data.len() > 0 {
        let b = data[0];
        assert((data + more)[0] == b);
        assert((data + more).skip(1) =~= data.skip(1) + more);
        law_what_is_heard_stays_heard(
            ubx::pending_after(u, b),
            nmea::pending_after(n, b),
            data.skip(1),
            more,
        );
    }
}

/// The byte that completes a message or a sentence is heard as such, a message before a
/// sentence; nothing else is.
pub proof fn law_completion_is_heard(u: Seq<u8>, n: Seq<u8>, b: u8)
    ensures
        scan(u, n, seq![b]).0 == ProbeResult::Ubx <==> ubx::is_frame(u.push(b)) && ubx::message_of(
            u.push(b),
        ) is Some,
        scan(u, n, seq![b]).0 == ProbeResult::Nmea <==> !(ubx::is_frame(u.push(b))
            && ubx::message_of(u.push(b)) is Some) && nmea::completes(n, b) && nmea::sentence_type(
            n.push(b),
        ) is Some,
{
    assert(seq![b].skip(1) =~= Seq::empty());
    assert(scan(ubx::pending_after(u, b), nmea::pending_after(n, b), seq![b].skip(1)).0
        == ProbeResult::Silent);
}

} // verus!
