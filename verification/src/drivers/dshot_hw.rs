//! DShot on a timer with one DMA stream per motor: cell values, the telemetry
//! decode from edge timestamps, and what happens in which order around a frame.
//!
//! Non-bidirectional: the line idles low and a frame is 16 data cells and two
//! zero cells. Bidirectional: the line idles high; after a frame the channels
//! become inputs that capture edge timestamps, and they stay inputs until just
//! before the next frame.

use crate::drivers::dshot_bb_decode;
use crate::drivers::dshot_bb_decode::BbTelemetry;
use crate::drivers::dshot_frame;
use crate::drivers::dshot_frame::DshotFrame;
use crate::text;
use vstd::arithmetic::power2;
use vstd::prelude::*;
use vstd::string::*;

verus! {

/// Cells per frame: 16 data bits and two trailing zeros.
pub const STEPS_PER_FRAME: usize = 18;

/// Edge timestamps kept per motor.
pub const RX_BUF_LEN: usize = 22;

/// Fewest edges a reply can have.
pub const MIN_GCR_EDGES: usize = 7;

/// Timer ticks per cell.
pub const MOTOR_BITLENGTH: u32 = 20;

/// Compare value of a "0" cell.
pub const MOTOR_BIT_0: u32 = 7;

/// Compare value of a "1" cell.
pub const MOTOR_BIT_1: u32 = 14;

/// Listening time for a reply unless overridden, in microseconds.
pub const DEFAULT_DEADTIME_US: u64 = 80;

/// Frame after which the idle level is probed once.
pub const PROBE_FRAME: u32 = 100;

/// Frame whose receive phase is tested against edges of our own.
pub const RX_SELFTEST_FRAME: u32 = 200;

/// Timer ticks per reply bit.
pub const RX_BIT_TICKS: u32 = 16;

/// Frames between two dumps of the encoder state.
pub const DUMP_EVERY: u32 = 5000;

/// Frames between two reports of the stream state.
pub const RUNTIME_LOG_EVERY: u32 = 800;

/// Timer reload value while edges are captured: the counter never wraps
/// within a reply.
pub const RX_ARR: u32 = 0xFFFF_FFFF;

/// One motor's telemetry result.
#[derive(Debug, Clone, Copy, PartialEq, Eq, Structural)]
pub enum TelemetryResult {
    Erpm { period_us: u32 },
    NoEdge,
    InvalidGcr,
    InvalidCrc,
}

// ---- Listening time ----

/// Why a listening time was refused.
#[derive(Debug, Clone, Copy, PartialEq, Eq, Structural)]
pub enum DeadtimeError {
    /// Not a decimal number.
    NotDecimal,
    /// Larger than 64 bits.
    TooLarge,
    /// Zero.
    Zero,
}

/// The number a string spells, or the first thing wrong with it.
pub open spec fn deadtime_number(s: Seq<u8>) -> Result<int, DeadtimeError>
    decreases s.len(),
{
    if s.len() == 0 {
        Ok(0)
    } else {
        match deadtime_number(s.drop_last()) {
            Err(e) => Err(e),
            Ok(v) => if !(48 <= s.last() <= 57) {
                Err(DeadtimeError::NotDecimal)
            } else if 10 * v + s.last() - 48 > u64::MAX {
                Err(DeadtimeError::TooLarge)
            } else {
                Ok(10 * v + s.last() - 48)
            },
        }
    }
}

/// The listening time a build-time override asks for.
pub open spec fn deadtime_of(given: Option<Seq<u8>>) -> Result<int, DeadtimeError> {
    match given {
        None => Ok(DEFAULT_DEADTIME_US as int),
        Some(s) => {
            let t = text::trim_bytes(s, false);
            if t.len() == 0 {
                Ok(DEFAULT_DEADTIME_US as int)
            } else {
                match deadtime_number(t) {
                    Err(e) => Err(e),
                    Ok(v) => if v == 0 {
                        Err(DeadtimeError::Zero)
                    } else {
                        Ok(v)
                    },
                }
            }
        },
    }
}

proof fn lemma_deadtime_error_is_final(s: Seq<u8>, k: int)
    requires
        0 <= k <= s.len(),
    ensures
        deadtime_number(s.take(k)) is Err ==> deadtime_number(s) == deadtime_number(s.take(k)),
    decreases s.len(),
{
    if k == s.len() {
        assert(s.take(k) =~= s);
    } else {
        assert(s.drop_last().take(k) =~= s.take(k));
        lemma_deadtime_error_is_final(s.drop_last(), k);
    }
}

fn read_deadtime(t: &[u8]) -> (v: Result<u64, DeadtimeError>)
    ensures
        v matches Ok(n) ==> deadtime_number(t@) == Ok::<int, DeadtimeError>(n as int),
        v matches Err(e) ==> deadtime_number(t@) == Err::<int, DeadtimeError>(e),
{
    let mut v: u64 = 0;
    let mut i: usize = 0;
    assert(t@.take(0) =~= Seq::empty());
    while i < t.len()
        invariant
            i <= t@.len(),
            deadtime_number(t@.take(i as int)) == Ok::<int, DeadtimeError>(v as int),
        decreases t.len() - i,
    {
        proof {
            assert(t@.take(i + 1).drop_last() =~= t@.take(i as int));
            lemma_deadtime_error_is_final(t@, i + 1);
        }
        if t[i] < 48 || t[i] > 57 {
            return Err(DeadtimeError::NotDecimal);
        }
        let d: u64 = (t[i] - 48) as u64;
        if v > (u64::MAX - d) / 10 {
            return Err(DeadtimeError::TooLarge);
        }
        v = v * 10 + d;
        i += 1;
    }
    assert(t@.take(t@.len() as int) =~= t@);
    Ok(v)
}

/// Resolves the listening time. Unset or blank keeps the default; anything
/// that is not a positive number is an error rather than a silent default.
pub fn parse_deadtime_us(given: Option<&str>) -> (v: Result<u64, DeadtimeError>)
    ensures
        v matches Ok(n) ==> deadtime_of(text::text_bytes(given)) == Ok::<int, DeadtimeError>(
            n as int,
        ),
        v matches Err(e) ==> deadtime_of(text::text_bytes(given)) == Err::<int, DeadtimeError>(e),
        v matches Ok(n) ==> n > 0,
{
    let b: &[u8] = match given {
        None => return Ok(DEFAULT_DEADTIME_US),
        Some(t) => t.as_bytes(),
    };
    let (i, j): (usize, usize) = text::trimmed(b, false);
    if i == j {
        return Ok(DEFAULT_DEADTIME_US);
    }
    match read_deadtime(vstd::slice::slice_subrange(b, i, j)) {
        Err(e) => Err(e),
        Ok(v) => if v == 0 {
            Err(DeadtimeError::Zero)
        } else {
            Ok(v)
        },
    }
}

// ---- Transmit cells ----

/// Whether a buffer holds the cells of a frame.
pub open spec fn holds_cells(buf: Seq<u32>, raw: u16) -> bool {
    &&& buf.len() == STEPS_PER_FRAME
    &&& forall|i: int|
        #![trigger buf[i]]
        0 <= i < 16 ==> buf[i] == (if dshot_frame::bit_set(raw, (15 - i) as u16) {
            MOTOR_BIT_1
        } else {
            MOTOR_BIT_0
        })
    &&& buf[16] == 0
    &&& buf[17] == 0
}

/// Fills one motor's transmit buffer.
pub fn fill_buffer(buf: &mut [u32; STEPS_PER_FRAME], frame: &DshotFrame)
    ensures
        holds_cells(final(buf)@, frame.raw),
{
    let bits: [bool; 16] = frame.bits_msb_first();
    let mut i: usize = 0;
    while i < 16
        invariant
            i <= 16,
            forall|k: int|
                0 <= k < 16 ==> bits@[k] == dshot_frame::bit_set(frame.raw, (15 - k) as u16),
            forall|k: int|
                #![trigger buf@[k]]
                0 <= k < i ==> buf@[k] == (if dshot_frame::bit_set(frame.raw, (15 - k) as u16) {
                    MOTOR_BIT_1
                } else {
                    MOTOR_BIT_0
                }),
        decreases 16 - i,
    {
        buf[i] = if bits[i] {
            MOTOR_BIT_1
        } else {
            MOTOR_BIT_0
        };
        i += 1;
    }
    buf[16] = 0;
    buf[17] = 0;
}

// ---- Telemetry from edge timestamps ----

/// Ticks from one timestamp to the next on a free-running 32-bit counter.
pub open spec fn interval(from: u32, to: u32) -> int {
    (to - from) % 0x1_0000_0000
}

/// Bit times in an interval, rounded to nearest.
pub open spec fn interval_bit_times(ticks: int) -> int {
    (ticks + 8) / 16
}

/// The bits spelled by the first `n` timestamps, or `None` when an interval is
/// too short to be a bit or the bits overflow a reply.
pub open spec fn edge_bits(stamps: Seq<u32>, n: nat) -> Option<Seq<bool>>
    decreases n,
{
    if n <= 1 {
        Some(Seq::empty())
    } else {
        match edge_bits(stamps, (n - 1) as nat) {
            None => None,
            Some(bits) => {
                let len = interval_bit_times(interval(stamps[n - 2], stamps[n - 1]));
                if len == 0 || bits.len() + len > 21 {
                    None
                } else {
                    Some(bits + dshot_bb_decode::run_bits(len as nat))
                }
            },
        }
    }
}

/// The same report in this module's terms.
pub open spec fn result_of(t: BbTelemetry) -> TelemetryResult {
    match t {
        BbTelemetry::Erpm { period_us } => TelemetryResult::Erpm { period_us },
        BbTelemetry::NoSignal => TelemetryResult::NoEdge,
        BbTelemetry::InvalidGcr => TelemetryResult::InvalidGcr,
        BbTelemetry::InvalidCrc => TelemetryResult::InvalidCrc,
    }
}

/// What the first `edges` timestamps report.
pub open spec fn edges_content(stamps: Seq<u32>, edges: nat) -> TelemetryResult {
    if edges < MIN_GCR_EDGES {
        TelemetryResult::NoEdge
    } else {
        match edge_bits(stamps, edges) {
            None => TelemetryResult::InvalidGcr,
            Some(bits) => result_of(
                dshot_bb_decode::word_content(
                    dshot_bb_decode::quintet_word(
                        dshot_bb_decode::bits_value(dshot_bb_decode::padded(bits)) as u32,
                    ) as u16,
                ),
            ),
        }
    }
}

proof fn lemma_edge_rejection_is_final(stamps: Seq<u32>, m: nat, n: nat)
    requires
        m <= n,
        edge_bits(stamps, m) is None,
    ensures
        edge_bits(stamps, n) is None,
    decreases n,
{
    if m < n {
        lemma_edge_rejection_is_final(stamps, m, (n - 1) as nat);
    }
}

proof fn lemma_wrapping_interval(from: u32, to: u32)
    ensures
        interval(from, to) == (if to >= from { to - from } else { to - from + 0x1_0000_0000 }),
{
}

/// Decodes a captured edge-timestamp buffer into an eRPM period.
pub fn decode_telemetry(buf: &[u32; RX_BUF_LEN], edges: usize) -> (result: TelemetryResult)
    requires
        edges <= RX_BUF_LEN,
    ensures
        result == edges_content(buf@, edges as nat),
{
    if edges < MIN_GCR_EDGES {
        return TelemetryResult::NoEdge;
    }
    let mut value: u32 = 0;
    let mut bits: u32 = 0;
    let mut i: usize = 1;
    let ghost mut coded: Seq<bool> = Seq::empty();
    while i < edges
        invariant
            1 <= i <= edges,
            MIN_GCR_EDGES <= edges <= RX_BUF_LEN,
            edge_bits(buf@, i as nat) == Some(coded),
            bits == coded.len(),
            bits <= 21,
            value == dshot_bb_decode::bits_value(coded),
        decreases edges - i,
    {
        let diff: u32 = buf[i].wrapping_sub(buf[i - 1]);
        proof {
            lemma_wrapping_interval(buf@[i - 1], buf@[i as int]);
        }
        assert(diff == interval(buf@[i - 1], buf@[i as int]));
        let len: u64 = (diff as u64 + (RX_BIT_TICKS / 2) as u64) / (RX_BIT_TICKS as u64);
        if len == 0 || len > (21 - bits) as u64 {
            proof {
                lemma_edge_rejection_is_final(buf@, (i + 1) as nat, edges as nat);
            }
            return TelemetryResult::InvalidGcr;
        }
        value = dshot_bb_decode::append_run(value, len as u32, Ghost(coded));
        bits += len as u32;
        proof {
            coded = coded + dshot_bb_decode::run_bits(len as nat);
        }
        i += 1;
    }
    if bits < 21 {
        value = dshot_bb_decode::append_run(value, 21 - bits, Ghost(coded));
    } else {
        assert(dshot_bb_decode::padded(coded) =~= coded);
    }
    let word: u16 = dshot_bb_decode::gcr_quintets_to_word(value);
    match dshot_bb_decode::decode_word(word) {
        BbTelemetry::Erpm { period_us } => TelemetryResult::Erpm { period_us },
        BbTelemetry::NoSignal => TelemetryResult::NoEdge,
        BbTelemetry::InvalidGcr => TelemetryResult::InvalidGcr,
        BbTelemetry::InvalidCrc => TelemetryResult::InvalidCrc,
    }
}

// ---- One frame on all four motors ----

/// What precedes a transmission.
#[derive(Debug, Clone, Copy, PartialEq, Eq, Structural)]
pub struct FrameStart {
    /// The channels are inputs and must become outputs first.
    pub switch_to_output: bool,
    /// The idle level is probed across that switch.
    pub probe_idle: bool,
    /// The encoder state is dumped.
    pub dump: bool,
}

/// What follows a transmission.
#[derive(Debug, Clone, Copy, PartialEq, Eq, Structural)]
pub struct ReceivePlan {
    /// The channels become inputs and edges are captured.
    pub listen: bool,
    /// Edges of our own are driven during the capture.
    pub selftest: bool,
}

/// State of the four-motor output.
pub struct DshotQuad {
    pub bidir: bool,
    pub channels_in_input: bool,
    pub frame_count: u32,
}

/// What precedes a transmission, given whether the channels are inputs and how many
/// frames were sent.
pub open spec fn start_of(channels_in_input: bool, frame_count: u32) -> FrameStart {
    FrameStart {
        switch_to_output: channels_in_input,
        probe_idle: channels_in_input && frame_count == PROBE_FRAME + 1,
        dump: frame_count == 1 || frame_count % DUMP_EVERY == 0,
    }
}

/// What follows a transmission.
pub open spec fn plan_of(bidir: bool, frame_count: u32) -> ReceivePlan {
    ReceivePlan { listen: bidir, selftest: bidir && frame_count == RX_SELFTEST_FRAME }
}

/// Whether the stream state is reported after so many frames.
pub open spec fn is_log_due(frame_count: u32) -> bool {
    frame_count % RUNTIME_LOG_EVERY == 0
}

impl DshotQuad {
    /// Only a bidirectional output ever leaves its channels as inputs.
    pub open spec fn wf(&self) -> bool {
        self.channels_in_input ==> self.bidir
    }

    pub fn new(bidir: bool) -> (quad: Self)
        ensures
            quad.wf(),
            quad.bidir == bidir,
            !quad.channels_in_input,
            quad.frame_count == 0,
    {
        DshotQuad { bidir, channels_in_input: false, frame_count: 0 }
    }

    /// Begins a frame: the channels are outputs from here on.
    pub fn begin(&mut self) -> (start: FrameStart)
        requires
            old(self).wf(),
        ensures
            final(self).wf(),
            final(self).bidir == old(self).bidir,
            final(self).frame_count == old(self).frame_count,
            !final(self).channels_in_input,
            start.switch_to_output == old(self).channels_in_input,
            start.probe_idle == (old(self).channels_in_input && old(self).frame_count == PROBE_FRAME
                + 1),
            start.dump == (old(self).frame_count == 1 || old(self).frame_count % DUMP_EVERY == 0),
            start == start_of(old(self).channels_in_input, old(self).frame_count),
    {
        let start = FrameStart {
            switch_to_output: self.channels_in_input,
            probe_idle: self.channels_in_input && self.frame_count == PROBE_FRAME + 1,
            dump: self.frame_count == 1 || self.frame_count % DUMP_EVERY == 0,
        };
        self.channels_in_input = false;
        start
    }

    /// What to do once the frame is on the wire.
    pub fn receive_plan(&self) -> (plan: ReceivePlan)
        ensures
            plan.listen == self.bidir,
            plan.selftest == (self.bidir && self.frame_count == RX_SELFTEST_FRAME),
            plan == plan_of(self.bidir, self.frame_count),
    {
        ReceivePlan {
            listen: self.bidir,
            selftest: self.bidir && self.frame_count == RX_SELFTEST_FRAME,
        }
    }

    /// Ends a frame: decodes the four captures, given how many transfers each
    /// stream had left, counts the frame, and says whether the stream state is
    /// to be reported. After a bidirectional frame the channels stay inputs.
    pub fn finish(
        &mut self,
        left: [u32; 4],
        m1: &[u32; RX_BUF_LEN],
        m2: &[u32; RX_BUF_LEN],
        m3: &[u32; RX_BUF_LEN],
        m4: &[u32; RX_BUF_LEN],
    ) -> (out: ([TelemetryResult; 4], bool))
        requires
            old(self).wf(),
        ensures
            final(self).wf(),
            final(self).bidir == old(self).bidir,
            final(self).channels_in_input == (old(self).bidir || old(self).channels_in_input),
            final(self).frame_count == (if old(self).frame_count == u32::MAX {
                0
            } else {
                old(self).frame_count + 1
            }),
            out.1 == (final(self).frame_count % RUNTIME_LOG_EVERY == 0),
            out.1 == is_log_due(final(self).frame_count),
            !old(self).bidir ==> out.0@ == Seq::new(4, |i: int| TelemetryResult::NoEdge),
            old(self).bidir ==> {
                &&& out.0@[0] == edges_content(m1@, edge_count(left@[0]))
                &&& out.0@[1] == edges_content(m2@, edge_count(left@[1]))
                &&& out.0@[2] == edges_content(m3@, edge_count(left@[2]))
                &&& out.0@[3] == edges_content(m4@, edge_count(left@[3]))
            },
    {
        let mut out: [TelemetryResult; 4] = [TelemetryResult::NoEdge; 4];
        if self.bidir {
            out[0] = decode_telemetry(m1, edges_captured(left[0]));
            out[1] = decode_telemetry(m2, edges_captured(left[1]));
            out[2] = decode_telemetry(m3, edges_captured(left[2]));
            out[3] = decode_telemetry(m4, edges_captured(left[3]));
            self.channels_in_input = true;
        } else {
            assert(out@ =~= Seq::new(4, |i: int| TelemetryResult::NoEdge));
        }
        self.frame_count = self.frame_count.wrapping_add(1);
        let report: bool = self.frame_count % RUNTIME_LOG_EVERY == 0;
        (out, report)
    }
}

/// Edges captured when a stream has `left` transfers to go.
pub open spec fn edge_count(left: u32) -> nat {
    if left >= RX_BUF_LEN {
        0
    } else {
        (RX_BUF_LEN - left) as nat
    }
}

/// Edges captured when a stream has `left` transfers to go.
pub fn edges_captured(left: u32) -> (edges: usize)
    ensures
        edges == edge_count(left),
        edges <= RX_BUF_LEN,
{
    if left >= RX_BUF_LEN as u32 {
        0
    } else {
        RX_BUF_LEN - left as usize
    }
}

// ---- Direction switches ----

/// One register operation of a direction switch, on all four channels.
#[derive(Debug, Clone, Copy, PartialEq, Eq, Structural)]
pub enum TimerStep {
    /// Drive the pads high as plain GPIO.
    GuardPads,
    /// Give the pads back to the timer.
    ReleasePads,
    /// Disable the channels.
    DisableChannels,
    /// Enable the channels.
    EnableChannels,
    /// Capture mode, filter on, every edge.
    CaptureMode,
    /// PWM mode with preload.
    OutputMode,
    /// Capture both edges.
    BothEdges,
    /// Transmit polarity.
    TransmitPolarity,
    /// Compare preload off: writes reach the active register.
    PreloadOff,
    /// Compare preload on: writes reach the preload register.
    PreloadOn,
    /// Zero the compare registers.
    ClearCompare,
    /// Reload value of one cell.
    CellPeriod,
    /// Update event: reset the counter, reload the shadow registers.
    Update,
}

/// The steps that turn capturing channels into outputs. No GPIO is touched.
pub open spec fn output_switch() -> Seq<TimerStep> {
    seq![
        TimerStep::DisableChannels,
        TimerStep::OutputMode,
        TimerStep::TransmitPolarity,
        TimerStep::PreloadOff,
        TimerStep::ClearCompare,
        TimerStep::PreloadOn,
        TimerStep::ClearCompare,
        TimerStep::Update,
        TimerStep::EnableChannels,
        TimerStep::CellPeriod,
        TimerStep::Update,
    ]
}

/// The steps that turn outputs into capturing channels.
pub open spec fn input_switch() -> Seq<TimerStep> {
    seq![
        TimerStep::GuardPads,
        TimerStep::DisableChannels,
        TimerStep::CaptureMode,
        TimerStep::BothEdges,
        TimerStep::EnableChannels,
        TimerStep::ReleasePads,
    ]
}

/// The steps that turn capturing channels into outputs, in order.
pub fn switch_channels_to_output_compare() -> (steps: Vec<TimerStep>)
    ensures
        steps@ == output_switch(),
{
    let mut steps: Vec<TimerStep> = Vec::new();
    steps.push(TimerStep::DisableChannels);
    steps.push(TimerStep::OutputMode);
    steps.push(TimerStep::TransmitPolarity);
    // Which of the two registers behind the compare address captured values
    // ended up in cannot be observed, so both are cleared.
    steps.push(TimerStep::PreloadOff);
    steps.push(TimerStep::ClearCompare);
    steps.push(TimerStep::PreloadOn);
    steps.push(TimerStep::ClearCompare);
    steps.push(TimerStep::Update);
    steps.push(TimerStep::EnableChannels);
    // The line is only released to idle by an update with the channels enabled,
    // and that update also takes over the reload value.
    steps.push(TimerStep::CellPeriod);
    steps.push(TimerStep::Update);
    steps
}

/// The steps that turn outputs into capturing channels, in order.
pub fn switch_channels_to_input_capture() -> (steps: Vec<TimerStep>)
    ensures
        steps@ == input_switch(),
{
    let mut steps: Vec<TimerStep> = Vec::new();
    steps.push(TimerStep::GuardPads);
    steps.push(TimerStep::DisableChannels);
    steps.push(TimerStep::CaptureMode);
    steps.push(TimerStep::BothEdges);
    steps.push(TimerStep::EnableChannels);
    steps.push(TimerStep::ReleasePads);
    steps
}

/// What a sequence of steps has done so far to the parts of the timer that
/// decide whether a stale captured value can reach the line.
pub struct SwitchState {
    pub enabled: bool,
    pub preload: bool,
    pub active_clear: bool,
    pub preload_clear: bool,
    pub guarded: bool,
}

/// The effect of one step.
pub open spec fn after_step(s: SwitchState, step: TimerStep) -> SwitchState {
    match step {
        TimerStep::DisableChannels => SwitchState { enabled: false, ..s },
        TimerStep::EnableChannels => SwitchState { enabled: true, ..s },
        TimerStep::PreloadOff => SwitchState { preload: false, ..s },
        TimerStep::PreloadOn | TimerStep::OutputMode => SwitchState { preload: true, ..s },
        TimerStep::ClearCompare => if s.preload {
            SwitchState { preload_clear: true, ..s }
        } else {
            SwitchState { active_clear: true, ..s }
        },
        TimerStep::Update => if s.preload {
            SwitchState { active_clear: s.preload_clear, ..s }
        } else {
            s
        },
        TimerStep::GuardPads => SwitchState { guarded: true, ..s },
        TimerStep::ReleasePads => SwitchState { guarded: false, ..s },
        _ => s,
    }
}

/// The state after the first `n` of some steps.
pub open spec fn after_steps(s: SwitchState, steps: Seq<TimerStep>, n: nat) -> SwitchState
    decreases n,
{
    if n == 0 {
        s
    } else {
        after_step(after_steps(s, steps, (n - 1) as nat), steps[n - 1])
    }
}

/// Switching to output never enables a channel while a captured value is left
/// in either compare register, whatever state it starts from.
pub proof fn law_no_stale_compare_is_driven(s: SwitchState, n: nat)
    requires
        1 <= n <= output_switch().len(),
    ensures
        ({
            let t = after_steps(s, output_switch(), n);
            t.enabled ==> t.active_clear && t.preload_clear
        }),
{
    let steps = output_switch();
    let t0 = after_steps(s, steps, 0);
    let t1 = after_steps(s, steps, 1);
    assert(t1 == after_step(t0, steps[0]));
    let t2 = after_steps(s, steps, 2);
    assert(t2 == after_step(t1, steps[1]));
    let t3 = after_steps(s, steps, 3);
    assert(t3 == after_step(t2, steps[2]));
    let t4 = after_steps(s, steps, 4);
    assert(t4 == after_step(t3, steps[3]));
    let t5 = after_steps(s, steps, 5);
    assert(t5 == after_step(t4, steps[4]));
    let t6 = after_steps(s, steps, 6);
    assert(t6 == after_step(t5, steps[5]));
    let t7 = after_steps(s, steps, 7);
    assert(t7 == after_step(t6, steps[6]));
    let t8 = after_steps(s, steps, 8);
    assert(t8 == after_step(t7, steps[7]));
    let t9 = after_steps(s, steps, 9);
    assert(t9 == after_step(t8, steps[8]));
    let t10 = after_steps(s, steps, 10);
    assert(t10 == after_step(t9, steps[9]));
    let t11 = after_steps(s, steps, 11);
    assert(t11 == after_step(t10, steps[10]));
}

/// Switching to input holds the pads whenever a channel's mode or enable
/// changes, and lets go of them only at the end.
pub proof fn law_pads_are_guarded_while_rewired(s: SwitchState, n: nat)
    requires
        1 <= n < input_switch().len(),
    ensures
        after_steps(s, input_switch(), n).guarded,
        !after_steps(s, input_switch(), input_switch().len()).guarded,
{
    reveal_with_fuel(after_steps, 7);
}

// ---- A reply from the edges of an ESC ----

/// Where the `1`s of some bits are: each is an edge on the line.
pub open spec fn edge_places(bits: Seq<bool>) -> Seq<int>
    decreases bits.len(),
{
    if bits.len() == 0 {
        Seq::empty()
    } else if bits.last() {
        edge_places(bits.drop_last()).push(bits.len() - 1)
    } else {
        edge_places(bits.drop_last())
    }
}

/// Whether edge `k` comes as long after the one before as its place does, 16 ticks to a
/// place, to within eight ticks.
pub open spec fn is_in_time(stamps: Seq<u32>, places: Seq<int>, k: int) -> bool {
    16 * (places[k] - places[k - 1]) - 8 <= (stamps[k] - stamps[k - 1]) % 0x1_0000_0000 < 16 * (
    places[k] - places[k - 1]) + 8
}

/// Whether timestamps are those of edges at some places.
pub open spec fn are_edges_at(stamps: Seq<u32>, places: Seq<int>) -> bool {
    &&& places.len() <= stamps.len()
    &&& forall|k: int| 1 <= k < places.len() ==> #[trigger] is_in_time(stamps, places, k)
}

/// Whether the last `1` of some bits is at `q` and what comes before is spelled.
spec fn spelled_up_to(stamps: Seq<u32>, bits: Seq<bool>, n: nat, q: int) -> bool {
    &&& 0 <= q < bits.len()
    &&& bits[q]
    &&& forall|i: int| q < i < bits.len() ==> !bits[i]
    &&& edge_bits(stamps, n) == Some(bits.take(q))
}

proof fn lemma_next_edge(stamps: Seq<u32>, bits: Seq<bool>, n: nat, q: int)
    requires
        2 <= bits.len() <= 21,
        bits.last(),
        n >= 1,
        spelled_up_to(stamps, bits.drop_last(), n, q),
        16 * (bits.len() - 1 - q) - 8 <= (stamps[n as int] - stamps[n - 1]) % 0x1_0000_0000 < 16 * (
        bits.len() - 1 - q) + 8,
    ensures
        spelled_up_to(stamps, bits, n + 1, bits.len() - 1),
{
    let before = bits.drop_last();
    let at = bits.len() - 1;
    let ticks = interval(stamps[n as int - 1], stamps[n as int]);
    assert(interval_bit_times(ticks) == at - q);
    let run = dshot_bb_decode::run_bits((at - q) as nat);
    assert(before.take(q) + run =~= bits.take(at)) by {
        assert forall|i: int| 0 <= i < at implies (before.take(q) + run)[i] == bits.take(at)[i] by {
            if i >= q {
                assert(run[i - q] == (i == q));
                assert(before[i] == bits[i]);
            }
        }
    }
    assert(edge_bits(stamps, n + 1) == Some(before.take(q) + run));
}

proof fn lemma_edges_spell_bits(stamps: Seq<u32>, bits: Seq<bool>)
    requires
        1 <= bits.len() <= 21,
        bits[0],
        are_edges_at(stamps, edge_places(bits)),
    ensures
        edge_places(bits).len() >= 1,
        spelled_up_to(stamps, bits, edge_places(bits).len(), edge_places(bits).last()),
    decreases bits.len(),
{
    let places = edge_places(bits);
    let before = bits.drop_last();
    if bits.len() == 1 {
        assert(before =~= Seq::empty());
        assert(edge_places(before) =~= Seq::empty());
        assert(places =~= seq![0int]);
        assert(bits.take(0) =~= Seq::empty());
    } else {
        let prior = edge_places(before);
        assert forall|k: int| 1 <= k < prior.len() implies #[trigger] is_in_time(
            stamps,
            prior,
            k,
        ) by {
            assert(places[k] == prior[k] && places[k - 1] == prior[k - 1]);
            assert(is_in_time(stamps, places, k));
        }
        lemma_edges_spell_bits(stamps, before);
        let q = prior.last();
        if bits.last() {
            let n = prior.len();
            assert(places =~= prior.push(bits.len() - 1));
            assert(is_in_time(stamps, places, n as int));
            assert(places[n as int] == bits.len() - 1 && places[n - 1] == q);
            lemma_next_edge(stamps, bits, n, q);
        } else {
            assert(before.take(q) =~= bits.take(q));
            assert(bits[q] == before[q]);
            assert forall|i: int| q < i < bits.len() implies !bits[i] by {
                if i < before.len() {
                    assert(before[i] == bits[i]);
                }
            }
        }
    }
}

/// A period `m * 2^e` that an ESC sends is reported as exactly that from the times of
/// the edges: one for each `1` of the reply, 16 ticks to a bit, on a counter that may
/// wrap round meanwhile. The largest period stands for a motor at rest.
pub proof fn law_sent_period_is_reported(stamps: Seq<u32>, m: u16, e: u16, crc: u16)
    requires
        m < 512,
        e < 8,
        crc < 16,
        (2 * e + m / 256) as u16 ^ m / 16 % 16 ^ m % 16 ^ crc == 15,
        ({
            let places = edge_places(
                dshot_bb_decode::sent_bits(
                    (2 * e + m / 256) as u16,
                    m / 16 % 16,
                    m % 16,
                    crc,
                ),
            );
            places.len() >= 7 && are_edges_at(stamps, places)
        }),
    ensures
        ({
            let places = edge_places(
                dshot_bb_decode::sent_bits(
                    (2 * e + m / 256) as u16,
                    m / 16 % 16,
                    m % 16,
                    crc,
                ),
            );
            edges_content(stamps, places.len()) matches TelemetryResult::Erpm { period_us }
                && period_us == (if m == 511 && e == 7 {
                0
            } else {
                m * power2::pow2(e as nat)
            })
        }),
{
    let bits = dshot_bb_decode::sent_bits((2 * e + m / 256) as u16, m / 16 % 16, m % 16, crc);
    dshot_bb_decode::lemma_sent_period(m, e, crc);
    lemma_edges_spell_bits(stamps, bits);
    let q = edge_places(bits).last();
    assert(dshot_bb_decode::padded(bits.take(q)) =~= bits);
}

/// With fewer than seven edges there is no reply.
pub proof fn law_few_edges_are_no_reply(stamps: Seq<u32>, edges: nat)
    requires
        edges < 7,
    ensures
        edges_content(stamps, edges) == TelemetryResult::NoEdge,
{
}

/// A stream of 22 transfers has captured as many edges as it has no longer to go.
pub proof fn law_edges_and_transfers_left(left: u32)
    requires
        left <= 22,
    ensures
        edge_count(left) + left == 22,
{
}

/// The cells of a frame: 14 ticks of 20 for a binary digit that is one, 7 for a zero,
/// the one with the most weight first, and then none.
pub proof fn law_cells_spell_the_frame(buf: Seq<u32>, raw: u16, i: int)
    requires
        holds_cells(buf, raw),
        0 <= i < 18,
    ensures
        buf.len() == 18,
        i < 16 && raw as nat / power2::pow2((15 - i) as nat) % 2 == 1 ==> buf[i] == 14,
        i < 16 && raw as nat / power2::pow2((15 - i) as nat) % 2 == 0 ==> buf[i] == 7,
        i >= 16 ==> buf[i] == 0,
{
    if i < 16 {
        dshot_frame::law_bit_is_the_binary_digit(raw, (15 - i) as u16);
    }
}

/// The number that some digits write.
pub open spec fn decimal(digits: Seq<u8>) -> nat
    decreases digits.len(),
{
    if digits.len() == 0 {
        0
    } else {
        10 * decimal(digits.drop_last()) + digits.last() as nat
    }
}

/// A number that is written in decimal digits is read as that number; one beyond 64
/// bits is refused.
pub proof fn law_written_deadtime_is_read(digits: Seq<u8>)
    requires
        forall|i: int| 0 <= i < digits.len() ==> #[trigger] digits[i] < 10,
    ensures
        ({
            let read = deadtime_number(
                Seq::new(digits.len(), |i: int| (48 + digits[i]) as u8),
            );
            if decimal(digits) <= u64::MAX {
                read == Ok::<int, DeadtimeError>(decimal(digits) as int)
            } else {
                read == Err::<int, DeadtimeError>(DeadtimeError::TooLarge)
            }
        }),
    decreases digits.len(),
{
    let s = Seq::new(digits.len(), |i: int| (48 + digits[i]) as u8);
    if digits.len() > 0 {
        let before = digits.drop_last();
        assert forall|i: int| 0 <= i < before.len() implies #[trigger] before[i] < 10 by {
            assert(digits[i] < 10);
        }
        law_written_deadtime_is_read(before);
        assert(s.drop_last() =~= Seq::new(before.len(), |i: int| (48 + before[i]) as u8));
        assert(digits.last() < 10);
        assert(s.last() == 48 + digits.last());
    }
}

/// The listening time is the number given, between blanks; 80 where none is; zero is
/// refused, and so is anything that holds something else than digits.
pub proof fn law_listening_time(s: Seq<u8>)
    ensures
        deadtime_of(None) == Ok::<int, DeadtimeError>(80),
        text::trim_bytes(s, false).len() == 0 ==> deadtime_of(Some(s)) == Ok::<int, DeadtimeError>(
            80,
        ),
        deadtime_of(Some(s)) matches Ok(v) ==> v > 0,
        text::trim_bytes(s, false).len() > 0 && deadtime_number(text::trim_bytes(s, false))
            is Ok ==> deadtime_of(Some(s)) == (if deadtime_number(
            text::trim_bytes(s, false),
        )->Ok_0 == 0 {
            Err::<int, DeadtimeError>(DeadtimeError::Zero)
        } else {
            deadtime_number(text::trim_bytes(s, false))
        }),
{
    lemma_number_is_natural(text::trim_bytes(s, false));
}

proof fn lemma_number_is_natural(s: Seq<u8>)
    ensures
        deadtime_number(s) matches Ok(v) ==> 0 <= v <= u64::MAX,
    decreases s.len(),
{
    if s.len() > 0 {
        lemma_number_is_natural(s.drop_last());
    }
}

/// Text with anything but digits in it is refused.
pub proof fn law_only_digits_are_read(s: Seq<u8>, i: int)
    requires
        0 <= i < s.len(),
        !(48 <= s[i] <= 57),
    ensures
        deadtime_number(s) is Err,
    decreases s.len(),
{
    if i < s.len() - 1 {
        law_only_digits_are_read(s.drop_last(), i);
    }
}

/// Channels that listened become outputs before every frame; the idle level is probed
/// once, on the way out of listening to the hundredth frame, and the state is dumped at
/// the second frame and at every five-thousandth.
pub proof fn law_before_a_frame(inputs: bool, frame_count: u32)
    ensures
        start_of(inputs, frame_count).switch_to_output == inputs,
        start_of(inputs, frame_count).probe_idle <==> inputs && frame_count == 101,
        start_of(inputs, 1).dump,
        frame_count != 1 ==> (start_of(inputs, frame_count).dump <==> frame_count % 5000 == 0),
{
}

/// A reply is listened for exactly in bidirectional mode; frame 200 is tested against
/// edges of our own, and every 800 frames are reported.
pub proof fn law_after_a_frame(bidir: bool, frame_count: u32)
    ensures
        plan_of(bidir, frame_count).listen == bidir,
        plan_of(bidir, frame_count).selftest <==> bidir && frame_count == 200,
        is_log_due(frame_count) <==> frame_count % 800 == 0,
{
}

/// The steps from input to output, and those from output to input.
pub proof fn law_direction_switches(i: int)
    ensures
        output_switch().len() == 11 && input_switch().len() == 6,
        output_switch()[0] is DisableChannels && output_switch()[8] is EnableChannels,
        0 <= i < 11 && output_switch()[i] is EnableChannels ==> i == 8,
        0 <= i < 11 && output_switch()[i] is Update ==> i == 7 || i == 10,
        0 <= i < 11 && output_switch()[i] is CellPeriod ==> i == 9,
        0 <= i < 11 ==> !(output_switch()[i] is GuardPads) && !(output_switch()[i] is ReleasePads)
            && !(output_switch()[i] is CaptureMode) && !(output_switch()[i] is BothEdges),
        output_switch()[1] is OutputMode && output_switch()[2] is TransmitPolarity,
        input_switch()[1] is DisableChannels && input_switch()[2] is CaptureMode
            && input_switch()[3] is BothEdges && input_switch()[4] is EnableChannels,
{
}

/// Intervals too short for a bit, of less than half of one, are refused wherever they
/// are, and so are those that a whole reply does not have room for.
pub proof fn law_odd_intervals_are_refused(stamps: Seq<u32>, edges: nat, k: int)
    requires
        7 <= edges <= stamps.len(),
        1 <= k < edges,
        ({
            let ticks = (stamps[k] - stamps[k - 1]) % 0x1_0000_0000;
            ticks < 8 || ticks >= 16 * 21 + 8
        }),
    ensures
        edges_content(stamps, edges) == TelemetryResult::InvalidGcr,
{
    lemma_bits_fit_a_reply(stamps, k as nat);
    assert(edge_bits(stamps, (k + 1) as nat) is None) by {
        let ticks = interval(stamps[k - 1], stamps[k]);
        let n = interval_bit_times(ticks);
        assert(n == 0 || n > 21);
    }
    lemma_edge_rejection_is_final(stamps, (k + 1) as nat, edges);
}

/// Bits that are read fit a reply of 21, and are as many as the intervals are long.
pub proof fn lemma_bits_fit_a_reply(stamps: Seq<u32>, n: nat)
    ensures
        edge_bits(stamps, n) matches Some(bits) ==> 0 <= bits.len() <= 21,
    decreases n,
{
    if n > 1 {
        lemma_bits_fit_a_reply(stamps, (n - 1) as nat);
    }
}

/// What an edge adds: as many bits as bit times have passed, to the nearest, or a refusal
/// when they would be more than 21 in all.
pub proof fn law_edges_add_bits(stamps: Seq<u32>, n: nat, ticks: int)
    requires
        n >= 1,
        edge_bits(stamps, n) is Some,
        ticks == (stamps[n as int] - stamps[n - 1]) % 0x1_0000_0000,
        ticks >= 8,
    ensures
        edge_bits(stamps, n)->0.len() + (ticks + 8) / 16 <= 21 ==> edge_bits(stamps, n + 1)
            is Some && edge_bits(stamps, n + 1)->0.len() == edge_bits(stamps, n)->0.len() + (ticks
            + 8) / 16,
        edge_bits(stamps, n)->0.len() + (ticks + 8) / 16 > 21 ==> edge_bits(stamps, n + 1) is None,
{
    assert(interval(stamps[n - 1], stamps[n as int]) == ticks);
    assert(interval_bit_times(ticks) >= 1);
}

} // verus!
