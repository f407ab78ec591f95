//! Bidirectional DShot telemetry decode from oversampled GPIO samples.
//!
//! The ESC replies at 5/4 the DShot bit rate with 21 GCR bits, line-coded so
//! that a transition represents a 1. The port is sampled at `OVERSAMPLE`
//! times that bit rate, so a run of `n` samples at one level lasts
//! `n / OVERSAMPLE` bit times, rounded to nearest. Each run of `n` bit times
//! stands for a `1` followed by `n - 1` zeros.
//!
//! The line idles high and the reply starts at the first falling edge. The
//! trailing idle carries no edge, so the last run is padded out to 21 bits.
//! The 20 lowest bits are four GCR symbols: 12 bits of data and a CRC nibble,
//! the complement of the data's nibble XOR.
//!
//! Every payload is read as an eRPM period; extended telemetry fields are not
//! told apart here.

use crate::drivers::dshot_frame;
use crate::drivers::dshot_telemetry;
use crate::text;
use vstd::arithmetic::power2;
use vstd::bits;
use vstd::prelude::*;
use vstd::string::*;

verus! {

/// Samples per GCR bit.
pub const OVERSAMPLE: usize = 3;

/// Samples captured per response window unless overridden.
pub const RX_BUF_LEN: usize = 140;

/// GCR bits in one reply.
pub const GCR_BITS: usize = 21;

/// Smallest window an override may ask for.
pub const MIN_RX_SAMPLES: usize = 64;

/// Result of decoding one motor's reply.
#[derive(Debug, Clone, Copy, PartialEq, Eq, Structural)]
pub enum BbTelemetry {
    Erpm { period_us: u32 },
    NoSignal,
    InvalidGcr,
    InvalidCrc,
}

// ---- Model ----

/// The levels one pin shows over a port-wide sample buffer; `true` is high.
pub open spec fn levels(samples: Seq<u16>, pin: u8) -> Seq<bool> {
    Seq::new(samples.len(), |i: int| dshot_frame::bit_set(samples[i], pin as u16))
}

/// The samples from the first low one on.
pub open spec fn from_first_low(line: Seq<bool>) -> Seq<bool>
    decreases line.len(),
{
    if line.len() == 0 || !line[0] {
        line
    } else {
        from_first_low(line.skip(1))
    }
}

/// Lengths of the maximal runs of one level, in order.
pub open spec fn runs(line: Seq<bool>) -> Seq<nat>
    decreases line.len(),
{
    if line.len() == 0 {
        Seq::empty()
    } else if line.len() > 1 && line.last() == line[line.len() - 2] {
        let r = runs(line.drop_last());
        r.drop_last().push(r.last() + 1)
    } else {
        runs(line.drop_last()).push(1)
    }
}

/// Bit times covered by a run of `run_len` samples, rounded to nearest.
pub open spec fn run_bit_times(run_len: nat) -> nat {
    (run_len + OVERSAMPLE as nat / 2) / (OVERSAMPLE as nat)
}

/// A transition and `n - 1` bit times without one.
pub open spec fn run_bits(n: nat) -> Seq<bool> {
    Seq::new(n, |i: int| i == 0)
}

/// The bits that finished runs stand for, or `None` when a run is too short to
/// be a bit or the bits overflow a reply.
pub open spec fn gcr_bits(finished: Seq<nat>) -> Option<Seq<bool>>
    decreases finished.len(),
{
    if finished.len() == 0 {
        Some(Seq::empty())
    } else {
        match gcr_bits(finished.drop_last()) {
            None => None,
            Some(bits) => {
                let n = run_bit_times(finished.last());
                if n == 0 || bits.len() + n > GCR_BITS {
                    None
                } else {
                    Some(bits + run_bits(n))
                }
            },
        }
    }
}

/// The trailing run takes up whatever is left of the 21 bits.
pub open spec fn padded(bits: Seq<bool>) -> Seq<bool> {
    bits + run_bits((GCR_BITS - bits.len()) as nat)
}

/// The number a bit string spells, most significant bit first.
pub open spec fn bits_value(bits: Seq<bool>) -> nat
    decreases bits.len(),
{
    if bits.len() == 0 {
        0
    } else {
        2 * bits_value(bits.drop_last()) + if bits.last() { 1nat } else { 0nat }
    }
}

/// The nibble a quintet stands for; quintets outside the alphabet read as 0.
pub open spec fn quintet_nibble(symbol: int) -> int {
    match dshot_telemetry::gcr_nibble(symbol) {
        Some(n) => n,
        None => 0,
    }
}

/// The 16-bit word spelled by the four quintets below the sync bit.
pub open spec fn quintet_word(value: u32) -> int {
    quintet_nibble(value as int / 32768 % 32) * 4096 + quintet_nibble(value as int / 1024 % 32) * 256
        + quintet_nibble(value as int / 32 % 32) * 16 + quintet_nibble(value as int % 32)
}

/// The period a 12-bit payload reports; all ones means not spinning.
pub open spec fn payload_period(payload: u16) -> int {
    if payload == 0x0FFF {
        0
    } else {
        (payload % 512) * power2::pow2((payload / 512) as nat)
    }
}

/// What a decoded 16-bit word reports.
pub open spec fn word_content(word: u16) -> BbTelemetry {
    if word % 16 != dshot_telemetry::telemetry_checksum(word / 16) {
        BbTelemetry::InvalidCrc
    } else {
        BbTelemetry::Erpm { period_us: payload_period(word / 16) as u32 }
    }
}

/// What the levels of one pin report.
pub open spec fn line_content(line: Seq<bool>) -> BbTelemetry {
    let reply = from_first_low(line);
    if reply.len() == 0 {
        BbTelemetry::NoSignal
    } else {
        match gcr_bits(runs(reply).drop_last()) {
            None => BbTelemetry::InvalidGcr,
            Some(bits) => word_content(quintet_word(bits_value(padded(bits)) as u32) as u16),
        }
    }
}

// ---- Lemmas ----

proof fn lemma_runs_nonempty(line: Seq<bool>)
    requires
        line.len() > 0,
    ensures
        runs(line).len() > 0,
        runs(line).last() >= 1,
    decreases line.len(),
{
    if line.len() > 1 {
        lemma_runs_nonempty(line.drop_last());
    }
}

/// A single sample is one run.
pub proof fn lemma_single_run(line: Seq<bool>)
    requires
        line.len() == 1,
    ensures
        runs(line) == seq![1nat],
{
    assert(line.drop_last() =~= Seq::empty());
    assert(runs(line.drop_last()) =~= Seq::empty());
}

/// The finished runs of a prefix are a prefix of the finished runs.
proof fn lemma_finished_runs_grow(line: Seq<bool>, k: int)
    requires
        0 < k <= line.len(),
    ensures
        runs(line.take(k)).drop_last().is_prefix_of(runs(line).drop_last()),
    decreases line.len(),
{
    if k == line.len() {
        assert(line.take(k) =~= line);
    } else {
        let shorter = line.drop_last();
        assert(shorter.take(k) =~= line.take(k));
        lemma_finished_runs_grow(shorter, k);
        lemma_runs_nonempty(shorter);
        let r = runs(shorter);
        if line.last() == line[line.len() - 2] {
            assert(runs(line).drop_last() =~= r.drop_last());
        } else {
            assert(runs(line).drop_last() =~= r);
        }
    }
}

/// Once finished runs are rejected, no continuation is accepted.
proof fn lemma_rejection_is_final(a: Seq<nat>, b: Seq<nat>)
    requires
        a.is_prefix_of(b),
        gcr_bits(a) is None,
    ensures
        gcr_bits(b) is None,
    decreases b.len(),
{
    if a.len() == b.len() {
        assert(a =~= b);
    } else {
        assert(a.is_prefix_of(b.drop_last()));
        lemma_rejection_is_final(a, b.drop_last());
    }
}

proof fn lemma_gcr_bits_len(finished: Seq<nat>)
    requires
        gcr_bits(finished) is Some,
    ensures
        gcr_bits(finished)->0.len() <= GCR_BITS,
    decreases finished.len(),
{
    if finished.len() > 0 {
        lemma_gcr_bits_len(finished.drop_last());
    }
}

/// Appending a run multiplies by `2^n` and sets the run's leading bit.
proof fn lemma_value_of_run(bits: Seq<bool>, n: nat)
    requires
        n > 0,
    ensures
        bits_value(bits + run_bits(n)) == bits_value(bits) * power2::pow2(n) + power2::pow2(
            (n - 1) as nat,
        ),
    decreases n,
{
    let whole = bits + run_bits(n);
    power2::lemma2_to64();
    if n == 1 {
        assert(whole.drop_last() =~= bits);
    } else {
        let m = (n - 1) as nat;
        assert(whole.drop_last() =~= bits + run_bits(m));
        assert(!whole.last());
        lemma_value_of_run(bits, m);
        power2::lemma_pow2_unfold(n);
        power2::lemma_pow2_unfold(m);
        assert(bits_value(bits) * power2::pow2(n) == 2 * (bits_value(bits) * power2::pow2(m)))
            by (nonlinear_arith)
            requires
                power2::pow2(n) == 2 * power2::pow2(m),
        ;
    }
}

proof fn lemma_value_bound(bits: Seq<bool>)
    ensures
        bits_value(bits) < power2::pow2(bits.len()),
    decreases bits.len(),
{
    power2::lemma2_to64();
    if bits.len() > 0 {
        lemma_value_bound(bits.drop_last());
        power2::lemma_pow2_unfold(bits.len());
    }
}

/// One shift-and-set step of the reconstruction.
pub(crate) fn append_run(value: u32, n: u32, Ghost(bits): Ghost<Seq<bool>>) -> (out: u32)
    requires
        value == bits_value(bits),
        1 <= n,
        bits.len() + n <= GCR_BITS,
    ensures
        out == bits_value(bits + run_bits(n as nat)),
{
    proof {
        lemma_value_of_run(bits, n as nat);
        lemma_value_bound(bits + run_bits(n as nat));
        power2::lemma2_to64();
        if bits.len() + n < 21 {
            power2::lemma_pow2_strictly_increases((bits.len() + n) as nat, 21);
        }
        assert((bits + run_bits(n as nat)).len() == bits.len() + n);
        bits::lemma_u32_shl_is_mul(value, n);
        bits::lemma_u32_shl_is_mul(1, (n - 1) as u32);
    }
    (value << n) + (1u32 << (n - 1))
}

// ---- Decoder ----

/// The window length that an override asks for.
pub open spec fn window_length(given: Option<Seq<u8>>) -> int {
    match given {
        None => RX_BUF_LEN as int,
        Some(s) => if s.len() > 0 && text::all_digits(s) && text::digits_value(s)
            >= MIN_RX_SAMPLES {
            text::digits_value(s)
        } else {
            RX_BUF_LEN as int
        },
    }
}

/// Window length asked for by a build-time override. Anything but a decimal
/// number of at least 64 falls back to the default.
pub fn parse_rx_samples(given: Option<&str>) -> (len: usize)
    requires
        given matches Some(t) ==> leading_number_fits(t.spec_bytes()),
    ensures
        len == (match given {
            None => RX_BUF_LEN as int,
            Some(t) => if t.spec_bytes().len() > 0 && text::all_digits(t.spec_bytes()) && text::digits_value(
                t.spec_bytes(),
            ) >= MIN_RX_SAMPLES {
                text::digits_value(t.spec_bytes())
            } else {
                RX_BUF_LEN as int
            },
        }),
        len == window_length(text::text_bytes(given)),
{
    let s: &[u8] = match given {
        None => return RX_BUF_LEN,
        Some(t) => t.as_bytes(),
    };
    if s.len() == 0 {
        return RX_BUF_LEN;
    }
    let mut v: usize = 0;
    let mut i: usize = 0;
    while i < s.len()
        invariant
            i <= s.len(),
            text::all_digits(s@.take(i as int)),
            v == text::digits_value(s@.take(i as int)),
            leading_number_fits(s@),
            given is Some,
            s@ == given->0.spec_bytes(),
        decreases s.len() - i,
    {
        assert(s@.take(i + 1).drop_last() =~= s@.take(i as int));
        if s[i] < 48 || s[i] > 57 {
            assert(!text::all_digits(s@)) by {
                assert(!(48 <= s@[i as int] <= 57));
            }
            return RX_BUF_LEN;
        }
        assert(text::all_digits(s@.take(i + 1)));
        assert(text::digits_value(s@.take(i + 1)) == 10 * v + s[i as int] - 48);
        v = v * 10 + (s[i] - 48) as usize;
        i += 1;
    }
    assert(s@.take(s@.len() as int) =~= s@);
    if v < MIN_RX_SAMPLES {
        RX_BUF_LEN
    } else {
        v
    }
}

/// Whether the number spelled by any run of leading digits fits a machine word.
pub open spec fn leading_number_fits(s: Seq<u8>) -> bool {
    forall|k: int|
        0 <= k <= s.len() && text::all_digits(s.take(k)) ==> #[trigger] text::digits_value(s.take(k))
            <= usize::MAX
}

/// Whether a build-time override of the window length can be read at all.
pub fn rx_samples_readable(given: &str) -> (yes: bool)
    ensures
        yes == leading_number_fits(given.spec_bytes()),
{
    let s: &[u8] = given.as_bytes();
    let mut v: usize = 0;
    let mut i: usize = 0;
    while i < s.len()
        invariant
            i <= s.len(),
            s@ == given.spec_bytes(),
            text::all_digits(s@.take(i as int)),
            v == text::digits_value(s@.take(i as int)),
            forall|k: int|
                0 <= k <= i ==> #[trigger] text::digits_value(s@.take(k)) <= usize::MAX,
        decreases s.len() - i,
    {
        assert(s@.take(i + 1).drop_last() =~= s@.take(i as int));
        if s[i] < 48 || s[i] > 57 {
            assert forall|k: int| 0 <= k <= s@.len() && text::all_digits(s@.take(k)) implies
                #[trigger] text::digits_value(s@.take(k)) <= usize::MAX by {
                if k > i {
                    assert(s@.take(k)[i as int] == s@[i as int]);
                }
            }
            return true;
        }
        assert(text::all_digits(s@.take(i + 1)));
        let digit: usize = (s[i] - 48) as usize;
        assert(text::digits_value(s@.take(i + 1)) == 10 * v + digit);
        if v > (usize::MAX - digit) / 10 {
            assert(!(text::digits_value(s@.take(i + 1)) <= usize::MAX));
            return false;
        }
        v = v * 10 + digit;
        i += 1;
    }
    true
}

/// Decodes one motor's reply out of a port-wide sample buffer.
pub fn decode(samples: &[u16], pin: u8) -> (telemetry: BbTelemetry)
    requires
        pin < 16,
    ensures
        telemetry == line_content(levels(samples@, pin)),
{
    let ghost line = levels(samples@, pin);
    let mut start: usize = 0;
    assert(line.skip(0) =~= line);
    while start < samples.len() && (samples[start] >> (pin as u16)) & 1 == 1
        invariant
            start <= samples.len(),
            line == levels(samples@, pin),
            pin < 16,
            from_first_low(line) == from_first_low(line.skip(start as int)),
        decreases samples.len() - start,
    {
        assert(line.skip(start as int).skip(1) =~= line.skip(start + 1));
        start += 1;
    }
    if start == samples.len() {
        return BbTelemetry::NoSignal;
    }
    let ghost reply = line.skip(start as int);
    assert(!reply[0]);
    assert(from_first_low(line) == reply);

    let mut value: u32 = 0;
    let mut bits: u32 = 0;
    let mut run_level: bool = false;
    let mut run_len: usize = 1;
    let mut i: usize = start + 1;
    let ghost mut coded: Seq<bool> = Seq::empty();
    proof {
        lemma_single_run(reply.take(1));
        assert(runs(reply.take(1)).drop_last() =~= Seq::<nat>::empty());
    }
    while i < samples.len()
        invariant
            start < i <= samples.len(),
            pin < 16,
            line == levels(samples@, pin),
            reply == line.skip(start as int),
            from_first_low(line) == reply,
            runs(reply.take(i - start)).len() > 0,
            run_len == runs(reply.take(i - start)).last(),
            1 <= run_len <= i - start,
            run_level == reply[i - start - 1],
            gcr_bits(runs(reply.take(i - start)).drop_last()) == Some(coded),
            bits == coded.len(),
            bits <= GCR_BITS,
            value == bits_value(coded),
        decreases samples.len() - i,
    {
        let ghost k: int = i - start;
        let ghost before = runs(reply.take(k));
        let lvl: bool = (samples[i] >> (pin as u16)) & 1 == 1;
        proof {
            assert(reply.take(k + 1).drop_last() =~= reply.take(k));
            assert(reply.take(k + 1).last() == lvl);
        }
        if lvl == run_level {
            proof {
                assert(runs(reply.take(k + 1)) == before.drop_last().push(before.last() + 1));
                assert(runs(reply.take(k + 1)).drop_last() =~= before.drop_last());
            }
            run_len += 1;
            i += 1;
            continue;
        }
        proof {
            assert(runs(reply.take(k + 1)) == before.push(1));
            assert(runs(reply.take(k + 1)).drop_last() =~= before);
        }
        let n: usize = bit_times(run_len);
        if n == 0 || n > GCR_BITS - bits as usize {
            proof {
                lemma_finished_runs_grow(reply, k + 1);
                lemma_rejection_is_final(before, runs(reply).drop_last());
            }
            return BbTelemetry::InvalidGcr;
        }
        value = append_run(value, n as u32, Ghost(coded));
        bits += n as u32;
        proof {
            coded = coded + run_bits(n as nat);
        }
        run_level = lvl;
        run_len = 1;
        i += 1;
    }
    assert(reply.take(reply.len() as int) =~= reply);
    if bits < GCR_BITS as u32 {
        value = append_run(value, GCR_BITS as u32 - bits, Ghost(coded));
    } else {
        assert(padded(coded) =~= coded);
    }
    let word: u16 = gcr_quintets_to_word(value);
    decode_word(word)
}

/// Reads a decoded 16-bit word: CRC, then the period.
pub fn decode_word(word: u16) -> (telemetry: BbTelemetry)
    ensures
        telemetry == word_content(word),
{
    let payload: u16 = word / 16;
    if (word % 16) as u8 != dshot_telemetry::telemetry_crc(payload) {
        return BbTelemetry::InvalidCrc;
    }
    if payload == 0x0FFF {
        return BbTelemetry::Erpm { period_us: 0 };
    }
    let exponent: u16 = payload / 512;
    let mantissa: u16 = payload % 512;
    proof {
        dshot_telemetry::lemma_period_fits(mantissa, exponent);
    }
    BbTelemetry::Erpm { period_us: (mantissa << exponent) as u32 }
}

fn quintet(symbol: u32) -> (nibble: u16)
    requires
        symbol < 32,
    ensures
        nibble == quintet_nibble(symbol as int),
        nibble < 16,
{
    match dshot_telemetry::symbol_nibble(symbol) {
        Some(n) => n,
        None => 0,
    }
}

/// Decodes a 21-bit line-decoded value to its 16-bit word. Bit 20 is the sync
/// marker and is discarded.
pub fn gcr_quintets_to_word(value: u32) -> (word: u16)
    ensures
        word == quintet_word(value),
{
    let s3: u16 = quintet(value / 32768 % 32);
    let s2: u16 = quintet(value / 1024 % 32);
    let s1: u16 = quintet(value / 32 % 32);
    let s0: u16 = quintet(value % 32);
    s3 * 4096 + s2 * 256 + s1 * 16 + s0
}

/// Samples to bit times, rounded to nearest.
pub fn bit_times(run_len: usize) -> (n: usize)
    ensures
        n == run_bit_times(run_len as nat),
{
    run_len / OVERSAMPLE + (run_len % OVERSAMPLE + OVERSAMPLE / 2) / OVERSAMPLE
}

// ---- Laws ----

/// The level of the line after `bits` have been sent: it idles high and flips
/// on every `1`.
pub open spec fn level_after(bits: Seq<bool>) -> bool
    decreases bits.len(),
{
    if bits.len() == 0 {
        true
    } else {
        level_after(bits.drop_last()) != bits.last()
    }
}

/// The samples seen while an ESC sends `bits`.
pub open spec fn driven(bits: Seq<bool>) -> Seq<bool>
    decreases bits.len(),
{
    if bits.len() == 0 {
        Seq::empty()
    } else {
        let level = level_after(bits);
        driven(bits.drop_last()).push(level).push(level).push(level)
    }
}

/// The samples of an idle line.
pub open spec fn idle(n: nat) -> Seq<bool> {
    Seq::new(n, |i: int| true)
}

/// The `n` lowest bits of `v`, most significant first.
pub open spec fn value_bits(v: nat, n: nat) -> Seq<bool>
    decreases n,
{
    if n == 0 {
        Seq::empty()
    } else {
        value_bits(v / 2, (n - 1) as nat).push(v % 2 == 1)
    }
}

/// The 21 bits of a reply that carries `word`: the sync bit and four quintets.
pub open spec fn reply_bits(word: u16) -> Seq<bool> {
    value_bits((0x10_0000 + dshot_telemetry::gcr_encode(word)) as nat, GCR_BITS as nat)
}

/// Length of the run that the last bit belongs to, in bit times.
spec fn trailing(bits: Seq<bool>) -> nat
    decreases bits.len(),
{
    if bits.len() == 0 {
        0
    } else if bits.last() {
        1
    } else {
        1 + trailing(bits.drop_last())
    }
}

proof fn lemma_runs_push(line: Seq<bool>, level: bool)
    requires
        line.len() > 0,
    ensures
        level == line.last() ==> runs(line.push(level)) == runs(line).drop_last().push(
            runs(line).last() + 1,
        ),
        level != line.last() ==> runs(line.push(level)) == runs(line).push(1),
{
    assert(line.push(level).drop_last() =~= line);
}

/// What the reconstruction knows after any number of driven bits: all runs but
/// the last have been turned back into bits, and the last one is still open.
proof fn lemma_driven(bits: Seq<bool>)
    requires
        0 < bits.len() <= GCR_BITS,
        bits[0],
    ensures
        driven(bits).len() > 0,
        !driven(bits)[0],
        driven(bits).last() == level_after(bits),
        1 <= trailing(bits) <= bits.len(),
        runs(driven(bits)).len() > 0,
        runs(driven(bits)).last() == 3 * trailing(bits),
        gcr_bits(runs(driven(bits)).drop_last()) == Some(bits.take(bits.len() - trailing(bits))),
        bits == bits.take(bits.len() - trailing(bits)) + run_bits(trailing(bits)),
    decreases bits.len(),
{
    let b = bits.last();
    let level = level_after(bits);
    let head = bits.drop_last();
    let d = driven(head);
    if bits.len() == 1 {
        assert(head =~= Seq::empty());
        assert(level_after(head));
        assert(d =~= Seq::empty());
        assert(d.push(level) =~= seq![false]);
        lemma_single_run(d.push(level));
        lemma_runs_push(d.push(level), level);
        lemma_runs_push(d.push(level).push(level), level);
        assert(runs(driven(bits)) =~= seq![3nat]);
        assert(runs(driven(bits)).drop_last() =~= Seq::<nat>::empty());
        assert(bits.take(0) =~= Seq::empty());
        assert(bits =~= bits.take(0) + run_bits(1));
    } else {
        lemma_driven(head);
        lemma_runs_nonempty(d);
        let r = runs(d);
        lemma_runs_push(d, level);
        lemma_runs_push(d.push(level), level);
        lemma_runs_push(d.push(level).push(level), level);
        let t = trailing(head);
        if b {
            assert(runs(driven(bits)) =~= r.push(3));
            assert(runs(driven(bits)).drop_last() =~= r);
            assert(run_bit_times(3 * t) == t);
            assert(bits.take(bits.len() - 1) =~= head);
            assert(bits =~= bits.take(bits.len() - 1) + run_bits(1));
        } else {
            assert(runs(driven(bits)) =~= r.drop_last().push(3 * t + 3));
            assert(runs(driven(bits)).drop_last() =~= r.drop_last());
            assert(bits.take(bits.len() - trailing(bits)) =~= head.take(head.len() - t));
            assert(bits =~= bits.take(bits.len() - trailing(bits)) + run_bits(trailing(bits))) by {
                assert forall|i: int| 0 <= i < bits.len() implies bits[i] == (bits.take(
                    bits.len() - trailing(bits),
                ) + run_bits(trailing(bits)))[i] by {
                    if i < head.len() {
                        assert(bits[i] == head[i]);
                        assert(head[i] == (head.take(head.len() - t) + run_bits(t))[i]);
                    }
                }
            }
        }
    }
}

proof fn lemma_runs_then_idle(line: Seq<bool>, tail: nat)
    requires
        line.len() > 0,
    ensures
        runs(line + idle(tail)).drop_last() == if line.last() || tail == 0 {
            runs(line).drop_last()
        } else {
            runs(line)
        },
    decreases tail,
{
    lemma_runs_nonempty(line);
    if tail == 0 {
        assert(line + idle(0) =~= line);
    } else {
        let m = (tail - 1) as nat;
        let shorter = line + idle(m);
        assert(line + idle(tail) =~= shorter.push(true));
        lemma_runs_then_idle(line, m);
        lemma_runs_push(shorter, true);
        lemma_runs_nonempty(shorter);
        if shorter.last() {
            assert(runs(shorter.push(true)).drop_last() =~= runs(shorter).drop_last());
        } else {
            assert(m == 0);
            assert(shorter =~= line);
            assert(runs(shorter.push(true)).drop_last() =~= runs(line));
        }
    }
}

proof fn lemma_skip_idle(lead: nat, rest: Seq<bool>)
    requires
        rest.len() > 0,
        !rest[0],
    ensures
        from_first_low(idle(lead) + rest) == rest,
    decreases lead,
{
    if lead == 0 {
        assert(idle(lead) + rest =~= rest);
    } else {
        assert((idle(lead) + rest).skip(1) =~= idle((lead - 1) as nat) + rest);
        lemma_skip_idle((lead - 1) as nat, rest);
    }
}

proof fn lemma_value_bits(v: nat, n: nat)
    ensures
        value_bits(v, n).len() == n,
        bits_value(value_bits(v, n)) == v % power2::pow2(n),
        n > 0 ==> value_bits(v, n)[0] == (v / power2::pow2((n - 1) as nat) % 2 == 1),
    decreases n,
{
    power2::lemma2_to64();
    power2::lemma_pow2_pos(n);
    if n > 0 {
        let m = (n - 1) as nat;
        let w = value_bits(v / 2, m);
        lemma_value_bits(v / 2, m);
        power2::lemma_pow2_unfold(n);
        power2::lemma_pow2_pos(m);
        assert(value_bits(v, n).drop_last() =~= w);
        assert(2 * ((v / 2) % power2::pow2(m)) + v % 2 == v % power2::pow2(n)) by (nonlinear_arith)
            requires
                power2::pow2(n) == 2 * power2::pow2(m),
                power2::pow2(m) > 0,
        {
            vstd::arithmetic::div_mod::lemma_mod_breakdown(v as int, 2, power2::pow2(m) as int);
        }
        if m > 0 {
            let k = (m - 1) as nat;
            power2::lemma_pow2_unfold(m);
            power2::lemma_pow2_pos(k);
            vstd::arithmetic::div_mod::lemma_div_denominator(v as int, 2, power2::pow2(k) as int);
            assert((v / 2) / power2::pow2(k) == v / power2::pow2(m));
            assert(value_bits(v, n)[0] == w[0]);
        } else {
            assert(v / power2::pow2(m) == v) by {
                vstd::arithmetic::div_mod::lemma_div_basics(v as int);
            }
        }
    }
}

/// What an ESC sends is what is decoded. However long the line idled before
/// and after, the samples of a reply that carries `word` decode to what
/// `word` reports.
pub proof fn law_reply_round_trip(word: u16, lead: nat, tail: nat)
    ensures
        line_content(idle(lead) + driven(reply_bits(word)) + idle(tail)) == word_content(word),
{
    let bits = reply_bits(word);
    let v: nat = (0x10_0000 + dshot_telemetry::gcr_encode(word)) as nat;
    dshot_telemetry::lemma_gcr_encode_bound(word);
    power2::lemma2_to64();
    lemma_value_bits(v, GCR_BITS as nat);
    vstd::arithmetic::div_mod::lemma_small_mod(v, power2::pow2(GCR_BITS as nat));
    assert(v / power2::pow2(20) == v / 0x10_0000);
    assert(bits_value(bits) == v);
    lemma_driven(bits);
    let reply = driven(bits) + idle(tail);
    assert(idle(lead) + driven(bits) + idle(tail) =~= idle(lead) + reply);
    lemma_skip_idle(lead, reply);
    lemma_runs_then_idle(driven(bits), tail);
    let t = trailing(bits);
    let finished = runs(reply).drop_last();
    let open = bits.take(bits.len() - t);
    if driven(bits).last() || tail == 0 {
        assert(gcr_bits(finished) == Some(open));
        assert(padded(open) =~= bits);
    } else {
        assert(finished == runs(driven(bits)));
        assert(run_bit_times(3 * t) == t);
        assert(gcr_bits(finished) == Some(open + run_bits(t)));
        assert(padded(bits) =~= bits);
    }
    dshot_telemetry::law_gcr_round_trip(word, v as u32);
    assert(quintet_word(v as u32) == word) by {
        dshot_telemetry::lemma_word_digits(word, v as u32);
    }
}

/// A reply whose CRC nibble matches reports its period: 9 bits of mantissa
/// scaled by a 3-bit exponent, and all ones for a motor at rest.
pub proof fn law_valid_reply_reports_its_period(payload: u16, lead: nat, tail: nat)
    requires
        payload < 4096,
    ensures
        ({
            let word = (16 * payload + dshot_telemetry::telemetry_checksum(payload)) as u16;
            line_content(idle(lead) + driven(reply_bits(word)) + idle(tail))
                == BbTelemetry::Erpm { period_us: payload_period(payload) as u32 }
        }),
{
    dshot_frame::lemma_nibble_xor_bound(payload);
    let word = (16 * payload + dshot_telemetry::telemetry_checksum(payload)) as u16;
    law_reply_round_trip(word, lead, tail);
    assert(word / 16 == payload);
}

/// A reply with any other CRC nibble is rejected.
pub proof fn law_corrupt_reply_is_rejected(word: u16, lead: nat, tail: nat)
    requires
        word % 16 != dshot_telemetry::telemetry_checksum(word / 16),
    ensures
        line_content(idle(lead) + driven(reply_bits(word)) + idle(tail)) == BbTelemetry::InvalidCrc,
{
    law_reply_round_trip(word, lead, tail);
}

/// Every pin is treated alike and no pin sees another: two buffers that show
/// the same levels, each on its own pin, decode to the same result.
pub proof fn law_pins_are_independent(a: Seq<u16>, pin_a: u8, b: Seq<u16>, pin_b: u8)
    requires
        a.len() == b.len(),
        forall|i: int|
            0 <= i < a.len() ==> #[trigger] dshot_frame::bit_set(a[i], pin_a as u16)
                == dshot_frame::bit_set(b[i], pin_b as u16),
    ensures
        line_content(levels(a, pin_a)) == line_content(levels(b, pin_b)),
{
    assert(levels(a, pin_a) =~= levels(b, pin_b));
}

/// A run may be off by one sample either way and still count as its bit times.
pub proof fn law_run_length_tolerance(run_len: nat, n: nat)
    requires
        n >= 1,
        3 * n - 1 <= run_len <= 3 * n + 1,
    ensures
        run_bit_times(run_len) == n,
{
}

/// A line that never goes low is no signal.
pub proof fn law_idle_line_is_no_signal(n: nat)
    ensures
        line_content(idle(n)) == BbTelemetry::NoSignal,
{
    lemma_idle_has_no_low(n);
}

proof fn lemma_idle_has_no_low(n: nat)
    ensures
        from_first_low(idle(n)).len() == 0,
    decreases n,
{
    if n > 0 {
        assert(idle(n).skip(1) =~= idle((n - 1) as nat));
        lemma_idle_has_no_low((n - 1) as nat);
    }
}

/// The bits of a quintet, most significant first.
pub open spec fn quintet_bits(q: int) -> Seq<bool> {
    seq![q / 16 % 2 == 1, q / 8 % 2 == 1, q / 4 % 2 == 1, q / 2 % 2 == 1, q % 2 == 1]
}

/// What an ESC sends for four nibbles: a `1`, then a quintet for each.
pub open spec fn sent_bits(a: u16, b: u16, c: u16, d: u16) -> Seq<bool> {
    seq![true] + quintet_bits(dshot_telemetry::sent_quintet(a as int)) + quintet_bits(
        dshot_telemetry::sent_quintet(b as int),
    ) + quintet_bits(dshot_telemetry::sent_quintet(c as int)) + quintet_bits(
        dshot_telemetry::sent_quintet(d as int),
    )
}

proof fn lemma_value_bits_of_quintet(v: nat, n: nat)
    requires
        n >= 5,
    ensures
        value_bits(v, n) == value_bits(v / 32, (n - 5) as nat) + quintet_bits(v as int % 32),
{
    reveal_with_fuel(value_bits, 6);
    let q = v as int % 32;
    assert(v / 2 / 2 / 2 / 2 / 2 == v / 32);
    assert(v % 2 == q % 2 && v / 2 % 2 == q / 2 % 2 && v / 2 / 2 % 2 == q / 4 % 2 && v / 2 / 2 / 2
        % 2 == q / 8 % 2 && v / 2 / 2 / 2 / 2 % 2 == q / 16 % 2);
    assert(value_bits(v, n) =~= value_bits(v / 32, (n - 5) as nat) + quintet_bits(q));
}

proof fn lemma_sent_bits(a: u16, b: u16, c: u16, d: u16)
    requires
        a < 16,
        b < 16,
        c < 16,
        d < 16,
    ensures
        reply_bits(dshot_telemetry::word_of_nibbles(a, b, c, d)) == sent_bits(a, b, c, d),
{
    dshot_telemetry::lemma_sent_word(a, b, c, d);
    let qa = dshot_telemetry::sent_quintet(a as int);
    let qb = dshot_telemetry::sent_quintet(b as int);
    let qc = dshot_telemetry::sent_quintet(c as int);
    let qd = dshot_telemetry::sent_quintet(d as int);
    let v1: nat = (32 + qa) as nat;
    let v2: nat = (32 * v1 + qb) as nat;
    let v3: nat = (32 * v2 + qc) as nat;
    let v4: nat = (32 * v3 + qd) as nat;
    lemma_value_bits_of_quintet(v4, 21);
    lemma_value_bits_of_quintet(v3, 16);
    lemma_value_bits_of_quintet(v2, 11);
    lemma_value_bits_of_quintet(v1, 6);
    assert(v4 / 32 == v3 && v4 % 32 == qd);
    assert(v3 / 32 == v2 && v3 % 32 == qc);
    assert(v2 / 32 == v1 && v2 % 32 == qb);
    assert(v1 / 32 == 1 && v1 % 32 == qa);
    assert(value_bits(1, 1) =~= seq![true]) by {
        reveal_with_fuel(value_bits, 2);
    }
    assert(v4 == 0x10_0000 + dshot_telemetry::gcr_encode(
        dshot_telemetry::word_of_nibbles(a, b, c, d),
    ));
}

/// A period `m * 2^e` that an ESC sends is reported as exactly that, however long
/// the line idles before and after: a `1` and the quintets of exponent, mantissa and
/// CRC, whose nibbles XOR to all ones, three samples for each bit and a change of
/// level for each `1`. The largest period stands for a motor at rest.
pub proof fn law_sent_period_is_reported(m: u16, e: u16, crc: u16, lead: nat, tail: nat)
    requires
        m < 512,
        e < 8,
        crc < 16,
        (2 * e + m / 256) as u16 ^ m / 16 % 16 ^ m % 16 ^ crc == 15,
    ensures
        ({
            let sent = sent_bits((2 * e + m / 256) as u16, m / 16 % 16, m % 16, crc);
            let seen = line_content(idle(lead) + driven(sent) + idle(tail));
            seen matches BbTelemetry::Erpm { period_us } && period_us == (if m == 511 && e == 7 {
                0
            } else {
                m * power2::pow2(e as nat)
            })
        }),
{
    let a = (2 * e + m / 256) as u16;
    let b = m / 16 % 16;
    let c = m % 16;
    dshot_telemetry::lemma_period_nibbles(m, e);
    dshot_telemetry::lemma_sent_word(a, b, c, crc);
    lemma_sent_bits(a, b, c, crc);
    let word = dshot_telemetry::word_of_nibbles(a, b, c, crc);
    law_reply_round_trip(word, lead, tail);
    let payload = word / 16;
    assert(payload == 512 * e + m);
    assert(payload == 0x0FFF <==> m == 511 && e == 7);
    assert(payload_period(payload) == if m == 511 && e == 7 {
        0
    } else {
        m * power2::pow2(e as nat)
    });
    dshot_telemetry::lemma_period_fits(m, e);
}

/// Four nibbles that do not XOR to all ones are refused, whatever they are.
pub proof fn law_wrong_checksum_is_refused(
    a: u16,
    b: u16,
    c: u16,
    d: u16,
    lead: nat,
    tail: nat,
)
    requires
        a < 16,
        b < 16,
        c < 16,
        d < 16,
        a ^ b ^ c ^ d != 15,
    ensures
        line_content(idle(lead) + driven(sent_bits(a, b, c, d)) + idle(tail))
            == BbTelemetry::InvalidCrc,
{
    dshot_telemetry::lemma_sent_word(a, b, c, d);
    lemma_sent_bits(a, b, c, d);
    law_reply_round_trip(dshot_telemetry::word_of_nibbles(a, b, c, d), lead, tail);
}

/// The level of a pin is its bit in each sample: the samples of a pin that carries
/// weight `w` alternate with the sample's number divided by `w`.
pub proof fn law_level_is_the_pin_bit(samples: Seq<u16>, pin: u8, i: int)
    requires
        pin < 16,
        0 <= i < samples.len(),
    ensures
        levels(samples, pin).len() == samples.len(),
        levels(samples, pin)[i] <==> samples[i] as nat / power2::pow2(pin as nat) % 2 == 1,
{
    let s = samples[i];
    let k = pin as u16;
    bits::lemma_u16_shr_is_div(s, k);
    let q = s >> k;
    assert((q & 1 == 1) == (q % 2 == 1)) by (bit_vector);
}

/// The number that the bits of a reply spell stands for its word.
pub proof fn lemma_reply_value(word: u16)
    ensures
        reply_bits(word).len() == 21,
        quintet_word(bits_value(reply_bits(word)) as u32) == word,
{
    let v: nat = (0x10_0000 + dshot_telemetry::gcr_encode(word)) as nat;
    dshot_telemetry::lemma_gcr_encode_bound(word);
    power2::lemma2_to64();
    lemma_value_bits(v, GCR_BITS as nat);
    vstd::arithmetic::div_mod::lemma_small_mod(v, power2::pow2(GCR_BITS as nat));
    dshot_telemetry::law_gcr_round_trip(word, v as u32);
    dshot_telemetry::lemma_word_digits(word, v as u32);
}

/// What the bits of a sent period say, once they are read.
pub proof fn lemma_sent_period(m: u16, e: u16, crc: u16)
    requires
        m < 512,
        e < 8,
        crc < 16,
        (2 * e + m / 256) as u16 ^ m / 16 % 16 ^ m % 16 ^ crc == 15,
    ensures
        ({
            let sent = sent_bits((2 * e + m / 256) as u16, m / 16 % 16, m % 16, crc);
            let seen = word_content(quintet_word(bits_value(sent) as u32) as u16);
            &&& sent.len() == 21
            &&& sent[0]
            &&& seen matches BbTelemetry::Erpm { period_us } && period_us == (if m == 511 && e
                == 7 {
                0
            } else {
                m * power2::pow2(e as nat)
            })
        }),
{
    law_sent_period_is_reported(m, e, crc, 0, 0);
    let a = (2 * e + m / 256) as u16;
    lemma_sent_bits(a, m / 16 % 16, m % 16, crc);
    let word = dshot_telemetry::word_of_nibbles(a, m / 16 % 16, m % 16, crc);
    lemma_reply_value(word);
    law_reply_round_trip(word, 0, 0);
}

/// A window is as long as is written in decimal, from 64 samples on; it is 140 samples
/// long where less is written, or nothing, or anything else.
pub proof fn law_window_length(digits: Seq<nat>, s: Seq<u8>, i: int)
    ensures
        window_length(None) == 140,
        window_length(Some(Seq::empty())) == 140,
        text::are_digits(digits) && digits.len() > 0 && s.len() == digits.len() && (forall|k: int|
            0 <= k < digits.len() ==> #[trigger] s[k] == 0x30 + digits[k]) ==> window_length(
            Some(s),
        ) == (if text::decimal(digits) >= 64 {
            text::decimal(digits) as int
        } else {
            140
        }),
        0 <= i < s.len() && !(0x30 <= s[i] <= 0x39) ==> window_length(Some(s)) == 140,
{
    if text::are_digits(digits) && digits.len() > 0 && s.len() == digits.len() && (forall|k: int|
        0 <= k < digits.len() ==> #[trigger] s[k] == 0x30 + digits[k]) {
        let c = Seq::new(digits.len(), |k: int| (0x30 + digits[k]) as char);
        assert forall|k: int| 0 <= k < digits.len() implies (#[trigger] c[k]) as u32 == 0x30
            + digits[k] by {
            assert(digits[k] < 10);
        }
        text::law_digits_spell_a_number(digits, s, c);
    }
}

/// A sample is a third of a bit: a run of three for each bit, one more or one less, is
/// that many bits.
pub proof fn law_three_samples_are_a_bit(n: nat)
    ensures
        run_bit_times(3 * n) == n,
        run_bit_times(3 * n + 1) == n,
        run_bit_times(3 * n + 2) == n + 1,
{
}

/// What a finished run adds: a bit for every three samples, to the nearest, or a refusal
/// when there is none or when they would be more than 21 in all.
pub proof fn law_runs_add_bits(finished: Seq<nat>, run: nat)
    requires
        gcr_bits(finished) is Some,
    ensures
        ({
            let before = gcr_bits(finished)->0;
            let n = (run + 1) / 3;
            if n == 0 || before.len() + n > 21 {
                gcr_bits(finished.push(run)) is None
            } else {
                &&& gcr_bits(finished.push(run)) is Some
                &&& gcr_bits(finished.push(run))->0.len() == before.len() + n
            }
        }),
{
    assert(finished.push(run).drop_last() =~= finished);
}

} // verus!
