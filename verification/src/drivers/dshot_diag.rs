//! Register words of the DShot peripherals, taken apart for a report.

use vstd::arithmetic::power2;
use vstd::bits;
use vstd::prelude::*;

verus! {

/// `width` bits of a register word, starting at bit `pos`.
pub open spec fn field(word: u32, pos: nat, width: nat) -> int {
    word as int / power2::pow2(pos) as int % power2::pow2(width) as int
}

fn extract(word: u32, pos: u32, width: u32) -> (v: u32)
    requires
        pos < 32,
        1 <= width <= 6,
    ensures
        v == field(word, pos as nat, width as nat),
{
    proof {
        power2::lemma2_to64();
        bits::lemma_u32_shr_is_div(word, pos);
    }
    let rest: u32 = word >> pos;
    match width {
        1 => rest % 2,
        2 => rest % 4,
        3 => rest % 8,
        4 => rest % 16,
        5 => rest % 32,
        _ => rest % 64,
    }
}

/// Configuration of one GPIO pin.
#[derive(Debug, Clone, Copy, PartialEq, Eq, Structural)]
pub struct PinState {
    pub mode: u32,
    pub output_type: u32,
    pub speed: u32,
    pub pull: u32,
    pub alternate: u32,
}

/// The configuration of pin `p` of the low half of a port: two bits per pin for
/// mode, speed and pull, one for the output type, four for the function.
pub fn pin_state(moder: u32, otyper: u32, ospeedr: u32, pupdr: u32, afrl: u32, p: u32) -> (state:
    PinState)
    requires
        p < 8,
    ensures
        state.mode == field(moder, (2 * p) as nat, 2),
        state.output_type == field(otyper, p as nat, 1),
        state.speed == field(ospeedr, (2 * p) as nat, 2),
        state.pull == field(pupdr, (2 * p) as nat, 2),
        state.alternate == field(afrl, (4 * p) as nat, 4),
{
    PinState {
        mode: extract(moder, 2 * p, 2),
        output_type: extract(otyper, p, 1),
        speed: extract(ospeedr, 2 * p, 2),
        pull: extract(pupdr, 2 * p, 2),
        alternate: extract(afrl, 4 * p, 4),
    }
}

/// Instruction- and data-cache enable bits of the configuration register.
pub fn cache_bits(ccr: u32) -> (caches: (bool, bool))
    ensures
        caches.0 == (field(ccr, 17, 1) == 1),
        caches.1 == (field(ccr, 16, 1) == 1),
{
    (extract(ccr, 17, 1) == 1, extract(ccr, 16, 1) == 1)
}

/// Flags of one DMA stream.
#[derive(Debug, Clone, Copy, PartialEq, Eq, Structural)]
pub struct StreamFlags {
    pub fifo_error: bool,
    pub direct_mode_error: bool,
    pub transfer_error: bool,
    pub half_transfer: bool,
    pub transfer_complete: bool,
}

impl StreamFlags {
    /// Whether the transfer went wrong. A FIFO error alone is benign: it is
    /// raised when the FIFO drains at the end of a transfer.
    pub fn failed(&self) -> (failed: bool)
        ensures
            failed == (self.transfer_error || self.direct_mode_error),
    {
        self.transfer_error || self.direct_mode_error
    }
}

/// First flag bit of a stream in its status word. Streams 0 to 3 share one
/// word, 4 to 7 the other.
pub open spec fn flag_shift(stream: int) -> nat {
    if stream % 4 == 0 {
        0
    } else if stream % 4 == 1 {
        6
    } else if stream % 4 == 2 {
        16
    } else {
        22
    }
}

/// Which status word a stream's flags are in, and where they start.
pub fn stream_slot(stream: usize) -> (slot: (usize, u32))
    requires
        stream < 8,
    ensures
        slot.0 == stream / 4,
        slot.1 == flag_shift(stream as int),
{
    let shift: u32 = match stream % 4 {
        0 => 0,
        1 => 6,
        2 => 16,
        _ => 22,
    };
    (stream / 4, shift)
}

/// Takes a stream's flags out of its status word.
pub fn stream_flags(isr_word: u32, stream: usize) -> (flags: StreamFlags)
    requires
        stream < 8,
    ensures
        flags.fifo_error == (field(isr_word, flag_shift(stream as int), 1) == 1),
        flags.direct_mode_error == (field(isr_word, flag_shift(stream as int) + 2, 1) == 1),
        flags.transfer_error == (field(isr_word, flag_shift(stream as int) + 3, 1) == 1),
        flags.half_transfer == (field(isr_word, flag_shift(stream as int) + 4, 1) == 1),
        flags.transfer_complete == (field(isr_word, flag_shift(stream as int) + 5, 1) == 1),
{
    let shift: u32 = stream_slot(stream).1;
    StreamFlags {
        fifo_error: extract(isr_word, shift, 1) == 1,
        direct_mode_error: extract(isr_word, shift + 2, 1) == 1,
        transfer_error: extract(isr_word, shift + 3, 1) == 1,
        half_transfer: extract(isr_word, shift + 4, 1) == 1,
        transfer_complete: extract(isr_word, shift + 5, 1) == 1,
    }
}

/// The word that clears all five flags of a stream and no others.
pub fn clear_word(stream: usize) -> (word: u32)
    requires
        stream < 8,
    ensures
        word == 0x3D * power2::pow2(flag_shift(stream as int)),
{
    proof {
        power2::lemma2_to64();
    }
    match stream % 4 {
        0 => 0x3D,
        1 => 0xF40,
        2 => 0x3D_0000,
        _ => 0xF40_0000,
    }
}

/// Test pattern of one cell: even and odd cells carry complementary words.
pub open spec fn canary_cell(i: int) -> u16 {
    if i % 2 == 0 {
        0xA5A5
    } else {
        0x5A5A
    }
}

/// What a cell of the test pattern holds.
pub fn canary_expected(i: usize) -> (cell: u16)
    ensures
        cell == canary_cell(i as int),
{
    if i % 2 == 0 {
        0xA5A5
    } else {
        0x5A5A
    }
}

/// Fills a buffer with the test pattern.
pub fn canary_fill(buf: &mut [u16])
    ensures
        final(buf)@.len() == old(buf)@.len(),
        forall|i: int| 0 <= i < final(buf)@.len() ==> #[trigger] final(buf)@[i] == canary_cell(i),
{
    let n: usize = buf.len();
    let mut i: usize = 0;
    while i < n
        invariant
            i <= n,
            n == buf@.len(),
            n == old(buf)@.len(),
            forall|k: int| 0 <= k < i ==> #[trigger] buf@[k] == canary_cell(k),
        decreases n - i,
    {
        buf[i] = canary_expected(i);
        i += 1;
    }
}

/// Cells among the first `n` that do not hold the test pattern.
pub open spec fn canary_mismatches(buf: Seq<u16>, n: nat) -> nat
    decreases n,
{
    if n == 0 {
        0
    } else {
        canary_mismatches(buf, (n - 1) as nat) + if buf[n - 1] != canary_cell(n - 1) {
            1nat
        } else {
            0nat
        }
    }
}

/// Counts the cells that do not hold the test pattern.
pub fn canary_check(buf: &[u16]) -> (bad: usize)
    ensures
        bad == canary_mismatches(buf@, buf@.len()),
{
    let mut bad: usize = 0;
    let mut i: usize = 0;
    while i < buf.len()
        invariant
            i <= buf@.len(),
            bad <= i,
            bad == canary_mismatches(buf@, i as nat),
        decreases buf.len() - i,
    {
        if buf[i] != canary_expected(i) {
            bad += 1;
        }
        i += 1;
    }
    bad
}

/// Where the flags of a stream start: six bits for each of two streams, and the next two
/// sixteen bits on; the other word repeats this.
pub proof fn law_streams_do_not_overlap(stream: int)
    requires
        0 <= stream < 4,
    ensures
        flag_shift(stream) == 6 * (stream % 2) + 16 * (stream / 2),
        flag_shift(stream + 4) == flag_shift(stream),
{
}

/// Neighbouring cells of the test pattern are complements, and every other one is the
/// same.
pub proof fn law_test_pattern_alternates(i: int)
    requires
        i >= 0,
    ensures
        canary_cell(2 * i) == 0xA5A5,
        canary_cell(i) + canary_cell(i + 1) == 0xFFFF,
        canary_cell(i + 2) == canary_cell(i),
{
}

/// A buffer that holds the pattern has no mismatch; each cell that does not is one.
pub proof fn law_mismatches_are_counted(buf: Seq<u16>, n: nat)
    requires
        n <= buf.len(),
    ensures
        canary_mismatches(buf, n) <= n,
        canary_mismatches(buf, n) == 0 <==> forall|i: int|
            0 <= i < n ==> #[trigger] buf[i] == canary_cell(i),
        n > 0 ==> canary_mismatches(buf, n) - canary_mismatches(buf, (n - 1) as nat) == (if buf[n
            - 1] == canary_cell(n - 1) {
            0int
        } else {
            1int
        }),
    decreases n,
{
    if n > 0 {
        law_mismatches_are_counted(buf, (n - 1) as nat);
    }
}

/// A field is what stands between the bits below it and the bits above.
pub proof fn law_field_between_bits(word: u32, pos: nat, width: nat, low: int, v: int, high: int)
    requires
        0 <= low < power2::pow2(pos),
        0 <= v < power2::pow2(width),
        high >= 0,
        word == low + power2::pow2(pos) * (v + power2::pow2(width) * high),
    ensures
        field(word, pos, width) == v,
{
    let (a, b) = (power2::pow2(pos) as int, power2::pow2(width) as int);
    let rest = v + b * high;
    power2::lemma_pow2_pos(pos);
    power2::lemma_pow2_pos(width);
    assert(a * rest == rest * a) by (nonlinear_arith);
    assert(b * high == high * b) by (nonlinear_arith);
    vstd::arithmetic::div_mod::lemma_fundamental_div_mod_converse(word as int, a, rest, low);
    vstd::arithmetic::div_mod::lemma_fundamental_div_mod_converse(rest, b, high, v);
}

} // verus!
