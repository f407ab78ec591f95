//! DShot frames as GPIO set/reset words, for bit-banged output.
//!
//! Each DShot bit is three pacer states:
//!
//!   state 0  assert the active level      (all pins of the port mask)
//!   state 1  per pin: deassert iff the bit is 0
//!   state 2  deassert                     (all pins of the port mask)
//!
//! so a `0` is asserted for 1/3 of the bit and a `1` for 2/3.
//!
//! Writing bit `n` of a word sets pin `n` high, writing bit `n + 16` resets it
//! low. Bidirectional (inverted) output swaps the two halves.
//!
//! The three trailing states hold the line at idle, so that the ESC has
//! sampled the last bit before the pin becomes an input.

use crate::drivers::dshot_frame;
use vstd::prelude::*;

verus! {

/// Pacer states per DShot symbol.
pub const STATES_PER_SYMBOL: usize = 3;

/// Bits in a DShot frame.
pub const FRAME_BITS: usize = 16;

/// Trailing states that hold the line at idle.
pub const HOLD_STATES: usize = 3;

/// Words per frame.
pub const BB_BUF_LEN: usize = 51;

/// The word that drives every pin of the mask to the active level.
pub open spec fn assert_word(port_mask: u16, inverted: bool) -> u32 {
    if inverted {
        (port_mask * 0x1_0000) as u32
    } else {
        port_mask as u32
    }
}

/// The word that drives every pin of the mask to the idle level.
pub open spec fn deassert_word(port_mask: u16, inverted: bool) -> u32 {
    assert_word(port_mask, !inverted)
}

/// The word that drives one pin to the idle level.
pub open spec fn middle_word(pin: u8, inverted: bool) -> u32 {
    if inverted {
        1u32 << (pin as u32)
    } else {
        1u32 << ((pin + 16) as u32)
    }
}

/// Whether symbol `s` of a frame carries a `1`.
pub open spec fn symbol_bit(value: u16, s: int) -> bool {
    dshot_frame::bit_set(value, (15 - s) as u16)
}

/// The port-wide part of a buffer.
pub open spec fn has_skeleton(buf: Seq<u32>, port_mask: u16, inverted: bool) -> bool {
    &&& buf.len() == BB_BUF_LEN
    &&& forall|s: int|
        #![trigger buf[3 * s]]
        0 <= s < 16 ==> buf[3 * s] == assert_word(port_mask, inverted)
    &&& forall|s: int|
        #![trigger buf[3 * s + 2]]
        0 <= s < 16 ==> buf[3 * s + 2] == deassert_word(port_mask, inverted)
    &&& buf[48] == deassert_word(port_mask, inverted)
    &&& buf[49] == 0
    &&& buf[50] == 0
}

/// Whether no pin changes in any middle state.
pub open spec fn middles_clear(buf: Seq<u32>) -> bool {
    forall|s: int| #![trigger buf[3 * s + 1]] 0 <= s < 16 ==> buf[3 * s + 1] == 0
}

fn masks(port_mask: u16, inverted: bool) -> (words: (u32, u32))
    ensures
        words.0 == assert_word(port_mask, inverted),
        words.1 == deassert_word(port_mask, inverted),
{
    let low: u32 = port_mask as u32;
    let high: u32 = low * 0x1_0000;
    if inverted {
        (high, low)
    } else {
        (low, high)
    }
}

/// Lays down the port-wide skeleton: assert at each symbol start, deassert at
/// each symbol end, and the trailing hold states. Skeleton words already in
/// the buffer are kept; middle and hold states are cleared.
pub fn output_data_init(buf: &mut [u32; BB_BUF_LEN], port_mask: u16, inverted: bool)
    ensures
        forall|s: int|
            #![trigger final(buf)@[3 * s]]
            0 <= s < 16 ==> final(buf)@[3 * s] == old(buf)@[3 * s] | assert_word(
                port_mask,
                inverted,
            ),
        forall|s: int|
            #![trigger final(buf)@[3 * s + 2]]
            0 <= s < 16 ==> final(buf)@[3 * s + 2] == old(buf)@[3 * s + 2] | deassert_word(
                port_mask,
                inverted,
            ),
        middles_clear(final(buf)@),
        final(buf)@[48] == old(buf)@[48] | deassert_word(port_mask, inverted),
        final(buf)@[49] == 0,
        final(buf)@[50] == 0,
{
    let (active, rest): (u32, u32) = masks(port_mask, inverted);
    let mut symbol: usize = 0;
    while symbol < FRAME_BITS
        invariant
            symbol <= 16,
            active == assert_word(port_mask, inverted),
            rest == deassert_word(port_mask, inverted),
            forall|s: int|
                #![trigger buf@[3 * s]]
                0 <= s < symbol ==> buf@[3 * s] == old(buf)@[3 * s] | active,
            forall|s: int|
                #![trigger buf@[3 * s + 2]]
                0 <= s < symbol ==> buf@[3 * s + 2] == old(buf)@[3 * s + 2] | rest,
            forall|s: int| #![trigger buf@[3 * s + 1]] 0 <= s < symbol ==> buf@[3 * s + 1] == 0,
            forall|i: int| 3 * symbol <= i < 51 ==> buf@[i] == old(buf)@[i],
        decreases 16 - symbol,
    {
        let at: usize = symbol * STATES_PER_SYMBOL;
        buf[at] = buf[at] | active;
        buf[at + 1] = 0;
        buf[at + 2] = buf[at + 2] | rest;
        symbol += 1;
    }
    buf[48] = buf[48] | rest;
    buf[49] = 0;
    buf[50] = 0;
}

/// Resets the per-pin middle states to "no change" and leaves everything else.
pub fn output_data_clear(buf: &mut [u32; BB_BUF_LEN])
    ensures
        middles_clear(final(buf)@),
        forall|i: int|
            0 <= i < 51 && !(i < 48 && i % 3 == 1) ==> #[trigger] final(buf)@[i] == old(buf)@[i],
{
    let mut symbol: usize = 0;
    while symbol < FRAME_BITS
        invariant
            symbol <= 16,
            forall|s: int| #![trigger buf@[3 * s + 1]] 0 <= s < symbol ==> buf@[3 * s + 1] == 0,
            forall|i: int|
                0 <= i < 51 && !(i < 48 && i % 3 == 1) ==> #[trigger] buf@[i] == old(buf)@[i],
        decreases 16 - symbol,
    {
        buf[symbol * STATES_PER_SYMBOL + 1] = 0;
        symbol += 1;
    }
}

/// Writes one motor's frame into the shared buffer, most significant bit
/// first. A `0` bit deasserts at 1/3 of the symbol; a `1` bit leaves the
/// middle state alone so the assert runs to 2/3.
pub fn output_data_set(buf: &mut [u32; BB_BUF_LEN], pin: u8, value: u16, inverted: bool)
    requires
        pin < 16,
    ensures
        forall|s: int|
            #![trigger final(buf)@[3 * s + 1]]
            0 <= s < 16 ==> final(buf)@[3 * s + 1] == if symbol_bit(value, s) {
                old(buf)@[3 * s + 1]
            } else {
                old(buf)@[3 * s + 1] | middle_word(pin, inverted)
            },
        forall|i: int|
            0 <= i < 51 && !(i < 48 && i % 3 == 1) ==> #[trigger] final(buf)@[i] == old(buf)@[i],
{
    let middle_bit: u32 = if inverted {
        1u32 << (pin as u32)
    } else {
        1u32 << (pin as u32 + 16)
    };
    let mut symbol: usize = 0;
    while symbol < FRAME_BITS
        invariant
            symbol <= 16,
            middle_bit == middle_word(pin, inverted),
            forall|s: int|
                #![trigger buf@[3 * s + 1]]
                0 <= s < symbol ==> buf@[3 * s + 1] == if symbol_bit(value, s) {
                    old(buf)@[3 * s + 1]
                } else {
                    old(buf)@[3 * s + 1] | middle_bit
                },
            forall|i: int| 3 * symbol <= i < 51 ==> buf@[i] == old(buf)@[i],
            forall|i: int|
                0 <= i < 51 && !(i < 48 && i % 3 == 1) ==> #[trigger] buf@[i] == old(buf)@[i],
        decreases 16 - symbol,
    {
        if (value >> ((15 - symbol) as u16)) & 1 != 1 {
            let at: usize = symbol * STATES_PER_SYMBOL + 1;
            buf[at] = buf[at] | middle_bit;
        }
        symbol += 1;
    }
}

// ---- Laws ----

/// What a word does to a pin: drive it high, drive it low, or leave it.
pub open spec fn drives_high(word: u32, pin: u8) -> bool {
    (word >> (pin as u32)) & 1 == 1
}

pub open spec fn drives_low(word: u32, pin: u8) -> bool {
    (word >> ((pin + 16) as u32)) & 1 == 1
}

/// The level a pin ends up at. A word that names both halves drives it high.
pub open spec fn next_level(word: u32, pin: u8, before: bool) -> bool {
    if drives_high(word, pin) {
        true
    } else if drives_low(word, pin) {
        false
    } else {
        before
    }
}

/// The level of a pin after the first `n` words.
pub open spec fn level_at(buf: Seq<u32>, pin: u8, n: nat, idle: bool) -> bool
    decreases n,
{
    if n == 0 {
        idle
    } else {
        next_level(buf[n - 1], pin, level_at(buf, pin, (n - 1) as nat, idle))
    }
}

/// Bit facts about mask words and single-pin words.
pub proof fn lemma_word_bits(mask: u16, pin: u32, word: u32, bit: u32, k: u32)
    by (bit_vector)
    requires
        pin < 16,
        bit < 32,
        k < 32,
    ensures
        (((mask as u32) >> pin) & 1) == ((mask >> (pin as u16)) & 1) as u32,
        (((mask as u32) >> ((pin + 16) as u32)) & 1) == 0,
        ((((mask * 0x1_0000) as u32) >> ((pin + 16) as u32)) & 1) == ((mask >> (pin as u16))
            & 1) as u32,
        ((((mask * 0x1_0000) as u32) >> pin) & 1) == 0,
        (((word | (1u32 << bit)) >> k) & 1 == 1) == (k == bit || (word >> k) & 1 == 1),
        (0u32 >> k) & 1 == 0,
        word | word == word,
        0 | word == word,
{
}

/// The waveform on a driven pin is its frame: in every symbol the line is
/// active in state 0, stays active in state 1 exactly for a `1`, and is idle in
/// state 2 and throughout the hold states.
pub proof fn law_waveform_is_the_frame(
    buf: Seq<u32>,
    port_mask: u16,
    inverted: bool,
    pin: u8,
    value: u16,
    s: int,
)
    requires
        pin < 16,
        dshot_frame::bit_set(port_mask, pin as u16),
        has_skeleton(buf, port_mask, inverted),
        forall|t: int|
            #![trigger buf[3 * t + 1]]
            0 <= t < 16 ==> !(if inverted {
                drives_low(buf[3 * t + 1], pin)
            } else {
                drives_high(buf[3 * t + 1], pin)
            }) && (if inverted {
                drives_high(buf[3 * t + 1], pin)
            } else {
                drives_low(buf[3 * t + 1], pin)
            } <==> !symbol_bit(value, t)),
        0 <= s < 16,
    ensures
        level_at(buf, pin, (3 * s + 1) as nat, inverted) == !inverted,
        level_at(buf, pin, (3 * s + 2) as nat, inverted) == (symbol_bit(value, s) != inverted),
        level_at(buf, pin, (3 * s + 3) as nat, inverted) == inverted,
        level_at(buf, pin, 49, inverted) == inverted,
        level_at(buf, pin, 50, inverted) == inverted,
        level_at(buf, pin, 51, inverted) == inverted,
{
    lemma_word_bits(port_mask, pin as u32, 0, 0, pin as u32);
    lemma_word_bits(port_mask, pin as u32, 0, 0, (pin + 16) as u32);
    assert(buf[3 * s] == assert_word(port_mask, inverted));
    assert(buf[3 * s + 2] == deassert_word(port_mask, inverted));
    assert(buf[3 * s + 1] == buf[3 * s + 1]);
    assert(level_at(buf, pin, (3 * s + 1) as nat, inverted) == !inverted);
    assert(level_at(buf, pin, (3 * s + 2) as nat, inverted) == (symbol_bit(value, s) != inverted));
    assert(level_at(buf, pin, 49, inverted) == inverted);
    assert(level_at(buf, pin, 50, inverted) == inverted);
}

/// The word that takes one pin to idle takes it high when inverted and low when not, and
/// leaves every other pin.
pub proof fn law_middle_word_moves_one_pin(pin: u8, other: u8, inverted: bool, before: bool)
    requires
        pin < 16,
        other < 16,
    ensures
        next_level(middle_word(pin, inverted), other, before) == (if other == pin {
            inverted
        } else {
            before
        }),
{
    let at: u32 = if inverted {
        pin as u32
    } else {
        (pin + 16) as u32
    };
    lemma_word_bits(0, other as u32, 0, at, other as u32);
    lemma_word_bits(0, other as u32, 0, at, (other + 16) as u32);
    lemma_word_bits(0, other as u32, 1u32 << at, at, other as u32);
}

/// The words of a whole port take its pins to the active and to the idle level, high and
/// low, or the other way round when inverted; other pins stay.
pub proof fn law_port_words(mask: u16, pin: u8, inverted: bool, before: bool)
    requires
        pin < 16,
    ensures
        next_level(assert_word(mask, inverted), pin, before) == (if dshot_frame::bit_set(
            mask,
            pin as u16,
        ) {
            !inverted
        } else {
            before
        }),
        next_level(deassert_word(mask, inverted), pin, before) == (if dshot_frame::bit_set(
            mask,
            pin as u16,
        ) {
            inverted
        } else {
            before
        }),
{
    lemma_word_bits(mask, pin as u32, 0, 0, 0);
}

/// Words that are clear change no pin in the middle of a symbol.
pub proof fn law_clear_middles_change_nothing(buf: Seq<u32>, pin: u8, s: int, idle: bool)
    requires
        middles_clear(buf),
        pin < 16,
        0 <= s < 16,
    ensures
        level_at(buf, pin, (3 * s + 2) as nat, idle) == level_at(
            buf,
            pin,
            (3 * s + 1) as nat,
            idle,
        ),
{
    assert(buf[3 * s + 1] == 0);
    lemma_word_bits(0, pin as u32, 0, 0, pin as u32);
    lemma_word_bits(0, pin as u32, 0, 0, (pin + 16) as u32);
}

} // verus!
