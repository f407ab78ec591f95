//! Bit-banged DShot on one GPIO port: which motor drives which pad, what goes
//! into the shared transmit buffer, and what is read out of the receive window.
//!
//! A timer paces the transfer of set/reset words to the port, so the motor pins
//! are plain GPIO throughout. All driven motors share one buffer; per-pin data
//! lives in the middle state of each symbol.

use crate::drivers::dshot_bb_decode;
use crate::drivers::dshot_bb_decode::{decode, BbTelemetry};
use crate::drivers::dshot_bb_frame;
use crate::drivers::dshot_bb_frame::{
    output_data_clear, output_data_init, output_data_set, BB_BUF_LEN,
};
use crate::drivers::dshot_frame;
use crate::drivers::dshot_frame::DshotFrame;
use crate::text;
use vstd::prelude::*;
use vstd::string::*;

verus! {

/// All four motor pads.
pub const PORT_MASK: u16 = 0b1111;

/// Timer period of the transmit pacer: three states per bit at 600 kbit/s from
/// a 240 MHz clock.
pub const TX_ARR: u32 = 132;

/// Timer period of the receive pacer: three samples per bit at 5/4 of the
/// transmit rate.
pub const RX_ARR: u32 = 106;

/// First frame after which the receive window is reported.
pub const RX_PROBE_START: u32 = 8000;

/// Frames between two reports of the receive window.
pub const RX_PROBE_EVERY: u32 = 4000;

/// Runs kept in one report of the receive window.
pub const MAX_RUNS: usize = 40;

// ---- Motor to pad mapping ----

/// Why a motor mapping was refused.
#[derive(Debug, Clone, Copy, PartialEq, Eq, Structural)]
pub enum MappingError {
    /// Both knobs are set; which one wins would be undefined.
    BothSet,
    /// `ONLY_MOTOR` is not a single digit 1-4.
    OnlyMotor,
    /// `MOTOR_PIN_ORDER` is not four digits.
    OrderLength,
    /// A digit of `MOTOR_PIN_ORDER` is not 0-4.
    OrderDigit,
    /// A pad is used twice.
    OrderRepeated,
    /// Every motor is unassigned.
    OrderEmpty,
}

/// The pad a digit names, `None` for "not driven".
pub open spec fn digit_pad(d: u8) -> Option<u8> {
    if 49 <= d <= 52 {
        Some((d - 49) as u8)
    } else {
        None
    }
}

/// The pads named by a string of digits, or the first thing wrong with it.
pub open spec fn order_pads(s: Seq<u8>) -> Result<Seq<Option<u8>>, MappingError>
    decreases s.len(),
{
    if s.len() == 0 {
        Ok(Seq::empty())
    } else {
        match order_pads(s.drop_last()) {
            Err(e) => Err(e),
            Ok(pads) => if s.last() == 48 {
                Ok(pads.push(None))
            } else if digit_pad(s.last()) is None {
                Err(MappingError::OrderDigit)
            } else if pads.contains(digit_pad(s.last())) {
                Err(MappingError::OrderRepeated)
            } else {
                Ok(pads.push(digit_pad(s.last())))
            },
        }
    }
}

/// The mapping the two build-time knobs ask for.
pub open spec fn requested_pads(order: Option<Seq<u8>>, only: Option<Seq<u8>>) -> Result<
    Seq<Option<u8>>,
    MappingError,
> {
    match (order, only) {
        (Some(_), Some(_)) => Err(MappingError::BothSet),
        (None, Some(s)) => if s.len() == 1 && 49 <= s[0] <= 52 {
            Ok(Seq::new(4, |i: int| if i == s[0] - 49 { Some((s[0] - 49) as u8) } else { None }))
        } else {
            Err(MappingError::OnlyMotor)
        },
        (None, None) => Ok(seq![Some(0u8), Some(1u8), Some(2u8), Some(3u8)]),
        (Some(s), None) => if s.len() != 4 {
            Err(MappingError::OrderLength)
        } else {
            match order_pads(s) {
                Err(e) => Err(e),
                Ok(pads) => if forall|i: int| 0 <= i < 4 ==> pads[i] is None {
                    Err(MappingError::OrderEmpty)
                } else {
                    Ok(pads)
                },
            }
        },
    }
}

/// A usable mapping: every pad is one of the four, no pad is used twice and at
/// least one motor is driven.
pub open spec fn wf_pads(pads: Seq<Option<u8>>) -> bool {
    &&& pads.len() == 4
    &&& forall|i: int| #![trigger pads[i]] 0 <= i < 4 ==> (pads[i] matches Some(p) ==> p < 4)
    &&& forall|i: int, j: int|
        #![trigger pads[i], pads[j]]
        0 <= i < j < 4 ==> pads[i] is None || pads[i] != pads[j]
    &&& exists|i: int| #![trigger pads[i]] 0 <= i < 4 && pads[i] is Some
}

/// Resolves the motor-to-pad mapping. `MOTOR_PIN_ORDER` is four digits, one per
/// motor, naming the pad it drives (0 = not driven); `ONLY_MOTOR` drives a
/// single motor on its own pad. A malformed value is an error, never a silent
/// fallback.
pub fn parse_mapping(order: Option<&str>, only: Option<&str>) -> (pads: Result<
    [Option<u8>; 4],
    MappingError,
>)
    ensures
        pads matches Ok(p) ==> requested_pads(text::text_bytes(order), text::text_bytes(only)) == Ok::<
            Seq<Option<u8>>,
            MappingError,
        >(p@),
        pads matches Err(e) ==> requested_pads(text::text_bytes(order), text::text_bytes(only)) == Err::<
            Seq<Option<u8>>,
            MappingError,
        >(e),
        pads matches Ok(p) ==> wf_pads(p@),
{
    if order.is_some() && only.is_some() {
        return Err(MappingError::BothSet);
    }
    if let Some(given) = only {
        let b: &[u8] = given.as_bytes();
        if b.len() != 1 || b[0] < 49 || b[0] > 52 {
            return Err(MappingError::OnlyMotor);
        }
        let m: u8 = b[0] - 49;
        let mut out: [Option<u8>; 4] = [None, None, None, None];
        out[m as usize] = Some(m);
        assert(out@ =~= requested_pads(text::text_bytes(order), text::text_bytes(only))->Ok_0);
        assert(out@[m as int] is Some);
        return Ok(out);
    }
    let given: &str = match order {
        None => {
            let out: [Option<u8>; 4] = [Some(0), Some(1), Some(2), Some(3)];
            assert(out@ =~= requested_pads(None, None)->Ok_0);
            assert(out@[0] is Some);
            return Ok(out);
        },
        Some(given) => given,
    };
    let b: &[u8] = given.as_bytes();
    if b.len() != 4 {
        return Err(MappingError::OrderLength);
    }
    let mut out: [Option<u8>; 4] = [None, None, None, None];
    let mut seen: [bool; 4] = [false; 4];
    let mut any: bool = false;
    let mut i: usize = 0;
    assert(b@.take(0) =~= Seq::empty());
    assert(out@.take(0) =~= Seq::empty());
    while i < 4
        invariant
            i <= 4,
            b@.len() == 4,
            order == Some(given),
            only is None,
            b@ == given.spec_bytes(),
            order_pads(b@.take(i as int)) == Ok::<Seq<Option<u8>>, MappingError>(
                out@.take(i as int),
            ),
            forall|p: int| 0 <= p < 4 ==> #[trigger] seen@[p] == out@.take(i as int).contains(
                Some(p as u8),
            ),
            forall|k: int| i <= k < 4 ==> #[trigger] out@[k] is None,
            forall|k: int|
                #![trigger out@[k]]
                0 <= k < 4 ==> (out@[k] matches Some(p) ==> p < 4),
            forall|k: int, j: int|
                #![trigger out@[k], out@[j]]
                0 <= k < j < 4 ==> out@[k] is None || out@[k] != out@[j],
            any == exists|k: int| #![trigger out@[k]] 0 <= k < i && out@[k] is Some,
        decreases 4 - i,
    {
        let ghost before = out@;
        let ghost prior = out@.take(i as int);
        let d: u8 = b[i];
        assert(b@.take(i + 1).drop_last() =~= b@.take(i as int));
        proof {
            lemma_order_error_is_final(b@, i + 1);
        }
        if d == 48 {
            assert(out@.take(i + 1) =~= prior.push(None));
            assert forall|p: int| 0 <= p < 4 implies #[trigger] seen@[p] == out@.take(
                i + 1,
            ).contains(Some(p as u8)) by {
                lemma_contains_push(prior, None, Some(p as u8));
            }
            i += 1;
            continue;
        }
        if d < 49 || d > 52 {
            return Err(MappingError::OrderDigit);
        }
        let pad: u8 = d - 49;
        if seen[pad as usize] {
            return Err(MappingError::OrderRepeated);
        }
        seen[pad as usize] = true;
        out[i] = Some(pad);
        any = true;
        proof {
            assert(out@.take(i + 1) =~= prior.push(Some(pad)));
            assert(out@[i as int] is Some);
            assert forall|p: int| 0 <= p < 4 implies #[trigger] seen@[p] == out@.take(
                i + 1,
            ).contains(Some(p as u8)) by {
                lemma_contains_push(prior, Some(pad), Some(p as u8));
            }
            assert forall|k: int, j: int|
                #![trigger out@[k], out@[j]]
                0 <= k < j < 4 implies out@[k] is None || out@[k] != out@[j] by {
                if j == i && out@[k] == Some(pad) {
                    assert(prior[k] == Some(pad));
                    assert(prior.contains(Some(pad)));
                }
            }
        }
        i += 1;
    }
    assert(b@.take(4) =~= b@);
    assert(out@.take(4) =~= out@);
    if !any {
        return Err(MappingError::OrderEmpty);
    }
    assert(!(forall|k: int| 0 <= k < 4 ==> out@[k] is None)) by {
        let k = choose|k: int| #![trigger out@[k]] 0 <= k < 4 && out@[k] is Some;
        assert(out@[k] is Some);
    }
    Ok(out)
}

proof fn lemma_contains_push(s: Seq<Option<u8>>, x: Option<u8>, y: Option<u8>)
    ensures
        s.push(x).contains(y) == (s.contains(y) || x == y),
{
    if s.contains(y) {
        let i = choose|i: int| 0 <= i < s.len() && s[i] == y;
        assert(s.push(x)[i] == y);
    }
    if x == y {
        assert(s.push(x)[s.len() as int] == y);
    }
}

proof fn lemma_order_error_is_final(s: Seq<u8>, k: int)
    requires
        0 <= k <= s.len(),
    ensures
        order_pads(s.take(k)) is Err ==> order_pads(s) == order_pads(s.take(k)),
    decreases s.len(),
{
    if k == s.len() {
        assert(s.take(k) =~= s);
    } else {
        assert(s.drop_last().take(k) =~= s.take(k));
        lemma_order_error_is_final(s.drop_last(), k);
    }
}

/// Every mapping that is accepted is usable.
pub proof fn law_accepted_mapping_is_usable(order: Option<Seq<u8>>, only: Option<Seq<u8>>)
    requires
        requested_pads(order, only) is Ok,
    ensures
        wf_pads(requested_pads(order, only)->Ok_0),
{
    match (order, only) {
        (Some(s), None) => {
            lemma_order_pads(s);
            let pads = order_pads(s)->Ok_0;
            let k = choose|k: int| 0 <= k < 4 && !(pads[k] is None);
            assert(pads[k] is Some);
        },
        (None, Some(s)) => {
            let pads = requested_pads(order, only)->Ok_0;
            assert(pads[s[0] - 49] is Some);
        },
        _ => {
            assert(requested_pads(order, only)->Ok_0[0] is Some);
        },
    }
}

proof fn lemma_order_pads(s: Seq<u8>)
    requires
        order_pads(s) is Ok,
    ensures
        order_pads(s)->Ok_0.len() == s.len(),
        forall|i: int|
            #![trigger order_pads(s)->Ok_0[i]]
            0 <= i < s.len() ==> order_pads(s)->Ok_0[i] == digit_pad(s[i]),
        forall|i: int, j: int|
            #![trigger order_pads(s)->Ok_0[i], order_pads(s)->Ok_0[j]]
            0 <= i < j < s.len() ==> order_pads(s)->Ok_0[i] is None || order_pads(s)->Ok_0[i]
                != order_pads(s)->Ok_0[j],
    decreases s.len(),
{
    if s.len() > 0 {
        lemma_order_pads(s.drop_last());
        let before = order_pads(s.drop_last())->Ok_0;
        let after = order_pads(s)->Ok_0;
        assert forall|i: int, j: int|
            #![trigger after[i], after[j]]
            0 <= i < j < s.len() implies after[i] is None || after[i] != after[j] by {
            if j == s.len() - 1 && after[i] == after[j] && after[i] is Some {
                assert(before[i] == after[j]);
                assert(before.contains(after[j]));
            }
        }
    }
}

/// `ONLY_MOTOR=m` is shorthand for a `MOTOR_PIN_ORDER` with one driven motor on
/// its own pad.
pub proof fn law_only_motor_is_shorthand(m: u8, order: Seq<u8>)
    requires
        1 <= m <= 4,
        order == Seq::new(4, |i: int| if i == m - 1 { (48 + m) as u8 } else { 48u8 }),
    ensures
        requested_pads(Some(order), None) == requested_pads(None, Some(seq![(48 + m) as u8])),
{
    let d = (48 + m) as u8;
    reveal_with_fuel(order_pads, 5);
    let s1 = order.take(1);
    let s2 = order.take(2);
    let s3 = order.take(3);
    assert(order.drop_last() =~= s3);
    assert(s3.drop_last() =~= s2);
    assert(s2.drop_last() =~= s1);
    assert(s1.drop_last() =~= Seq::empty());
    let want = requested_pads(None, Some(seq![d]))->Ok_0;
    assert(want[m - 1] == Some((m - 1) as u8));
    lemma_first_driven(order, 4, (m - 1) as int);
    assert(order_pads(order)->Ok_0 =~= want);
}

proof fn lemma_first_driven(order: Seq<u8>, k: int, at: int)
    requires
        0 <= k <= order.len(),
        order.len() == 4,
        0 <= at < 4,
        forall|i: int| 0 <= i < 4 && i != at ==> order[i] == 48,
        49 <= order[at] <= 52,
    ensures
        order_pads(order.take(k)) == Ok::<Seq<Option<u8>>, MappingError>(
            Seq::new(k as nat, |i: int| if i == at { digit_pad(order[at]) } else { None }),
        ),
        order.take(4) =~= order,
    decreases k,
{
    if k > 0 {
        lemma_first_driven(order, k - 1, at);
        assert(order.take(k).drop_last() =~= order.take(k - 1));
        let before = Seq::new(
            (k - 1) as nat,
            |i: int| if i == at { digit_pad(order[at]) } else { None },
        );
        let after = Seq::new(k as nat, |i: int| if i == at { digit_pad(order[at]) } else { None });
        if k - 1 == at {
            assert(!before.contains(digit_pad(order[at])));
            assert(after =~= before.push(digit_pad(order[at])));
        } else {
            assert(after =~= before.push(None));
        }
    } else {
        assert(order.take(0) =~= Seq::empty());
        assert(Seq::new(0nat, |i: int| if i == at { digit_pad(order[at]) } else { None })
            =~= Seq::empty());
    }
}

/// The pad each motor is associated with, driven or not.
pub fn motor_pins(pads: &[Option<u8>; 4]) -> (pins: [u8; 4])
    ensures
        forall|i: int|
            #![trigger pins@[i]]
            0 <= i < 4 ==> pins@[i] == (match pads@[i] {
                Some(p) => p,
                None => i as u8,
            }),
{
    let mut pins: [u8; 4] = [0, 1, 2, 3];
    let mut i: usize = 0;
    while i < 4
        invariant
            i <= 4,
            forall|k: int|
                #![trigger pins@[k]]
                0 <= k < i ==> pins@[k] == (match pads@[k] {
                    Some(p) => p,
                    None => k as u8,
                }),
            forall|k: int| i <= k < 4 ==> pins@[k] == k,
        decreases 4 - i,
    {
        if let Some(p) = pads[i] {
            pins[i] = p;
        }
        i += 1;
    }
    pins
}

/// Whether a motor is driven.
pub fn is_active(pads: &[Option<u8>; 4], i: usize) -> (active: bool)
    requires
        i < 4,
    ensures
        active == pads@[i as int] is Some,
{
    pads[i].is_some()
}

/// The pads driven by the first `n` motors, in motor order.
pub open spec fn driven_pads(pads: Seq<Option<u8>>, n: nat) -> Seq<u8>
    decreases n,
{
    if n == 0 {
        Seq::empty()
    } else {
        match pads[n - 1] {
            Some(p) => driven_pads(pads, (n - 1) as nat).push(p),
            None => driven_pads(pads, (n - 1) as nat),
        }
    }
}

/// The pads that are driven, in motor order.
pub fn active_pins(pads: &[Option<u8>; 4]) -> (pins: Vec<u8>)
    ensures
        pins@ == driven_pads(pads@, 4),
{
    let mut pins: Vec<u8> = Vec::new();
    let mut i: usize = 0;
    while i < 4
        invariant
            i <= 4,
            pins@ == driven_pads(pads@, i as nat),
        decreases 4 - i,
    {
        if let Some(p) = pads[i] {
            pins.push(p);
        }
        i += 1;
    }
    pins
}

/// The sum of `2^p` over the pads driven by the first `n` motors, as a mask.
pub open spec fn pads_mask(pads: Seq<Option<u8>>, n: nat) -> u16
    decreases n,
{
    if n == 0 {
        0
    } else {
        match pads[n - 1] {
            Some(p) => pads_mask(pads, (n - 1) as nat) | (1u16 << (p as u16)),
            None => pads_mask(pads, (n - 1) as nat),
        }
    }
}

/// Port mask that covers only the driven pads.
pub fn active_mask(pads: &[Option<u8>; 4]) -> (mask: u16)
    requires
        wf_pads(pads@),
    ensures
        mask == pads_mask(pads@, 4),
{
    let mut mask: u16 = 0;
    let mut i: usize = 0;
    while i < 4
        invariant
            i <= 4,
            wf_pads(pads@),
            mask == pads_mask(pads@, i as nat),
        decreases 4 - i,
    {
        if let Some(p) = pads[i] {
            assert(pads@[i as int] == Some(p));
            mask = mask | (1u16 << (p as u16));
        }
        i += 1;
    }
    mask
}

/// The mask covers a pad exactly when some motor drives it.
pub proof fn law_mask_covers_driven_pads(pads: Seq<Option<u8>>, n: nat, p: u8)
    requires
        wf_pads(pads),
        n <= 4,
        p < 16,
    ensures
        dshot_frame::bit_set(pads_mask(pads, n), p as u16) <==> exists|i: int|
            #![trigger pads[i]]
            0 <= i < n && pads[i] == Some(p),
    decreases n,
{
    if n == 0 {
        lemma_mask_bit(0, 0, p as u16);
    } else {
        let m = (n - 1) as nat;
        law_mask_covers_driven_pads(pads, m, p);
        if let Some(q) = pads[n - 1] {
            lemma_mask_bit(pads_mask(pads, m), q as u16, p as u16);
        }
        assert(pads[n - 1] == pads[n - 1]);
    }
}

proof fn lemma_mask_bit(m: u16, q: u16, k: u16)
    by (bit_vector)
    requires
        q < 16,
        k < 16,
    ensures
        (((m | (1u16 << q)) >> k) & 1 == 1) == (k == q || (m >> k) & 1 == 1),
        (0u16 >> k) & 1 != 1,
{
}

/// Whether the mapping differs from M1..M4 on pads 0..3 and should be announced.
pub fn is_remapped(pads: &[Option<u8>; 4]) -> (remapped: bool)
    ensures
        remapped == !(pads@[0] == Some(0u8) && pads@[1] == Some(1u8) && pads@[2] == Some(2u8)
            && pads@[3] == Some(3u8)),
{
    let a: bool = match pads[0] { Some(p) => p == 0, None => false };
    let b: bool = match pads[1] { Some(p) => p == 1, None => false };
    let c: bool = match pads[2] { Some(p) => p == 2, None => false };
    let d: bool = match pads[3] { Some(p) => p == 3, None => false };
    !(a && b && c && d)
}

/// The set/reset word that puts every driven pad at its idle level: high for
/// bidirectional DShot, low otherwise.
pub fn idle_word(pads: &[Option<u8>; 4], bidir: bool) -> (word: u32)
    requires
        wf_pads(pads@),
    ensures
        word == dshot_bb_frame::deassert_word(pads_mask(pads@, 4), bidir),
{
    let mask: u32 = active_mask(pads) as u32;
    if bidir {
        mask
    } else {
        mask * 0x1_0000
    }
}

// ---- One frame on all motors ----

/// Position of the bit that drives `pin` to its idle level.
pub open spec fn idle_bit(pin: u8, bidir: bool) -> u32 {
    if bidir {
        pin as u32
    } else {
        (pin + 16) as u32
    }
}

/// Whether bit `k` of symbol `s`'s middle state belongs to one of the first `n`
/// motors and its frame has a `0` there.
pub open spec fn deasserts_early(
    pads: Seq<Option<u8>>,
    frames: Seq<DshotFrame>,
    bidir: bool,
    n: nat,
    s: int,
    k: u32,
) -> bool
    decreases n,
{
    n > 0 && (deasserts_early(pads, frames, bidir, (n - 1) as nat, s, k) || (pads[n
        - 1] matches Some(p) && idle_bit(p, bidir) == k && !dshot_bb_frame::symbol_bit(
        frames[n - 1].raw,
        s,
    )))
}

/// Whether bit `k` of a word is set.
pub open spec fn word_bit(word: u32, k: u32) -> bool {
    (word >> k) & 1 == 1
}

/// Whether the middle states of a buffer carry exactly the given frames.
pub open spec fn carries(
    buf: Seq<u32>,
    pads: Seq<Option<u8>>,
    frames: Seq<DshotFrame>,
    bidir: bool,
    n: nat,
) -> bool {
    forall|s: int, k: u32|
        #![trigger word_bit(buf[3 * s + 1], k)]
        0 <= s < 16 && k < 32 ==> word_bit(buf[3 * s + 1], k) == deasserts_early(
            pads,
            frames,
            bidir,
            n,
            s,
            k,
        )
}

/// State of a bit-banged output.
pub struct DshotBitbang {
    pub pads: [Option<u8>; 4],
    pub bidir: bool,
    pub frame_count: u32,
}

/// What is to be done next while a frame is exchanged with the ESCs.
#[derive(Debug, Clone, Copy, PartialEq, Eq, Structural)]
pub enum ExchangeStep {
    /// Transfer the frame's words to the port.
    Transmit,
    /// Make the driven pads inputs.
    Release,
    /// Sample the port into the receive window at this pacer period.
    Sample { arr: u32 },
    /// Give the pacer back its transmit period.
    RestorePacer { arr: u32 },
    /// Write this set/reset word.
    DriveIdle { word: u32 },
    /// Make the driven pads outputs again.
    Drive,
    /// The exchange is over.
    Done,
}

/// The step after `step`, given the word that puts the driven pads at their idle level.
pub open spec fn following(step: ExchangeStep, idle_word: u32) -> ExchangeStep {
    match step {
        ExchangeStep::Transmit => ExchangeStep::Release,
        ExchangeStep::Release => ExchangeStep::Sample { arr: RX_ARR },
        ExchangeStep::Sample { .. } => ExchangeStep::RestorePacer { arr: TX_ARR },
        ExchangeStep::RestorePacer { .. } => ExchangeStep::DriveIdle { word: idle_word },
        ExchangeStep::DriveIdle { .. } => ExchangeStep::Drive,
        ExchangeStep::Drive => ExchangeStep::Done,
        ExchangeStep::Done => ExchangeStep::Done,
    }
}

/// Whether the receive window is reported after so many frames.
pub open spec fn is_probe_due(frame_count: u32) -> bool {
    frame_count >= RX_PROBE_START && frame_count % RX_PROBE_EVERY == 0
}

/// What a motor reports out of a receive window.
pub open spec fn reply_on(pad: Option<u8>, samples: Seq<u16>) -> BbTelemetry {
    match pad {
        Some(p) => dshot_bb_decode::line_content(dshot_bb_decode::levels(samples, p)),
        None => BbTelemetry::NoSignal,
    }
}

impl DshotBitbang {
    pub open spec fn wf(&self) -> bool {
        wf_pads(self.pads@)
    }

    pub fn new(pads: [Option<u8>; 4], bidir: bool) -> (out: Self)
        requires
            wf_pads(pads@),
        ensures
            out.wf(),
            out.pads@ == pads@,
            out.bidir == bidir,
            out.frame_count == 0,
    {
        DshotBitbang { pads, bidir, frame_count: 0 }
    }

    /// Puts one frame per driven motor into the shared transmit buffer and
    /// counts it. The port-wide skeleton is laid down with the first frame.
    pub fn send(&mut self, buf: &mut [u32; BB_BUF_LEN], frames: [DshotFrame; 4])
        requires
            old(self).wf(),
        ensures
            final(self).wf(),
            final(self).pads == old(self).pads,
            final(self).bidir == old(self).bidir,
            final(self).frame_count == (if old(self).frame_count == u32::MAX {
                0
            } else {
                old(self).frame_count + 1
            }),
            carries(final(buf)@, old(self).pads@, frames@, old(self).bidir, 4),
            old(self).frame_count != 0 ==> forall|i: int|
                0 <= i < 51 && !(i < 48 && i % 3 == 1) ==> #[trigger] final(buf)@[i] == old(
                    buf,
                )@[i],
            old(self).frame_count == 0 ==> {
                let mask = pads_mask(old(self).pads@, 4);
                let up = dshot_bb_frame::assert_word(mask, old(self).bidir);
                let down = dshot_bb_frame::deassert_word(mask, old(self).bidir);
                &&& forall|s: int|
                    #![trigger final(buf)@[3 * s]]
                    0 <= s < 16 ==> final(buf)@[3 * s] == old(buf)@[3 * s] | up
                &&& forall|s: int|
                    #![trigger final(buf)@[3 * s + 2]]
                    0 <= s < 16 ==> final(buf)@[3 * s + 2] == old(buf)@[3 * s + 2] | down
                &&& final(buf)@[48] == old(buf)@[48] | down
                &&& final(buf)@[49] == 0
                &&& final(buf)@[50] == 0
            },
    {
        let bidir: bool = self.bidir;
        if self.frame_count == 0 {
            output_data_init(buf, active_mask(&self.pads), bidir);
        } else {
            output_data_clear(buf);
        }
        let ghost skeleton = buf@;
        let ghost pads = self.pads@;
        proof {
            assert forall|s: int, k: u32|
                #![trigger word_bit(buf@[3 * s + 1], k)]
                0 <= s < 16 && k < 32 implies !word_bit(buf@[3 * s + 1], k) by {
                dshot_bb_frame::lemma_word_bits(0, 0, 0, 0, k);
            }
        }
        let mut i: usize = 0;
        while i < 4
            invariant
                i <= 4,
                *self == *old(self),
                self.wf(),
                pads == self.pads@,
                bidir == self.bidir,
                carries(buf@, pads, frames@, bidir, i as nat),
                forall|k: int|
                    0 <= k < 51 && !(k < 48 && k % 3 == 1) ==> #[trigger] buf@[k] == skeleton[k],
            decreases 4 - i,
        {
            if let Some(pin) = self.pads[i] {
                assert(pads[i as int] == Some(pin));
                let ghost before = buf@;
                output_data_set(buf, pin, frames[i].raw, bidir);
                proof {
                    assert forall|s: int, k: u32|
                        #![trigger word_bit(buf@[3 * s + 1], k)]
                        0 <= s < 16 && k < 32 implies word_bit(buf@[3 * s + 1], k)
                        == deasserts_early(pads, frames@, bidir, (i + 1) as nat, s, k) by {
                        assert(word_bit(before[3 * s + 1], k) == deasserts_early(
                            pads,
                            frames@,
                            bidir,
                            i as nat,
                            s,
                            k,
                        ));
                        dshot_bb_frame::lemma_word_bits(
                            0,
                            pin as u32,
                            before[3 * s + 1],
                            idle_bit(pin, bidir),
                            k,
                        );
                    }
                }
            } else {
                assert(carries(buf@, pads, frames@, bidir, (i + 1) as nat)) by {
                    assert forall|s: int, k: u32|
                        #![trigger word_bit(buf@[3 * s + 1], k)]
                        0 <= s < 16 && k < 32 implies word_bit(buf@[3 * s + 1], k)
                        == deasserts_early(pads, frames@, bidir, (i + 1) as nat, s, k) by {
                        assert(deasserts_early(pads, frames@, bidir, (i + 1) as nat, s, k)
                            == deasserts_early(pads, frames@, bidir, i as nat, s, k));
                    }
                }
            }
            i += 1;
        }
        self.frame_count = self.frame_count.wrapping_add(1);
    }

    /// The step after `step`. A reply is only sampled while the driven pads are
    /// inputs, and they are at their idle level before they drive again.
    pub fn next_step(&self, step: ExchangeStep) -> (next: ExchangeStep)
        requires
            self.wf(),
        ensures
            next == (match step {
                ExchangeStep::Transmit => ExchangeStep::Release,
                ExchangeStep::Release => ExchangeStep::Sample { arr: RX_ARR },
                ExchangeStep::Sample { .. } => ExchangeStep::RestorePacer { arr: TX_ARR },
                ExchangeStep::RestorePacer { .. } => ExchangeStep::DriveIdle {
                    word: dshot_bb_frame::deassert_word(pads_mask(self.pads@, 4), self.bidir),
                },
                ExchangeStep::DriveIdle { .. } => ExchangeStep::Drive,
                ExchangeStep::Drive => ExchangeStep::Done,
                ExchangeStep::Done => ExchangeStep::Done,
            }),
            next == following(
                step,
                dshot_bb_frame::deassert_word(pads_mask(self.pads@, 4), self.bidir),
            ),
    {
        match step {
            ExchangeStep::Transmit => ExchangeStep::Release,
            ExchangeStep::Release => ExchangeStep::Sample { arr: RX_ARR },
            ExchangeStep::Sample { .. } => ExchangeStep::RestorePacer { arr: TX_ARR },
            ExchangeStep::RestorePacer { .. } => ExchangeStep::DriveIdle {
                word: idle_word(&self.pads, self.bidir),
            },
            ExchangeStep::DriveIdle { .. } => ExchangeStep::Drive,
            ExchangeStep::Drive => ExchangeStep::Done,
            ExchangeStep::Done => ExchangeStep::Done,
        }
    }

    /// Whether the receive window of the frame just sent is to be reported.
    pub fn probe_due(&self) -> (due: bool)
        ensures
            due == (self.frame_count >= RX_PROBE_START && self.frame_count % RX_PROBE_EVERY == 0),
            due == is_probe_due(self.frame_count),
    {
        self.frame_count >= RX_PROBE_START && self.frame_count % RX_PROBE_EVERY == 0
    }

    /// Decodes all four replies out of one receive window. A motor that is not
    /// driven reports no signal.
    pub fn decode_replies(&self, samples: &[u16]) -> (out: [BbTelemetry; 4])
        requires
            self.wf(),
        ensures
            forall|i: int|
                #![trigger out@[i]]
                0 <= i < 4 ==> out@[i] == (match self.pads@[i] {
                    Some(pad) => dshot_bb_decode::line_content(
                        dshot_bb_decode::levels(samples@, pad),
                    ),
                    None => BbTelemetry::NoSignal,
                }),
            forall|i: int|
                #![trigger out@[i]]
                0 <= i < 4 ==> out@[i] == reply_on(self.pads@[i], samples@),
    {
        let mut out: [BbTelemetry; 4] = [BbTelemetry::NoSignal; 4];
        let mut i: usize = 0;
        while i < 4
            invariant
                i <= 4,
                self.wf(),
                forall|k: int|
                    #![trigger out@[k]]
                    0 <= k < i ==> out@[k] == (match self.pads@[k] {
                        Some(pad) => dshot_bb_decode::line_content(
                            dshot_bb_decode::levels(samples@, pad),
                        ),
                        None => BbTelemetry::NoSignal,
                    }),
                forall|k: int| i <= k < 4 ==> out@[k] == BbTelemetry::NoSignal,
            decreases 4 - i,
        {
            if let Some(pad) = self.pads[i] {
                assert(self.pads@[i as int] == Some(pad));
                out[i] = decode(samples, pad);
            }
            i += 1;
        }
        out
    }
}

/// Whoever is driven gets their own frame: on a buffer with the skeleton of the
/// driven pads that carries the given frames, the waveform on each driven pad
/// is that motor's frame, whatever the others send.
pub proof fn law_each_motor_gets_its_frame(
    buf: Seq<u32>,
    pads: Seq<Option<u8>>,
    frames: Seq<DshotFrame>,
    bidir: bool,
    motor: int,
    pin: u8,
    s: int,
)
    requires
        wf_pads(pads),
        frames.len() == 4,
        dshot_bb_frame::has_skeleton(buf, pads_mask(pads, 4), bidir),
        carries(buf, pads, frames, bidir, 4),
        0 <= motor < 4,
        pads[motor] == Some(pin),
        0 <= s < 16,
    ensures
        dshot_bb_frame::level_at(buf, pin, (3 * s + 1) as nat, bidir) == !bidir,
        dshot_bb_frame::level_at(buf, pin, (3 * s + 2) as nat, bidir)
            == (dshot_bb_frame::symbol_bit(frames[motor].raw, s) != bidir),
        dshot_bb_frame::level_at(buf, pin, (3 * s + 3) as nat, bidir) == bidir,
        dshot_bb_frame::level_at(buf, pin, 51, bidir) == bidir,
{
    law_mask_covers_driven_pads(pads, 4, pin);
    assert forall|t: int| #![trigger buf[3 * t + 1]] 0 <= t < 16 implies !(if bidir {
        dshot_bb_frame::drives_low(buf[3 * t + 1], pin)
    } else {
        dshot_bb_frame::drives_high(buf[3 * t + 1], pin)
    }) && (if bidir {
        dshot_bb_frame::drives_high(buf[3 * t + 1], pin)
    } else {
        dshot_bb_frame::drives_low(buf[3 * t + 1], pin)
    } <==> !dshot_bb_frame::symbol_bit(frames[motor].raw, t)) by {
        reveal_with_fuel(deasserts_early, 5);
        let low = pin as u32;
        let high = (pin + 16) as u32;
        assert(word_bit(buf[3 * t + 1], low) == deasserts_early(pads, frames, bidir, 4, t, low));
        assert(word_bit(buf[3 * t + 1], high) == deasserts_early(pads, frames, bidir, 4, t, high));
        assert(pads[0] == pads[0] && pads[1] == pads[1] && pads[2] == pads[2] && pads[3] == pads[3]);
    }
    dshot_bb_frame::law_waveform_is_the_frame(
        buf,
        pads_mask(pads, 4),
        bidir,
        pin,
        frames[motor].raw,
        s,
    );
}

// ---- Report of a receive window ----

/// What one pin did during a receive window.
pub struct RxProbe {
    /// Samples at low level.
    pub low: usize,
    /// Level changes.
    pub transitions: usize,
    /// Lengths of the first runs of one level, each capped at 255.
    pub runs: Vec<u8>,
    /// Bit `k` is set when run `k` is high.
    pub levels: u64,
    /// First low sample.
    pub first_edge: Option<usize>,
}

/// Low samples on a line.
pub open spec fn low_count(line: Seq<bool>) -> nat
    decreases line.len(),
{
    if line.len() == 0 {
        0
    } else {
        low_count(line.drop_last()) + if line.last() { 0nat } else { 1nat }
    }
}

/// Level changes on a line.
pub open spec fn change_count(line: Seq<bool>) -> nat
    decreases line.len(),
{
    if line.len() <= 1 {
        0
    } else {
        change_count(line.drop_last()) + if line.last() != line[line.len() - 2] { 1nat } else { 0nat }
    }
}

/// A run length as reported.
pub open spec fn capped(n: nat) -> u8 {
    if n > 255 {
        255
    } else {
        n as u8
    }
}

/// Whether a report says what the line did.
pub open spec fn reports(probe: RxProbe, line: Seq<bool>) -> bool {
    let all = dshot_bb_decode::runs(line);
    let kept = if all.len() < MAX_RUNS { all.len() } else { MAX_RUNS as nat };
    &&& probe.low == low_count(line)
    &&& probe.transitions == change_count(line)
    &&& probe.runs@ == Seq::new(kept, |k: int| capped(all[k]))
    &&& forall|k: u64|
        #![trigger (probe.levels >> k)]
        k < 64 ==> ((probe.levels >> k) & 1 == 1) == (k < kept && line[0] == (k % 2 == 0))
    &&& match probe.first_edge {
        Some(i) => i < line.len() && !line[i as int] && forall|k: int|
            0 <= k < i ==> #[trigger] line[k],
        None => forall|k: int| 0 <= k < line.len() ==> #[trigger] line[k],
    }
}

proof fn lemma_level_bit(levels: u64, n: u64, k: u64)
    by (bit_vector)
    requires
        n < 64,
        k < 64,
    ensures
        (((levels | (1u64 << n)) >> k) & 1 == 1) == (k == n || (levels >> k) & 1 == 1),
        (0u64 >> k) & 1 != 1,
{
}

fn saturating_inc(len: u8) -> (out: u8)
    ensures
        out == (if len == 255 { 255int } else { len + 1 }),
{
    if len == 255 {
        255
    } else {
        len + 1
    }
}

/// Reports what one pin did during a receive window.
pub fn probe_line(samples: &[u16], pin: u8) -> (probe: RxProbe)
    requires
        samples@.len() > 0,
        pin < 16,
    ensures
        reports(probe, dshot_bb_decode::levels(samples@, pin)),
{
    let ghost line = dshot_bb_decode::levels(samples@, pin);
    let first: bool = (samples[0] >> (pin as u16)) & 1 == 1;
    let mut low: usize = if first { 0 } else { 1 };
    let mut transitions: usize = 0;
    let mut runs: Vec<u8> = Vec::new();
    let mut levels: u64 = 0;
    let mut first_edge: Option<usize> = if first { None } else { Some(0) };
    let mut cur: bool = first;
    let mut len: u8 = 1;
    let mut i: usize = 1;
    // Finished runs, all of them.
    let mut n: usize = 0;
    proof {
        assert(line.take(1).drop_last() =~= Seq::empty());
        assert(low_count(line.take(1).drop_last()) == 0);
        dshot_bb_decode::lemma_single_run(line.take(1));
        assert forall|k: u64| k < 64 implies #[trigger] (levels >> k) & 1 != 1 by {
            lemma_level_bit(0, 0, k);
        }
    }
    while i < samples.len()
        invariant
            1 <= i <= samples@.len(),
            pin < 16,
            line == dshot_bb_decode::levels(samples@, pin),
            first == line[0],
            cur == line[i - 1],
            low == low_count(line.take(i as int)),
            low <= i,
            transitions == change_count(line.take(i as int)),
            transitions < i,
            n < i,
            dshot_bb_decode::runs(line.take(i as int)).len() == n + 1,
            len == capped(dshot_bb_decode::runs(line.take(i as int)).last()),
            cur == (first == (n % 2 == 0)),
            runs@.len() == (if n < MAX_RUNS { n } else { MAX_RUNS }),
            forall|k: int|
                0 <= k < runs@.len() ==> #[trigger] runs@[k] == capped(
                    dshot_bb_decode::runs(line.take(i as int))[k],
                ),
            forall|k: u64|
                #![trigger (levels >> k)]
                k < 64 ==> ((levels >> k) & 1 == 1) == (k < runs@.len() && first == (k % 2 == 0)),
            match first_edge {
                Some(e) => e < i && !line[e as int] && forall|k: int|
                    0 <= k < e ==> #[trigger] line[k],
                None => forall|k: int| 0 <= k < i ==> #[trigger] line[k],
            },
        decreases samples.len() - i,
    {
        let lvl: bool = (samples[i] >> (pin as u16)) & 1 == 1;
        let ghost before = dshot_bb_decode::runs(line.take(i as int));
        assert(lvl == line[i as int]);
        assert(line.take(i + 1).drop_last() =~= line.take(i as int));
        if !lvl {
            low += 1;
            if first_edge.is_none() {
                first_edge = Some(i);
            }
        }
        if lvl == cur {
            len = saturating_inc(len);
            assert(dshot_bb_decode::runs(line.take(i + 1)) =~= before.drop_last().push(
                before.last() + 1,
            ));
        } else {
            transitions += 1;
            if n < MAX_RUNS {
                let ghost old_levels = levels;
                runs.push(len);
                if cur {
                    levels = levels | (1u64 << (n as u64));
                }
                proof {
                    assert forall|k: u64|
                        #![trigger (levels >> k)]
                        k < 64 implies ((levels >> k) & 1 == 1) == (k < n + 1 && first == (k % 2
                        == 0)) by {
                        lemma_level_bit(old_levels, n as u64, k);
                        assert(((old_levels >> k) & 1 == 1) == (k < n && first == (k % 2 == 0)));
                    }
                }
            }
            n += 1;
            cur = lvl;
            len = 1;
            assert(dshot_bb_decode::runs(line.take(i + 1)) =~= before.push(1));
        }
        i += 1;
    }
    assert(line.take(line.len() as int) =~= line);
    if n < MAX_RUNS {
        let ghost old_levels = levels;
        runs.push(len);
        if cur {
            levels = levels | (1u64 << (n as u64));
        }
        proof {
            assert forall|k: u64|
                #![trigger (levels >> k)]
                k < 64 implies ((levels >> k) & 1 == 1) == (k < n + 1 && first == (k % 2 == 0)) by {
                lemma_level_bit(old_levels, n as u64, k);
                assert(((old_levels >> k) & 1 == 1) == (k < n && first == (k % 2 == 0)));
            }
        }
    }
    proof {
        let all = dshot_bb_decode::runs(line);
        let kept = if all.len() < MAX_RUNS { all.len() } else { MAX_RUNS as nat };
        assert(runs@ =~= Seq::new(kept, |k: int| capped(all[k])));
    }
    RxProbe { low, transitions, runs, levels, first_edge }
}

// ---- What the knobs ask for ----

proof fn lemma_order_is_accepted(s: Seq<u8>)
    requires
        forall|i: int| 0 <= i < s.len() ==> 48 <= #[trigger] s[i] <= 52,
        forall|i: int, j: int|
            #![trigger s[i], s[j]]
            0 <= i < j < s.len() ==> s[i] == 48 || s[i] != s[j],
    ensures
        order_pads(s) is Ok,
    decreases s.len(),
{
    if s.len() > 0 {
        let before = s.drop_last();
        lemma_order_is_accepted(before);
        lemma_order_pads(before);
        let pads = order_pads(before)->Ok_0;
        let d = s.last();
        assert(48 <= s[s.len() - 1] <= 52);
        if d != 48 && pads.contains(digit_pad(d)) {
            let i = choose|i: int| 0 <= i < pads.len() && pads[i] == digit_pad(d);
            assert(pads[i] == digit_pad(before[i]));
            assert(s[i] == before[i]);
            assert(s[i] == 48 || s[i] != s[s.len() - 1]);
        }
    }
}

proof fn lemma_accepted_order(s: Seq<u8>)
    requires
        order_pads(s) is Ok,
    ensures
        forall|i: int| 0 <= i < s.len() ==> 48 <= #[trigger] s[i] <= 52,
    decreases s.len(),
{
    if s.len() > 0 {
        lemma_accepted_order(s.drop_last());
        assert forall|i: int| 0 <= i < s.len() implies 48 <= #[trigger] s[i] <= 52 by {
            if i < s.len() - 1 {
                assert(s.drop_last()[i] == s[i]);
            }
        }
    }
}

/// An order is four digits, one for each motor: `1` to `4` for the pads in turn, no pad
/// twice, `0` for a motor that is not driven, and not all of them. Every such order is
/// followed, and nothing else is accepted.
pub proof fn law_order_is_followed(s: Seq<u8>)
    ensures
        requested_pads(Some(s), None) is Ok <==> s.len() == 4 && (forall|i: int|
            0 <= i < 4 ==> 48 <= #[trigger] s[i] <= 52) && (forall|i: int, j: int|
            #![trigger s[i], s[j]]
            0 <= i < j < 4 ==> s[i] == 48 || s[i] != s[j]) && (exists|i: int|
            0 <= i < 4 && #[trigger] s[i] != 48),
        requested_pads(Some(s), None) matches Ok(pads) ==> pads.len() == 4 && forall|i: int|
            #![trigger pads[i]]
            0 <= i < 4 ==> (if s[i] == 48 {
                pads[i] is None
            } else {
                pads[i] is Some && pads[i]->0 + 49 == s[i]
            }),
        s.len() != 4 ==> requested_pads(Some(s), None) == Err::<Seq<Option<u8>>, MappingError>(
            MappingError::OrderLength,
        ),
{
    let good = s.len() == 4 && (forall|i: int| 0 <= i < 4 ==> 48 <= #[trigger] s[i] <= 52) && (
    forall|i: int, j: int|
        #![trigger s[i], s[j]]
        0 <= i < j < 4 ==> s[i] == 48 || s[i] != s[j]) && (exists|i: int|
        0 <= i < 4 && #[trigger] s[i] != 48);
    if good {
        lemma_order_is_accepted(s);
        lemma_order_pads(s);
        let i = choose|i: int| 0 <= i < 4 && #[trigger] s[i] != 48;
        assert(order_pads(s)->Ok_0[i] == digit_pad(s[i]));
    }
    if requested_pads(Some(s), None) is Ok {
        lemma_order_pads(s);
        lemma_accepted_order(s);
        let pads = order_pads(s)->Ok_0;
        let i = choose|i: int| 0 <= i < 4 && !(pads[i] is None);
        assert(pads[i] == digit_pad(s[i]));
        assert(s[i] != 48);
        assert forall|i: int, j: int|
            #![trigger s[i], s[j]]
            0 <= i < j < 4 implies s[i] == 48 || s[i] != s[j] by {
            assert(pads[i] == digit_pad(s[i]) && pads[j] == digit_pad(s[j]));
        }
    }
}

/// A single motor is one digit, `1` to `4`, and drives its own pad alone. Without a knob
/// every motor drives its own; with both there is no mapping.
pub proof fn law_single_motor(s: Seq<u8>, other: Seq<u8>)
    ensures
        requested_pads(None, Some(s)) is Ok <==> s.len() == 1 && 49 <= s[0] <= 52,
        requested_pads(None, Some(s)) matches Ok(pads) ==> pads.len() == 4 && forall|i: int|
            #![trigger pads[i]]
            0 <= i < 4 ==> (if i + 49 == s[0] {
                pads[i] is Some && pads[i]->0 == i
            } else {
                pads[i] is None
            }),
        requested_pads(None, None) matches Ok(pads) && pads.len() == 4 && forall|i: int|
            #![trigger pads[i]]
            0 <= i < 4 ==> pads[i] is Some && pads[i]->0 == i,
        requested_pads(Some(other), Some(s)) == Err::<Seq<Option<u8>>, MappingError>(
            MappingError::BothSet,
        ),
{
}

/// Three states are a bit at 600 thousand bits per second, three samples a bit of the
/// reply, which is a quarter faster, from a clock of 240 MHz: no other period comes
/// nearer than a state less or more.
pub proof fn law_pacers_keep_the_bit_rate()
    ensures
        3 * 600_000 * TX_ARR < 240_000_000 < 3 * 600_000 * (TX_ARR + 2),
        3 * 750_000 * RX_ARR < 240_000_000 < 3 * 750_000 * (RX_ARR + 2),
{
}

/// A frame is exchanged in seven steps: it is sent, the pads are released, the reply is
/// sampled at its own pace, the pace is restored, the pads are set to idle before they
/// drive, and there it ends.
pub proof fn law_exchange(idle_word: u32, any: u32)
    ensures
        following(ExchangeStep::Transmit, idle_word) == ExchangeStep::Release,
        following(ExchangeStep::Release, idle_word) == (ExchangeStep::Sample { arr: 106 }),
        following(ExchangeStep::Sample { arr: any }, idle_word) == (ExchangeStep::RestorePacer {
            arr: 132,
        }),
        following(ExchangeStep::RestorePacer { arr: any }, idle_word) == (ExchangeStep::DriveIdle {
            word: idle_word,
        }),
        following(ExchangeStep::DriveIdle { word: any }, idle_word) == ExchangeStep::Drive,
        following(ExchangeStep::Drive, idle_word) == ExchangeStep::Done,
        following(ExchangeStep::Done, idle_word) == ExchangeStep::Done,
{
}

/// The window is reported from frame 8000 on, every 4000 frames.
pub proof fn law_probe_schedule(frame_count: u32)
    ensures
        is_probe_due(frame_count) <==> frame_count != 0 && frame_count != 4000 && frame_count % 4000
            == 0,
{
}

/// The word that puts the driven pads at idle leaves a driven pad high in bidirectional
/// mode and low otherwise, and no other pad changes.
pub proof fn law_idle_word(pads: Seq<Option<u8>>, bidir: bool, pin: u8, before: bool)
    requires
        wf_pads(pads),
        pin < 16,
    ensures
        dshot_bb_frame::next_level(
            dshot_bb_frame::deassert_word(pads_mask(pads, 4), bidir),
            pin,
            before,
        ) == (if exists|i: int| #![trigger pads[i]] 0 <= i < 4 && pads[i] == Some(pin) {
            bidir
        } else {
            before
        }),
{
    law_mask_covers_driven_pads(pads, 4, pin);
    dshot_bb_frame::lemma_word_bits(pads_mask(pads, 4), pin as u32, 0, 0, 0);
}

/// A line of some levels is reported with its low samples and its changes counted: each
/// sample is low or not, and a change is between two that differ.
pub proof fn law_levels_are_counted(line: Seq<bool>, level: bool)
    ensures
        low_count(line.push(level)) == low_count(line) + (if level {
            0nat
        } else {
            1nat
        }),
        change_count(line.push(level)) == change_count(line) + (if line.len() > 0 && line.last()
            != level {
            1nat
        } else {
            0nat
        }),
        low_count(Seq::empty()) == 0,
        change_count(Seq::empty()) == 0,
{
    assert(line.push(level).drop_last() =~= line);
    if line.len() > 0 {
        assert(line.push(level)[line.len() - 1] == line.last());
    }
}

/// The driven pads are those of the motors that have one, in the order of the motors.
pub proof fn law_driven_pads_in_motor_order(pads: Seq<Option<u8>>, a: u8, b: u8)
    requires
        pads.len() == 4,
    ensures
        driven_pads(pads, 4).len() <= 4,
        pads == seq![Some(a), None, Some(b), None] ==> driven_pads(pads, 4) == seq![a, b],
        pads == seq![None, Some(a), None, Some(b)] ==> driven_pads(pads, 4) == seq![a, b],
        pads == seq![Some(a), Some(b), None, None] ==> driven_pads(pads, 4) == seq![a, b],
        pads == seq![None, None, Some(a), Some(b)] ==> driven_pads(pads, 4) == seq![a, b],
{
    reveal_with_fuel(driven_pads, 5);
}

/// A report keeps the first forty runs, each up to 255 samples, and all of them where
/// there are fewer.
pub proof fn law_forty_runs_are_kept(probe: RxProbe, line: Seq<bool>, k: int)
    requires
        reports(probe, line),
    ensures
        probe.runs@.len() <= 40,
        dshot_bb_decode::runs(line).len() <= 40 ==> probe.runs@.len() == dshot_bb_decode::runs(
            line,
        ).len(),
        dshot_bb_decode::runs(line).len() >= 40 ==> probe.runs@.len() == 40,
        0 <= k < probe.runs@.len() && dshot_bb_decode::runs(line)[k] <= 255 ==> probe.runs@[k]
            == dshot_bb_decode::runs(line)[k],
        0 <= k < probe.runs@.len() && dshot_bb_decode::runs(line)[k] >= 255 ==> probe.runs@[k]
            == 255,
{
}

} // verus!
