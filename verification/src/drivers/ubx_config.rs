//! UBX configuration commands.
//!
//! CFG-MSG, CFG-RATE and CFG-PRT are understood by M8 and earlier modules,
//! CFG-VALSET by M9 and M10. Each generation rejects the other's messages, so
//! both are sent.
//!
//! A CFG-VALSET payload is a version byte, a layer mask, two reserved bytes, and
//! key/value pairs without padding. Bits 30..28 of a key give the width of its
//! value.

use crate::bytes;
use crate::drivers::ubx;
use crate::drivers::ubx::build_frame;
use vstd::prelude::*;

verus! {

/// RAM layer only: a module is configured at every boot.
pub const LAYER_RAM: u8 = 0x01;

/// Measurement rate, milliseconds; two bytes.
pub const KEY_RATE_MEAS: u32 = 0x3021_0001;

/// Measurements per navigation solution; two bytes.
pub const KEY_RATE_NAV: u32 = 0x3021_0002;

/// NAV-PVT output on UART1, solutions per message; one byte.
pub const KEY_MSGOUT_NAV_PVT_UART1: u32 = 0x2091_0007;

/// UART1 baud rate; four bytes.
pub const KEY_UART1_BAUDRATE: u32 = 0x4052_0001;

/// UBX output on UART1; one bit in one byte.
pub const KEY_UART1_OUTPROT_UBX: u32 = 0x1074_0001;

/// NMEA output on UART1; one bit in one byte.
pub const KEY_UART1_OUTPROT_NMEA: u32 = 0x1074_0002;

/// Largest CFG-VALSET payload: the header and 64 pairs of the widest kind.
pub const MAX_VALSET_PAYLOAD: usize = 772;

/// Sets the output rate of a message, in messages per navigation solution.
pub fn set_msg_rate(out: &mut [u8], class: u8, id: u8, rate: u8) -> (n: usize)
    requires
        old(out)@.len() >= 11,
    ensures
        n == 11,
        final(out)@ == ubx::frame_bytes(0x06, 0x01, seq![class, id, rate]) + old(out)@.skip(11),
{
    let payload: [u8; 3] = [class, id, rate];
    assert(payload@ =~= seq![class, id, rate]);
    build_frame(out, 0x06, 0x01, payload.as_slice())
}

/// Payload of a rate command: both rates, and GPS as the time reference.
pub open spec fn rate_payload(meas_rate_ms: u16, nav_rate: u16) -> Seq<u8> {
    seq![
        bytes::byte_of(meas_rate_ms as int, 0),
        bytes::byte_of(meas_rate_ms as int, 1),
        bytes::byte_of(nav_rate as int, 0),
        bytes::byte_of(nav_rate as int, 1),
        1u8,
        0u8,
    ]
}

/// Sets the navigation solution rate.
pub fn set_nav_rate(out: &mut [u8], meas_rate_ms: u16, nav_rate: u16) -> (n: usize)
    requires
        old(out)@.len() >= 14,
    ensures
        n == 14,
        final(out)@ == ubx::frame_bytes(0x06, 0x08, rate_payload(meas_rate_ms, nav_rate)) + old(
            out,
        )@.skip(14),
{
    let payload: [u8; 6] = [
        (meas_rate_ms % 0x100) as u8,
        (meas_rate_ms / 0x100) as u8,
        (nav_rate % 0x100) as u8,
        (nav_rate / 0x100) as u8,
        1,
        0,
    ];
    assert(payload@ =~= rate_payload(meas_rate_ms, nav_rate));
    build_frame(out, 0x06, 0x08, payload.as_slice())
}

/// Value width in bytes that a key declares, 0 for the reserved codes.
pub open spec fn value_len(key: u32) -> nat {
    let code = key / 0x1000_0000 % 8;
    if code == 1 || code == 2 {
        1
    } else if code == 3 {
        2
    } else if code == 4 {
        4
    } else if code == 5 {
        8
    } else {
        0
    }
}

/// Value width in bytes that a key declares, 0 for the reserved codes.
pub fn key_value_len(key: u32) -> (n: usize)
    ensures
        n == value_len(key),
{
    match key / 0x1000_0000 % 8 {
        1 | 2 => 1,
        3 => 2,
        4 => 4,
        5 => 8,
        _ => 0,
    }
}

/// The low `width` bytes of a value, least significant first.
pub open spec fn low_bytes(value: u64, width: nat) -> Seq<u8>
    decreases width,
{
    if width == 0 {
        Seq::empty()
    } else {
        seq![(value % 256) as u8] + low_bytes(value / 256, (width - 1) as nat)
    }
}

/// The payload of the first `n` pairs, or `None` when one has no known width or
/// they do not fit.
pub open spec fn valset_payload(layers: u8, pairs: Seq<(u32, u64)>, n: nat) -> Option<Seq<u8>>
    decreases n,
{
    if n == 0 {
        Some(seq![0u8, layers, 0u8, 0u8])
    } else {
        let (key, value) = pairs[n - 1];
        match valset_payload(layers, pairs, (n - 1) as nat) {
            None => None,
            Some(p) => if value_len(key) == 0 || p.len() + 4 + value_len(key)
                > MAX_VALSET_PAYLOAD {
                None
            } else {
                Some(p + bytes::le_bytes(key) + low_bytes(value, value_len(key)))
            },
        }
    }
}

proof fn lemma_valset_refusal_is_final(layers: u8, pairs: Seq<(u32, u64)>, m: nat, n: nat)
    requires
        m <= n,
        valset_payload(layers, pairs, m) is None,
    ensures
        valset_payload(layers, pairs, n) is None,
    decreases n,
{
    if m < n {
        lemma_valset_refusal_is_final(layers, pairs, m, (n - 1) as nat);
    }
}

fn push_low_bytes(p: &mut Vec<u8>, value: u64, width: usize)
    ensures
        final(p)@ == old(p)@ + low_bytes(value, width as nat),
    decreases width,
{
    if width == 0 {
        assert(p@ =~= old(p)@ + low_bytes(value, 0));
    } else {
        p.push((value % 256) as u8);
        push_low_bytes(p, value / 256, width - 1);
        assert(p@ =~= old(p)@ + low_bytes(value, width as nat));
    }
}

proof fn lemma_key_bytes(key: u32)
    ensures
        low_bytes(key as u64, 4) == bytes::le_bytes(key),
{
    reveal_with_fuel(low_bytes, 5);
    let v = key as u64;
    assert(v / 256 / 256 == v / 0x1_0000);
    assert(v / 256 / 256 / 256 == v / 0x100_0000);
    assert(low_bytes(v, 4) =~= bytes::le_bytes(key));
}

/// Builds a CFG-VALSET frame from key/value pairs and returns its length, or 0
/// when a key has no known width or the frame does not fit: nothing is written
/// then, because one bad pair would void the whole message.
pub fn valset(out: &mut [u8], layers: u8, pairs: &[(u32, u64)]) -> (n: usize)
    ensures
        ({
            let p = valset_payload(layers, pairs@, pairs@.len());
            if p is Some && old(out)@.len() >= p->0.len() + 8 {
                &&& n == p->0.len() + 8
                &&& final(out)@ == ubx::frame_bytes(0x06, 0x8A, p->0) + old(out)@.skip(n as int)
            } else {
                n == 0 && final(out)@ == old(out)@
            }
        }),
{
    let mut payload: Vec<u8> = Vec::new();
    payload.push(0x00);
    payload.push(layers);
    payload.push(0);
    payload.push(0);
    assert(payload@ =~= seq![0u8, layers, 0u8, 0u8]);
    let mut i: usize = 0;
    while i < pairs.len()
        invariant
            i <= pairs@.len(),
            out@ == old(out)@,
            valset_payload(layers, pairs@, i as nat) == Some(payload@),
            payload@.len() <= MAX_VALSET_PAYLOAD,
        decreases pairs.len() - i,
    {
        let (key, value): (u32, u64) = pairs[i];
        let width: usize = key_value_len(key);
        if width == 0 || payload.len() + 4 + width > MAX_VALSET_PAYLOAD {
            proof {
                lemma_valset_refusal_is_final(layers, pairs@, (i + 1) as nat, pairs@.len());
            }
            return 0;
        }
        let ghost before = payload@;
        proof {
            lemma_key_bytes(key);
            lemma_low_bytes_len(value, width as nat);
        }
        push_low_bytes(&mut payload, key as u64, 4);
        push_low_bytes(&mut payload, value, width);
        assert(payload@ =~= before + bytes::le_bytes(key) + low_bytes(value, width as nat));
        i += 1;
    }
    if out.len() < payload.len() + 8 {
        return 0;
    }
    build_frame(out, 0x06, 0x8A, payload.as_slice())
}

proof fn lemma_low_bytes_len(value: u64, width: nat)
    ensures
        low_bytes(value, width).len() == width,
    decreases width,
{
    if width > 0 {
        lemma_low_bytes_len(value / 256, (width - 1) as nat);
    }
}

/// Payload of a port command: UART1, 8N1, the baud rate, UBX in and out.
pub open spec fn port_payload(baud: u32) -> Seq<u8> {
    seq![1u8, 0u8, 0u8, 0u8, 0xD0u8, 0x08u8, 0u8, 0u8] + bytes::le_bytes(baud) + seq![
        1u8,
        0u8,
        1u8,
        0u8,
        0u8,
        0u8,
        0u8,
        0u8,
    ]
}

/// Sets the UART1 baud rate and restricts the port to UBX.
pub fn set_uart_baud(out: &mut [u8], baud: u32) -> (n: usize)
    requires
        old(out)@.len() >= 28,
    ensures
        n == 28,
        final(out)@ == ubx::frame_bytes(0x06, 0x00, port_payload(baud)) + old(out)@.skip(28),
{
    let payload: [u8; 20] = [
        1,
        0,
        0,
        0,
        0xD0,
        0x08,
        0,
        0,
        (baud % 0x100) as u8,
        (baud / 0x100 % 0x100) as u8,
        (baud / 0x1_0000 % 0x100) as u8,
        (baud / 0x100_0000 % 0x100) as u8,
        1,
        0,
        1,
        0,
        0,
        0,
        0,
        0,
    ];
    assert(payload@ =~= port_payload(baud));
    build_frame(out, 0x06, 0x00, payload.as_slice())
}

// ---- Laws ----

/// Pairs of known width always build as long as they fit: the payload is four
/// bytes and, for each pair, its key and the width the key declares.
pub proof fn law_valset_payload_length(layers: u8, pairs: Seq<(u32, u64)>, n: nat)
    requires
        n <= pairs.len(),
        valset_payload(layers, pairs, n) is Some,
    ensures
        valset_payload(layers, pairs, n)->0.len() == 4 + pairs_len(pairs, n),
        valset_payload(layers, pairs, n)->0.len() <= MAX_VALSET_PAYLOAD,
    decreases n,
{
    if n > 0 {
        law_valset_payload_length(layers, pairs, (n - 1) as nat);
        lemma_low_bytes_len(pairs[n - 1].1, value_len(pairs[n - 1].0));
    }
}

/// Bytes that the first `n` pairs take up.
pub open spec fn pairs_len(pairs: Seq<(u32, u64)>, n: nat) -> nat
    decreases n,
{
    if n == 0 {
        0
    } else {
        pairs_len(pairs, (n - 1) as nat) + 4 + value_len(pairs[n - 1].0)
    }
}

/// Up to 64 pairs of known width are never refused.
pub proof fn law_valset_accepts_the_documented_maximum(
    layers: u8,
    pairs: Seq<(u32, u64)>,
    n: nat,
)
    requires
        n <= pairs.len(),
        n <= 64,
        forall|i: int| 0 <= i < pairs.len() ==> value_len((#[trigger] pairs[i]).0) > 0,
    ensures
        valset_payload(layers, pairs, n) is Some,
        valset_payload(layers, pairs, n)->0.len() <= 4 + 12 * n,
    decreases n,
{
    if n > 0 {
        law_valset_accepts_the_documented_maximum(layers, pairs, (n - 1) as nat);
        lemma_low_bytes_len(pairs[n - 1].1, value_len(pairs[n - 1].0));
        assert(value_len(pairs[n - 1].0) > 0);
    }
}

proof fn lemma_low_bytes_are_written(value: u64, width: nat)
    ensures
        low_bytes(value, width) == bytes::written_le(value as int, width),
    decreases width,
{
    if width > 0 {
        lemma_low_bytes_are_written(value / 256, (width - 1) as nat);
        assert(low_bytes(value, width) =~= bytes::written_le(value as int, width));
    }
}

/// A request is a version of zero, the layers and two reserved bytes, and then, for each
/// pair in turn, the key in four bytes and the value in as many as the key declares,
/// least significant first.
pub proof fn law_pairs_follow_the_header(layers: u8, pairs: Seq<(u32, u64)>, n: nat)
    requires
        n < pairs.len(),
    ensures
        valset_payload(layers, pairs, 0) == Some(seq![0u8, layers, 0u8, 0u8]),
        valset_payload(layers, pairs, n + 1) matches Some(p) ==> valset_payload(layers, pairs, n)
            is Some && p == valset_payload(layers, pairs, n)->0 + bytes::written_le(
            pairs[n as int].0 as int,
            4,
        ) + bytes::written_le(pairs[n as int].1 as int, value_len(pairs[n as int].0)),
{
    bytes::lemma_written_is_le_bytes(pairs[n as int].0);
    lemma_low_bytes_are_written(pairs[n as int].1, value_len(pairs[n as int].0));
}

/// Bits 28 to 30 of a key are the size of its value: a bit or a byte takes one byte, and
/// each size from there on takes twice the one before, up to eight. No other size is
/// known.
pub proof fn law_value_sizes(size: u32, rest: u32)
    requires
        size < 8,
        rest < 0x1000_0000,
    ensures
        ({
            let key = (size * 0x1000_0000 + rest) as u32;
            &&& size == 1 || size == 2 ==> value_len(key) == 1
            &&& size == 3 ==> value_len(key) == 2
            &&& size == 4 ==> value_len(key) == 4
            &&& size == 5 ==> value_len(key) == 8
            &&& size == 0 || size >= 6 ==> value_len(key) == 0
            &&& (key + 0x8000_0000) <= u32::MAX ==> value_len((key + 0x8000_0000) as u32)
                == value_len(key)
        }),
{
}

/// Where the parts of a rate command stand: the measurement period, the measurements
/// per solution, and one for the time of GPS.
pub proof fn law_rate_command_layout(meas_rate_ms: u16, nav_rate: u16)
    ensures
        rate_payload(meas_rate_ms, nav_rate).len() == 6,
        bytes::stands_in(
            rate_payload(meas_rate_ms, nav_rate),
            0,
            bytes::written_le(meas_rate_ms as int, 2),
        ),
        bytes::stands_in(
            rate_payload(meas_rate_ms, nav_rate),
            2,
            bytes::written_le(nav_rate as int, 2),
        ),
        bytes::stands_in(rate_payload(meas_rate_ms, nav_rate), 4, bytes::written_le(1, 2)),
{
    let p = rate_payload(meas_rate_ms, nav_rate);
    bytes::lemma_written_2(meas_rate_ms as int);
    bytes::lemma_written_2(nav_rate as int);
    bytes::lemma_written_2(1);
    assert(p.subrange(0, 2) =~= bytes::written_le(meas_rate_ms as int, 2));
    assert(p.subrange(2, 4) =~= bytes::written_le(nav_rate as int, 2));
    assert(p.subrange(4, 6) =~= bytes::written_le(1, 2));
}

/// Where the parts of a port command stand: port one, eight bits without parity and with
/// one stop bit, the baud rate, and UBX alone both ways.
pub proof fn law_port_command_layout(baud: u32)
    ensures
        port_payload(baud).len() == 20,
        port_payload(baud)[0] == 1,
        bytes::stands_in(port_payload(baud), 4, bytes::written_le(0x8D0, 4)),
        bytes::stands_in(port_payload(baud), 8, bytes::written_le(baud as int, 4)),
        bytes::stands_in(port_payload(baud), 12, bytes::written_le(1, 2)),
        bytes::stands_in(port_payload(baud), 14, bytes::written_le(1, 2)),
        forall|i: int|
            1 <= i < 4 || 16 <= i < 20 ==> #[trigger] port_payload(baud)[i] == 0,
{
    let p = port_payload(baud);
    bytes::lemma_written_is_le_bytes(baud);
    bytes::lemma_written_4(0x8D0);
    bytes::lemma_written_2(1);
    assert(p.subrange(4, 8) =~= bytes::written_le(0x8D0, 4));
    assert(p.subrange(8, 12) =~= bytes::written_le(baud as int, 4));
    assert(p.subrange(12, 14) =~= bytes::written_le(1, 2));
    assert(p.subrange(14, 16) =~= bytes::written_le(1, 2));
}

} // verus!
