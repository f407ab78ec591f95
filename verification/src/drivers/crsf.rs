//! CRSF protocol parser for RC receivers (receiver to flight controller).
//!
//! A frame is `[sync] [length] [type] [payload...] [crc]`. The sync byte is
//! 0xC8, the length counts type, payload and CRC, and the CRC8 (polynomial
//! 0xD5) covers type and payload. A frame has at most 64 bytes.

use crate::bytes;
use crate::ratio::Ratio;
use vstd::arithmetic::power2;
use vstd::bits;
use vstd::prelude::*;

verus! {

/// Sync byte, the flight controller's device address.
pub const SYNC_BYTE: u8 = 0xC8;

/// Largest frame, with sync and length bytes.
pub const MAX_FRAME_SIZE: usize = 64;

/// Smallest length field: type and CRC, no payload.
pub const MIN_FRAME_LENGTH: u8 = 2;

/// Largest length field.
pub const MAX_FRAME_LENGTH: u8 = 62;

/// Generator polynomial of the CRC.
pub const CRC8_POLY: u8 = 0xD5;

/// Frame types that carry something for the flight controller.
#[derive(Debug, Clone, Copy, PartialEq, Eq, Structural)]
pub enum FrameType {
    RcChannelsPacked,
    LinkStatistics,
}

impl FrameType {
    /// The type byte on the wire.
    pub open spec fn spec_code(self) -> u8 {
        match self {
            FrameType::RcChannelsPacked => 0x16,
            FrameType::LinkStatistics => 0x14,
        }
    }

    /// The type byte on the wire.
    pub fn code(self) -> (code: u8)
        ensures
            code == self.spec_code(),
    {
        match self {
            FrameType::RcChannelsPacked => 0x16,
            FrameType::LinkStatistics => 0x14,
        }
    }
}

/// RC channel data: 16 channels of 11 bits. 172 is 988 us, 992 is 1500 us (the
/// centre) and 1811 is 2012 us.
#[derive(Debug, Clone, Copy, PartialEq, Eq)]
pub struct RcChannels {
    pub channels: [u16; 16],
}

impl RcChannels {
    /// A channel value in microseconds, rounded down. The line through both end
    /// points goes on below the lower one.
    pub open spec fn spec_us(raw: u16) -> int {
        (raw - 172) * 1024 / 1639 + 988
    }

    /// Converts a channel value to microseconds.
    pub fn to_us(raw: u16) -> (us: u16)
        ensures
            us == Self::spec_us(raw),
    {
        // 988 * 1639 - 172 * 1024 is 1443204.
        ((raw as u32 * 1024 + 1_443_204) / 1639) as u16
    }

    /// A channel value as a fraction of full stick.
    pub open spec fn stick_fraction(raw: u16) -> Ratio {
        Ratio { num: (2 * (raw - 992)) as i64, den: 1639 }
    }

    /// A channel value as a fraction of its range.
    pub open spec fn range_fraction(raw: u16) -> Ratio {
        Ratio { num: (raw - 172) as i64, den: 1639 }
    }

    /// A channel value as a fraction of full stick, `(raw - 992) / 819.5`: zero
    /// at the centre.
    pub fn to_normalised(raw: u16) -> (r: Ratio)
        ensures
            r == (Ratio { num: (2 * (raw - 992)) as i64, den: 1639 }),
            r.num == 2 * (raw - 992),
            r == Self::stick_fraction(raw),
    {
        Ratio { num: 2 * (raw as i64 - 992), den: 1639 }
    }

    /// A channel value as a fraction of its range, `(raw - 172) / 1639`: zero
    /// at the low end.
    pub fn to_unit(raw: u16) -> (r: Ratio)
        ensures
            r == (Ratio { num: (raw - 172) as i64, den: 1639 }),
            r.num == raw - 172,
            r == Self::range_fraction(raw),
    {
        Ratio { num: raw as i64 - 172, den: 1639 }
    }
}

/// Link quality and signal strength.
#[derive(Debug, Clone, Copy, PartialEq, Eq, Structural)]
pub struct LinkStatistics {
    /// Uplink RSSI of antenna 1, negated dBm.
    pub uplink_rssi_ant1: u8,
    /// Uplink RSSI of antenna 2, negated dBm.
    pub uplink_rssi_ant2: u8,
    /// Uplink link quality, percent.
    pub uplink_link_quality: u8,
    /// Uplink SNR, dB.
    pub uplink_snr: i8,
    /// Active antenna.
    pub active_antenna: u8,
    /// RF mode.
    pub rf_mode: u8,
    /// Uplink transmit power, an index.
    pub uplink_tx_power: u8,
    /// Downlink RSSI, negated dBm.
    pub downlink_rssi: u8,
    /// Downlink link quality, percent.
    pub downlink_link_quality: u8,
    /// Downlink SNR, dB.
    pub downlink_snr: i8,
}

/// What a decoded frame carries.
#[derive(Debug, PartialEq, Eq)]
pub enum CrsfEvent {
    /// Fresh RC channel data.
    Channels(RcChannels),
    /// Fresh link statistics.
    Link(LinkStatistics),
}

// ---- CRC ----

/// One bit of the shift register.
pub open spec fn crc8_bit(crc: u8) -> u8 {
    if crc >= 128 {
        ((crc - 128) * 2) as u8 ^ CRC8_POLY
    } else {
        (crc * 2) as u8
    }
}

/// `n` bits of the shift register.
pub open spec fn crc8_bits(crc: u8, n: nat) -> u8
    decreases n,
{
    if n == 0 {
        crc
    } else {
        crc8_bit(crc8_bits(crc, (n - 1) as nat))
    }
}

/// CRC8 of a run of bytes, starting from zero.
pub open spec fn crc8_of(data: Seq<u8>) -> u8
    decreases data.len(),
{
    if data.len() == 0 {
        0
    } else {
        crc8_bits(crc8_of(data.drop_last()) ^ data.last(), 8)
    }
}

/// CRC8 of a run of bytes.
pub fn crc8(data: &[u8]) -> (crc: u8)
    ensures
        crc == crc8_of(data@),
{
    let mut crc: u8 = 0;
    let mut i: usize = 0;
    assert(data@.take(0) =~= Seq::empty());
    while i < data.len()
        invariant
            i <= data@.len(),
            crc == crc8_of(data@.take(i as int)),
        decreases data.len() - i,
    {
        assert(data@.take(i + 1).drop_last() =~= data@.take(i as int));
        let start: u8 = crc ^ data[i];
        crc = start;
        let mut k: usize = 0;
        while k < 8
            invariant
                k <= 8,
                crc == crc8_bits(start, k as nat),
            decreases 8 - k,
        {
            crc = if crc >= 128 {
                ((crc - 128) * 2) ^ CRC8_POLY
            } else {
                crc * 2
            };
            k += 1;
        }
        i += 1;
    }
    assert(data@.take(data@.len() as int) =~= data@);
    crc
}

// ---- Frames ----

/// Channel `i` of a packed payload: the 11 bits that start at bit `11 * i`,
/// counted from the lowest bit of the first byte.
pub open spec fn channel(payload: Seq<u8>, i: int) -> int {
    let at = 11 * i / 8;
    let window = payload[at] + 0x100 * payload[at + 1] + if 11 * i % 8 > 5 {
        0x1_0000 * payload[at + 2]
    } else {
        0
    };
    window / power2::pow2((11 * i % 8) as nat) as int % 2048
}

/// The link statistics in a payload.
pub open spec fn link_of(p: Seq<u8>) -> LinkStatistics {
    LinkStatistics {
        uplink_rssi_ant1: p[0],
        uplink_rssi_ant2: p[1],
        uplink_link_quality: p[2],
        uplink_snr: bytes::twos_complement(p[3] as int, 128) as i8,
        active_antenna: p[4],
        rf_mode: p[5],
        uplink_tx_power: p[6],
        downlink_rssi: p[7],
        downlink_link_quality: p[8],
        downlink_snr: bytes::twos_complement(p[9] as int, 128) as i8,
    }
}

/// Whether a complete frame's CRC matches.
pub open spec fn crc_matches(frame: Seq<u8>) -> bool {
    frame.last() == crc8_of(frame.subrange(2, frame.len() - 1))
}

/// The bytes between a frame's type and its CRC.
pub open spec fn payload_of(frame: Seq<u8>) -> Seq<u8> {
    frame.subrange(3, frame.len() - 1)
}

/// Whether `event` is what a complete frame delivers.
pub open spec fn delivers(frame: Seq<u8>, event: Option<CrsfEvent>) -> bool {
    let p = payload_of(frame);
    if crc_matches(frame) && frame[2] == FrameType::RcChannelsPacked.spec_code() && p.len() >= 22 {
        event matches Some(CrsfEvent::Channels(ch)) && forall|i: int|
            #![trigger ch.channels@[i]]
            0 <= i < 16 ==> ch.channels@[i] == channel(p, i)
    } else if crc_matches(frame) && frame[2] == FrameType::LinkStatistics.spec_code() && p.len()
        >= 10 {
        event == Some(CrsfEvent::Link(link_of(p)))
    } else {
        event is None
    }
}

/// Whether bytes are a frame as far as sync and length tell.
pub open spec fn is_frame(s: Seq<u8>) -> bool {
    &&& s.len() >= 4
    &&& s[0] == SYNC_BYTE
    &&& MIN_FRAME_LENGTH <= s[1] <= MAX_FRAME_LENGTH
    &&& s.len() == 2 + s[1]
}

/// The bytes held after one more has arrived.
pub open spec fn pending_after(pending: Seq<u8>, byte: u8) -> Seq<u8> {
    if pending.len() == 0 {
        if byte == SYNC_BYTE {
            seq![byte]
        } else {
            Seq::empty()
        }
    } else if pending.len() == 1 {
        if MIN_FRAME_LENGTH <= byte <= MAX_FRAME_LENGTH {
            pending.push(byte)
        } else {
            Seq::empty()
        }
    } else if is_frame(pending.push(byte)) {
        Seq::empty()
    } else {
        pending.push(byte)
    }
}

/// The bytes held after a run of bytes.
pub open spec fn pending_after_all(pending: Seq<u8>, bytes: Seq<u8>) -> Seq<u8>
    decreases bytes.len(),
{
    if bytes.len() == 0 {
        pending
    } else {
        pending_after(pending_after_all(pending, bytes.drop_last()), bytes.last())
    }
}

/// Whether held bytes are the start of a frame that is not complete.
pub open spec fn is_pending(s: Seq<u8>) -> bool {
    &&& s.len() >= 1 ==> s[0] == SYNC_BYTE
    &&& s.len() >= 2 ==> MIN_FRAME_LENGTH <= s[1] <= MAX_FRAME_LENGTH && s.len() < 2 + s[1]
}

/// Streaming parser: feed it bytes, get events out.
pub struct CrsfParser {
    buf: [u8; MAX_FRAME_SIZE],
    pos: usize,
}

impl View for CrsfParser {
    type V = Seq<u8>;

    /// The bytes of the frame being received.
    closed spec fn view(&self) -> Seq<u8> {
        self.buf@.take(self.pos as int)
    }
}

impl CrsfParser {
    pub closed spec fn wf(&self) -> bool {
        &&& self.pos <= MAX_FRAME_SIZE
        &&& is_pending(self.buf@.take(self.pos as int))
    }

    /// A parser that waits for a sync byte.
    pub fn new() -> (p: Self)
        ensures
            p.wf(),
            p@ == Seq::<u8>::empty(),
    {
        let p = CrsfParser { buf: [0; MAX_FRAME_SIZE], pos: 0 };
        assert(p@ =~= Seq::empty());
        p
    }

    /// Feeds one byte. An event comes with the last byte of a frame that is
    /// valid and carries channels or link statistics.
    pub fn push_byte(&mut self, byte: u8) -> (event: Option<CrsfEvent>)
        requires
            old(self).wf(),
        ensures
            final(self).wf(),
            final(self)@ == pending_after(old(self)@, byte),
            is_frame(old(self)@.push(byte)) ==> delivers(old(self)@.push(byte), event),
            !is_frame(old(self)@.push(byte)) ==> event is None,
    {
        let ghost before = self@;
        if self.pos == 0 {
            if byte == SYNC_BYTE {
                self.buf[0] = byte;
                self.pos = 1;
            }
            assert(self@ =~= pending_after(before, byte));
            return None;
        }
        if self.pos == 1 {
            assert(before[0] == SYNC_BYTE);
            if byte < MIN_FRAME_LENGTH || byte > MAX_FRAME_LENGTH {
                self.pos = 0;
            } else {
                self.buf[1] = byte;
                self.pos = 2;
            }
            assert(self@ =~= pending_after(before, byte));
            return None;
        }
        assert(before[1] == self.buf@[1]);
        self.buf[self.pos] = byte;
        self.pos = self.pos + 1;
        assert(self@ =~= before.push(byte));
        let end: usize = 2 + self.buf[1] as usize;
        if self.pos >= end {
            let event: Option<CrsfEvent> = decode_frame(
                vstd::slice::slice_subrange(self.buf.as_slice(), 0, self.pos),
            );
            assert(self.buf@.subrange(0, self.pos as int) =~= before.push(byte));
            self.pos = 0;
            assert(self@ =~= Seq::empty());
            return event;
        }
        None
    }
}

/// Decodes a complete frame.
pub fn decode_frame(frame: &[u8]) -> (event: Option<CrsfEvent>)
    requires
        is_frame(frame@),
    ensures
        delivers(frame@, event),
{
    let n: usize = frame.len();
    let computed: u8 = crc8(vstd::slice::slice_subrange(frame, 2, n - 1));
    if computed != frame[n - 1] {
        return None;
    }
    let payload: &[u8] = vstd::slice::slice_subrange(frame, 3, n - 1);
    match frame[2] {
        0x16 => decode_rc_channels(payload),
        0x14 => decode_link_statistics(payload),
        _ => None,
    }
}

fn decode_rc_channels(payload: &[u8]) -> (event: Option<CrsfEvent>)
    ensures
        payload@.len() < 22 ==> event is None,
        payload@.len() >= 22 ==> (event matches Some(CrsfEvent::Channels(ch)) && forall|i: int|
            #![trigger ch.channels@[i]]
            0 <= i < 16 ==> ch.channels@[i] == channel(payload@, i)),
{
    if payload.len() < 22 {
        return None;
    }
    let mut channels: [u16; 16] = [0; 16];
    let mut i: usize = 0;
    while i < 16
        invariant
            i <= 16,
            payload@.len() >= 22,
            forall|k: int|
                #![trigger channels@[k]]
                0 <= k < i ==> channels@[k] == channel(payload@, k),
        decreases 16 - i,
    {
        let at: usize = 11 * i / 8;
        let shift: u32 = (11 * i % 8) as u32;
        let third: u32 = if shift > 5 {
            0x1_0000 * (payload[at + 2] as u32)
        } else {
            0
        };
        let window: u32 = payload[at] as u32 + 0x100 * (payload[at + 1] as u32) + third;
        proof {
            bits::lemma_u32_shr_is_div(window, shift);
        }
        channels[i] = ((window >> shift) % 2048) as u16;
        i += 1;
    }
    Some(CrsfEvent::Channels(RcChannels { channels }))
}

fn signed8(u: u8) -> (v: i8)
    ensures
        v == bytes::twos_complement(u as int, 128),
{
    if u < 128 {
        u as i8
    } else {
        (u as i16 - 256) as i8
    }
}

fn decode_link_statistics(payload: &[u8]) -> (event: Option<CrsfEvent>)
    ensures
        payload@.len() < 10 ==> event is None,
        payload@.len() >= 10 ==> event == Some(CrsfEvent::Link(link_of(payload@))),
{
    if payload.len() < 10 {
        return None;
    }
    Some(
        CrsfEvent::Link(
            LinkStatistics {
                uplink_rssi_ant1: payload[0],
                uplink_rssi_ant2: payload[1],
                uplink_link_quality: payload[2],
                uplink_snr: signed8(payload[3]),
                active_antenna: payload[4],
                rf_mode: payload[5],
                uplink_tx_power: payload[6],
                downlink_rssi: payload[7],
                downlink_link_quality: payload[8],
                downlink_snr: signed8(payload[9]),
            },
        ),
    )
}

// ---- Laws ----

/// A frame fed to an idle parser is held byte by byte until its last byte, which
/// leaves the parser idle again. With the contract of `push_byte`, the last
/// byte, and only that one, delivers what the frame carries.
pub proof fn law_frame_is_received_whole(frame: Seq<u8>, k: int)
    requires
        is_frame(frame),
        0 <= k <= frame.len(),
    ensures
        k < frame.len() ==> pending_after_all(Seq::empty(), frame.take(k)) == frame.take(k),
        k == frame.len() ==> pending_after_all(Seq::empty(), frame.take(k)) == Seq::<u8>::empty(),
        k < frame.len() ==> (is_frame(frame.take(k).push(frame[k])) <==> k + 1 == frame.len()),
    decreases k,
{
    if k < frame.len() {
        assert(frame.take(k).push(frame[k]) =~= frame.take(k + 1));
        assert(frame.take(frame.len() as int) =~= frame);
        if k >= 3 {
            assert(frame.take(k + 1)[1] == frame[1]);
        }
    }
    if k > 0 {
        law_frame_is_received_whole(frame, k - 1);
        assert(frame.take(k).drop_last() =~= frame.take(k - 1));
        assert(frame.take(k - 1).push(frame[k - 1]) =~= frame.take(k));
        if k == 1 {
            assert(frame.take(1) =~= seq![SYNC_BYTE]);
        }
        if k == frame.len() {
            assert(frame.take(k) =~= frame);
        }
    }
}

/// Bytes without a sync byte leave an idle parser idle.
pub proof fn law_garbage_is_skipped(garbage: Seq<u8>)
    requires
        forall|i: int| 0 <= i < garbage.len() ==> garbage[i] != SYNC_BYTE,
    ensures
        pending_after_all(Seq::empty(), garbage) == Seq::<u8>::empty(),
    decreases garbage.len(),
{
    if garbage.len() > 0 {
        law_garbage_is_skipped(garbage.drop_last());
    }
}

proof fn lemma_crc8_bit_injective(a: u8, b: u8)
    requires
        crc8_bit(a) == crc8_bit(b),
    ensures
        a == b,
{
    assert((if a >= 128 {
        ((a - 128) * 2) as u8 ^ 0xD5
    } else {
        (a * 2) as u8
    }) == (if b >= 128 {
        ((b - 128) * 2) as u8 ^ 0xD5
    } else {
        (b * 2) as u8
    }) ==> a == b) by (bit_vector);
}

proof fn lemma_crc8_bits_injective(a: u8, b: u8, n: nat)
    requires
        crc8_bits(a, n) == crc8_bits(b, n),
    ensures
        a == b,
    decreases n,
{
    if n > 0 {
        lemma_crc8_bit_injective(crc8_bits(a, (n - 1) as nat), crc8_bits(b, (n - 1) as nat));
        lemma_crc8_bits_injective(a, b, (n - 1) as nat);
    }
}

proof fn lemma_crc8_differs(a: Seq<u8>, b: Seq<u8>, at: int)
    requires
        a.len() == b.len(),
        0 <= at < a.len(),
        a[at] != b[at],
        forall|i: int| 0 <= i < a.len() && i != at ==> a[i] == b[i],
    ensures
        crc8_of(a) != crc8_of(b),
    decreases a.len(),
{
    let ra = crc8_of(a.drop_last());
    let rb = crc8_of(b.drop_last());
    let x = a.last();
    let y = b.last();
    if crc8_of(a) == crc8_of(b) {
        lemma_crc8_bits_injective(ra ^ x, rb ^ y, 8);
        assert(ra ^ x == rb ^ y ==> (ra == rb <==> x == y)) by (bit_vector);
        if at == a.len() - 1 {
            assert(a.drop_last() =~= b.drop_last());
        } else {
            lemma_crc8_differs(a.drop_last(), b.drop_last(), at);
        }
    }
}

/// A frame whose CRC matches delivers nothing once any one byte from its type
/// on is changed.
pub proof fn law_one_corrupt_byte_is_rejected(frame: Seq<u8>, bad: Seq<u8>, at: int)
    requires
        is_frame(frame),
        crc_matches(frame),
        bad.len() == frame.len(),
        2 <= at < frame.len(),
        bad[at] != frame[at],
        forall|i: int| 0 <= i < frame.len() && i != at ==> bad[i] == frame[i],
    ensures
        is_frame(bad),
        delivers(bad, None),
{
    let a = frame.subrange(2, frame.len() - 1);
    let b = bad.subrange(2, bad.len() - 1);
    if at < frame.len() - 1 {
        assert(a[at - 2] != b[at - 2]);
        lemma_crc8_differs(a, b, at - 2);
    } else {
        assert(a =~= b);
    }
}

proof fn lemma_window_bits(a: u32, b: u32, c: u32, s: u32, j: u32)
    by (bit_vector)
    requires
        a < 256,
        b < 256,
        c < 256,
        s < 8,
        j < 11,
    ensures
        ((((a + 0x100 * b + 0x1_0000 * c) as u32) >> s) % 2048 >> j) & 1 == (if s + j < 8 {
            (a >> ((s + j) as u32)) & 1
        } else if s + j < 16 {
            (b >> ((s + j - 8) as u32)) & 1
        } else {
            (c >> ((s + j - 16) as u32)) & 1
        }),
        a + 0x100 * b + 0x1_0000 * c < 0x100_0000,
{
}

/// Bit `k` of a payload, counted from the lowest bit of the first byte.
pub open spec fn payload_bit(payload: Seq<u8>, k: int) -> bool {
    ((payload[k / 8] as u32) >> ((k % 8) as u32)) & 1 == 1
}

/// Channels are packed back to back: bit `j` of channel `i` is bit `11 * i + j`
/// of the payload.
pub proof fn law_channels_are_packed_back_to_back(payload: Seq<u8>, i: int, j: u32)
    requires
        payload.len() >= 22,
        0 <= i < 16,
        j < 11,
    ensures
        ((channel(payload, i) as u32) >> j) & 1 == 1 <==> payload_bit(payload, 11 * i + j),
{
    let at = 11 * i / 8;
    let s = (11 * i % 8) as u32;
    let a = payload[at] as u32;
    let b = payload[at + 1] as u32;
    let c: u32 = if s > 5 { payload[at + 2] as u32 } else { 0 };
    lemma_window_bits(a, b, c, s, j);
    let w = (a + 0x100 * b + 0x1_0000 * c) as u32;
    bits::lemma_u32_shr_is_div(w, s);
    let k = 11 * i + j;
    if s + j < 8 {
        assert(k / 8 == at && k % 8 == s + j);
    } else if s + j < 16 {
        assert(k / 8 == at + 1 && k % 8 == s + j - 8);
    } else {
        assert(k / 8 == at + 2 && k % 8 == s + j - 16);
    }
}

/// The microsecond scale is monotone, from 988 at the low end of a stick over 1500
/// at its centre to 2012 at its high end.
pub proof fn law_us_scale(a: u16, b: u16)
    requires
        a <= b,
    ensures
        RcChannels::spec_us(a) <= RcChannels::spec_us(b),
        RcChannels::spec_us(172) == 988,
        RcChannels::spec_us(992) == 1500,
        RcChannels::spec_us(1811) == 2012,
{
}

// ---- What the CRC divides by ----

/// One step of long division over GF(2) by `x^8 + x^7 + x^6 + x^4 + x^2 + 1`: the
/// next bit is brought down, and the divisor taken away where it fits.
pub open spec fn bring_down(remainder: u16, bit: bool) -> u16 {
    let r = (2 * remainder + if bit { 1int } else { 0int }) as u16;
    if r >= 0x100 {
        r ^ 0b1_1101_0101
    } else {
        r
    }
}

/// Bit `k` of a byte, 0 being the most significant.
pub open spec fn high_bit(byte: u8, k: nat) -> bool {
    byte as nat / power2::pow2((7 - k) as nat) % 2 == 1
}

/// The remainder once the `k` highest bits of one more byte are brought down.
pub open spec fn divide_byte(remainder: u16, byte: u8, k: nat) -> u16
    decreases k,
{
    if k == 0 {
        remainder
    } else {
        bring_down(divide_byte(remainder, byte, (k - 1) as nat), high_bit(byte, (k - 1) as nat))
    }
}

/// The remainder of bytes, read as a polynomial with the most significant bit of the
/// first byte in front.
pub open spec fn remainder_of(data: Seq<u8>) -> u16
    decreases data.len(),
{
    if data.len() == 0 {
        0
    } else {
        divide_byte(remainder_of(data.drop_last()), data.last(), 8)
    }
}

proof fn lemma_bring_down(x: u8, y: u8, bit: bool)
    requires
        y < 128,
    ensures
        bring_down((x ^ y) as u16, bit) == crc8_bit(x) ^ ((2 * y + if bit { 1int } else { 0int }) as u8),
{
    let z = x ^ y;
    assert(y < 128 && z == x ^ y ==> (z >= 128 <==> x >= 128)) by (bit_vector);
    if bit {
        assert(y < 128 && z == x ^ y ==> (if z >= 128 {
            ((2 * (z as u16) + 1) as u16) ^ 0x1D5
        } else {
            (2 * (z as u16) + 1) as u16
        }) == ((if x >= 128 {
            ((x - 128) * 2) as u8 ^ 0xD5
        } else {
            (x * 2) as u8
        }) ^ ((2 * y + 1) as u8)) as u16) by (bit_vector);
    } else {
        assert(y < 128 && z == x ^ y ==> (if z >= 128 {
            ((2 * (z as u16)) as u16) ^ 0x1D5
        } else {
            (2 * (z as u16)) as u16
        }) == ((if x >= 128 {
            ((x - 128) * 2) as u8 ^ 0xD5
        } else {
            (x * 2) as u8
        }) ^ ((2 * y) as u8)) as u16) by (bit_vector);
    }
}

proof fn lemma_divide_byte(r: u8, byte: u8, k: nat)
    requires
        k <= 8,
    ensures
        divide_byte(r as u16, byte, k) == crc8_bits(r, k) ^ ((byte as nat / power2::pow2(
            (8 - k) as nat,
        )) as u8),
    decreases k,
{
    power2::lemma2_to64();
    if k == 0 {
        assert(byte as nat / 256 == 0);
        assert(r ^ 0 == r) by (bit_vector);
    } else {
        let j = (k - 1) as nat;
        lemma_divide_byte(r, byte, j);
        let y = (byte as nat / power2::pow2((8 - j) as nat)) as u8;
        let b = byte as nat;
        let bit = high_bit(byte, j);
        assert(y < 128 && b / power2::pow2((8 - k) as nat) == 2 * y + if bit { 1int } else { 0int })
            by {
            if j == 0 {
                assert(b / 256 == 0 && b / 128 == b / 128 % 2);
            } else if j == 1 {
                assert(b / 64 == 2 * (b / 128) + b / 64 % 2);
            } else if j == 2 {
                assert(b / 32 == 2 * (b / 64) + b / 32 % 2);
            } else if j == 3 {
                assert(b / 16 == 2 * (b / 32) + b / 16 % 2);
            } else if j == 4 {
                assert(b / 8 == 2 * (b / 16) + b / 8 % 2);
            } else if j == 5 {
                assert(b / 4 == 2 * (b / 8) + b / 4 % 2);
            } else if j == 6 {
                assert(b / 2 == 2 * (b / 4) + b / 2 % 2);
            } else {
                assert(b / 1 == 2 * (b / 2) + b / 1 % 2);
            }
        }
        lemma_bring_down(crc8_bits(r, j), y, bit);
    }
}

proof fn lemma_crc_is_the_shifted_remainder(data: Seq<u8>)
    ensures
        remainder_of(data) < 0x100,
        crc8_of(data) == crc8_bits(remainder_of(data) as u8, 8),
    decreases data.len(),
{
    if data.len() == 0 {
        assert(crc8_bits(0, 8) == 0) by {
            reveal_with_fuel(crc8_bits, 9);
        }
    } else {
        let head = data.drop_last();
        lemma_crc_is_the_shifted_remainder(head);
        lemma_divide_byte(remainder_of(head) as u8, data.last(), 8);
        power2::lemma2_to64();
        assert(data.last() as nat / 1 == data.last());
    }
}

/// The CRC makes a multiple of the generator: any bytes followed by their CRC, read
/// as a polynomial over GF(2), divide by `x^8 + x^7 + x^6 + x^4 + x^2 + 1` without a
/// remainder, and by no other last byte do they.
pub proof fn law_crc_completes_a_multiple(data: Seq<u8>, last: u8)
    ensures
        remainder_of(data.push(last)) == 0 <==> last == crc8_of(data),
{
    lemma_crc_is_the_shifted_remainder(data);
    assert(data.push(last).drop_last() =~= data);
    lemma_divide_byte(remainder_of(data) as u8, last, 8);
    power2::lemma2_to64();
    assert(last as nat / 1 == last);
    let c = crc8_of(data);
    assert(c ^ last == 0 <==> last == c) by (bit_vector);
}

/// A frame as a receiver sends it.
pub open spec fn sent_frame(kind: u8, payload: Seq<u8>, crc: u8) -> Seq<u8> {
    seq![0xC8u8, (payload.len() + 2) as u8, kind] + payload + seq![crc]
}

proof fn lemma_sent_frame(kind: u8, payload: Seq<u8>, crc: u8)
    requires
        payload.len() <= 60,
    ensures
        is_frame(sent_frame(kind, payload, crc)),
        payload_of(sent_frame(kind, payload, crc)) == payload,
        sent_frame(kind, payload, crc)[2] == kind,
        crc_matches(sent_frame(kind, payload, crc)) <==> remainder_of(
            seq![kind] + payload + seq![crc],
        ) == 0,
{
    let frame = sent_frame(kind, payload, crc);
    let covered = seq![kind] + payload;
    assert(frame.subrange(3, frame.len() - 1) =~= payload);
    assert(frame.subrange(2, frame.len() - 1) =~= covered);
    assert(seq![kind] + payload + seq![crc] =~= covered.push(crc));
    law_crc_completes_a_multiple(covered, crc);
}

/// Channels that a receiver sends arrive: a frame of type 16 hex around 22 bytes or
/// more, type, payload and CRC being together a multiple of the generator, delivers
/// sixteen numbers whose bits are those of the payload, eleven at a time from the
/// lowest bit of the first byte on.
pub proof fn law_sent_channels_arrive(
    payload: Seq<u8>,
    crc: u8,
    event: Option<CrsfEvent>,
    i: int,
    j: u32,
)
    requires
        22 <= payload.len() <= 60,
        remainder_of(seq![0x16u8] + payload + seq![crc]) == 0,
        delivers(sent_frame(0x16, payload, crc), event),
        0 <= i < 16,
        j < 11,
    ensures
        is_frame(sent_frame(0x16, payload, crc)),
        event matches Some(CrsfEvent::Channels(ch)) && ch.channels@[i] < 2048 && (((ch.channels@[i]
            as u32) >> j) & 1 == 1 <==> payload_bit(payload, 11 * i + j)),
{
    lemma_sent_frame(0x16, payload, crc);
    law_channels_are_packed_back_to_back(payload, i, j);
}

/// Link statistics that a receiver sends arrive: a frame of type 14 hex around ten
/// bytes, each in its own place, with the two noise ratios signed.
pub proof fn law_sent_statistics_arrive(
    payload: Seq<u8>,
    crc: u8,
    event: Option<CrsfEvent>,
    up_snr: i8,
    down_snr: i8,
)
    requires
        10 <= payload.len() <= 60,
        remainder_of(seq![0x14u8] + payload + seq![crc]) == 0,
        delivers(sent_frame(0x14, payload, crc), event),
        payload[3] == up_snr as int % 256,
        payload[9] == down_snr as int % 256,
    ensures
        event matches Some(CrsfEvent::Link(l)) && l.uplink_rssi_ant1 == payload[0]
            && l.uplink_rssi_ant2 == payload[1] && l.uplink_link_quality == payload[2]
            && l.uplink_snr == up_snr && l.active_antenna == payload[4] && l.rf_mode == payload[5]
            && l.uplink_tx_power == payload[6] && l.downlink_rssi == payload[7]
            && l.downlink_link_quality == payload[8] && l.downlink_snr == down_snr,
{
    lemma_sent_frame(0x14, payload, crc);
}

/// Frames of other types, and frames that are no multiple of the generator, deliver
/// nothing.
pub proof fn law_other_frames_deliver_nothing(
    kind: u8,
    payload: Seq<u8>,
    crc: u8,
    event: Option<CrsfEvent>,
)
    requires
        payload.len() <= 60,
        delivers(sent_frame(kind, payload, crc), event),
        (kind != 0x16 && kind != 0x14) || remainder_of(seq![kind] + payload + seq![crc]) != 0,
    ensures
        event is None,
{
    lemma_sent_frame(kind, payload, crc);
}

/// A frame is delimited by its length byte: C8 hex, a length from 2 to 62, and that
/// many bytes.
pub proof fn law_frame_is_delimited(s: Seq<u8>)
    ensures
        is_frame(s) <==> s.len() >= 4 && s[0] == 0xC8 && 2 <= s[1] <= 62 && s.len() == s[1] + 2,
{
}

/// The microsecond scale is the line through both end points, rounded down.
pub proof fn law_us_scale_is_linear(raw: u16)
    ensures
        1639 * (RcChannels::spec_us(raw) - 988) <= 1024 * (raw - 172) < 1639 * (RcChannels::spec_us(
            raw,
        ) - 987),
{
}

/// A channel covers its range from 172 to 1811: nothing at the low end, all of it at the
/// high end, and evenly in between. A stick is at rest at 992 and moves by twice that.
pub proof fn law_stick_travel(raw: u16, more: u16)
    ensures
        1639 * RcChannels::range_fraction(raw).num == RcChannels::range_fraction(raw).den * (raw - 172),
        raw == 1811 ==> RcChannels::range_fraction(raw).num == RcChannels::range_fraction(raw).den,
        RcChannels::stick_fraction(more).num - RcChannels::stick_fraction(raw).num == 2 * (
        RcChannels::range_fraction(more).num - RcChannels::range_fraction(raw).num),
        RcChannels::stick_fraction(raw).num == 0 <==> raw == 992,
        RcChannels::stick_fraction(raw).den == 1639,
{
}

} // verus!
