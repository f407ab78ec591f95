//! u-blox UBX binary protocol.
//!
//! A frame is `[0xB5] [0x62] [class] [id] [len lo] [len hi] [payload...]
//! [ck a] [ck b]`. The checksum is Fletcher-16 over class, id, length and
//! payload. NAV-PVT (class 0x01, id 0x07) carries position, velocity, time and
//! fix quality in 92 bytes of payload.

use crate::bytes;
use vstd::prelude::*;

verus! {

pub const SYNC_1: u8 = 0xB5;

pub const SYNC_2: u8 = 0x62;

/// Largest payload that is accepted.
pub const MAX_PAYLOAD: usize = 128;

/// Largest frame: sync, header, payload and checksum.
pub const MAX_FRAME: usize = 136;

/// Payload length of NAV-PVT.
pub const NAV_PVT_LEN: usize = 92;

/// Messages that are decoded.
#[derive(Debug, Clone, Copy, PartialEq, Eq, Structural)]
pub enum MsgType {
    NavPvt,
}

/// Fix type of a NAV-PVT.
#[derive(Debug, Clone, Copy, PartialEq, Eq, Structural)]
pub enum FixType {
    NoFix,
    DeadReckoning,
    Fix2D,
    Fix3D,
    GnssDeadReckoning,
    TimeOnly,
}

impl FixType {
    /// The fix type a byte stands for.
    pub open spec fn of_byte(b: u8) -> Self {
        if b == 1 {
            FixType::DeadReckoning
        } else if b == 2 {
            FixType::Fix2D
        } else if b == 3 {
            FixType::Fix3D
        } else if b == 4 {
            FixType::GnssDeadReckoning
        } else if b == 5 {
            FixType::TimeOnly
        } else {
            FixType::NoFix
        }
    }

    fn from_byte(b: u8) -> (t: Self)
        ensures
            t == Self::of_byte(b),
    {
        match b {
            1 => FixType::DeadReckoning,
            2 => FixType::Fix2D,
            3 => FixType::Fix3D,
            4 => FixType::GnssDeadReckoning,
            5 => FixType::TimeOnly,
            _ => FixType::NoFix,
        }
    }

    /// Whether this is a position fix at all.
    pub open spec fn is_fix(self) -> bool {
        self == FixType::Fix2D || self == FixType::Fix3D || self == FixType::GnssDeadReckoning
    }

    /// Whether the altitude is part of the fix.
    pub open spec fn is_3d(self) -> bool {
        self == FixType::Fix3D || self == FixType::GnssDeadReckoning
    }

    pub fn has_fix(self) -> (b: bool)
        ensures
            b == self.is_fix(),
    {
        match self {
            FixType::Fix2D | FixType::Fix3D | FixType::GnssDeadReckoning => true,
            _ => false,
        }
    }

    pub fn has_3d_fix(self) -> (b: bool)
        ensures
            b == self.is_3d(),
    {
        match self {
            FixType::Fix3D | FixType::GnssDeadReckoning => true,
            _ => false,
        }
    }
}

/// Data of a NAV-PVT, in the units it is sent in.
#[derive(Debug, Clone, Copy, PartialEq, Eq, Structural)]
pub struct GpsData {
    /// Latitude, 1e-7 degrees, north positive.
    pub latitude_e7: i32,
    /// Longitude, 1e-7 degrees, east positive.
    pub longitude_e7: i32,
    /// Altitude above mean sea level, mm.
    pub altitude_msl_mm: i32,
    /// Horizontal accuracy estimate, mm.
    pub h_acc_mm: u32,
    /// Vertical accuracy estimate, mm.
    pub v_acc_mm: u32,
    /// North velocity, mm/s.
    pub vel_n_mms: i32,
    /// East velocity, mm/s.
    pub vel_e_mms: i32,
    /// Down velocity, mm/s.
    pub vel_d_mms: i32,
    /// Ground speed, mm/s.
    pub ground_speed_mms: i32,
    /// Speed accuracy estimate, mm/s.
    pub s_acc_mms: u32,
    /// Heading of motion, 1e-5 degrees.
    pub heading_motion_e5: i32,
    /// Heading accuracy estimate, 1e-5 degrees.
    pub heading_acc_e5: u32,
    pub fix_type: FixType,
    /// Satellites used.
    pub satellites: u8,
    /// The receiver vouches for the fix.
    pub fix_ok: bool,
    /// Position dilution of precision, hundredths.
    pub pdop_e2: u16,
    pub hour: u8,
    pub minute: u8,
    pub second: u8,
    /// Date and time are both valid.
    pub time_valid: bool,
    /// A NAV-PVT has been decoded.
    pub updated: bool,
}

/// The data before anything has been received.
pub open spec fn initial_data() -> GpsData {
    GpsData {
        latitude_e7: 0,
        longitude_e7: 0,
        altitude_msl_mm: 0,
        h_acc_mm: 99_000,
        v_acc_mm: 99_000,
        vel_n_mms: 0,
        vel_e_mms: 0,
        vel_d_mms: 0,
        ground_speed_mms: 0,
        s_acc_mms: 99_000,
        heading_motion_e5: 0,
        heading_acc_e5: 18_000_000,
        fix_type: FixType::NoFix,
        satellites: 0,
        fix_ok: false,
        pdop_e2: 9_900,
        hour: 0,
        minute: 0,
        second: 0,
        time_valid: false,
        updated: false,
    }
}

impl GpsData {
    pub fn new() -> (d: Self)
        ensures
            d == initial_data(),
    {
        GpsData {
            latitude_e7: 0,
            longitude_e7: 0,
            altitude_msl_mm: 0,
            h_acc_mm: 99_000,
            v_acc_mm: 99_000,
            vel_n_mms: 0,
            vel_e_mms: 0,
            vel_d_mms: 0,
            ground_speed_mms: 0,
            s_acc_mms: 99_000,
            heading_motion_e5: 0,
            heading_acc_e5: 18_000_000,
            fix_type: FixType::NoFix,
            satellites: 0,
            fix_ok: false,
            pdop_e2: 9_900,
            hour: 0,
            minute: 0,
            second: 0,
            time_valid: false,
            updated: false,
        }
    }

    pub fn has_fix(&self) -> (b: bool)
        ensures
            b == (self.fix_ok && self.fix_type.is_fix()),
    {
        self.fix_ok && self.fix_type.has_fix()
    }

    pub fn has_3d_fix(&self) -> (b: bool)
        ensures
            b == (self.fix_ok && self.fix_type.is_3d()),
    {
        self.fix_ok && self.fix_type.has_3d_fix()
    }
}

// ---- Checksum ----

/// Sum of a run of bytes, modulo 256.
pub open spec fn sum_of(data: Seq<u8>) -> int
    decreases data.len(),
{
    if data.len() == 0 {
        0
    } else {
        (sum_of(data.drop_last()) + data.last()) % 256
    }
}

/// Sum of the running sums, modulo 256.
pub open spec fn sum_of_sums(data: Seq<u8>) -> int
    decreases data.len(),
{
    if data.len() == 0 {
        0
    } else {
        (sum_of_sums(data.drop_last()) + sum_of(data)) % 256
    }
}

/// Fletcher-16: the sum of the bytes and the sum of the running sums.
pub fn fletcher16(data: &[u8]) -> (ck: (u8, u8))
    ensures
        ck.0 == sum_of(data@),
        ck.1 == sum_of_sums(data@),
{
    let mut a: u8 = 0;
    let mut b: u8 = 0;
    let mut i: usize = 0;
    assert(data@.take(0) =~= Seq::empty());
    while i < data.len()
        invariant
            i <= data@.len(),
            a == sum_of(data@.take(i as int)),
            b == sum_of_sums(data@.take(i as int)),
        decreases data.len() - i,
    {
        assert(data@.take(i + 1).drop_last() =~= data@.take(i as int));
        a = ((a as u16 + data[i] as u16) % 256) as u8;
        b = ((b as u16 + a as u16) % 256) as u8;
        i += 1;
    }
    assert(data@.take(data@.len() as int) =~= data@);
    (a, b)
}

// ---- Frames ----

/// Whether bytes are a frame as far as sync and length tell.
pub open spec fn is_frame(s: Seq<u8>) -> bool {
    &&& s.len() >= 8
    &&& s[0] == SYNC_1
    &&& s[1] == SYNC_2
    &&& bytes::u16_le(s, 4) <= MAX_PAYLOAD
    &&& s.len() == 8 + bytes::u16_le(s, 4)
}

/// Whether a complete frame's checksum matches.
pub open spec fn checks_out(s: Seq<u8>) -> bool {
    let body = s.subrange(2, s.len() - 2);
    s[s.len() - 2] == sum_of(body) && s.last() == sum_of_sums(body)
}

/// The message of a complete frame, if it is one that is decoded.
pub open spec fn message_of(s: Seq<u8>) -> Option<MsgType> {
    if checks_out(s) && s[2] == 0x01 && s[3] == 0x07 && s.len() >= 8 + NAV_PVT_LEN {
        Some(MsgType::NavPvt)
    } else {
        None
    }
}

/// A signed 32-bit number in a payload.
pub open spec fn i32_at(p: Seq<u8>, at: int) -> i32 {
    bytes::twos_complement(bytes::u32_le(p, at), 0x8000_0000) as i32
}

/// The data in a NAV-PVT payload.
pub open spec fn nav_pvt(p: Seq<u8>) -> GpsData {
    GpsData {
        hour: p[8],
        minute: p[9],
        second: p[10],
        time_valid: p[11] % 4 == 3,
        fix_type: FixType::of_byte(p[20]),
        fix_ok: p[21] % 2 == 1,
        satellites: p[23],
        longitude_e7: i32_at(p, 24),
        latitude_e7: i32_at(p, 28),
        altitude_msl_mm: i32_at(p, 36),
        h_acc_mm: bytes::u32_le(p, 40) as u32,
        v_acc_mm: bytes::u32_le(p, 44) as u32,
        vel_n_mms: i32_at(p, 48),
        vel_e_mms: i32_at(p, 52),
        vel_d_mms: i32_at(p, 56),
        ground_speed_mms: i32_at(p, 60),
        heading_motion_e5: i32_at(p, 64),
        s_acc_mms: bytes::u32_le(p, 68) as u32,
        heading_acc_e5: bytes::u32_le(p, 72) as u32,
        pdop_e2: bytes::u16_le(p, 76) as u16,
        updated: true,
    }
}

/// The data after a complete frame.
pub open spec fn after_frame(d: GpsData, s: Seq<u8>) -> GpsData {
    match message_of(s) {
        Some(MsgType::NavPvt) => nav_pvt(s.subrange(6, s.len() - 2)),
        None => d,
    }
}

/// The bytes held after one more has arrived.
pub open spec fn pending_after(pending: Seq<u8>, byte: u8) -> Seq<u8> {
    let next = pending.push(byte);
    if pending.len() == 0 {
        if byte == SYNC_1 {
            next
        } else {
            Seq::empty()
        }
    } else if pending.len() == 1 {
        if byte == SYNC_2 {
            next
        } else if byte == SYNC_1 {
            pending
        } else {
            Seq::empty()
        }
    } else if pending.len() == 5 && bytes::u16_le(next, 4) > MAX_PAYLOAD {
        Seq::empty()
    } else if is_frame(next) {
        Seq::empty()
    } else {
        next
    }
}

/// Whether held bytes are the start of a frame that is not complete.
pub open spec fn is_pending(s: Seq<u8>) -> bool {
    &&& s.len() >= 1 ==> s[0] == SYNC_1
    &&& s.len() >= 2 ==> s[1] == SYNC_2
    &&& s.len() >= 6 ==> bytes::u16_le(s, 4) <= MAX_PAYLOAD && s.len() < 8 + bytes::u16_le(s, 4)
}

/// What a parser waits for.
#[derive(Debug, Clone, Copy, PartialEq, Eq, Structural)]
pub enum ParserState {
    WaitSync1,
    WaitSync2,
    ReadHeader,
    ReadPayload,
}

/// Streaming parser: feed it bytes; `data` changes with each valid NAV-PVT.
pub struct UbxParser {
    pub buf: [u8; MAX_FRAME],
    pub pos: usize,
    pub data: GpsData,
}

impl UbxParser {
    pub open spec fn wf(&self) -> bool {
        &&& self.pos <= MAX_FRAME
        &&& is_pending(self.pending())
    }

    /// The bytes of the frame being received.
    pub open spec fn pending(&self) -> Seq<u8> {
        self.buf@.take(self.pos as int)
    }

    pub fn new() -> (p: Self)
        ensures
            p.wf(),
            p.pending() == Seq::<u8>::empty(),
            p.data == initial_data(),
    {
        let p = UbxParser { buf: [0; MAX_FRAME], pos: 0, data: GpsData::new() };
        assert(p.pending() =~= Seq::empty());
        p
    }

    /// What the parser waits for.
    pub fn state(&self) -> (state: ParserState)
        requires
            self.wf(),
        ensures
            state == (if self.pending().len() == 0 {
                ParserState::WaitSync1
            } else if self.pending().len() == 1 {
                ParserState::WaitSync2
            } else if self.pending().len() < 6 {
                ParserState::ReadHeader
            } else {
                ParserState::ReadPayload
            }),
    {
        match self.pos {
            0 => ParserState::WaitSync1,
            1 => ParserState::WaitSync2,
            2 | 3 | 4 | 5 => ParserState::ReadHeader,
            _ => ParserState::ReadPayload,
        }
    }

    /// Feeds one byte. The message type comes with the last byte of a valid
    /// message that is decoded.
    pub fn push_byte(&mut self, byte: u8) -> (kind: Option<MsgType>)
        requires
            old(self).wf(),
        ensures
            final(self).wf(),
            final(self).pending() == pending_after(old(self).pending(), byte),
            is_frame(old(self).pending().push(byte)) ==> {
                &&& kind == message_of(old(self).pending().push(byte))
                &&& final(self).data == after_frame(
                    old(self).data,
                    old(self).pending().push(byte),
                )
            },
            !is_frame(old(self).pending().push(byte)) ==> kind is None && final(self).data == old(
                self,
            ).data,
    {
        let ghost before = self.pending();
        let ghost next = before.push(byte);
        if self.pos == 0 {
            if byte == SYNC_1 {
                self.buf[0] = byte;
                self.pos = 1;
            }
            assert(self.pending() =~= pending_after(before, byte));
            return None;
        }
        if self.pos == 1 {
            assert(before[0] == SYNC_1);
            if byte == SYNC_2 {
                self.buf[1] = byte;
                self.pos = 2;
            } else if byte != SYNC_1 {
                self.pos = 0;
            }
            assert(self.pending() =~= pending_after(before, byte));
            return None;
        }
        assert(before[0] == SYNC_1 && before[1] == SYNC_2);
        self.buf[self.pos] = byte;
        self.pos = self.pos + 1;
        assert(self.pending() =~= next);
        if self.pos < 6 {
            return None;
        }
        let len: usize = bytes::read_u16_le(self.buf.as_slice(), 4) as usize;
        assert(len == bytes::u16_le(next, 4));
        if len > MAX_PAYLOAD {
            self.pos = 0;
            assert(self.pending() =~= Seq::empty());
            return None;
        }
        if self.pos >= 8 + len {
            let frame: &[u8] = vstd::slice::slice_subrange(self.buf.as_slice(), 0, self.pos);
            assert(frame@ =~= next);
            let kind: Option<MsgType> = decode_frame(&mut self.data, frame);
            self.pos = 0;
            assert(self.pending() =~= Seq::empty());
            return kind;
        }
        None
    }
}

/// Takes a complete frame into the data.
pub fn decode_frame(data: &mut GpsData, frame: &[u8]) -> (kind: Option<MsgType>)
    requires
        is_frame(frame@),
    ensures
        kind == message_of(frame@),
        *final(data) == after_frame(*old(data), frame@),
{
    let n: usize = frame.len();
    let (a, b): (u8, u8) = fletcher16(vstd::slice::slice_subrange(frame, 2, n - 2));
    if a != frame[n - 2] || b != frame[n - 1] {
        return None;
    }
    if frame[2] != 0x01 || frame[3] != 0x07 || n < 8 + NAV_PVT_LEN {
        return None;
    }
    *data = decode_nav_pvt(vstd::slice::slice_subrange(frame, 6, n - 2));
    Some(MsgType::NavPvt)
}

fn decode_nav_pvt(p: &[u8]) -> (d: GpsData)
    requires
        p@.len() >= NAV_PVT_LEN,
    ensures
        d == nav_pvt(p@),
{
    GpsData {
        hour: p[8],
        minute: p[9],
        second: p[10],
        time_valid: p[11] % 4 == 3,
        fix_type: FixType::from_byte(p[20]),
        fix_ok: p[21] % 2 == 1,
        satellites: p[23],
        longitude_e7: bytes::read_i32_le(p, 24),
        latitude_e7: bytes::read_i32_le(p, 28),
        altitude_msl_mm: bytes::read_i32_le(p, 36),
        h_acc_mm: bytes::read_u32_le(p, 40),
        v_acc_mm: bytes::read_u32_le(p, 44),
        vel_n_mms: bytes::read_i32_le(p, 48),
        vel_e_mms: bytes::read_i32_le(p, 52),
        vel_d_mms: bytes::read_i32_le(p, 56),
        ground_speed_mms: bytes::read_i32_le(p, 60),
        heading_motion_e5: bytes::read_i32_le(p, 64),
        s_acc_mms: bytes::read_u32_le(p, 68),
        heading_acc_e5: bytes::read_u32_le(p, 72),
        pdop_e2: bytes::read_u16_le(p, 76),
        updated: true,
    }
}

// ---- Commands ----

/// Class, id, length and payload of a frame. The length field holds the low 16
/// bits of the payload's length.
pub open spec fn frame_body(class: u8, id: u8, payload: Seq<u8>) -> Seq<u8> {
    seq![
        class,
        id,
        bytes::byte_of(payload.len() as int, 0),
        bytes::byte_of(payload.len() as int, 1),
    ] + payload
}

/// The frame that carries a payload.
pub open spec fn frame_bytes(class: u8, id: u8, payload: Seq<u8>) -> Seq<u8> {
    let body = frame_body(class, id, payload);
    seq![SYNC_1, SYNC_2] + body + seq![sum_of(body) as u8, sum_of_sums(body) as u8]
}

/// Builds a complete frame at the start of `out` and returns its length.
pub fn build_frame(out: &mut [u8], class: u8, id: u8, payload: &[u8]) -> (n: usize)
    requires
        old(out)@.len() >= 8 + payload@.len(),
    ensures
        n == 8 + payload@.len(),
        final(out)@ == frame_bytes(class, id, payload@) + old(out)@.skip(n as int),
{
    let len: usize = payload.len();
    let room: usize = out.len();
    out[0] = SYNC_1;
    out[1] = SYNC_2;
    out[2] = class;
    out[3] = id;
    out[4] = (len % 0x100) as u8;
    out[5] = (len / 0x100 % 0x100) as u8;
    let mut i: usize = 0;
    while i < len
        invariant
            i <= len,
            len == payload@.len(),
            room == out@.len(),
            out@.len() == old(out)@.len(),
            room >= 8 + len,
            out@[0] == SYNC_1,
            out@[1] == SYNC_2,
            out@[2] == class,
            out@[3] == id,
            out@[4] == bytes::byte_of(len as int, 0),
            out@[5] == bytes::byte_of(len as int, 1),
            forall|k: int| 0 <= k < i ==> #[trigger] out@[6 + k] == payload@[k],
            forall|k: int| 6 + i <= k < out@.len() ==> #[trigger] out@[k] == old(out)@[k],
        decreases len - i,
    {
        out[6 + i] = payload[i];
        i += 1;
    }
    let ghost body = frame_body(class, id, payload@);
    assert(out@.subrange(2, 6 + len) =~= body) by {
        assert forall|k: int| 0 <= k < body.len() implies out@.subrange(2, 6 + len)[k] == body[k] by {
            if k >= 4 {
                assert(out@[6 + (k - 4)] == payload@[k - 4]);
            }
        }
    }
    let (a, b): (u8, u8) = fletcher16(vstd::slice::slice_subrange(&*out, 2, 6 + len));
    let ghost before = out@;
    out[6 + len] = a;
    out[7 + len] = b;
    assert(out@ =~= frame_bytes(class, id, payload@) + old(out)@.skip(8 + len)) by {
        let want = frame_bytes(class, id, payload@) + old(out)@.skip(8 + len);
        assert forall|k: int| 0 <= k < out@.len() implies out@[k] == want[k] by {
            if 2 <= k < 6 + len {
                assert(before.subrange(2, 6 + len)[k - 2] == body[k - 2]);
            }
        }
    }
    8 + len
}

/// Builds a poll request (empty payload) for a message.
pub fn poll_msg(out: &mut [u8], class: u8, id: u8) -> (n: usize)
    requires
        old(out)@.len() >= 8,
    ensures
        n == 8,
        final(out)@ == frame_bytes(class, id, Seq::empty()) + old(out)@.skip(8),
{
    let none: [u8; 0] = [];
    assert(none@ =~= Seq::empty());
    build_frame(out, class, id, none.as_slice())
}

// ---- Laws ----

/// The bytes held after a run of bytes.
pub open spec fn pending_after_all(pending: Seq<u8>, run: Seq<u8>) -> Seq<u8>
    decreases run.len(),
{
    if run.len() == 0 {
        pending
    } else {
        pending_after(pending_after_all(pending, run.drop_last()), run.last())
    }
}

/// A frame fed to an idle parser is held byte by byte until its last byte, which
/// leaves the parser idle again. With the contract of `push_byte`, the last
/// byte, and only that one, delivers the message.
pub proof fn law_frame_is_received_whole(frame: Seq<u8>, k: int)
    requires
        is_frame(frame),
        0 <= k < frame.len(),
    ensures
        pending_after_all(Seq::empty(), frame.take(k)) == frame.take(k),
        is_frame(frame.take(k).push(frame[k])) <==> k + 1 == frame.len(),
        pending_after_all(Seq::empty(), frame) == Seq::<u8>::empty(),
{
    lemma_frame_prefix(frame, k);
    lemma_frame_prefix(frame, frame.len() - 1);
    assert(frame.drop_last() =~= frame.take(frame.len() - 1));
    assert(frame.drop_last().push(frame.last()) =~= frame);
    assert(frame.take(k).push(frame[k]) =~= frame.take(k + 1));
    if k + 1 < frame.len() && k + 1 >= 8 {
        assert(bytes::u16_le(frame.take(k + 1), 4) == bytes::u16_le(frame, 4));
    }
    if k + 1 == frame.len() {
        assert(frame.take(k + 1) =~= frame);
    }
}

proof fn lemma_frame_prefix(frame: Seq<u8>, k: int)
    requires
        is_frame(frame),
        0 <= k < frame.len(),
    ensures
        pending_after_all(Seq::empty(), frame.take(k)) == frame.take(k),
    decreases k,
{
    if k > 0 {
        lemma_frame_prefix(frame, k - 1);
        assert(frame.take(k).drop_last() =~= frame.take(k - 1));
        assert(frame.take(k - 1).push(frame[k - 1]) =~= frame.take(k));
        if k >= 6 {
            assert(bytes::u16_le(frame.take(k), 4) == bytes::u16_le(frame, 4));
        }
    } else {
        assert(frame.take(0) =~= Seq::empty());
    }
}

/// A frame that was built is a frame, and its checksum matches.
pub proof fn law_built_frame_checks_out(class: u8, id: u8, payload: Seq<u8>)
    requires
        payload.len() <= MAX_PAYLOAD,
    ensures
        is_frame(frame_bytes(class, id, payload)),
        checks_out(frame_bytes(class, id, payload)),
{
    let s = frame_bytes(class, id, payload);
    let body = frame_body(class, id, payload);
    assert(s.subrange(2, s.len() - 2) =~= body);
    lemma_sums_are_bytes(body);
}

proof fn lemma_sums_are_bytes(data: Seq<u8>)
    ensures
        0 <= sum_of(data) < 256,
        0 <= sum_of_sums(data) < 256,
{
}

/// A NAV-PVT that was built is decoded to exactly what its payload says.
pub proof fn law_nav_pvt_round_trip(payload: Seq<u8>, d: GpsData)
    requires
        NAV_PVT_LEN <= payload.len() <= MAX_PAYLOAD,
    ensures
        message_of(frame_bytes(0x01, 0x07, payload)) == Some(MsgType::NavPvt),
        after_frame(d, frame_bytes(0x01, 0x07, payload)) == nav_pvt(payload),
{
    law_built_frame_checks_out(0x01, 0x07, payload);
    let s = frame_bytes(0x01, 0x07, payload);
    assert(s.subrange(6, s.len() - 2) =~= payload);
}

/// A frame with one byte of class, id, length or payload changed no longer
/// checks out.
pub proof fn law_one_corrupt_byte_is_rejected(s: Seq<u8>, t: Seq<u8>, at: int)
    requires
        is_frame(s),
        checks_out(s),
        t.len() == s.len(),
        2 <= at < s.len() - 2,
        t[at] != s[at],
        forall|i: int| 0 <= i < s.len() && i != at ==> t[i] == s[i],
    ensures
        !checks_out(t),
{
    let a = s.subrange(2, s.len() - 2);
    let b = t.subrange(2, t.len() - 2);
    assert forall|i: int| 0 <= i < a.len() && i != at - 2 implies a[i] == b[i] by {
        assert(s[i + 2] == t[i + 2]);
    }
    lemma_sum_shift(a, b, at - 2);
}

proof fn lemma_sum_shift(a: Seq<u8>, b: Seq<u8>, at: int)
    requires
        a.len() == b.len(),
        0 <= at < a.len(),
        a[at] != b[at],
        forall|i: int| 0 <= i < a.len() && i != at ==> a[i] == b[i],
    ensures
        sum_of(a) != sum_of(b),
    decreases a.len(),
{
    if at == a.len() - 1 {
        assert(a.drop_last() =~= b.drop_last());
    } else {
        lemma_sum_shift(a.drop_last(), b.drop_last(), at);
    }
    lemma_sums_are_bytes(a.drop_last());
    lemma_sums_are_bytes(b.drop_last());
}

/// Bytes without the first sync byte leave an idle parser idle.
pub proof fn law_garbage_is_skipped(garbage: Seq<u8>)
    requires
        forall|i: int| 0 <= i < garbage.len() ==> garbage[i] != SYNC_1,
    ensures
        pending_after_all(Seq::empty(), garbage) == Seq::<u8>::empty(),
    decreases garbage.len(),
{
    if garbage.len() > 0 {
        law_garbage_is_skipped(garbage.drop_last());
    }
}

/// A NAV-PVT is read as what was sent: every quantity at its place in the payload, in
/// little-endian two's complement, inside a frame that starts with B5 62 01 07.
pub proof fn law_sent_nav_pvt_is_read(payload: Seq<u8>, sent: GpsData, d: GpsData)
    requires
        92 <= payload.len() <= MAX_PAYLOAD,
        payload[8] == sent.hour,
        payload[9] == sent.minute,
        payload[10] == sent.second,
        payload[11] == (if sent.time_valid { 0x37u8 } else { 0x35u8 }),
        payload[20] == (match sent.fix_type {
            FixType::NoFix => 0u8,
            FixType::DeadReckoning => 1u8,
            FixType::Fix2D => 2u8,
            FixType::Fix3D => 3u8,
            FixType::GnssDeadReckoning => 4u8,
            FixType::TimeOnly => 5u8,
        }),
        payload[21] == (if sent.fix_ok { 0x03u8 } else { 0x02u8 }),
        payload[23] == sent.satellites,
        bytes::stands_in(payload, 24, bytes::written_le(sent.longitude_e7 as int, 4)),
        bytes::stands_in(payload, 28, bytes::written_le(sent.latitude_e7 as int, 4)),
        bytes::stands_in(payload, 36, bytes::written_le(sent.altitude_msl_mm as int, 4)),
        bytes::stands_in(payload, 40, bytes::written_le(sent.h_acc_mm as int, 4)),
        bytes::stands_in(payload, 44, bytes::written_le(sent.v_acc_mm as int, 4)),
        bytes::stands_in(payload, 48, bytes::written_le(sent.vel_n_mms as int, 4)),
        bytes::stands_in(payload, 52, bytes::written_le(sent.vel_e_mms as int, 4)),
        bytes::stands_in(payload, 56, bytes::written_le(sent.vel_d_mms as int, 4)),
        bytes::stands_in(payload, 60, bytes::written_le(sent.ground_speed_mms as int, 4)),
        bytes::stands_in(payload, 64, bytes::written_le(sent.heading_motion_e5 as int, 4)),
        bytes::stands_in(payload, 68, bytes::written_le(sent.s_acc_mms as int, 4)),
        bytes::stands_in(payload, 72, bytes::written_le(sent.heading_acc_e5 as int, 4)),
        bytes::stands_in(payload, 76, bytes::written_le(sent.pdop_e2 as int, 2)),
        sent.updated,
    ensures
        frame_bytes(0x01, 0x07, payload).take(4) == seq![0xB5u8, 0x62u8, 0x01u8, 0x07u8],
        after_frame(d, frame_bytes(0x01, 0x07, payload)) == sent,
{
    law_nav_pvt_round_trip(payload, d);
    bytes::law_four_bytes_read_back(payload, 24, sent.longitude_e7 as int);
    bytes::law_four_bytes_read_back(payload, 28, sent.latitude_e7 as int);
    bytes::law_four_bytes_read_back(payload, 36, sent.altitude_msl_mm as int);
    bytes::law_four_bytes_read_back(payload, 40, sent.h_acc_mm as int);
    bytes::law_four_bytes_read_back(payload, 44, sent.v_acc_mm as int);
    bytes::law_four_bytes_read_back(payload, 48, sent.vel_n_mms as int);
    bytes::law_four_bytes_read_back(payload, 52, sent.vel_e_mms as int);
    bytes::law_four_bytes_read_back(payload, 56, sent.vel_d_mms as int);
    bytes::law_four_bytes_read_back(payload, 60, sent.ground_speed_mms as int);
    bytes::law_four_bytes_read_back(payload, 64, sent.heading_motion_e5 as int);
    bytes::law_four_bytes_read_back(payload, 68, sent.s_acc_mms as int);
    bytes::law_four_bytes_read_back(payload, 72, sent.heading_acc_e5 as int);
    bytes::law_two_bytes_read_back(payload, 76, sent.pdop_e2 as int);
    assert(frame_bytes(0x01, 0x07, payload).take(4) =~= seq![0xB5u8, 0x62u8, 0x01u8, 0x07u8]);
}

/// A fix is usable only when the receiver vouches for it, and dead reckoning or time
/// alone is none.
pub proof fn law_which_types_are_fixes(t: FixType)
    ensures
        t.is_fix() <==> t != FixType::NoFix && t != FixType::DeadReckoning && t
            != FixType::TimeOnly,
        t.is_3d() <==> t.is_fix() && t != FixType::Fix2D,
{
}

/// The plain sum of bytes.
pub open spec fn plain_sum(data: Seq<u8>) -> int
    decreases data.len(),
{
    if data.len() == 0 {
        0
    } else {
        data[0] + plain_sum(data.skip(1))
    }
}

/// The sum of bytes, each weighted by how many there are from it to the end.
pub open spec fn weighted_sum(data: Seq<u8>) -> int
    decreases data.len(),
{
    if data.len() == 0 {
        0
    } else {
        data.len() * data[0] + weighted_sum(data.skip(1))
    }
}

proof fn lemma_sums_from_the_back(data: Seq<u8>)
    requires
        data.len() > 0,
    ensures
        plain_sum(data) == plain_sum(data.drop_last()) + data.last(),
        weighted_sum(data) == weighted_sum(data.drop_last()) + plain_sum(data),
    decreases data.len(),
{
    let head = data.drop_last();
    if data.len() == 1 {
        assert(data.skip(1) =~= Seq::empty());
        assert(head =~= Seq::empty());
        assert(data.len() * data[0] == data[0]) by (nonlinear_arith)
            requires
                data.len() == 1,
        ;
    } else {
        lemma_sums_from_the_back(data.skip(1));
        assert(data.skip(1).drop_last() =~= head.skip(1));
        assert(data.skip(1).last() == data.last());
        assert(data.len() * data[0] == head.len() * data[0] + data[0]) by (nonlinear_arith)
            requires
                data.len() == head.len() + 1,
        ;
    }
}

/// The two check bytes are the sum of the bytes and the sum of the bytes weighted by
/// their distance from the end, both modulo 256.
pub proof fn law_check_bytes_are_plain_and_weighted_sum(data: Seq<u8>)
    ensures
        sum_of(data) == plain_sum(data) % 256,
        sum_of_sums(data) == weighted_sum(data) % 256,
    decreases data.len(),
{
    if data.len() > 0 {
        let head = data.drop_last();
        law_check_bytes_are_plain_and_weighted_sum(head);
        lemma_sums_from_the_back(data);
        let p = plain_sum(head);
        let w = weighted_sum(head);
        let l = data.last() as int;
        assert((p % 256 + l) % 256 == (p + l) % 256);
        assert((w % 256 + (p + l) % 256) % 256 == (w + p + l) % 256);
    }
}

/// What the byte of a fix type stands for.
pub proof fn law_fix_bytes(b: u8)
    ensures
        FixType::of_byte(1) is DeadReckoning,
        FixType::of_byte(2) is Fix2D,
        FixType::of_byte(3) is Fix3D,
        FixType::of_byte(4) is GnssDeadReckoning,
        FixType::of_byte(5) is TimeOnly,
        b == 0 || b > 5 ==> FixType::of_byte(b) is NoFix,
{
}

/// A frame is B5 62 hex, the class, the id, the length of the payload in two bytes with
/// the low one first, the payload, and two check bytes: the plain and the weighted sum
/// of all that lies between.
pub proof fn law_frame_layout(class: u8, id: u8, payload: Seq<u8>)
    requires
        payload.len() < 0x1_0000,
    ensures
        ({
            let body = seq![class, id] + bytes::written_le(payload.len() as int, 2) + payload;
            frame_bytes(class, id, payload) == seq![0xB5u8, 0x62u8] + body + seq![
                (plain_sum(body) % 256) as u8,
                (weighted_sum(body) % 256) as u8,
            ]
        }),
{
    let body = seq![class, id] + bytes::written_le(payload.len() as int, 2) + payload;
    bytes::lemma_written_2(payload.len() as int);
    assert(body =~= frame_body(class, id, payload));
    law_check_bytes_are_plain_and_weighted_sum(body);
}

/// A frame may carry 128 bytes: with a longer length field it is dropped as soon as that
/// has come, and with a shorter one it goes on.
pub proof fn law_payload_lengths(pending: Seq<u8>, byte: u8, len: int)
    requires
        pending.len() == 5,
        len == pending[4] + 256 * byte,
    ensures
        len > 128 ==> pending_after(pending, byte).len() == 0,
        len <= 128 ==> pending_after(pending, byte) == pending.push(byte),
{
    let next = pending.push(byte);
    assert(next[4] == pending[4] && next[5] == byte);
}

} // verus!
