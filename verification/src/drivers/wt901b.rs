//! WitMotion WT901B serial protocol.
//!
//! A packet is 11 bytes: `[0x55] [type] [d0..d7] [sum]`, where `sum` is the sum
//! of the ten bytes before it, modulo 256. Data are little-endian. Packets of
//! different types arrive interleaved; the parser keeps the latest of each.

use crate::bytes;
use crate::bytes::{read_i16_le, read_i32_le, read_u32_le};
use crate::ratio::Ratio;
use vstd::prelude::*;

verus! {

/// Sync byte of all packets.
pub const SYNC_BYTE: u8 = 0x55;

/// Packet size, sync and checksum counted.
pub const PACKET_SIZE: usize = 11;

/// Packet types.
#[derive(Debug, Clone, Copy, PartialEq, Eq, Structural)]
pub enum PacketType {
    Time,
    Acceleration,
    AngularVelocity,
    Angle,
    Magnetic,
    Barometer,
    Quaternion,
}

impl PacketType {
    /// The type byte.
    pub open spec fn spec_code(self) -> u8 {
        match self {
            PacketType::Time => 0x50,
            PacketType::Acceleration => 0x51,
            PacketType::AngularVelocity => 0x52,
            PacketType::Angle => 0x53,
            PacketType::Magnetic => 0x54,
            PacketType::Barometer => 0x56,
            PacketType::Quaternion => 0x59,
        }
    }

    /// Whether a byte is a type byte.
    pub open spec fn is_code(b: u8) -> bool {
        0x50 <= b <= 0x54 || b == 0x56 || b == 0x59
    }

    /// The type a byte stands for.
    pub fn from_byte(b: u8) -> (t: Option<Self>)
        ensures
            t is Some == Self::is_code(b),
            t matches Some(v) ==> v.spec_code() == b,
    {
        match b {
            0x50 => Some(PacketType::Time),
            0x51 => Some(PacketType::Acceleration),
            0x52 => Some(PacketType::AngularVelocity),
            0x53 => Some(PacketType::Angle),
            0x54 => Some(PacketType::Magnetic),
            0x56 => Some(PacketType::Barometer),
            0x59 => Some(PacketType::Quaternion),
            _ => None,
        }
    }
}

/// Latest data, in counts.
#[derive(Debug, Clone, Copy)]
pub struct ImuData {
    /// Acceleration (x, y, z); 32768 counts are 16 * 9.8 m/s².
    pub accel: [i16; 3],
    /// Temperature; 100 counts are 1 °C.
    pub temperature: i16,
    /// Angular rates (x, y, z); 32768 counts are 2000 °/s.
    pub gyro: [i16; 3],
    /// Roll, pitch and yaw; 32768 counts are 180°.
    pub angle: [i16; 3],
    /// Magnetic field (x, y, z).
    pub mag: [i16; 3],
    /// Pressure in Pa.
    pub pressure: u32,
    /// Barometric altitude in cm.
    pub altitude_cm: i32,
    /// Quaternion (w, x, y, z); 32768 counts are 1.
    pub quaternion: [i32; 4],
    /// Which data have arrived since the flags were last cleared.
    pub updated: u8,
}

/// The contents of an `ImuData`.
#[verifier::ext_equal]
pub struct ImuView {
    pub accel: Seq<i16>,
    pub temperature: i16,
    pub gyro: Seq<i16>,
    pub angle: Seq<i16>,
    pub mag: Seq<i16>,
    pub pressure: u32,
    pub altitude_cm: i32,
    pub quaternion: Seq<i32>,
    pub updated: u8,
}

impl View for ImuData {
    type V = ImuView;

    open spec fn view(&self) -> ImuView {
        ImuView {
            accel: self.accel@,
            temperature: self.temperature,
            gyro: self.gyro@,
            angle: self.angle@,
            mag: self.mag@,
            pressure: self.pressure,
            altitude_cm: self.altitude_cm,
            quaternion: self.quaternion@,
            updated: self.updated,
        }
    }
}

pub const UPDATED_ACCEL: u8 = 1;

pub const UPDATED_GYRO: u8 = 2;

pub const UPDATED_ANGLE: u8 = 4;

pub const UPDATED_MAG: u8 = 8;

pub const UPDATED_BARO: u8 = 16;

pub const UPDATED_QUAT: u8 = 32;

/// The data before anything has arrived: all zero, and no rotation.
pub open spec fn initial_view() -> ImuView {
    ImuView {
        accel: seq![0i16, 0i16, 0i16],
        temperature: 0,
        gyro: seq![0i16, 0i16, 0i16],
        angle: seq![0i16, 0i16, 0i16],
        mag: seq![0i16, 0i16, 0i16],
        pressure: 0,
        altitude_cm: 0,
        quaternion: seq![32768i32, 0i32, 0i32, 0i32],
        updated: 0,
    }
}

/// Whether fractions are counts of acceleration in m/s².
pub open spec fn are_accelerations(r: Seq<Ratio>, counts: Seq<i16>) -> bool {
    are_scaled(r, counts, 1568, 327_680)
}

/// Whether fractions are counts of angular rate in °/s.
pub open spec fn are_rates(r: Seq<Ratio>, counts: Seq<i16>) -> bool {
    are_scaled(r, counts, 2000, 32_768)
}

/// Whether fractions are counts of angle in degrees.
pub open spec fn are_angles(r: Seq<Ratio>, counts: Seq<i16>) -> bool {
    are_scaled(r, counts, 180, 32_768)
}

/// Whether fractions are counts times `num / den`.
pub open spec fn are_scaled(r: Seq<Ratio>, counts: Seq<i16>, num: int, den: int) -> bool {
    forall|i: int|
        #![trigger r[i]]
        0 <= i < 3 ==> r[i].num == counts[i] * num && r[i].den == den
}

fn scaled(c: [i16; 3], num: i64, den: u32) -> (r: [Ratio; 3])
    requires
        0 < num <= 2000,
    ensures
        are_scaled(r@, c@, num as int, den as int),
{
    assert forall|x: int| -32_768 <= x <= 32_767 implies -65_536_000 <= #[trigger] (x * num)
        <= 65_536_000 by {
        assert(-65_536_000 <= x * num <= 65_536_000) by (nonlinear_arith)
            requires
                -32_768 <= x <= 32_767,
                0 < num <= 2000,
        ;
    }
    [
        Ratio { num: c[0] as i64 * num, den },
        Ratio { num: c[1] as i64 * num, den },
        Ratio { num: c[2] as i64 * num, den },
    ]
}

impl ImuData {
    pub fn new() -> (d: Self)
        ensures
            d@ == initial_view(),
    {
        let d = ImuData {
            accel: [0; 3],
            temperature: 0,
            gyro: [0; 3],
            angle: [0; 3],
            mag: [0; 3],
            pressure: 0,
            altitude_cm: 0,
            quaternion: [32768, 0, 0, 0],
            updated: 0,
        };
        assert(d@ =~= initial_view());
        d
    }

    /// Acceleration in m/s² (x, y, z): full scale is 16 times 9.8.
    pub fn accel_ms2(&self) -> (r: [Ratio; 3])
        ensures
            are_scaled(r@, self.accel@, 1568, 327_680),
            are_accelerations(r@, self.accel@),
    {
        scaled(self.accel, 1568, 327_680)
    }

    /// Temperature in °C.
    pub fn temperature_c(&self) -> (r: Ratio)
        ensures
            r.num == self.temperature,
            r.den == 100,
    {
        Ratio { num: self.temperature as i64, den: 100 }
    }

    /// Angular rates in °/s (x, y, z): full scale is 2000.
    pub fn gyro_dps(&self) -> (r: [Ratio; 3])
        ensures
            are_scaled(r@, self.gyro@, 2000, 32_768),
            are_rates(r@, self.gyro@),
    {
        scaled(self.gyro, 2000, 32_768)
    }

    /// Roll, pitch and yaw in degrees: full scale is 180.
    pub fn angle_deg(&self) -> (r: [Ratio; 3])
        ensures
            are_scaled(r@, self.angle@, 180, 32_768),
            are_angles(r@, self.angle@),
    {
        scaled(self.angle, 180, 32_768)
    }

    /// The quaternion (w, x, y, z): full scale is 1.
    pub fn quaternion_unit(&self) -> (r: [Ratio; 4])
        ensures
            forall|i: int|
                #![trigger r@[i]]
                0 <= i < 4 ==> r@[i].num == self.quaternion@[i] && r@[i].den == 32_768,
    {
        let q: [i32; 4] = self.quaternion;
        [
            Ratio { num: q[0] as i64, den: 32_768 },
            Ratio { num: q[1] as i64, den: 32_768 },
            Ratio { num: q[2] as i64, den: 32_768 },
            Ratio { num: q[3] as i64, den: 32_768 },
        ]
    }

    /// Whether any of the flagged data has arrived; clears the flags.
    pub fn was_updated(&mut self, flag: u8) -> (yes: bool)
        ensures
            yes == (old(self).updated & flag != 0),
            final(self)@ == (ImuView { updated: old(self).updated & !flag, ..old(self)@ }),
    {
        let yes: bool = self.updated & flag != 0;
        self.updated = self.updated & !flag;
        yes
    }

    /// Clears all flags.
    pub fn clear_updates(&mut self)
        ensures
            final(self)@ == (ImuView { updated: 0, ..old(self)@ }),
    {
        self.updated = 0;
    }
}

// ---- Packets ----

/// Sum of a run of bytes, modulo 256.
pub open spec fn sum_of(data: Seq<u8>) -> int
    decreases data.len(),
{
    if data.len() == 0 {
        0
    } else {
        (sum_of(data.drop_last()) + data.last()) % 256
    }
}

/// Whether bytes are a packet as far as sync, type and size tell.
pub open spec fn is_packet(s: Seq<u8>) -> bool {
    s.len() == PACKET_SIZE && s[0] == SYNC_BYTE && PacketType::is_code(s[1])
}

/// Whether the checksum of a packet matches.
pub open spec fn sum_matches(packet: Seq<u8>) -> bool {
    sum_of(packet.take(10)) == packet[10]
}

/// A signed word of a packet.
pub open spec fn word(packet: Seq<u8>, k: int) -> i16 {
    bytes::twos_complement(bytes::u16_le(packet, 2 + 2 * k), 0x8000) as i16
}

/// Three signed words of a packet.
pub open spec fn words(packet: Seq<u8>) -> Seq<i16> {
    seq![word(packet, 0), word(packet, 1), word(packet, 2)]
}

/// The data after a packet with a matching checksum.
pub open spec fn absorbed(d: ImuView, packet: Seq<u8>) -> ImuView {
    if packet[1] == 0x51 {
        ImuView {
            accel: words(packet),
            temperature: word(packet, 3),
            updated: d.updated | UPDATED_ACCEL,
            ..d
        }
    } else if packet[1] == 0x52 {
        ImuView { gyro: words(packet), updated: d.updated | UPDATED_GYRO, ..d }
    } else if packet[1] == 0x53 {
        ImuView { angle: words(packet), updated: d.updated | UPDATED_ANGLE, ..d }
    } else if packet[1] == 0x54 {
        ImuView { mag: words(packet), updated: d.updated | UPDATED_MAG, ..d }
    } else if packet[1] == 0x56 {
        ImuView {
            pressure: bytes::u32_le(packet, 2) as u32,
            altitude_cm: bytes::twos_complement(bytes::u32_le(packet, 6), 0x8000_0000) as i32,
            updated: d.updated | UPDATED_BARO,
            ..d
        }
    } else if packet[1] == 0x59 {
        ImuView {
            quaternion: seq![
                word(packet, 0) as i32,
                word(packet, 1) as i32,
                word(packet, 2) as i32,
                word(packet, 3) as i32,
            ],
            updated: d.updated | UPDATED_QUAT,
            ..d
        }
    } else {
        d
    }
}

/// The bytes held after one more has arrived.
pub open spec fn pending_after(pending: Seq<u8>, byte: u8) -> Seq<u8> {
    if pending.len() == 0 {
        if byte == SYNC_BYTE {
            seq![byte]
        } else {
            Seq::empty()
        }
    } else if pending.len() == 1 {
        if PacketType::is_code(byte) {
            pending.push(byte)
        } else if byte == SYNC_BYTE {
            pending
        } else {
            Seq::empty()
        }
    } else if is_packet(pending.push(byte)) {
        Seq::empty()
    } else {
        pending.push(byte)
    }
}

/// The bytes held after a run of bytes.
pub open spec fn pending_after_all(pending: Seq<u8>, data: Seq<u8>) -> Seq<u8>
    decreases data.len(),
{
    if data.len() == 0 {
        pending
    } else {
        pending_after(pending_after_all(pending, data.drop_last()), data.last())
    }
}

/// Whether held bytes are the start of a packet that is not complete.
pub open spec fn is_pending(s: Seq<u8>) -> bool {
    &&& s.len() < PACKET_SIZE
    &&& s.len() >= 1 ==> s[0] == SYNC_BYTE
    &&& s.len() >= 2 ==> PacketType::is_code(s[1])
}

/// Streaming parser: feed it bytes, read the latest data.
pub struct Wt901bParser {
    pub buf: [u8; 11],
    pub pos: usize,
    pub data: ImuData,
}

impl Wt901bParser {
    /// The bytes of the packet being received.
    pub open spec fn pending(&self) -> Seq<u8> {
        self.buf@.take(self.pos as int)
    }

    pub open spec fn wf(&self) -> bool {
        &&& self.pos < PACKET_SIZE
        &&& is_pending(self.buf@.take(self.pos as int))
    }

    /// A parser that waits for a sync byte.
    pub fn new() -> (p: Self)
        ensures
            p.wf(),
            p.pending() == Seq::<u8>::empty(),
            p.data@ == initial_view(),
    {
        let p = Wt901bParser { buf: [0; 11], pos: 0, data: ImuData::new() };
        assert(p.pending() =~= Seq::empty());
        p
    }

    /// Feeds one byte. The last byte of a packet whose checksum matches gives
    /// its type and updates the data.
    pub fn push_byte(&mut self, byte: u8) -> (t: Option<PacketType>)
        requires
            old(self).wf(),
        ensures
            final(self).wf(),
            final(self).pending() == pending_after(old(self).pending(), byte),
            ({
                let packet = old(self).pending().push(byte);
                if is_packet(packet) && sum_matches(packet) {
                    &&& t matches Some(v) && v.spec_code() == packet[1]
                    &&& final(self).data@ == absorbed(old(self).data@, packet)
                } else {
                    t is None && final(self).data@ == old(self).data@
                }
            }),
    {
        let ghost before = self.pending();
        if self.pos == 0 {
            if byte == SYNC_BYTE {
                self.buf[0] = byte;
                self.pos = 1;
            }
            assert(self.pending() =~= pending_after(before, byte));
            return None;
        }
        if self.pos == 1 {
            assert(before[0] == SYNC_BYTE);
            if PacketType::from_byte(byte).is_some() {
                self.buf[1] = byte;
                self.pos = 2;
            } else if byte != SYNC_BYTE {
                self.pos = 0;
            }
            assert(self.pending() =~= pending_after(before, byte));
            return None;
        }
        assert(before[0] == self.buf@[0] && before[1] == self.buf@[1]);
        self.buf[self.pos] = byte;
        self.pos = self.pos + 1;
        assert(self.pending() =~= before.push(byte));
        if self.pos >= PACKET_SIZE {
            assert(self.buf@ =~= before.push(byte));
            let t: Option<PacketType> = self.decode();
            self.pos = 0;
            assert(self.pending() =~= Seq::empty());
            return t;
        }
        None
    }

    /// Takes in the packet in the buffer.
    fn decode(&mut self) -> (t: Option<PacketType>)
        requires
            is_packet(old(self).buf@),
        ensures
            final(self).buf == old(self).buf,
            final(self).pos == old(self).pos,
            if sum_matches(old(self).buf@) {
                &&& t matches Some(v) && v.spec_code() == old(self).buf@[1]
                &&& final(self).data@ == absorbed(old(self).data@, old(self).buf@)
            } else {
                t is None && final(self).data@ == old(self).data@
            },
    {
        let ghost packet = self.buf@;
        let computed: u8 = checksum(vstd::slice::slice_subrange(self.buf.as_slice(), 0, 10));
        assert(packet.subrange(0, 10) =~= packet.take(10));
        if computed != self.buf[10] {
            return None;
        }
        let b: &[u8] = self.buf.as_slice();
        let w0: i16 = read_i16_le(b, 2);
        let w1: i16 = read_i16_le(b, 4);
        let w2: i16 = read_i16_le(b, 6);
        let w3: i16 = read_i16_le(b, 8);
        let pressure: u32 = read_u32_le(b, 2);
        let altitude: i32 = read_i32_le(b, 6);
        let t: Option<PacketType> = PacketType::from_byte(self.buf[1]);
        match t {
            Some(PacketType::Acceleration) => {
                self.data.accel = [w0, w1, w2];
                self.data.temperature = w3;
                self.data.updated = self.data.updated | UPDATED_ACCEL;
            },
            Some(PacketType::AngularVelocity) => {
                self.data.gyro = [w0, w1, w2];
                self.data.updated = self.data.updated | UPDATED_GYRO;
            },
            Some(PacketType::Angle) => {
                self.data.angle = [w0, w1, w2];
                self.data.updated = self.data.updated | UPDATED_ANGLE;
            },
            Some(PacketType::Magnetic) => {
                self.data.mag = [w0, w1, w2];
                self.data.updated = self.data.updated | UPDATED_MAG;
            },
            Some(PacketType::Barometer) => {
                self.data.pressure = pressure;
                self.data.altitude_cm = altitude;
                self.data.updated = self.data.updated | UPDATED_BARO;
            },
            Some(PacketType::Quaternion) => {
                self.data.quaternion = [w0 as i32, w1 as i32, w2 as i32, w3 as i32];
                self.data.updated = self.data.updated | UPDATED_QUAT;
            },
            _ => {},
        }
        assert(self.data@ =~= absorbed(old(self).data@, packet));
        t
    }
}

fn checksum(data: &[u8]) -> (sum: u8)
    ensures
        sum == sum_of(data@),
{
    let mut sum: u8 = 0;
    let mut i: usize = 0;
    assert(data@.take(0) =~= Seq::empty());
    while i < data.len()
        invariant
            i <= data@.len(),
            sum == sum_of(data@.take(i as int)),
        decreases data.len() - i,
    {
        assert(data@.take(i + 1).drop_last() =~= data@.take(i as int));
        sum = sum.wrapping_add(data[i]);
        i += 1;
    }
    assert(data@.take(data@.len() as int) =~= data@);
    sum
}

// ---- Configuration commands ----

/// A write command: `[0xFF] [0xAA] [addr] [low] [high]`. It takes effect between
/// an unlock and a save.
pub fn write_command(addr: u8, data: u16) -> (cmd: [u8; 5])
    ensures
        cmd@ == command(addr, data),
{
    let cmd: [u8; 5] = [0xFF, 0xAA, addr, (data % 0x100) as u8, (data / 0x100) as u8];
    assert(cmd@ =~= command(addr, data));
    cmd
}

/// The bytes of a write command.
pub open spec fn command(addr: u8, data: u16) -> Seq<u8> {
    seq![0xFFu8, 0xAAu8, addr, (data % 0x100) as u8, (data / 0x100) as u8]
}

/// Unlocks write commands.
pub const UNLOCK: [u8; 5] = [0xFF, 0xAA, 0x69, 0x88, 0xB5];

/// Makes what was written persistent.
pub const SAVE: [u8; 5] = [0xFF, 0xAA, 0x00, 0x00, 0x00];

// ---- Laws ----

/// A packet fed to an idle parser is held byte by byte until its last byte,
/// which leaves the parser idle again.
pub proof fn law_packet_is_received_whole(packet: Seq<u8>, k: int)
    requires
        is_packet(packet),
        0 <= k <= packet.len(),
    ensures
        k < packet.len() ==> pending_after_all(Seq::empty(), packet.take(k)) == packet.take(k),
        k == packet.len() ==> pending_after_all(Seq::empty(), packet.take(k))
            == Seq::<u8>::empty(),
        k < packet.len() ==> (is_packet(packet.take(k).push(packet[k])) <==> k + 1
            == packet.len()),
    decreases k,
{
    if k < packet.len() {
        assert(packet.take(k).push(packet[k]) =~= packet.take(k + 1));
        assert(packet.take(packet.len() as int) =~= packet);
    }
    if k > 0 {
        law_packet_is_received_whole(packet, k - 1);
        assert(packet.take(k).drop_last() =~= packet.take(k - 1));
        assert(packet.take(k - 1).push(packet[k - 1]) =~= packet.take(k));
        if k == 1 {
            assert(packet.take(1) =~= seq![SYNC_BYTE]);
        }
        if k == packet.len() {
            assert(packet.take(k) =~= packet);
        }
    }
}

/// Bytes without a sync byte leave an idle parser idle.
pub proof fn law_garbage_is_skipped(garbage: Seq<u8>)
    requires
        forall|i: int| 0 <= i < garbage.len() ==> garbage[i] != SYNC_BYTE,
    ensures
        pending_after_all(Seq::empty(), garbage) == Seq::<u8>::empty(),
    decreases garbage.len(),
{
    if garbage.len() > 0 {
        law_garbage_is_skipped(garbage.drop_last());
    }
}

proof fn lemma_sum_changes(a: Seq<u8>, b: Seq<u8>, at: int)
    requires
        a.len() == b.len(),
        0 <= at < a.len(),
        forall|i: int| 0 <= i < a.len() && i != at ==> a[i] == b[i],
        a[at] != b[at],
    ensures
        sum_of(a) != sum_of(b),
        0 <= sum_of(a) < 256,
        0 <= sum_of(b) < 256,
    decreases a.len(),
{
    if at == a.len() - 1 {
        assert(a.drop_last() =~= b.drop_last());
        lemma_sum_range(a.drop_last());
    } else {
        lemma_sum_changes(a.drop_last(), b.drop_last(), at);
        assert(a.last() == b.last());
    }
}

proof fn lemma_sum_range(a: Seq<u8>)
    ensures
        0 <= sum_of(a) < 256,
    decreases a.len(),
{
    if a.len() > 0 {
        lemma_sum_range(a.drop_last());
    }
}

/// A packet in which one byte has changed is rejected: at most one of two such
/// packets has a matching checksum.
pub proof fn law_one_corrupt_byte_is_rejected(a: Seq<u8>, b: Seq<u8>, at: int)
    requires
        a.len() == PACKET_SIZE,
        b.len() == PACKET_SIZE,
        0 <= at < PACKET_SIZE,
        forall|i: int| 0 <= i < PACKET_SIZE && i != at ==> a[i] == b[i],
        a[at] != b[at],
        sum_matches(a),
    ensures
        !sum_matches(b),
{
    if at < 10 {
        lemma_sum_changes(a.take(10), b.take(10), at);
    } else {
        assert(a.take(10) =~= b.take(10));
    }
}

/// A packet replaces the data of its own type and leaves all other data alone.
pub proof fn law_packets_do_not_interfere(d: ImuView, packet: Seq<u8>)
    requires
        is_packet(packet),
    ensures
        packet[1] != 0x51 ==> absorbed(d, packet).accel == d.accel && absorbed(d, packet).temperature
            == d.temperature,
        packet[1] != 0x52 ==> absorbed(d, packet).gyro == d.gyro,
        packet[1] != 0x53 ==> absorbed(d, packet).angle == d.angle,
        packet[1] != 0x54 ==> absorbed(d, packet).mag == d.mag,
        packet[1] != 0x56 ==> absorbed(d, packet).pressure == d.pressure && absorbed(
            d,
            packet,
        ).altitude_cm == d.altitude_cm,
        packet[1] != 0x59 ==> absorbed(d, packet).quaternion == d.quaternion,
        absorbed(absorbed(d, packet), packet).accel == absorbed(d, packet).accel,
{
}

/// What each packet type carries, as it is laid out: little-endian words from the
/// third byte on.
pub proof fn law_sent_packet_is_read(
    d: ImuView,
    packet: Seq<u8>,
    a: i16,
    b: i16,
    c: i16,
    e: i16,
)
    requires
        packet.len() == 11,
        bytes::stands_in(packet, 2, bytes::written_le(a as int, 2)),
        bytes::stands_in(packet, 4, bytes::written_le(b as int, 2)),
        bytes::stands_in(packet, 6, bytes::written_le(c as int, 2)),
        bytes::stands_in(packet, 8, bytes::written_le(e as int, 2)),
    ensures
        packet[1] == 0x51 ==> absorbed(d, packet).accel == seq![a, b, c] && absorbed(
            d,
            packet,
        ).temperature == e,
        packet[1] == 0x52 ==> absorbed(d, packet).gyro == seq![a, b, c],
        packet[1] == 0x53 ==> absorbed(d, packet).angle == seq![a, b, c],
        packet[1] == 0x54 ==> absorbed(d, packet).mag == seq![a, b, c],
        packet[1] == 0x59 ==> absorbed(d, packet).quaternion == seq![
            a as i32,
            b as i32,
            c as i32,
            e as i32,
        ],
{
    bytes::law_two_bytes_read_back(packet, 2, a as int);
    bytes::law_two_bytes_read_back(packet, 4, b as int);
    bytes::law_two_bytes_read_back(packet, 6, c as int);
    bytes::law_two_bytes_read_back(packet, 8, e as int);
    assert(words(packet) =~= seq![a, b, c]);
}

/// A barometer packet carries pressure, then altitude, in four bytes each.
pub proof fn law_sent_pressure_is_read(d: ImuView, packet: Seq<u8>, pressure: u32, altitude: i32)
    requires
        packet.len() == 11,
        packet[1] == 0x56,
        bytes::stands_in(packet, 2, bytes::written_le(pressure as int, 4)),
        bytes::stands_in(packet, 6, bytes::written_le(altitude as int, 4)),
    ensures
        absorbed(d, packet).pressure == pressure,
        absorbed(d, packet).altitude_cm == altitude,
{
    bytes::law_four_bytes_read_back(packet, 2, pressure as int);
    bytes::law_four_bytes_read_back(packet, 6, altitude as int);
}

/// The checksum is the sum of the ten bytes before it, modulo 256.
pub proof fn law_checksum_is_the_sum(packet: Seq<u8>)
    requires
        packet.len() == 11,
    ensures
        sum_matches(packet) <==> packet[10] == (packet[0] + packet[1] + packet[2] + packet[3]
            + packet[4] + packet[5] + packet[6] + packet[7] + packet[8] + packet[9]) % 256,
{
    assert(packet.take(0) =~= Seq::empty());
    let t0: int = 0;
    let t1 = t0 + packet[0];
    lemma_sum_prefix(packet, 1, t0);
    let t2 = t1 + packet[1];
    lemma_sum_prefix(packet, 2, t1);
    let t3 = t2 + packet[2];
    lemma_sum_prefix(packet, 3, t2);
    let t4 = t3 + packet[3];
    lemma_sum_prefix(packet, 4, t3);
    let t5 = t4 + packet[4];
    lemma_sum_prefix(packet, 5, t4);
    let t6 = t5 + packet[5];
    lemma_sum_prefix(packet, 6, t5);
    let t7 = t6 + packet[6];
    lemma_sum_prefix(packet, 7, t6);
    let t8 = t7 + packet[7];
    lemma_sum_prefix(packet, 8, t7);
    let t9 = t8 + packet[8];
    lemma_sum_prefix(packet, 9, t8);
    let t10 = t9 + packet[9];
    lemma_sum_prefix(packet, 10, t9);
}

proof fn lemma_sum_prefix(packet: Seq<u8>, k: int, before: int)
    requires
        0 < k <= packet.len(),
        before >= 0,
        sum_of(packet.take(k - 1)) == before % 256,
    ensures
        sum_of(packet.take(k)) == (before + packet[k - 1]) % 256,
{
    assert(packet.take(k).drop_last() =~= packet.take(k - 1));
    let x = packet[k - 1] as int;
    assert((before % 256 + x) % 256 == (before + x) % 256);
}

/// Each packet type marks its own data as new, and a time packet changes nothing.
pub proof fn law_packets_mark_their_data(d: ImuView, packet: Seq<u8>)
    requires
        packet.len() == 11,
    ensures
        packet[1] == 0x51 ==> absorbed(d, packet).updated == d.updated | 1,
        packet[1] == 0x52 ==> absorbed(d, packet).updated == d.updated | 2,
        packet[1] == 0x53 ==> absorbed(d, packet).updated == d.updated | 4,
        packet[1] == 0x54 ==> absorbed(d, packet).updated == d.updated | 8,
        packet[1] == 0x56 ==> absorbed(d, packet).updated == d.updated | 16,
        packet[1] == 0x59 ==> absorbed(d, packet).updated == d.updated | 32,
        packet[1] == 0x50 ==> absorbed(d, packet) == d,
{
}

/// A command is a header of FF AA hex, a register and sixteen bits, the low byte first.
pub proof fn law_command_layout(addr: u8, data: u16)
    ensures
        command(addr, data) == seq![0xFFu8, 0xAAu8, addr] + bytes::written_le(data as int, 2),
{
    bytes::lemma_written_2(data as int);
    assert(command(addr, data) =~= seq![0xFFu8, 0xAAu8, addr] + bytes::written_le(data as int, 2));
}

/// Unlocking writes B588 hex to register 69 hex, and saving zero to register zero.
pub proof fn law_unlock_and_save()
    ensures
        UNLOCK@ == command(0x69, 0xB588),
        SAVE@ == command(0x00, 0),
{
    assert(UNLOCK@ =~= command(0x69, 0xB588));
    assert(SAVE@ =~= command(0x00, 0));
}

/// Full scale, 32768 counts, is 16 times 9.8 m/s², 2000 degrees per second and 180
/// degrees.
pub proof fn law_full_scale(r: Seq<Ratio>, counts: Seq<i16>, i: int)
    requires
        0 <= i < 3,
    ensures
        are_accelerations(r, counts) ==> 327_680 * r[i].num == r[i].den * (16 * 98 * counts[i]),
        are_rates(r, counts) ==> 32_768 * r[i].num == r[i].den * (2000 * counts[i]),
        are_angles(r, counts) ==> 32_768 * r[i].num == r[i].den * (180 * counts[i]),
        are_accelerations(r, counts) || are_rates(r, counts) || are_angles(r, counts) ==> r[i].den
            > 0,
{
    let d = r[i].den;
    assert(d == 327_680 ==> d * (16 * 98 * counts[i]) == 327_680 * (1568 * counts[i]));
    assert(d == 32_768 ==> d * (2000 * counts[i]) == 32_768 * (2000 * counts[i]));
    assert(d == 32_768 ==> d * (180 * counts[i]) == 32_768 * (180 * counts[i]));
}

/// What marks each type of packet; no other byte does.
pub proof fn law_type_bytes(t: PacketType, b: u8)
    ensures
        t is Time <==> t.spec_code() == 0x50,
        t is Acceleration <==> t.spec_code() == 0x51,
        t is AngularVelocity <==> t.spec_code() == 0x52,
        t is Angle <==> t.spec_code() == 0x53,
        t is Magnetic <==> t.spec_code() == 0x54,
        t is Barometer <==> t.spec_code() == 0x56,
        t is Quaternion <==> t.spec_code() == 0x59,
        PacketType::is_code(t.spec_code()),
        b < 0x50 || b == 0x55 || b == 0x57 || b == 0x58 || b > 0x59 ==> !PacketType::is_code(b),
{
}

} // verus!
