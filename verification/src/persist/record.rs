//! On-flash configuration record: layout, CRC and validation.
//!
//! Layout: magic[0..4] | version[4..6] | len[6..8] | payload[8..25] |
//! zero padding[25..28] | crc32[28..32]. The CRC covers bytes [0..28]. All
//! numbers are little-endian.

use crate::bytes;
use vstd::prelude::*;

verus! {

/// Identifies a valid record. ASCII "FCR1".
pub const MAGIC: u32 = 0x4643_5231;

/// Payload schema version.
pub const VERSION: u16 = 1;

/// Payload length: four 32-bit numbers and a flag.
pub const PAYLOAD_LEN: usize = 17;

/// Whole record, padded to a 32-byte flash word.
pub const RECORD_LEN: usize = 32;

/// Reflected CRC-32 polynomial (IEEE 802.3).
pub const CRC_POLY: u32 = 0xEDB8_8320;

/// Persisted configuration. Numbers are kept as IEEE 754 single-precision bit
/// patterns, so that every value survives storage unchanged.
#[derive(Debug, Clone, Copy, PartialEq, Eq)]
pub struct Config {
    /// Magnetometer hard-iron offset in the sensor frame, microtesla.
    pub mag_hard_iron_ut: [u32; 3],
    /// Magnetic declination, radians, east-positive.
    pub declination_rad: u32,
    /// True once a real calibration has been written.
    pub mag_calibrated: bool,
}

impl Default for Config {
    /// The uncalibrated state, the same in effect as no record at all.
    fn default() -> (cfg: Self)
        ensures
            cfg.mag_hard_iron_ut@ == seq![0u32, 0u32, 0u32],
            cfg.declination_rad == 0,
            !cfg.mag_calibrated,
    {
        Config { mag_hard_iron_ut: [0, 0, 0], declination_rad: 0, mag_calibrated: false }
    }
}

// ---- CRC-32 ----

/// One bit of the reflected shift register.
pub open spec fn crc_bit(crc: u32) -> u32 {
    if crc % 2 == 1 {
        (crc / 2) ^ CRC_POLY
    } else {
        crc / 2
    }
}

/// `n` bits of the reflected shift register.
pub open spec fn crc_bits(crc: u32, n: nat) -> u32
    decreases n,
{
    if n == 0 {
        crc
    } else {
        crc_bit(crc_bits(crc, (n - 1) as nat))
    }
}

/// The register after a run of bytes, starting from all ones.
pub open spec fn crc_register(data: Seq<u8>) -> u32
    decreases data.len(),
{
    if data.len() == 0 {
        0xFFFF_FFFF
    } else {
        crc_bits(crc_register(data.drop_last()) ^ (data.last() as u32), 8)
    }
}

/// CRC-32 of a run of bytes: the complement of the register.
pub open spec fn crc32_of(data: Seq<u8>) -> u32 {
    !crc_register(data)
}

proof fn lemma_crc_bit_step(crc: u32)
    by (bit_vector)
    ensures
        crc & 1 == crc % 2,
        crc >> 1 == crc / 2,
{
}

/// CRC-32 (IEEE 802.3, reflected, all-ones start, complemented result).
pub fn crc32(data: &[u8]) -> (crc: u32)
    ensures
        crc == crc32_of(data@),
{
    let mut crc: u32 = 0xFFFF_FFFF;
    let mut i: usize = 0;
    assert(data@.take(0) =~= Seq::empty());
    while i < data.len()
        invariant
            i <= data@.len(),
            crc == crc_register(data@.take(i as int)),
        decreases data.len() - i,
    {
        assert(data@.take(i + 1).drop_last() =~= data@.take(i as int));
        let start: u32 = crc ^ (data[i] as u32);
        crc = start;
        let mut k: usize = 0;
        while k < 8
            invariant
                k <= 8,
                crc == crc_bits(start, k as nat),
            decreases 8 - k,
        {
            proof {
                lemma_crc_bit_step(crc);
            }
            crc = if crc & 1 == 1 {
                (crc >> 1) ^ CRC_POLY
            } else {
                crc >> 1
            };
            k += 1;
        }
        i += 1;
    }
    assert(data@.take(data@.len() as int) =~= data@);
    !crc
}

// ---- Record ----

/// Bytes 0 to 27 of a record.
pub open spec fn record_body(cfg: Config) -> Seq<u8> {
    bytes::le_bytes(MAGIC) + seq![
        bytes::byte_of(VERSION as int, 0),
        bytes::byte_of(VERSION as int, 1),
        bytes::byte_of(PAYLOAD_LEN as int, 0),
        bytes::byte_of(PAYLOAD_LEN as int, 1),
    ] + bytes::le_bytes(cfg.mag_hard_iron_ut@[0]) + bytes::le_bytes(cfg.mag_hard_iron_ut@[1])
        + bytes::le_bytes(cfg.mag_hard_iron_ut@[2]) + bytes::le_bytes(cfg.declination_rad) + seq![
        if cfg.mag_calibrated { 1u8 } else { 0u8 },
        0u8,
        0u8,
        0u8,
    ]
}

/// The record of a configuration.
pub open spec fn record_bytes(cfg: Config) -> Seq<u8> {
    record_body(cfg) + bytes::le_bytes(crc32_of(record_body(cfg)))
}

/// Whether 32 bytes are a record of this version.
pub open spec fn is_record(s: Seq<u8>) -> bool {
    &&& s.len() >= RECORD_LEN
    &&& bytes::u32_le(s, 0) == MAGIC
    &&& bytes::u16_le(s, 4) == VERSION
    &&& bytes::u16_le(s, 6) == PAYLOAD_LEN
    &&& bytes::u32_le(s, 28) == crc32_of(s.take(28))
}

/// The configuration a record holds.
pub open spec fn record_config(s: Seq<u8>, cfg: Config) -> bool {
    &&& cfg.mag_hard_iron_ut@[0] == bytes::u32_le(s, 8)
    &&& cfg.mag_hard_iron_ut@[1] == bytes::u32_le(s, 12)
    &&& cfg.mag_hard_iron_ut@[2] == bytes::u32_le(s, 16)
    &&& cfg.declination_rad == bytes::u32_le(s, 20)
    &&& cfg.mag_calibrated == (s[24] != 0)
}

fn put_u32(b: &mut [u8; RECORD_LEN], at: usize, v: u32)
    requires
        at + 4 <= RECORD_LEN,
    ensures
        final(b)@ == old(b)@.update(at as int, bytes::byte_of(v as int, 0)).update(
            at + 1,
            bytes::byte_of(v as int, 1),
        ).update(at + 2, bytes::byte_of(v as int, 2)).update(
            at + 3,
            bytes::byte_of(v as int, 3),
        ),
{
    b[at] = (v % 0x100) as u8;
    b[at + 1] = (v / 0x100 % 0x100) as u8;
    b[at + 2] = (v / 0x1_0000 % 0x100) as u8;
    b[at + 3] = (v / 0x100_0000 % 0x100) as u8;
}

/// Serialises a configuration into a record.
pub fn encode(cfg: &Config) -> (out: [u8; RECORD_LEN])
    ensures
        out@ == record_bytes(*cfg),
{
    let mut b: [u8; RECORD_LEN] = [0; RECORD_LEN];
    put_u32(&mut b, 0, MAGIC);
    b[4] = (VERSION % 0x100) as u8;
    b[5] = (VERSION / 0x100) as u8;
    b[6] = (PAYLOAD_LEN % 0x100) as u8;
    b[7] = (PAYLOAD_LEN / 0x100) as u8;
    put_u32(&mut b, 8, cfg.mag_hard_iron_ut[0]);
    put_u32(&mut b, 12, cfg.mag_hard_iron_ut[1]);
    put_u32(&mut b, 16, cfg.mag_hard_iron_ut[2]);
    put_u32(&mut b, 20, cfg.declination_rad);
    b[24] = if cfg.mag_calibrated {
        1
    } else {
        0
    };
    let ghost before = b@;
    assert(before.take(28) =~= record_body(*cfg));
    let crc: u32 = crc32(vstd::slice::slice_subrange(b.as_slice(), 0, 28));
    assert(b@.subrange(0, 28) =~= before.take(28));
    put_u32(&mut b, 28, crc);
    assert(b@ =~= record_bytes(*cfg));
    b
}

/// Validates and reads a record. Anything else, a blank sector included, is no
/// configuration.
pub fn decode(bytes: &[u8]) -> (cfg: Option<Config>)
    ensures
        cfg is Some == is_record(bytes@),
        cfg matches Some(c) ==> record_config(bytes@, c),
{
    if bytes.len() < RECORD_LEN {
        return None;
    }
    if bytes::read_u32_le(bytes, 0) != MAGIC {
        return None;
    }
    if bytes::read_u16_le(bytes, 4) != VERSION {
        return None;
    }
    if bytes::read_u16_le(bytes, 6) as usize != PAYLOAD_LEN {
        return None;
    }
    let crc: u32 = crc32(vstd::slice::slice_subrange(bytes, 0, 28));
    assert(bytes@.subrange(0, 28) =~= bytes@.take(28));
    if bytes::read_u32_le(bytes, 28) != crc {
        return None;
    }
    Some(
        Config {
            mag_hard_iron_ut: [
                bytes::read_u32_le(bytes, 8),
                bytes::read_u32_le(bytes, 12),
                bytes::read_u32_le(bytes, 16),
            ],
            declination_rad: bytes::read_u32_le(bytes, 20),
            mag_calibrated: bytes[24] != 0,
        },
    )
}

// ---- Laws ----

/// A written record is always read back as what was written, whatever follows
/// it in the sector.
pub proof fn law_round_trip(cfg: Config, rest: Seq<u8>, read: Config)
    ensures
        is_record(record_bytes(cfg) + rest),
        record_config(record_bytes(cfg) + rest, cfg),
        record_config(record_bytes(cfg) + rest, read) ==> read == cfg,
{
    let s = record_bytes(cfg) + rest;
    assert(s.take(28) =~= record_body(cfg));
    bytes::lemma_u32_round_trip(MAGIC);
    bytes::lemma_u32_round_trip(cfg.mag_hard_iron_ut@[0]);
    bytes::lemma_u32_round_trip(cfg.mag_hard_iron_ut@[1]);
    bytes::lemma_u32_round_trip(cfg.mag_hard_iron_ut@[2]);
    bytes::lemma_u32_round_trip(cfg.declination_rad);
    bytes::lemma_u32_round_trip(crc32_of(record_body(cfg)));
    if record_config(s, read) {
        assert(read.mag_hard_iron_ut =~= cfg.mag_hard_iron_ut);
    }
}

/// An erased sector, all ones, is no record.
pub proof fn law_blank_sector_is_rejected(s: Seq<u8>)
    requires
        s.len() >= RECORD_LEN,
        s[0] == 0xFF,
        s[1] == 0xFF,
        s[2] == 0xFF,
        s[3] == 0xFF,
    ensures
        !is_record(s),
{
}

proof fn lemma_crc_bit_injective(a: u32, b: u32)
    by (bit_vector)
    requires
        (if a % 2 == 1 { (a / 2) ^ 0xEDB8_8320 } else { a / 2 }) == (if b % 2 == 1 {
            (b / 2) ^ 0xEDB8_8320
        } else {
            b / 2
        }),
    ensures
        a == b,
{
}

proof fn lemma_crc_bits_injective(a: u32, b: u32, n: nat)
    requires
        crc_bits(a, n) == crc_bits(b, n),
    ensures
        a == b,
    decreases n,
{
    if n > 0 {
        lemma_crc_bit_injective(crc_bits(a, (n - 1) as nat), crc_bits(b, (n - 1) as nat));
        lemma_crc_bits_injective(a, b, (n - 1) as nat);
    }
}

proof fn lemma_xor_injective(a: u32, b: u32, x: u32, y: u32)
    by (bit_vector)
    ensures
        a ^ x == b ^ x ==> a == b,
        a ^ x == a ^ y ==> x == y,
        !a == !b ==> a == b,
{
}

/// Two runs of bytes that differ in exactly one place have different CRCs.
pub proof fn law_crc_detects_one_byte(a: Seq<u8>, b: Seq<u8>, at: int)
    requires
        a.len() == b.len(),
        0 <= at < a.len(),
        a[at] != b[at],
        forall|i: int| 0 <= i < a.len() && i != at ==> a[i] == b[i],
    ensures
        crc32_of(a) != crc32_of(b),
{
    lemma_register_differs(a, b, at);
    lemma_xor_injective(crc_register(a), crc_register(b), 0, 0);
}

proof fn lemma_register_differs(a: Seq<u8>, b: Seq<u8>, at: int)
    requires
        a.len() == b.len(),
        0 <= at < a.len(),
        a[at] != b[at],
        forall|i: int| 0 <= i < a.len() && i != at ==> a[i] == b[i],
    ensures
        crc_register(a) != crc_register(b),
    decreases a.len(),
{
    let ra = crc_register(a.drop_last());
    let rb = crc_register(b.drop_last());
    if crc_register(a) == crc_register(b) {
        lemma_crc_bits_injective(ra ^ (a.last() as u32), rb ^ (b.last() as u32), 8);
        lemma_xor_injective(ra, rb, a.last() as u32, b.last() as u32);
        if at == a.len() - 1 {
            assert(a.drop_last() =~= b.drop_last());
        } else {
            lemma_register_differs(a.drop_last(), b.drop_last(), at);
        }
    }
}

/// A record with any one byte changed is rejected.
pub proof fn law_one_corrupt_byte_is_rejected(s: Seq<u8>, t: Seq<u8>, at: int)
    requires
        is_record(s),
        t.len() == s.len(),
        0 <= at < RECORD_LEN,
        t[at] != s[at],
        forall|i: int| 0 <= i < s.len() && i != at ==> t[i] == s[i],
    ensures
        !is_record(t),
{
    if at < 28 {
        assert forall|i: int| 0 <= i < 28 && i != at implies s.take(28)[i] == t.take(28)[i] by {}
        law_crc_detects_one_byte(s.take(28), t.take(28), at);
    } else {
        assert(s.take(28) =~= t.take(28));
    }
}

/// Where everything stands in a record: the letters `FCR1` last first, version 1, a
/// payload of 17 bytes, offsets along x, y and z, the declination and the flag.
pub proof fn law_record_layout(cfg: Config)
    ensures
        record_bytes(cfg).len() == 32,
        record_bytes(cfg).take(8) == seq![0x31u8, 0x52u8, 0x43u8, 0x46u8, 1u8, 0u8, 17u8, 0u8],
        bytes::stands_in(
            record_bytes(cfg),
            8,
            bytes::written_le(cfg.mag_hard_iron_ut@[0] as int, 4),
        ),
        bytes::stands_in(
            record_bytes(cfg),
            12,
            bytes::written_le(cfg.mag_hard_iron_ut@[1] as int, 4),
        ),
        bytes::stands_in(
            record_bytes(cfg),
            16,
            bytes::written_le(cfg.mag_hard_iron_ut@[2] as int, 4),
        ),
        bytes::stands_in(record_bytes(cfg), 20, bytes::written_le(cfg.declination_rad as int, 4)),
        record_bytes(cfg)[24] == 1 <==> cfg.mag_calibrated,
        record_bytes(cfg)[24] == 0 <==> !cfg.mag_calibrated,
        record_bytes(cfg).subrange(25, 28) == seq![0u8, 0u8, 0u8],
        bytes::stands_in(
            record_bytes(cfg),
            28,
            bytes::written_le(crc32_of(record_bytes(cfg).take(28)) as int, 4),
        ),
{
    let s = record_bytes(cfg);
    assert(s.take(28) =~= record_body(cfg));
    assert(s.take(8) =~= seq![0x31u8, 0x52u8, 0x43u8, 0x46u8, 1u8, 0u8, 17u8, 0u8]);
    bytes::lemma_written_is_le_bytes(cfg.mag_hard_iron_ut@[0]);
    bytes::lemma_written_is_le_bytes(cfg.mag_hard_iron_ut@[1]);
    bytes::lemma_written_is_le_bytes(cfg.mag_hard_iron_ut@[2]);
    bytes::lemma_written_is_le_bytes(cfg.declination_rad);
    bytes::lemma_written_is_le_bytes(crc32_of(record_body(cfg)));
    assert(s.subrange(8, 12) =~= bytes::le_bytes(cfg.mag_hard_iron_ut@[0]));
    assert(s.subrange(12, 16) =~= bytes::le_bytes(cfg.mag_hard_iron_ut@[1]));
    assert(s.subrange(16, 20) =~= bytes::le_bytes(cfg.mag_hard_iron_ut@[2]));
    assert(s.subrange(20, 24) =~= bytes::le_bytes(cfg.declination_rad));
    assert(s.subrange(25, 28) =~= seq![0u8, 0u8, 0u8]);
    assert(s.subrange(28, 32) =~= bytes::le_bytes(crc32_of(record_body(cfg))));
}

/// A record that was laid out by another hand is read: what stands at each place is
/// what comes out.
pub proof fn law_laid_out_record_is_read(s: Seq<u8>, cfg: Config, read: Config)
    requires
        s.len() >= 32,
        s.take(8) == seq![0x31u8, 0x52u8, 0x43u8, 0x46u8, 1u8, 0u8, 17u8, 0u8],
        bytes::stands_in(s, 8, bytes::written_le(cfg.mag_hard_iron_ut@[0] as int, 4)),
        bytes::stands_in(s, 12, bytes::written_le(cfg.mag_hard_iron_ut@[1] as int, 4)),
        bytes::stands_in(s, 16, bytes::written_le(cfg.mag_hard_iron_ut@[2] as int, 4)),
        bytes::stands_in(s, 20, bytes::written_le(cfg.declination_rad as int, 4)),
        s[24] != 0 <==> cfg.mag_calibrated,
        bytes::stands_in(s, 28, bytes::written_le(crc32_of(s.take(28)) as int, 4)),
    ensures
        is_record(s),
        record_config(s, read) ==> read == cfg,
{
    let t = s.take(8);
    assert(t[0] == s[0] && t[1] == s[1] && t[2] == s[2] && t[3] == s[3] && t[4] == s[4] && t[5]
        == s[5] && t[6] == s[6] && t[7] == s[7]);
    bytes::law_four_bytes_read_back(s, 8, cfg.mag_hard_iron_ut@[0] as int);
    bytes::law_four_bytes_read_back(s, 12, cfg.mag_hard_iron_ut@[1] as int);
    bytes::law_four_bytes_read_back(s, 16, cfg.mag_hard_iron_ut@[2] as int);
    bytes::law_four_bytes_read_back(s, 20, cfg.declination_rad as int);
    bytes::law_four_bytes_read_back(s, 28, crc32_of(s.take(28)) as int);
    if record_config(s, read) {
        assert(read.mag_hard_iron_ut =~= cfg.mag_hard_iron_ut);
    }
}

proof fn lemma_crc_bit_linear(a: u32, b: u32)
    ensures
        crc_bit(a ^ b) == crc_bit(a) ^ crc_bit(b),
{
    lemma_shift_linear(a, b, a ^ b, crc_bit(a), crc_bit(b), crc_bit(a ^ b));
}

proof fn lemma_shift_linear(a: u32, b: u32, c: u32, x: u32, y: u32, z: u32)
    by (bit_vector)
    requires
        c == a ^ b,
        x == (if a % 2 == 1 { (a / 2) ^ 0xEDB8_8320 } else { a / 2 }),
        y == (if b % 2 == 1 { (b / 2) ^ 0xEDB8_8320 } else { b / 2 }),
        z == (if c % 2 == 1 { (c / 2) ^ 0xEDB8_8320 } else { c / 2 }),
    ensures
        z == x ^ y,
{
}

proof fn lemma_crc_bits_linear(a: u32, b: u32, n: nat)
    ensures
        crc_bits(a ^ b, n) == crc_bits(a, n) ^ crc_bits(b, n),
    decreases n,
{
    if n > 0 {
        lemma_crc_bits_linear(a, b, (n - 1) as nat);
        lemma_crc_bit_linear(crc_bits(a, (n - 1) as nat), crc_bits(b, (n - 1) as nat));
    }
}

/// Zero bits are shifted out without a trace.
proof fn lemma_crc_bits_of_zeros(z: u32, n: u32)
    requires
        z & 0xFF == 0,
        n <= 8,
    ensures
        crc_bits(z, n as nat) == z >> n,
    decreases n,
{
    if n == 0 {
        assert(z >> 0u32 == z) by (bit_vector);
    } else {
        let k: u32 = (n - 1) as u32;
        lemma_crc_bits_of_zeros(z, k);
        assert((z >> k) % 2 == 0 && (z >> k) / 2 == z >> ((k + 1) as u32)) by (bit_vector)
            requires
                z & 0xFF == 0,
                k < 8,
        ;
    }
}

/// Eight bits of the register, for what is left of a remainder that meets itself.
proof fn lemma_crc_residues(
    s0: u32,
    s1: u32,
    s2: u32,
    s3: u32,
    s4: u32,
    s5: u32,
    s6: u32,
    s7: u32,
    s8: u32,
)
    by (bit_vector)
    requires
        s1 == (if s0 % 2 == 1 { (s0 / 2) ^ 0xEDB8_8320 } else { s0 / 2 }),
        s2 == (if s1 % 2 == 1 { (s1 / 2) ^ 0xEDB8_8320 } else { s1 / 2 }),
        s3 == (if s2 % 2 == 1 { (s2 / 2) ^ 0xEDB8_8320 } else { s2 / 2 }),
        s4 == (if s3 % 2 == 1 { (s3 / 2) ^ 0xEDB8_8320 } else { s3 / 2 }),
        s5 == (if s4 % 2 == 1 { (s4 / 2) ^ 0xEDB8_8320 } else { s4 / 2 }),
        s6 == (if s5 % 2 == 1 { (s5 / 2) ^ 0xEDB8_8320 } else { s5 / 2 }),
        s7 == (if s6 % 2 == 1 { (s6 / 2) ^ 0xEDB8_8320 } else { s6 / 2 }),
        s8 == (if s7 % 2 == 1 { (s7 / 2) ^ 0xEDB8_8320 } else { s7 / 2 }),
    ensures
        s0 == 0x0000_00FF ==> s8 == 0x2D02_EF8D,
        s0 == 0x2D02_EF72 ==> s8 == 0xBE26_12FF,
        s0 == 0xBE26_1200 ==> s8 == 0x00BE_2612,
        s0 == 0x00BE_26ED ==> s8 == 0xDEBB_20E3,
{
}

proof fn lemma_crc_residue(s: u32)
    ensures
        s == 0x0000_00FF ==> crc_bits(s, 8) == 0x2D02_EF8D,
        s == 0x2D02_EF72 ==> crc_bits(s, 8) == 0xBE26_12FF,
        s == 0xBE26_1200 ==> crc_bits(s, 8) == 0x00BE_2612,
        s == 0x00BE_26ED ==> crc_bits(s, 8) == 0xDEBB_20E3,
{
    assert(crc_bits(s, 0) == s);
    lemma_crc_residues(
        s,
        crc_bits(s, 1),
        crc_bits(s, 2),
        crc_bits(s, 3),
        crc_bits(s, 4),
        crc_bits(s, 5),
        crc_bits(s, 6),
        crc_bits(s, 7),
        crc_bits(s, 8),
    );
}

/// A register that holds `r` and a residue, fed with the lowest byte of the complement
/// of `r`, holds what is left of `r` and the next residue.
proof fn lemma_crc_meets_itself(r: u32, c: u32, b: u8)
    requires
        b as u32 == !r & 0xFF,
    ensures
        crc_bits((r ^ c) ^ (b as u32), 8) == (r >> 8) ^ crc_bits(c ^ 0xFF, 8),
{
    let w = b as u32;
    let z = r & 0xFFFF_FF00;
    assert((r ^ c) ^ w == z ^ (c ^ 0xFF) && z & 0xFF == 0 && z >> 8 == r >> 8) by (bit_vector)
        requires
            w == !r & 0xFF,
            z == r & 0xFFFF_FF00,
    ;
    lemma_crc_bits_linear(z, c ^ 0xFF, 8);
    lemma_crc_bits_of_zeros(z, 8);
}

proof fn lemma_bytes_of_complement(r: u32, crc: u32)
    by (bit_vector)
    requires
        crc == !r,
    ensures
        crc % 0x100 == !r & 0xFF,
        crc / 0x100 % 0x100 == !(r >> 8) & 0xFF,
        crc / 0x1_0000 % 0x100 == !(r >> 16) & 0xFF,
        crc / 0x100_0000 % 0x100 == !(r >> 24) & 0xFF,
        (r >> 8) >> 8 == r >> 16,
        (r >> 16) >> 8 == r >> 24,
        (r >> 24) >> 8 == 0,
        r ^ 0 == r,
{
}

proof fn lemma_complements(c: u32)
    by (bit_vector)
    ensures
        0 ^ c == c,
        c == 0x0000_0000 ==> c ^ 0xFF == 0x0000_00FF,
        c == 0x2D02_EF8D ==> c ^ 0xFF == 0x2D02_EF72,
        c == 0xBE26_12FF ==> c ^ 0xFF == 0xBE26_1200,
        c == 0x00BE_2612 ==> c ^ 0xFF == 0x00BE_26ED,
        c == 0xDEBB_20E3 ==> !c == 0x2144_DF1C,
{
}

/// Whatever the data, the CRC of the data and its own CRC behind it, low byte first, is
/// 2144 DF1C hex, as it is of every CRC-32 of this kind.
pub proof fn law_crc_of_a_sealed_record(data: Seq<u8>)
    ensures
        crc32_of(data + bytes::written_le(crc32_of(data) as int, 4)) == 0x2144_DF1C,
{
    let r = crc_register(data);
    let crc = crc32_of(data);
    bytes::lemma_written_4(crc as int);
    let (b0, b1, b2, b3) = (
        (crc % 0x100) as u8,
        (crc / 0x100 % 0x100) as u8,
        (crc / 0x1_0000 % 0x100) as u8,
        (crc / 0x100_0000 % 0x100) as u8,
    );
    let sealed = data + bytes::written_le(crc as int, 4);
    let d1 = data.push(b0);
    let d2 = d1.push(b1);
    let d3 = d2.push(b2);
    assert(sealed =~= d3.push(b3));
    assert(d3.push(b3).drop_last() =~= d3);
    assert(d3.drop_last() =~= d2);
    assert(d2.drop_last() =~= d1);
    assert(d1.drop_last() =~= data);
    let (r1, r2, r3) = (r >> 8, r >> 16, r >> 24);
    lemma_bytes_of_complement(r, crc);
    lemma_crc_meets_itself(r, 0, b0);
    lemma_crc_meets_itself(r1, 0x2D02_EF8D, b1);
    lemma_crc_meets_itself(r2, 0xBE26_12FF, b2);
    lemma_crc_meets_itself(r3, 0x00BE_2612, b3);
    lemma_complements(0);
    lemma_complements(0x2D02_EF8D);
    lemma_complements(0xBE26_12FF);
    lemma_complements(0x00BE_2612);
    lemma_complements(0xDEBB_20E3);
    lemma_crc_residue(0x0000_00FF);
    lemma_crc_residue(0x2D02_EF72);
    lemma_crc_residue(0xBE26_1200);
    lemma_crc_residue(0x00BE_26ED);
    assert(crc_register(d1) == crc_bits((r ^ 0) ^ (b0 as u32), 8));
    assert(crc_register(d1) == r1 ^ 0x2D02_EF8D);
    assert(crc_register(d2) == crc_bits(crc_register(d1) ^ (b1 as u32), 8));
    assert(crc_register(d2) == r2 ^ 0xBE26_12FF);
    assert(crc_register(d3) == crc_bits(crc_register(d2) ^ (b2 as u32), 8));
    assert(crc_register(d3) == r3 ^ 0x00BE_2612);
    assert(crc_register(sealed) == crc_bits(crc_register(d3) ^ (b3 as u32), 8));
    assert(crc_register(sealed) == 0xDEBB_20E3);
}

/// The register starts from all ones, so that the CRC of nothing is zero.
pub proof fn law_crc_of_nothing()
    ensures
        crc32_of(Seq::empty()) == 0,
{
    assert(!0xFFFF_FFFFu32 == 0) by (bit_vector);
}

} // verus!
