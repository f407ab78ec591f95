//! Integers in byte buffers.

use vstd::prelude::*;

verus! {

/// Two bytes, least significant first.
pub open spec fn u16_le(s: Seq<u8>, at: int) -> int {
    s[at] + 0x100 * s[at + 1]
}

/// Two bytes, most significant first.
pub open spec fn u16_be(s: Seq<u8>, at: int) -> int {
    0x100 * s[at] + s[at + 1]
}

/// Four bytes, least significant first.
pub open spec fn u32_le(s: Seq<u8>, at: int) -> int {
    s[at] + 0x100 * s[at + 1] + 0x1_0000 * s[at + 2] + 0x100_0000 * s[at + 3]
}

/// Three bytes, most significant first.
pub open spec fn u24_be(s: Seq<u8>, at: int) -> int {
    0x1_0000 * s[at] + 0x100 * s[at + 1] + s[at + 2]
}

/// The number an `n`-bit pattern stands for in two's complement, where `half`
/// is `2^(n-1)`.
pub open spec fn twos_complement(u: int, half: int) -> int {
    if u < half {
        u
    } else {
        u - 2 * half
    }
}

/// Byte `k` of a number, 0 being the least significant.
pub open spec fn byte_of(v: int, k: int) -> u8 {
    if k == 0 {
        (v % 0x100) as u8
    } else if k == 1 {
        (v / 0x100 % 0x100) as u8
    } else if k == 2 {
        (v / 0x1_0000 % 0x100) as u8
    } else {
        (v / 0x100_0000 % 0x100) as u8
    }
}

/// The four bytes of a number, least significant first.
pub open spec fn le_bytes(v: u32) -> Seq<u8> {
    seq![
        byte_of(v as int, 0),
        byte_of(v as int, 1),
        byte_of(v as int, 2),
        byte_of(v as int, 3),
    ]
}

/// Four bytes read back what was written.
pub proof fn lemma_u32_round_trip(v: u32)
    ensures
        v == byte_of(v as int, 0) + 0x100 * byte_of(v as int, 1) + 0x1_0000 * byte_of(v as int, 2)
            + 0x100_0000 * byte_of(v as int, 3),
{
}

pub fn read_u16_le(s: &[u8], at: usize) -> (v: u16)
    requires
        at + 2 <= s@.len(),
    ensures
        v == u16_le(s@, at as int),
{
    s[at] as u16 + 0x100 * (s[at + 1] as u16)
}

pub fn read_u16_be(s: &[u8], at: usize) -> (v: u16)
    requires
        at + 2 <= s@.len(),
    ensures
        v == u16_be(s@, at as int),
{
    0x100 * (s[at] as u16) + s[at + 1] as u16
}

pub fn read_u32_le(s: &[u8], at: usize) -> (v: u32)
    requires
        at + 4 <= s@.len(),
    ensures
        v == u32_le(s@, at as int),
{
    s[at] as u32 + 0x100 * (s[at + 1] as u32) + 0x1_0000 * (s[at + 2] as u32) + 0x100_0000 * (s[at
        + 3] as u32)
}

pub fn read_u24_be(s: &[u8], at: usize) -> (v: u32)
    requires
        at + 3 <= s@.len(),
    ensures
        v == u24_be(s@, at as int),
        v < 0x100_0000,
{
    0x1_0000 * (s[at] as u32) + 0x100 * (s[at + 1] as u32) + s[at + 2] as u32
}

/// The signed number a 16-bit pattern stands for.
pub fn signed16(u: u16) -> (v: i16)
    ensures
        v == twos_complement(u as int, 0x8000),
{
    if u < 0x8000 {
        u as i16
    } else {
        (u as i32 - 0x1_0000) as i16
    }
}

/// The signed number a 32-bit pattern stands for.
pub fn signed32(u: u32) -> (v: i32)
    ensures
        v == twos_complement(u as int, 0x8000_0000),
{
    if u < 0x8000_0000 {
        u as i32
    } else {
        (u as i64 - 0x1_0000_0000) as i32
    }
}

pub fn read_i16_le(s: &[u8], at: usize) -> (v: i16)
    requires
        at + 2 <= s@.len(),
    ensures
        v == twos_complement(u16_le(s@, at as int), 0x8000),
{
    signed16(read_u16_le(s, at))
}

pub fn read_i16_be(s: &[u8], at: usize) -> (v: i16)
    requires
        at + 2 <= s@.len(),
    ensures
        v == twos_complement(u16_be(s@, at as int), 0x8000),
{
    signed16(read_u16_be(s, at))
}

pub fn read_i32_le(s: &[u8], at: usize) -> (v: i32)
    requires
        at + 4 <= s@.len(),
    ensures
        v == twos_complement(u32_le(s@, at as int), 0x8000_0000),
{
    signed32(read_u32_le(s, at))
}

// ---- Writing and reading ----

/// A number in `n` bytes of two's complement, least significant first.
pub open spec fn written_le(v: int, n: nat) -> Seq<u8>
    decreases n,
{
    if n == 0 {
        Seq::empty()
    } else {
        seq![(v % 0x100) as u8] + written_le(v / 0x100, (n - 1) as nat)
    }
}

/// A number in `n` bytes of two's complement, most significant first.
pub open spec fn written_be(v: int, n: nat) -> Seq<u8>
    decreases n,
{
    if n == 0 {
        Seq::empty()
    } else {
        written_be(v / 0x100, (n - 1) as nat).push((v % 0x100) as u8)
    }
}

/// Whether `part` stands in a buffer from `at` on.
pub open spec fn stands_in(s: Seq<u8>, at: int, part: Seq<u8>) -> bool {
    &&& 0 <= at
    &&& at + part.len() <= s.len()
    &&& s.subrange(at, at + part.len()) == part
}

/// Two bytes as they are written.
pub proof fn lemma_written_2(v: int)
    ensures
        written_le(v, 2) == seq![(v % 0x100) as u8, (v / 0x100 % 0x100) as u8],
        written_be(v, 2) == seq![(v / 0x100 % 0x100) as u8, (v % 0x100) as u8],
{
    reveal_with_fuel(written_le, 3);
    reveal_with_fuel(written_be, 3);
    assert(written_le(v, 2) =~= seq![(v % 0x100) as u8, (v / 0x100 % 0x100) as u8]);
    assert(written_be(v, 2) =~= seq![(v / 0x100 % 0x100) as u8, (v % 0x100) as u8]);
}

/// Four bytes as they are written.
pub proof fn lemma_written_4(v: int)
    ensures
        written_le(v, 4) == seq![
            (v % 0x100) as u8,
            (v / 0x100 % 0x100) as u8,
            (v / 0x1_0000 % 0x100) as u8,
            (v / 0x100_0000 % 0x100) as u8,
        ],
{
    reveal_with_fuel(written_le, 5);
    assert(v / 0x100 / 0x100 == v / 0x1_0000);
    assert(v / 0x100 / 0x100 / 0x100 == v / 0x100_0000);
    assert(written_le(v, 4) =~= seq![
        (v % 0x100) as u8,
        (v / 0x100 % 0x100) as u8,
        (v / 0x1_0000 % 0x100) as u8,
        (v / 0x100_0000 % 0x100) as u8,
    ]);
}

proof fn lemma_written_3(v: int)
    ensures
        written_be(v, 3) == seq![
            (v / 0x1_0000 % 0x100) as u8,
            (v / 0x100 % 0x100) as u8,
            (v % 0x100) as u8,
        ],
{
    reveal_with_fuel(written_be, 4);
    assert(v / 0x100 / 0x100 == v / 0x1_0000);
    assert(written_be(v, 3) =~= seq![
        (v / 0x1_0000 % 0x100) as u8,
        (v / 0x100 % 0x100) as u8,
        (v % 0x100) as u8,
    ]);
}

/// Sixteen bits read back what was written, signed or not.
pub proof fn law_two_bytes_read_back(s: Seq<u8>, at: int, v: int)
    ensures
        stands_in(s, at, written_le(v, 2)) && 0 <= v < 0x1_0000 ==> u16_le(s, at) == v,
        stands_in(s, at, written_le(v, 2)) && -0x8000 <= v < 0x8000 ==> twos_complement(
            u16_le(s, at),
            0x8000,
        ) == v,
        stands_in(s, at, written_be(v, 2)) && 0 <= v < 0x1_0000 ==> u16_be(s, at) == v,
        stands_in(s, at, written_be(v, 2)) && -0x8000 <= v < 0x8000 ==> twos_complement(
            u16_be(s, at),
            0x8000,
        ) == v,
{
    lemma_written_2(v);
    let t = s.subrange(at, at + 2);
    if stands_in(s, at, written_le(v, 2)) || stands_in(s, at, written_be(v, 2)) {
        assert(t[0] == s[at] && t[1] == s[at + 1]);
    }
}

/// Thirty-two bits read back what was written, signed or not.
pub proof fn law_four_bytes_read_back(s: Seq<u8>, at: int, v: int)
    ensures
        stands_in(s, at, written_le(v, 4)) && 0 <= v < 0x1_0000_0000 ==> u32_le(s, at) == v,
        stands_in(s, at, written_le(v, 4)) && -0x8000_0000 <= v < 0x8000_0000 ==> twos_complement(
            u32_le(s, at),
            0x8000_0000,
        ) == v,
{
    lemma_written_4(v);
    let t = s.subrange(at, at + 4);
    if stands_in(s, at, written_le(v, 4)) {
        assert(t[0] == s[at] && t[1] == s[at + 1] && t[2] == s[at + 2] && t[3] == s[at + 3]);
    }
}

/// Twenty-four bits read back the number that was written.
pub proof fn law_three_bytes_read_back(s: Seq<u8>, at: int, v: int)
    requires
        stands_in(s, at, written_be(v, 3)),
        -0x80_0000 <= v < 0x80_0000,
    ensures
        twos_complement(u24_be(s, at), 0x80_0000) == v,
{
    lemma_written_3(v);
    let t = s.subrange(at, at + 3);
    assert(t[0] == s[at] && t[1] == s[at + 1] && t[2] == s[at + 2]);
}

/// The two ways to write four bytes agree.
pub proof fn lemma_written_is_le_bytes(v: u32)
    ensures
        written_le(v as int, 4) == le_bytes(v),
{
    lemma_written_4(v as int);
}

} // verus!
