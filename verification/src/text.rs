//! Text given at build time: bytes, whitespace and decimal numbers.

use vstd::prelude::*;
use vstd::string::*;

verus! {

/// The bytes of an optional string.
pub open spec fn text_bytes(s: Option<&str>) -> Option<Seq<u8>> {
    match s {
        Some(t) => Some(t.spec_bytes()),
        None => None,
    }
}

// ---- Decimal numbers in bytes ----

/// Whether every byte is an ASCII decimal digit.
pub open spec fn all_digits(s: Seq<u8>) -> bool {
    forall|i: int| 0 <= i < s.len() ==> 48 <= #[trigger] s[i] <= 57
}

/// The number a string of ASCII digits spells.
pub open spec fn digits_value(s: Seq<u8>) -> int
    decreases s.len(),
{
    if s.len() == 0 {
        0
    } else {
        10 * digits_value(s.drop_last()) + s.last() - 48
    }
}

/// A digit string never spells less than any of its prefixes.
pub proof fn lemma_digits_grow(s: Seq<u8>, k: int)
    requires
        0 <= k <= s.len(),
        all_digits(s),
    ensures
        0 <= digits_value(s.take(k)) <= digits_value(s),
    decreases s.len(),
{
    if k == s.len() {
        assert(s.take(k) =~= s);
        if k > 0 {
            assert(s.drop_last() =~= s.take(k - 1));
            assert(s.drop_last().take(k - 1) =~= s.take(k - 1));
            lemma_digits_grow(s.drop_last(), k - 1);
        }
    } else {
        assert(s.drop_last().take(k) =~= s.take(k));
        lemma_digits_grow(s.drop_last(), k);
    }
}

// ---- ASCII blanks ----

/// Space and tab, and where `lines` says so line feed and carriage return.
pub open spec fn is_blank(b: u8, lines: bool) -> bool {
    b == 32 || b == 9 || lines && (b == 10 || b == 13)
}

/// Whether `[i, j)` is what is left of `s` after trimming blanks at both ends.
pub open spec fn is_trimmed(s: Seq<u8>, i: int, j: int, lines: bool) -> bool {
    &&& 0 <= i <= j <= s.len()
    &&& forall|k: int| 0 <= k < i ==> is_blank(#[trigger] s[k], lines)
    &&& forall|k: int| j <= k < s.len() ==> is_blank(#[trigger] s[k], lines)
    &&& i < j ==> !is_blank(s[i], lines) && !is_blank(s[j - 1], lines)
}

/// The bytes between the blanks at both ends.
pub open spec fn trim_bytes(s: Seq<u8>, lines: bool) -> Seq<u8>
    decreases s.len(),
{
    if s.len() == 0 {
        s
    } else if is_blank(s[0], lines) {
        trim_bytes(s.skip(1), lines)
    } else if is_blank(s.last(), lines) {
        trim_bytes(s.drop_last(), lines)
    } else {
        s
    }
}

fn blank(b: u8, lines: bool) -> (r: bool)
    ensures
        r == is_blank(b, lines),
{
    b == 32 || b == 9 || (lines && (b == 10 || b == 13))
}

/// Byte range of `b` after trimming ASCII blanks; empty if there is nothing else.
pub fn trimmed(b: &[u8], lines: bool) -> (range: (usize, usize))
    ensures
        is_trimmed(b@, range.0 as int, range.1 as int, lines),
        b@.subrange(range.0 as int, range.1 as int) == trim_bytes(b@, lines),
{
    let mut i: usize = 0;
    let mut j: usize = b.len();
    assert(b@.subrange(0, j as int) =~= b@);
    while i < j && blank(b[i], lines)
        invariant
            i <= j,
            j == b@.len(),
            forall|k: int| 0 <= k < i ==> is_blank(#[trigger] b@[k], lines),
            trim_bytes(b@, lines) == trim_bytes(b@.subrange(i as int, j as int), lines),
        decreases j - i,
    {
        assert(b@.subrange(i as int, j as int).skip(1) =~= b@.subrange(i + 1, j as int));
        i += 1;
    }
    while j > i && blank(b[j - 1], lines)
        invariant
            i <= j <= b@.len(),
            i < b@.len() ==> !is_blank(b@[i as int], lines),
            forall|k: int| 0 <= k < i ==> is_blank(#[trigger] b@[k], lines),
            forall|k: int| j <= k < b@.len() ==> is_blank(#[trigger] b@[k], lines),
            trim_bytes(b@, lines) == trim_bytes(b@.subrange(i as int, j as int), lines),
        decreases j,
    {
        assert(b@.subrange(i as int, j as int).drop_last() =~= b@.subrange(i as int, j - 1));
        j -= 1;
    }
    (i, j)
}

/// Whether a build-time number is acceptable: unset, blank, or a decimal that
/// fits a byte.
pub open spec fn u8_text_ok(v: Option<Seq<u8>>) -> bool {
    match v {
        None => true,
        Some(s) => all_digits(trim_bytes(s, true)) && digits_value(trim_bytes(s, true)) <= 255,
    }
}

fn fits_u8(t: &[u8]) -> (ok: bool)
    ensures
        ok == (all_digits(t@) && digits_value(t@) <= 255),
{
    let mut val: u32 = 0;
    let mut i: usize = 0;
    assert(t@.take(0) =~= Seq::empty());
    while i < t.len()
        invariant
            i <= t@.len(),
            all_digits(t@.take(i as int)),
            val == digits_value(t@.take(i as int)),
            val <= 255,
        decreases t.len() - i,
    {
        assert(t@.take(i + 1).drop_last() =~= t@.take(i as int));
        if t[i] < 48 || t[i] > 57 {
            assert(!all_digits(t@));
            return false;
        }
        assert(all_digits(t@.take(i + 1)));
        val = val * 10 + (t[i] - 48) as u32;
        if val > 255 {
            proof {
                if all_digits(t@) {
                    lemma_digits_grow(t@, i + 1);
                }
            }
            return false;
        }
        i += 1;
    }
    assert(t@.take(t@.len() as int) =~= t@);
    true
}

/// Unset or blank is fine, but a set value must be a decimal that fits a byte.
pub fn env_u8_ok(v: Option<&str>) -> (ok: bool)
    ensures
        ok == u8_text_ok(text_bytes(v)),
{
    match v {
        None => true,
        Some(t) => {
            let b: &[u8] = t.as_bytes();
            let (i, j): (usize, usize) = trimmed(b, true);
            fits_u8(vstd::slice::slice_subrange(b, i, j))
        },
    }
}

/// Whether a build-time switch is acceptable: unset, blank, `0` or `1`.
pub open spec fn switch_text_ok(v: Option<Seq<u8>>) -> bool {
    match v {
        None => true,
        Some(s) => {
            let t = trim_bytes(s, true);
            t.len() == 0 || t.len() == 1 && (t[0] == 48 || t[0] == 49)
        },
    }
}

/// Unset, blank, `0` or `1` only.
pub fn env_bidir_ok(v: Option<&str>) -> (ok: bool)
    ensures
        ok == switch_text_ok(text_bytes(v)),
{
    let b: &[u8] = match v {
        None => return true,
        Some(t) => t.as_bytes(),
    };
    let (i, j): (usize, usize) = trimmed(b, true);
    i == j || (j - i == 1 && (b[i] == 48 || b[i] == 49))
}

// ---- Unicode text ----

/// Characters with the Unicode `White_Space` property.
pub open spec fn is_white(c: char) -> bool {
    let u = c as u32;
    ||| 9 <= u <= 13
    ||| u == 0x20 || u == 0x85 || u == 0xA0 || u == 0x1680
    ||| 0x2000 <= u <= 0x200A
    ||| u == 0x2028 || u == 0x2029 || u == 0x202F || u == 0x205F || u == 0x3000
}

fn white(c: char) -> (r: bool)
    ensures
        r == is_white(c),
{
    let u: u32 = c as u32;
    (9 <= u && u <= 13) || u == 0x20 || u == 0x85 || u == 0xA0 || u == 0x1680 || (0x2000 <= u && u
        <= 0x200A) || u == 0x2028 || u == 0x2029 || u == 0x202F || u == 0x205F || u == 0x3000
}

/// The characters between the white space at both ends.
pub open spec fn trim_chars(s: Seq<char>) -> Seq<char>
    decreases s.len(),
{
    if s.len() == 0 {
        s
    } else if is_white(s[0]) {
        trim_chars(s.skip(1))
    } else if is_white(s.last()) {
        trim_chars(s.drop_last())
    } else {
        s
    }
}

/// The text between the white space at both ends.
pub fn trim<'a>(s: &'a str) -> (t: &'a str)
    ensures
        t@ == trim_chars(s@),
{
    let n: usize = s.unicode_len();
    let mut i: usize = 0;
    let mut j: usize = n;
    assert(s@.subrange(0, j as int) =~= s@);
    while i < j && white(s.get_char(i))
        invariant
            i <= j,
            j == s@.len(),
            trim_chars(s@) == trim_chars(s@.subrange(i as int, j as int)),
        decreases j - i,
    {
        assert(s@.subrange(i as int, j as int).skip(1) =~= s@.subrange(i + 1, j as int));
        i += 1;
    }
    while j > i && white(s.get_char(j - 1))
        invariant
            i <= j <= s@.len(),
            i < s@.len() ==> !is_white(s@[i as int]),
            trim_chars(s@) == trim_chars(s@.subrange(i as int, j as int)),
        decreases j,
    {
        assert(s@.subrange(i as int, j as int).drop_last() =~= s@.subrange(i as int, j - 1));
        j -= 1;
    }
    s.substring_char(i, j)
}

/// Whether every character is an ASCII decimal digit.
pub open spec fn all_digit_chars(s: Seq<char>) -> bool {
    forall|i: int| 0 <= i < s.len() ==> 48 <= #[trigger] s[i] as u32 <= 57
}

/// The number a string of digit characters spells.
pub open spec fn chars_value(s: Seq<char>) -> int
    decreases s.len(),
{
    if s.len() == 0 {
        0
    } else {
        10 * chars_value(s.drop_last()) + s.last() as u32 - 48
    }
}

/// The byte that `s` spells in decimal, with an optional leading plus sign.
pub open spec fn u8_of_chars(s: Seq<char>) -> Option<u8> {
    let d = if s.len() > 0 && s[0] as u32 == 43 {
        s.skip(1)
    } else {
        s
    };
    if d.len() > 0 && all_digit_chars(d) && chars_value(d) <= 255 {
        Some(chars_value(d) as u8)
    } else {
        None
    }
}

proof fn lemma_chars_grow(s: Seq<char>, k: int)
    requires
        0 <= k <= s.len(),
        all_digit_chars(s),
    ensures
        0 <= chars_value(s.take(k)) <= chars_value(s),
    decreases s.len(),
{
    if k == s.len() {
        assert(s.take(k) =~= s);
        if k > 0 {
            assert(s.drop_last() =~= s.take(k - 1));
            assert(s.drop_last().take(k - 1) =~= s.take(k - 1));
            lemma_chars_grow(s.drop_last(), k - 1);
        }
    } else {
        assert(s.drop_last().take(k) =~= s.take(k));
        lemma_chars_grow(s.drop_last(), k);
    }
}

/// Reads a decimal byte with an optional leading plus sign.
pub fn parse_u8(s: &str) -> (v: Option<u8>)
    ensures
        v == u8_of_chars(s@),
{
    let n: usize = s.unicode_len();
    let start: usize = if n > 0 && s.get_char(0) as u32 == 43 {
        1
    } else {
        0
    };
    let ghost d = if start == 1 {
        s@.skip(1)
    } else {
        s@
    };
    if start == n {
        return None;
    }
    let mut val: u32 = 0;
    let mut i: usize = start;
    assert(d.take(0) =~= Seq::empty());
    while i < n
        invariant
            start <= i <= n,
            start <= 1,
            n == s@.len(),
            d.len() == n - start,
            d.len() > 0,
            forall|k: int| 0 <= k < d.len() ==> d[k] == s@[k + start],
            u8_of_chars(s@) == (if all_digit_chars(d) && chars_value(d) <= 255 {
                Some(chars_value(d) as u8)
            } else {
                None
            }),
            all_digit_chars(d.take(i - start)),
            val == chars_value(d.take(i - start)),
            val <= 255,
        decreases n - i,
    {
        let ghost k: int = i - start;
        let c: u32 = s.get_char(i) as u32;
        assert(d.take(k + 1).drop_last() =~= d.take(k));
        assert(d[k] == s@[i as int]);
        if c < 48 || c > 57 {
            assert(!all_digit_chars(d));
            return None;
        }
        assert(all_digit_chars(d.take(k + 1)));
        val = val * 10 + (c - 48);
        assert(val == chars_value(d.take(k + 1)));
        if val > 255 {
            proof {
                if all_digit_chars(d) {
                    lemma_chars_grow(d, k + 1);
                }
            }
            return None;
        }
        i += 1;
    }
    assert(d.take(d.len() as int) =~= d);
    Some(val as u8)
}

// ---- Laws ----

/// The number that some digits write, the first weighing most.
pub open spec fn decimal(digits: Seq<nat>) -> nat
    decreases digits.len(),
{
    if digits.len() == 0 {
        0
    } else {
        10 * decimal(digits.drop_last()) + digits.last()
    }
}

/// Whether every digit is one.
pub open spec fn are_digits(digits: Seq<nat>) -> bool {
    forall|i: int| 0 <= i < digits.len() ==> #[trigger] digits[i] < 10
}

/// Digits written in ASCII, from 30 hex on, spell their number, as bytes and as
/// characters.
pub proof fn law_digits_spell_a_number(digits: Seq<nat>, b: Seq<u8>, c: Seq<char>)
    requires
        are_digits(digits),
        b.len() == digits.len(),
        c.len() == digits.len(),
        forall|i: int| 0 <= i < digits.len() ==> #[trigger] b[i] == 0x30 + digits[i],
        forall|i: int| 0 <= i < digits.len() ==> (#[trigger] c[i]) as u32 == 0x30 + digits[i],
    ensures
        all_digits(b),
        all_digit_chars(c),
        digits_value(b) == decimal(digits),
        chars_value(c) == decimal(digits),
    decreases digits.len(),
{
    assert forall|i: int| 0 <= i < b.len() implies 48 <= #[trigger] b[i] <= 57 by {
        assert(digits[i] < 10);
    }
    assert forall|i: int| 0 <= i < c.len() implies 48 <= #[trigger] c[i] as u32 <= 57 by {
        assert(digits[i] < 10);
    }
    if digits.len() > 0 {
        let n = digits.len() - 1;
        assert(b[n] == 0x30 + digits[n]);
        assert(c[n] as u32 == 0x30 + digits[n]);
        let (d, e, f) = (digits.drop_last(), b.drop_last(), c.drop_last());
        assert forall|i: int| 0 <= i < d.len() implies #[trigger] d[i] < 10 by {
            assert(digits[i] < 10);
        }
        assert forall|i: int| 0 <= i < d.len() implies #[trigger] e[i] == 0x30 + d[i] by {
            assert(b[i] == 0x30 + digits[i]);
        }
        assert forall|i: int| 0 <= i < d.len() implies (#[trigger] f[i]) as u32 == 0x30
            + d[i] by {
            assert(c[i] as u32 == 0x30 + digits[i]);
        }
        law_digits_spell_a_number(d, e, f);
    }
}

/// A byte that is written in decimal is read, with a plus sign before it or without,
/// and no larger number is.
pub proof fn law_written_byte_is_read(digits: Seq<nat>, c: Seq<char>)
    requires
        are_digits(digits),
        digits.len() > 0,
        c.len() == digits.len(),
        forall|i: int| 0 <= i < digits.len() ==> (#[trigger] c[i]) as u32 == 0x30 + digits[i],
    ensures
        decimal(digits) <= 255 ==> u8_of_chars(c) is Some && u8_of_chars(c)->0 == decimal(digits),
        decimal(digits) > 255 ==> u8_of_chars(c) is None,
        u8_of_chars(seq!['+'] + c) == u8_of_chars(c),
        u8_of_chars(seq!['+', '+'] + c) is None,
{
    let b = Seq::new(digits.len(), |i: int| (0x30 + digits[i]) as u8);
    assert forall|i: int| 0 <= i < digits.len() implies #[trigger] b[i] == 0x30 + digits[i] by {
        assert(digits[i] < 10);
    }
    law_digits_spell_a_number(digits, b, c);
    assert(c[0] as u32 == 0x30 + digits[0]);
    assert((seq!['+'] + c).skip(1) =~= c);
    let twice = seq!['+', '+'] + c;
    assert(twice.skip(1)[0] == '+');
}

/// What stands between blanks is kept: spaces and tabs, and where lines count the ends
/// of lines.
pub proof fn law_blanks_are_trimmed(lead: Seq<u8>, t: Seq<u8>, tail: Seq<u8>, lines: bool)
    requires
        forall|i: int|
            0 <= i < lead.len() ==> #[trigger] lead[i] == 0x20 || lead[i] == 0x09 || lines && (
            lead[i] == 0x0A || lead[i] == 0x0D),
        forall|i: int|
            0 <= i < tail.len() ==> #[trigger] tail[i] == 0x20 || tail[i] == 0x09 || lines && (
            tail[i] == 0x0A || tail[i] == 0x0D),
        t.len() > 0 ==> t[0] > 0x20 && t.last() > 0x20,
    ensures
        trim_bytes(lead + t + tail, lines) == t,
    decreases lead.len() + tail.len(),
{
    let s = lead + t + tail;
    if lead.len() > 0 {
        assert(s[0] == lead[0]);
        assert(s.skip(1) =~= lead.skip(1) + t + tail);
        assert forall|i: int| 0 <= i < lead.skip(1).len() implies #[trigger] lead.skip(1)[i] == 0x20
            || lead.skip(1)[i] == 0x09 || lines && (lead.skip(1)[i] == 0x0A || lead.skip(1)[i]
            == 0x0D) by {
            assert(lead[i + 1] == lead[i + 1]);
        }
        law_blanks_are_trimmed(lead.skip(1), t, tail, lines);
    } else if tail.len() > 0 {
        assert(s.last() == tail[tail.len() - 1]);
        assert forall|i: int| 0 <= i < tail.drop_last().len() implies #[trigger] tail.drop_last()[i]
            == 0x20 || tail.drop_last()[i] == 0x09 || lines && (tail.drop_last()[i] == 0x0A
            || tail.drop_last()[i] == 0x0D) by {
            assert(tail[i] == tail[i]);
        }
        assert(s.drop_last() =~= lead + t + tail.drop_last());
        law_blanks_are_trimmed(lead, t, tail.drop_last(), lines);
        if t.len() == 0 {
            assert forall|i: int| 0 <= i < tail.skip(1).len() implies #[trigger] tail.skip(1)[i]
                == 0x20 || tail.skip(1)[i] == 0x09 || lines && (tail.skip(1)[i] == 0x0A
                || tail.skip(1)[i] == 0x0D) by {
                assert(tail[i + 1] == tail[i + 1]);
            }
            assert(s[0] == tail[0]);
            assert(s.skip(1) =~= lead + t + tail.skip(1));
            law_blanks_are_trimmed(lead, t, tail.skip(1), lines);
        }
    } else {
        assert(s =~= t);
    }
}

/// Text that starts and ends with something else than a blank is kept whole; bytes that
/// are no blanks are all others.
pub proof fn law_blanks(b: u8)
    ensures
        is_blank(b, true) <==> b == 0x20 || b == 0x09 || b == 0x0A || b == 0x0D,
        is_blank(b, false) <==> b == 0x20 || b == 0x09,
{
}

/// White characters: the controls from tab to carriage return, the space, and those
/// that Unicode adds.
pub proof fn law_white_characters(c: char)
    ensures
        (c as u32) < 0x80 ==> (is_white(c) <==> c == ' ' || c == '\t' || c == '\n' || c == '\r' || c
            as u32 == 0x0B || c as u32 == 0x0C),
        0x80 <= c as u32 && (c as u32) < 0x2000 ==> (is_white(c) <==> c as u32 == 0x85 || c as u32
            == 0xA0 || c as u32 == 0x1680),
        0x2000 <= c as u32 ==> (is_white(c) <==> c as u32 <= 0x200A || c as u32 == 0x2028 || c as u32
            == 0x2029 || c as u32 == 0x202F || c as u32 == 0x205F || c as u32 == 0x3000),
{
}

/// A build-time number is acceptable when nothing is given, and when what stands between
/// blanks is a decimal number up to 255; a switch when that is `0`, `1` or nothing.
pub proof fn law_acceptable_settings(digits: Seq<nat>, b: Seq<u8>)
    requires
        are_digits(digits),
        b.len() == digits.len(),
        forall|i: int| 0 <= i < digits.len() ==> #[trigger] b[i] == 0x30 + digits[i],
    ensures
        u8_text_ok(None) && switch_text_ok(None),
        u8_text_ok(Some(b)) <==> decimal(digits) <= 255,
        switch_text_ok(Some(b)) <==> b.len() == 0 || b.len() == 1 && digits[0] <= 1,
{
    let c = Seq::new(digits.len(), |i: int| (0x30 + digits[i]) as char);
    assert forall|i: int| 0 <= i < digits.len() implies (#[trigger] c[i]) as u32 == 0x30
        + digits[i] by {
        assert(digits[i] < 10);
    }
    law_digits_spell_a_number(digits, b, c);
    if b.len() > 0 {
        assert(digits[0] < 10 && digits[digits.len() - 1] < 10);
        assert(b[0] == 0x30 + digits[0]);
        assert(b[b.len() - 1] == 0x30 + digits[digits.len() - 1]);
    }
    let none = Seq::<u8>::empty();
    assert(none + b + none =~= b);
    law_blanks_are_trimmed(none, b, none, true);
}

/// What stands between white space is kept.
pub proof fn law_white_space_is_trimmed(lead: Seq<char>, t: Seq<char>, tail: Seq<char>)
    requires
        forall|i: int| 0 <= i < lead.len() ==> is_white(#[trigger] lead[i]),
        forall|i: int| 0 <= i < tail.len() ==> is_white(#[trigger] tail[i]),
        t.len() > 0,
        !is_white(t[0]),
        !is_white(t.last()),
    ensures
        trim_chars(lead + t + tail) == t,
    decreases lead.len() + tail.len(),
{
    let s = lead + t + tail;
    if lead.len() > 0 {
        assert(s[0] == lead[0]);
        assert(s.skip(1) =~= lead.skip(1) + t + tail);
        assert forall|i: int| 0 <= i < lead.skip(1).len() implies is_white(
            #[trigger] lead.skip(1)[i],
        ) by {
            assert(is_white(lead[i + 1]));
        }
        law_white_space_is_trimmed(lead.skip(1), t, tail);
    } else if tail.len() > 0 {
        assert(s[0] == t[0]);
        assert(s.last() == tail[tail.len() - 1]);
        assert(s.drop_last() =~= lead + t + tail.drop_last());
        assert forall|i: int| 0 <= i < tail.drop_last().len() implies is_white(
            #[trigger] tail.drop_last()[i],
        ) by {
            assert(is_white(tail[i]));
        }
        law_white_space_is_trimmed(lead, t, tail.drop_last());
    } else {
        assert(s =~= t);
    }
}

} // verus!
