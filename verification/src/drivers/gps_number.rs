//! Numbers as GPS receivers report them, kept without loss.

use vstd::prelude::*;

verus! {

/// A decimal number as written: sign, digits before and after the point. Digits
/// are 0 to 9, most significant first.
#[derive(Debug, Clone, PartialEq, Eq)]
pub struct Decimal {
    pub negative: bool,
    pub int_digits: Vec<u8>,
    pub frac_digits: Vec<u8>,
}

/// The contents of a `Decimal`.
#[verifier::ext_equal]
pub struct DecimalView {
    pub negative: bool,
    pub int_digits: Seq<u8>,
    pub frac_digits: Seq<u8>,
}

impl View for Decimal {
    type V = DecimalView;

    open spec fn view(&self) -> DecimalView {
        DecimalView {
            negative: self.negative,
            int_digits: self.int_digits@,
            frac_digits: self.frac_digits@,
        }
    }
}

/// A reported quantity, in the form it was reported.
#[derive(Debug, Clone, PartialEq, Eq)]
pub enum GpsNumber {
    /// A decimal number in the field's unit.
    Decimal(Decimal),
    /// A speed in knots, for a field in metres per second.
    Knots(Decimal),
    /// Degrees and minutes; `negated` for south and west.
    DegMin { degrees: Decimal, minutes: Decimal, negated: bool },
    /// `raw` times ten to the minus `decimals`, in the field's unit.
    Scaled { raw: i64, decimals: u32 },
    /// The direction of a horizontal velocity, for a field in degrees from
    /// north.
    Heading { north_mms: i32, east_mms: i32 },
}

/// The contents of a `GpsNumber`.
#[verifier::ext_equal]
pub enum NumberView {
    Decimal(DecimalView),
    Knots(DecimalView),
    DegMin { degrees: DecimalView, minutes: DecimalView, negated: bool },
    Scaled { raw: i64, decimals: u32 },
    Heading { north_mms: i32, east_mms: i32 },
}

impl View for GpsNumber {
    type V = NumberView;

    open spec fn view(&self) -> NumberView {
        match *self {
            GpsNumber::Decimal(d) => NumberView::Decimal(d@),
            GpsNumber::Knots(d) => NumberView::Knots(d@),
            GpsNumber::DegMin { degrees, minutes, negated } => NumberView::DegMin {
                degrees: degrees@,
                minutes: minutes@,
                negated,
            },
            GpsNumber::Scaled { raw, decimals } => NumberView::Scaled { raw, decimals },
            GpsNumber::Heading { north_mms, east_mms } => NumberView::Heading {
                north_mms,
                east_mms,
            },
        }
    }
}

/// Whether a byte is an ASCII decimal digit.
pub open spec fn is_digit(b: u8) -> bool {
    48 <= b <= 57
}

/// Length of the longest prefix that is all digits.
pub open spec fn digit_run(s: Seq<u8>) -> nat
    decreases s.len(),
{
    if s.len() == 0 || !is_digit(s[0]) {
        0
    } else {
        1 + digit_run(s.skip(1))
    }
}

/// The values of the leading digits.
pub open spec fn leading_digits(s: Seq<u8>) -> Seq<u8> {
    Seq::new(digit_run(s), |i: int| (s[i] - 48) as u8)
}

/// The decimal number at the start of a field: an optional minus sign, digits,
/// and digits after an optional point. Whatever follows is ignored; only an
/// empty field is no number.
pub open spec fn decimal_of(field: Seq<u8>) -> Option<DecimalView> {
    if field.len() == 0 {
        None
    } else {
        let negative = field[0] == 45;
        let rest = if negative {
            field.skip(1)
        } else {
            field
        };
        let n = digit_run(rest) as int;
        Some(
            DecimalView {
                negative,
                int_digits: leading_digits(rest),
                frac_digits: if n < rest.len() && rest[n] == 46 {
                    leading_digits(rest.skip(n + 1))
                } else {
                    Seq::empty()
                },
            },
        )
    }
}

proof fn lemma_digit_run(s: Seq<u8>)
    ensures
        digit_run(s) <= s.len(),
        forall|i: int| 0 <= i < digit_run(s) ==> is_digit(#[trigger] s[i]),
        digit_run(s) < s.len() ==> !is_digit(s[digit_run(s) as int]),
    decreases s.len(),
{
    if s.len() > 0 && is_digit(s[0]) {
        lemma_digit_run(s.skip(1));
        assert forall|i: int| 0 <= i < digit_run(s) implies is_digit(#[trigger] s[i]) by {
            if i > 0 {
                assert(s.skip(1)[i - 1] == s[i]);
            }
        }
    }
}

/// Collects the digits from `at` on.
fn take_digits(field: &[u8], at: usize) -> (digits: Vec<u8>)
    requires
        at <= field@.len(),
    ensures
        digits@ == leading_digits(field@.skip(at as int)),
        digits@.len() == digit_run(field@.skip(at as int)),
        at + digits@.len() <= field@.len(),
{
    let ghost s = field@.skip(at as int);
    let mut digits: Vec<u8> = Vec::new();
    let mut i: usize = at;
    proof {
        lemma_digit_run(s);
    }
    while i < field.len() && field[i] >= 48 && field[i] <= 57
        invariant
            at <= i <= field@.len(),
            s == field@.skip(at as int),
            i - at <= digit_run(s),
            digits@ == leading_digits(s).take(i - at),
            digit_run(s) <= s.len(),
            forall|k: int| 0 <= k < digit_run(s) ==> is_digit(#[trigger] s[k]),
            digit_run(s) < s.len() ==> !is_digit(s[digit_run(s) as int]),
        decreases field.len() - i,
    {
        assert(s[i - at] == field@[i as int]);
        digits.push(field[i] - 48);
        i += 1;
        assert(digits@ =~= leading_digits(s).take(i - at));
    }
    assert(i - at == digit_run(s)) by {
        if i - at < digit_run(s) {
            assert(is_digit(s[i - at]));
        }
    }
    assert(digits@ =~= leading_digits(s));
    digits
}

/// Reads the decimal number at the start of a field.
pub fn parse_decimal(field: &[u8]) -> (d: Option<Decimal>)
    ensures
        d is Some == decimal_of(field@) is Some,
        d matches Some(v) ==> v@ == decimal_of(field@)->0,
{
    if field.len() == 0 {
        return None;
    }
    let negative: bool = field[0] == 45;
    let start: usize = if negative {
        1
    } else {
        0
    };
    let ghost rest = field@.skip(start as int);
    assert(field@.skip(0) =~= field@);
    let int_digits: Vec<u8> = take_digits(field, start);
    let at: usize = start + int_digits.len();
    let frac_digits: Vec<u8> = if at < field.len() && field[at] == 46 {
        assert(rest[at - start] == field@[at as int]);
        assert(rest.skip(at - start + 1) =~= field@.skip(at + 1));
        take_digits(field, at + 1)
    } else {
        assert(at < field.len() ==> rest[at - start] == field@[at as int]);
        Vec::new()
    };
    let d = Decimal { negative, int_digits, frac_digits };
    assert(d@ =~= decimal_of(field@)->0);
    Some(d)
}

/// Zero.
pub open spec fn zero_view() -> NumberView {
    NumberView::Scaled { raw: 0, decimals: 0 }
}

impl GpsNumber {
    /// `raw` times ten to the minus `decimals`.
    pub fn scaled(raw: i64, decimals: u32) -> (n: Self)
        ensures
            n@ == (NumberView::Scaled { raw, decimals }),
    {
        GpsNumber::Scaled { raw, decimals }
    }
}

// ---- Laws ----

/// Digits as they are written.
pub open spec fn spelled(digits: Seq<u8>) -> Seq<u8> {
    Seq::new(digits.len(), |i: int| (48 + digits[i]) as u8)
}

/// A number as it is written: a minus sign where negative, the digits, a point and the
/// digits after it.
pub open spec fn written(negative: bool, int_digits: Seq<u8>, frac_digits: Seq<u8>) -> Seq<u8> {
    (if negative {
        seq![45u8]
    } else {
        Seq::empty()
    }) + spelled(int_digits) + seq![46u8] + spelled(frac_digits)
}

/// Whether every digit is one.
pub open spec fn are_digits(digits: Seq<u8>) -> bool {
    forall|i: int| 0 <= i < digits.len() ==> #[trigger] digits[i] < 10
}

proof fn lemma_run_of_digits(digits: Seq<u8>, rest: Seq<u8>)
    requires
        are_digits(digits),
        rest.len() > 0 ==> !is_digit(rest[0]),
    ensures
        digit_run(spelled(digits) + rest) == digits.len(),
        leading_digits(spelled(digits) + rest) == digits,
    decreases digits.len(),
{
    let s = spelled(digits) + rest;
    if digits.len() == 0 {
        assert(s =~= rest);
    } else {
        assert(digits[0] < 10);
        assert(s[0] == 48 + digits[0]);
        assert(s.skip(1) =~= spelled(digits.skip(1)) + rest);
        assert forall|i: int| 0 <= i < digits.skip(1).len() implies #[trigger] digits.skip(1)[i]
            < 10 by {
            assert(digits[i + 1] < 10);
        }
        lemma_run_of_digits(digits.skip(1), rest);
    }
    assert forall|i: int| 0 <= i < digits.len() implies leading_digits(s)[i] == digits[i] by {
        assert(digits[i] < 10);
    }
    assert(leading_digits(s) =~= digits);
}

/// A number is read as it was written, sign, digits and decimals alike.
pub proof fn law_written_number_is_read(
    negative: bool,
    int_digits: Seq<u8>,
    frac_digits: Seq<u8>,
)
    requires
        are_digits(int_digits),
        are_digits(frac_digits),
    ensures
        ({
            let read = decimal_of(written(negative, int_digits, frac_digits));
            &&& read is Some
            &&& read->0.negative == negative
            &&& read->0.int_digits == int_digits
            &&& read->0.frac_digits == frac_digits
        }),
{
    let field = written(negative, int_digits, frac_digits);
    let rest = if negative {
        field.skip(1)
    } else {
        field
    };
    let tail = seq![46u8] + spelled(frac_digits);
    assert(rest =~= spelled(int_digits) + tail);
    assert(field[0] == 45 <==> negative) by {
        if !negative && int_digits.len() > 0 {
            assert(int_digits[0] < 10);
        }
    }
    lemma_run_of_digits(int_digits, tail);
    let n = int_digits.len() as int;
    assert(rest[n] == 46);
    assert(rest.skip(n + 1) =~= spelled(frac_digits) + Seq::empty());
    lemma_run_of_digits(frac_digits, Seq::empty());
}

/// A whole number is read too, and nothing is read into an empty field.
pub proof fn law_written_integer_is_read(int_digits: Seq<u8>)
    requires
        are_digits(int_digits),
    ensures
        int_digits.len() > 0 ==> ({
            let read = decimal_of(spelled(int_digits));
            &&& read is Some
            &&& !read->0.negative
            &&& read->0.int_digits == int_digits
            &&& read->0.frac_digits == Seq::<u8>::empty()
        }),
        decimal_of(Seq::empty()) is None,
{
    let field = spelled(int_digits);
    assert(field =~= field + Seq::empty());
    lemma_run_of_digits(int_digits, Seq::empty());
    if int_digits.len() > 0 {
        assert(int_digits[0] < 10);
    }
}

} // verus!
