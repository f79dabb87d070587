//! What the text of a number reads as where a number is typed or quoted: besides plain
//! numbers, infinities and the word for no number at all.

use vstd::prelude::*;
use crate::decimal::{
    at_most, canonical, canonical_keeps_sign, canonical_keeps_value, clamped, decimal_of,
    digits_of, lifted, magnitude_spec, natural_reads_as_itself, order_is_total, plain_text, pow10,
    pow10_grows, pow10_of_19, pow10_positive, rounded, signed, unsigned,
    written_number_reads_back, Decimal,
};
use crate::text::{
    ascii_small, chars_of, eq_ignore_ascii_case, is_digit, nat_text, same_ignoring_ascii_case,
    text_of,
};

verus! {

/// Ten to this power is too large to be told from infinity.
pub const TOO_LARGE: i16 = 309;

/// What is below ten to this power is too small to be told from zero.
pub const TOO_SMALL: i16 = -324;

/// What the text of a number reads as.
#[derive(Debug, PartialEq)]
pub enum Reading {
    /// A number.
    Finite(Decimal),
    /// More, or less, than every number.
    Infinite { negative: bool },
    /// No number: neither above nor below any other.
    NotANumber,
}

/// What `Reading` holds.
pub enum ReadingView {
    Finite((int, int)),
    Infinite { negative: bool },
    NotANumber,
}

impl DeepView for Reading {
    type V = ReadingView;

    open spec fn deep_view(&self) -> ReadingView {
        match *self {
            Reading::Finite(d) => ReadingView::Finite(d.deep_view()),
            Reading::Infinite { negative } => ReadingView::Infinite { negative },
            Reading::NotANumber => ReadingView::NotANumber,
        }
    }
}

impl Clone for Reading {
    fn clone(&self) -> (r: Self)
        ensures
            r.deep_view() == self.deep_view(),
    {
        match self {
            Reading::Finite(d) => Reading::Finite(d.clone()),
            Reading::Infinite { negative } => Reading::Infinite { negative: *negative },
            Reading::NotANumber => Reading::NotANumber,
        }
    }
}

/// What a word in place of digits reads as; the case of its letters does not matter.
pub open spec fn word_of(s: Seq<char>) -> Option<ReadingView> {
    let word = unsigned(s);
    if same_ignoring_ascii_case(word, "inf"@) || same_ignoring_ascii_case(word, "infinity"@) {
        Some(ReadingView::Infinite { negative: s[0] == '-' })
    } else if same_ignoring_ascii_case(word, "nan"@) {
        Some(ReadingView::NotANumber)
    } else {
        None
    }
}

/// A number as far as it is told from infinity and from zero.
pub open spec fn told(d: (int, int)) -> ReadingView {
    let size = (magnitude_spec(d.0) as int, d.1);
    if at_most((1, TOO_LARGE as int), size) {
        ReadingView::Infinite { negative: d.0 < 0 }
    } else if at_most((1, TOO_SMALL as int), size) {
        ReadingView::Finite(d)
    } else {
        ReadingView::Finite((0, 0))
    }
}

/// What `s` reads as: a word for an infinity or for no number, or an optional sign, digits
/// with an optional point, and an optional exponent.
pub open spec fn reading_of(s: Seq<char>) -> Option<ReadingView> {
    match word_of(s) {
        Some(word) => Some(word),
        None => match decimal_of(s) {
            Some(d) => Some(told(d)),
            None => None,
        },
    }
}

/// Whether `a` is at most `b`; never, where one of them is no number.
pub open spec fn bounded_by(a: ReadingView, b: ReadingView) -> bool {
    match (a, b) {
        (ReadingView::Finite(x), ReadingView::Finite(y)) => at_most(x, y),
        (ReadingView::NotANumber, _) => false,
        (_, ReadingView::NotANumber) => false,
        (ReadingView::Infinite { negative: true }, _) => true,
        (_, ReadingView::Infinite { negative: false }) => true,
        _ => false,
    }
}

/// A reading times ten to the power `shift`, rounded to an integer, halves away from
/// zero; beyond the range of `i64`, its nearer bound; zero where it is no number.
pub open spec fn units_of(r: ReadingView, shift: int) -> i64 {
    match r {
        ReadingView::Finite(d) => clamped(rounded(d.0, d.1 + shift)),
        ReadingView::Infinite { negative: true } => i64::MIN,
        ReadingView::Infinite { negative: false } => i64::MAX,
        ReadingView::NotANumber => 0,
    }
}

/// The word for a reading that is no plain number.
pub open spec fn word_text(r: ReadingView) -> Seq<char> {
    match r {
        ReadingView::Infinite { negative: true } => "-inf"@,
        ReadingView::Infinite { negative: false } => "inf"@,
        _ => "NaN"@,
    }
}

/// A reading in plain decimal notation, or its word.
pub open spec fn reading_text(r: ReadingView) -> Seq<char> {
    match r {
        ReadingView::Finite(d) => plain_text(d),
        _ => word_text(r),
    }
}

impl Reading {
    /// What `s` reads as.
    pub fn parse(s: &str) -> (r: Option<Reading>)
        ensures
            r.deep_view() == reading_of(s@),
    {
        let v = chars_of(s);
        let n: usize = v.len();
        let negative = n > 0 && v[0] == '-';
        let from: usize = if n > 0 && (v[0] == '+' || v[0] == '-') {
            1
        } else {
            0
        };
        let word = text_of(&v, from, n);
        assert(word@ =~= unsigned(s@));
        if eq_ignore_ascii_case(word.as_str(), "inf") || eq_ignore_ascii_case(
            word.as_str(),
            "infinity",
        ) {
            proof {
                reveal_strlit("inf");
                reveal_strlit("infinity");
            }
            return Some(Reading::Infinite { negative });
        }
        if eq_ignore_ascii_case(word.as_str(), "nan") {
            return Some(Reading::NotANumber);
        }
        match Decimal::parse(s) {
            Some(d) => Some(Reading::of(d)),
            None => None,
        }
    }

    /// A number as far as it is told from infinity and from zero.
    fn of(d: Decimal) -> (r: Reading)
        ensures
            r.deep_view() == told(d.deep_view()),
    {
        let size = d.size();
        if Decimal::power(TOO_LARGE).is_at_most(&size) {
            Reading::Infinite { negative: d.is_negative() }
        } else if Decimal::power(TOO_SMALL).is_at_most(&size) {
            Reading::Finite(d)
        } else {
            Reading::Finite(Decimal::from_i64(0))
        }
    }

    /// Whether this reading is at most `other`; never, where one of them is no number.
    pub fn is_at_most(&self, other: &Reading) -> (r: bool)
        ensures
            r == bounded_by(self.deep_view(), other.deep_view()),
    {
        match (self, other) {
            (Reading::Finite(x), Reading::Finite(y)) => x.is_at_most(y),
            (Reading::NotANumber, _) => false,
            (_, Reading::NotANumber) => false,
            (Reading::Infinite { negative: true }, _) => true,
            (_, Reading::Infinite { negative: false }) => true,
            _ => false,
        }
    }

    /// The reading times ten to the power `shift`, rounded to an integer, halves away
    /// from zero; beyond the range of `i64`, its nearer bound; zero where it is no number.
    pub fn round_shifted(&self, shift: u8) -> (r: i64)
        ensures
            r == units_of(self.deep_view(), shift as int),
    {
        match self {
            Reading::Finite(d) => d.round_shifted(shift),
            Reading::Infinite { negative } => if *negative {
                i64::MIN
            } else {
                i64::MAX
            },
            Reading::NotANumber => 0,
        }
    }

    /// The reading in plain decimal notation, or its word.
    pub fn to_text(&self) -> (r: String)
        ensures
            r@ == reading_text(self.deep_view()),
    {
        match self {
            Reading::Finite(d) => d.to_text(),
            Reading::Infinite { negative } => if *negative {
                "-inf".to_owned()
            } else {
                "inf".to_owned()
            },
            Reading::NotANumber => "NaN".to_owned(),
        }
    }
}

// ---- reading back what was written ----

/// A reading that its text can hold: a number is in its one form and told as itself.
pub open spec fn writable(r: ReadingView) -> bool {
    r matches ReadingView::Finite(d) ==> canonical(d.0, d.1) == d && told(d) == r
}

/// Text that begins with a digit is no word.
proof fn digits_are_no_word(s: Seq<char>)
    requires
        unsigned(s).len() > 0,
        is_digit(unsigned(s)[0]),
    ensures
        word_of(s) is None,
{
    let word = unsigned(s);
    reveal_strlit("inf");
    reveal_strlit("infinity");
    reveal_strlit("nan");
    assert(ascii_small(word[0]) == word[0]);
    assert(ascii_small("inf"@[0]) == 'i');
    assert(ascii_small("infinity"@[0]) == 'i');
    assert(ascii_small("nan"@[0]) == 'n');
}

/// A number in plain notation begins with a digit, behind its sign.
proof fn plain_text_begins_with_a_digit(d: (int, int))
    ensures
        unsigned(plain_text(d)).len() > 0,
        is_digit(unsigned(plain_text(d))[0]),
{
    let n = (if d.0 < 0 { -d.0 } else { d.0 }) as nat;
    digits_of(n);
    let s = plain_text(d);
    let digits = nat_text(n);
    assert(is_digit(digits[0]));
    if d.0 < 0 {
        assert(s[0] == '-');
        assert(s.len() > 1);
        assert(s[1] == digits[0] || s[1] == '0');
        assert(unsigned(s)[0] == s[1]);
    } else {
        assert(s[0] == digits[0] || s[0] == '0');
        assert(!signed(s));
    }
}

/// What a reading is written as reads back as the same reading.
pub proof fn written_reading_reads_back(r: ReadingView)
    requires
        writable(r),
    ensures
        reading_of(reading_text(r)) == Some(r),
{
    match r {
        ReadingView::Finite(d) => {
            plain_text_begins_with_a_digit(d);
            digits_are_no_word(plain_text(d));
            written_number_reads_back(d);
        },
        ReadingView::Infinite { negative } => {
            reveal_strlit("inf");
            reveal_strlit("-inf");
            if negative {
                assert(unsigned("-inf"@) =~= "inf"@);
            }
        },
        ReadingView::NotANumber => {
            reveal_strlit("inf");
            reveal_strlit("infinity");
            reveal_strlit("nan");
            reveal_strlit("NaN");
            let word = "NaN"@;
            assert(ascii_small(word[0]) == 'n');
            assert(ascii_small("inf"@[0]) == 'i');
            assert(!same_ignoring_ascii_case(word, "inf"@));
        },
    }
}

/// A number of a few digits is told as itself.
pub proof fn told_as_itself(d: (int, int))
    requires
        d == (0int, 0int) || (d.0 != 0 && magnitude_spec(d.0) < pow10(19) && TOO_SMALL <= d.1
            <= TOO_LARGE - 19),
    ensures
        told(d) == ReadingView::Finite(d),
{
    let n = magnitude_spec(d.0) as int;
    if d.0 == 0 {
        assert(0int * pow10(0) == 0);
        assert(0int * pow10(324) == 0);
        pow10_positive(309);
    } else {
        let k = (TOO_LARGE - d.1) as nat;
        pow10_grows(19, k);
        assert(pow10(0) == 1);
        assert(n * 1 == n);
        assert(1 * pow10(k) == pow10(k));
        let p = pow10((d.1 - TOO_SMALL) as nat);
        pow10_positive((d.1 - TOO_SMALL) as nat);
        assert(n * p >= 1) by (nonlinear_arith)
            requires
                n >= 1,
                p >= 1,
        ;
    }
}

/// The digits of a whole number read as that number.
pub proof fn natural_reading(n: nat, shift: nat)
    ensures
        match reading_of(nat_text(n)) {
            Some(r) => units_of(r, shift as int) == clamped((n * pow10(shift)) as int),
            None => false,
        },
{
    let s = nat_text(n);
    let d = canonical(n as int, 0);
    natural_reads_as_itself(n);
    assert(is_digit(s[0]));
    digits_are_no_word(s);
    canonical_keeps_value(n as int, 0, shift as int);
    canonical_keeps_value(n as int, 0, 0);
    pow10_positive(shift);
    if n == 0 {
        told_as_itself(d);
        assert(0int * pow10(shift) == 0);
        assert(rounded(0, shift as int) == 0);
    } else {
        let p = pow10(shift);
        assert(n * p >= n) by (nonlinear_arith)
            requires
                p >= 1,
        ;
        assert(n as int * 1 == n);
        canonical_keeps_sign(n as int, 0);
        assert(d.0 * pow10(d.1 as nat) == n);
        lifted((1, TOO_LARGE as int), d, 0);
        lifted((1, TOO_SMALL as int), d, TOO_SMALL as int);
        pow10_positive((d.1 - TOO_SMALL) as nat);
        let q = pow10((d.1 - TOO_SMALL) as nat);
        assert(d.0 * q >= 1) by (nonlinear_arith)
            requires
                d.0 >= 1,
                q >= 1,
        ;
        assert(pow10(0) == 1);
        pow10_of_19();
        pow10_grows(19, TOO_LARGE as nat);
    }
}

/// Bounds can be chained.
pub proof fn bounds_chain(a: ReadingView, b: ReadingView, c: ReadingView)
    requires
        bounded_by(a, b),
        bounded_by(b, c),
    ensures
        bounded_by(a, c),
{
    match (a, b, c) {
        (ReadingView::Finite(x), ReadingView::Finite(y), ReadingView::Finite(z)) => {
            order_is_total(x, y, z);
        },
        _ => {},
    }
}

/// The words that read as infinite or as no number, with an optional sign, in any case.
pub proof fn words_are_read(s: Seq<char>)
    ensures
        word_of(s) == Some(ReadingView::NotANumber) <==> same_ignoring_ascii_case(
            unsigned(s),
            "nan"@,
        ),
        word_of(s) == Some(ReadingView::Infinite { negative: true }) <==> (same_ignoring_ascii_case(
            unsigned(s),
            "inf"@,
        ) || same_ignoring_ascii_case(unsigned(s), "infinity"@)) && s[0] == '-',
        word_of(s) == Some(ReadingView::Infinite { negative: false }) <==> (
        same_ignoring_ascii_case(unsigned(s), "inf"@) || same_ignoring_ascii_case(
            unsigned(s),
            "infinity"@,
        )) && s[0] != '-',
        word_of(s) matches Some(w) ==> !(w is Finite),
{
    reveal_strlit("inf");
    reveal_strlit("infinity");
    reveal_strlit("nan");
    let w = unsigned(s);
    if same_ignoring_ascii_case(w, "nan"@) {
        assert("nan"@.len() == 3 && "infinity"@.len() == 8);
        if same_ignoring_ascii_case(w, "inf"@) {
            assert(ascii_small(w[0]) == ascii_small("nan"@[0]));
            assert(ascii_small(w[0]) == ascii_small("inf"@[0]));
        }
    }
}

/// What is no word reads as the number that it writes: too large is infinite, too small is
/// zero, and what writes no number reads as nothing.
pub proof fn numbers_are_read(s: Seq<char>)
    ensures
        word_of(s) is Some ==> reading_of(s) == word_of(s),
        word_of(s) is None && decimal_of(s) is None ==> reading_of(s) is None,
        word_of(s) is None ==> (decimal_of(s) matches Some(d) ==> {
            let size = (
                if d.0 < 0 {
                    -d.0
                } else {
                    d.0
                },
                d.1,
            );
            reading_of(s) == Some(
                if at_most((1, 309), size) {
                    ReadingView::Infinite { negative: d.0 < 0 }
                } else if at_most((1, -324), size) {
                    ReadingView::Finite(d)
                } else {
                    ReadingView::Finite((0, 0))
                },
            )
        }),
{
}

/// How readings are ordered: numbers by their value, the infinities at either end, and what
/// is no number nowhere.
pub proof fn readings_are_ordered(r: ReadingView, a: (int, int), b: (int, int))
    ensures
        bounded_by(ReadingView::Finite(a), ReadingView::Finite(b)) == at_most(a, b),
        !bounded_by(ReadingView::NotANumber, r),
        !bounded_by(r, ReadingView::NotANumber),
        !(r is NotANumber) ==> bounded_by(ReadingView::Infinite { negative: true }, r),
        !(r is NotANumber) ==> bounded_by(r, ReadingView::Infinite { negative: false }),
        !bounded_by(ReadingView::Finite(a), ReadingView::Infinite { negative: true }),
        !bounded_by(ReadingView::Infinite { negative: false }, ReadingView::Finite(a)),
        !bounded_by(
            ReadingView::Infinite { negative: false },
            ReadingView::Infinite { negative: true },
        ),
{
}

/// A reading in units: a number rounded to the nearest, an infinity the bound on its side,
/// what is no number nothing.
pub proof fn readings_in_units(d: (int, int), shift: int)
    ensures
        units_of(ReadingView::Finite(d), shift) == clamped(rounded(d.0, d.1 + shift)),
        units_of(ReadingView::Infinite { negative: true }, shift) == i64::MIN,
        units_of(ReadingView::Infinite { negative: false }, shift) == i64::MAX,
        units_of(ReadingView::NotANumber, shift) == 0,
        word_text(ReadingView::Infinite { negative: true }) == "-inf"@,
        word_text(ReadingView::Infinite { negative: false }) == "inf"@,
        word_text(ReadingView::NotANumber) == "NaN"@,
        reading_text(ReadingView::Finite(d)) == plain_text(d),
{
}

} // verus!
