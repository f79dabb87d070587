//! Decimal numbers of any length: what a title, a form field or a JSON
//! number writes, kept exactly.

use vstd::prelude::*;
use crate::text::{
    all_digits, chars_of, digit, digits_value, int_text, is_digit, magnitude, nat_text, push_u64,
};

verus! {

/// The largest exponent of `1e…` notation that is told apart, either way: no text is long
/// enough to make up for it with its digits, and a larger one reads as this one.
pub const MAX_EXPONENT: i128 = 0x100_0000_0000_0000_0000;

/// Ten to the power `n`.
pub open spec fn pow10(n: nat) -> nat
    decreases n,
{
    if n == 0 {
        1
    } else {
        10 * pow10((n - 1) as nat)
    }
}

/// `num` times ten to the power `exp`, written with the largest exponent possible;
/// zero is `(0, 0)`.
pub open spec fn canonical(num: int, exp: int) -> (int, int)
    decreases (if num < 0 { -num } else { num }),
{
    if num == 0 {
        (0, 0)
    } else if num % 10 == 0 {
        canonical(num / 10, exp + 1)
    } else {
        (num, exp)
    }
}

/// `a.0` times ten to the power `a.1` is at most `b.0` times ten to the power `b.1`.
pub open spec fn at_most(a: (int, int), b: (int, int)) -> bool {
    let m = if a.1 <= b.1 { a.1 } else { b.1 };
    a.0 * pow10((a.1 - m) as nat) <= b.0 * pow10((b.1 - m) as nat)
}

/// `num` times ten to the power `exp`, rounded to an integer, halves away from zero.
pub open spec fn rounded(num: int, exp: int) -> int {
    if exp >= 0 {
        num * pow10(exp as nat)
    } else {
        let unit = pow10((-exp) as nat) as int;
        if num < 0 {
            -((2 * (-num) + unit) / (2 * unit))
        } else {
            (2 * num + unit) / (2 * unit)
        }
    }
}

/// `n`, or the bound of `i64` that it lies beyond.
pub open spec fn clamped(n: int) -> i64 {
    if n > i64::MAX {
        i64::MAX
    } else if n < i64::MIN {
        i64::MIN
    } else {
        n as i64
    }
}

/// `n` zeros.
pub open spec fn zeros(n: nat) -> Seq<char> {
    Seq::new(n, |i: int| '0')
}

/// The number in plain decimal notation, with no more digits than it needs.
pub open spec fn plain_text(d: (int, int)) -> Seq<char> {
    let sign = if d.0 < 0 { seq!['-'] } else { Seq::empty() };
    let digits = nat_text((if d.0 < 0 { -d.0 } else { d.0 }) as nat);
    let point = digits.len() + d.1;
    if d.1 >= 0 {
        sign + digits + zeros(d.1 as nat)
    } else if point > 0 {
        sign + digits.take(point) + seq!['.'] + digits.skip(point)
    } else {
        sign + seq!['0', '.'] + zeros((-point) as nat) + digits
    }
}

/// The position of the exponent's `e`, or the length of `s`.
pub open spec fn exponent_mark(s: Seq<char>) -> int
    decreases s.len(),
{
    if s.len() == 0 || s[0] == 'e' || s[0] == 'E' {
        0
    } else {
        1 + exponent_mark(s.drop_first())
    }
}

/// The position of the decimal point, or the length of `s`.
pub open spec fn point_mark(s: Seq<char>) -> int
    decreases s.len(),
{
    if s.len() == 0 || s[0] == '.' {
        0
    } else {
        1 + point_mark(s.drop_first())
    }
}

/// Whether `s` carries a sign in front.
pub open spec fn signed(s: Seq<char>) -> bool {
    s.len() > 0 && (s[0] == '+' || s[0] == '-')
}

/// `s` without its sign.
pub open spec fn unsigned(s: Seq<char>) -> Seq<char> {
    if signed(s) {
        s.drop_first()
    } else {
        s
    }
}

/// The exponent that `s` writes, an optional sign and at least one digit, as far as
/// exponents are told apart.
pub open spec fn exponent_of(s: Seq<char>) -> Option<int> {
    let d = unsigned(s);
    let n = digits_value(d) as int;
    let size = if n > MAX_EXPONENT { MAX_EXPONENT as int } else { n };
    if d.len() > 0 && all_digits(d) {
        Some(
            if s[0] == '-' {
                -size
            } else {
                size
            },
        )
    } else {
        None
    }
}

/// The number that a mantissa and an exponent stand for; the mantissa is digits, at
/// least one, with at most one point among them.
pub open spec fn scaled(negative: bool, mantissa: Seq<char>, exponent: int) -> Option<(int, int)> {
    let p = point_mark(mantissa);
    let whole = mantissa.take(p);
    let frac = if p < mantissa.len() { mantissa.skip(p + 1) } else { Seq::empty() };
    let all = whole + frac;
    if all.len() > 0 && all_digits(all) {
        let n = digits_value(all) as int;
        Some(canonical(if negative { -n } else { n }, exponent - frac.len()))
    } else {
        None
    }
}

/// The number that `s` writes: an optional sign, digits with an optional point, and an
/// optional exponent.
pub open spec fn decimal_of(s: Seq<char>) -> Option<(int, int)> {
    let negative = s.len() > 0 && s[0] == '-';
    let body = unsigned(s);
    let e = exponent_mark(body);
    if e < body.len() {
        match exponent_of(body.skip(e + 1)) {
            Some(x) => scaled(negative, body.take(e), x),
            None => None,
        }
    } else {
        scaled(negative, body, 0)
    }
}

// ---- lemmas on digits ----

pub(crate) proof fn pow10_positive(n: nat)
    ensures
        pow10(n) > 0,
    decreases n,
{
    if n > 0 {
        pow10_positive((n - 1) as nat);
    }
}

proof fn pow10_sum(a: nat, b: nat)
    ensures
        pow10(a + b) == pow10(a) * pow10(b),
    decreases a,
{
    if a > 0 {
        pow10_sum((a - 1) as nat, b);
        assert(pow10(a + b) == 10 * pow10((a - 1 + b) as nat));
        assert(10 * (pow10((a - 1) as nat) * pow10(b)) == (10 * pow10((a - 1) as nat)) * pow10(b))
            by (nonlinear_arith);
    } else {
        assert(pow10(0) == 1);
        assert(1 * pow10(b) == pow10(b));
    }
}

pub(crate) proof fn pow10_grows(a: nat, b: nat)
    requires
        a <= b,
    ensures
        pow10(a) <= pow10(b),
    decreases b,
{
    if a < b {
        pow10_grows(a, (b - 1) as nat);
    }
}

proof fn value_of_one(s: Seq<char>)
    requires
        s.len() == 1,
    ensures
        digits_value(s) == (s[0] as int - 48) as nat,
{
    assert(s.drop_last() =~= Seq::empty());
    assert(digits_value(s.drop_last()) == 0);
}

proof fn value_below(s: Seq<char>)
    requires
        all_digits(s),
    ensures
        digits_value(s) < pow10(s.len()),
    decreases s.len(),
{
    if s.len() > 0 {
        assert(all_digits(s.drop_last()));
        value_below(s.drop_last());
        assert(is_digit(s[s.len() - 1]));
    }
}

proof fn value_split(s: Seq<char>, k: int)
    requires
        0 <= k <= s.len(),
    ensures
        digits_value(s) == digits_value(s.take(k)) * pow10((s.len() - k) as nat) + digits_value(
            s.skip(k),
        ),
    decreases s.len(),
{
    if k == s.len() {
        assert(s.take(k) =~= s);
        assert(s.skip(k) =~= Seq::empty());
        assert(digits_value(s) * 1 == digits_value(s));
    } else {
        let t = s.drop_last();
        value_split(t, k);
        assert(t.take(k) =~= s.take(k));
        assert(s.skip(k).drop_last() =~= t.skip(k));
        assert(s.skip(k).last() == s.last());
        let h = digits_value(s.take(k));
        let p = pow10((t.len() - k) as nat);
        assert((h * p) * 10 == h * (10 * p)) by (nonlinear_arith);
    }
}

proof fn value_at_least(s: Seq<char>)
    requires
        all_digits(s),
        s.len() > 0,
        s[0] != '0',
    ensures
        digits_value(s) >= pow10((s.len() - 1) as nat),
    decreases s.len(),
{
    value_split(s, 1);
    assert(is_digit(s[0]));
    let h = s.take(1);
    value_of_one(h);
    let p = pow10((s.len() - 1) as nat);
    pow10_positive((s.len() - 1) as nat);
    assert(digits_value(h) >= 1);
    assert(digits_value(h) * p >= p) by (nonlinear_arith)
        requires
            digits_value(h) >= 1,
            p >= 0,
    ;
}

proof fn value_of_zeros(n: nat)
    ensures
        digits_value(zeros(n)) == 0,
        all_digits(zeros(n)),
    decreases n,
{
    if n > 0 {
        assert(zeros(n).drop_last() =~= zeros((n - 1) as nat));
        value_of_zeros((n - 1) as nat);
    }
}

proof fn value_padded(s: Seq<char>, n: nat)
    ensures
        digits_value(s + zeros(n)) == digits_value(s) * pow10(n),
        all_digits(s) ==> all_digits(s + zeros(n)),
{
    let t = s + zeros(n);
    value_split(t, s.len() as int);
    assert(t.take(s.len() as int) =~= s);
    assert(t.skip(s.len() as int) =~= zeros(n));
    value_of_zeros(n);
}

proof fn value_lexicographic(a: Seq<char>, b: Seq<char>, i: int)
    requires
        all_digits(a),
        all_digits(b),
        a.len() == b.len(),
        0 <= i < a.len(),
        a.take(i) == b.take(i),
        a[i] < b[i],
    ensures
        digits_value(a) < digits_value(b),
{
    value_split(a, i + 1);
    value_split(b, i + 1);
    let x = a.take(i + 1);
    let y = b.take(i + 1);
    assert(x.drop_last() =~= a.take(i));
    assert(y.drop_last() =~= b.take(i));
    assert(digits_value(x) + 1 <= digits_value(y)) by {
        assert(is_digit(a[i]));
        assert(is_digit(b[i]));
    }
    let p = pow10((a.len() - i - 1) as nat);
    assert(all_digits(a.skip(i + 1)));
    value_below(a.skip(i + 1));
    assert((digits_value(x) + 1) * p <= digits_value(y) * p) by (nonlinear_arith)
        requires
            digits_value(x) + 1 <= digits_value(y),
            p >= 0,
    ;
    assert((digits_value(x) + 1) * p == digits_value(x) * p + p) by (nonlinear_arith);
}

proof fn text_of_value(s: Seq<char>)
    requires
        all_digits(s),
        s.len() > 0,
        s[0] != '0',
    ensures
        nat_text(digits_value(s)) == s,
    decreases s.len(),
{
    assert(is_digit(s[0]));
    if s.len() == 1 {
        value_of_one(s);
        assert(s =~= seq![digit(digits_value(s))]);
    } else {
        let t = s.drop_last();
        assert(all_digits(t));
        text_of_value(t);
        value_at_least(s);
        pow10_grows(1, (s.len() - 1) as nat);
        assert(pow10(1) == 10) by {
            assert(pow10(0) == 1);
        }
        assert(is_digit(s[s.len() - 1]));
        let v = digits_value(s);
        assert(v / 10 == digits_value(t) && v % 10 == (s.last() as int - 48));
        assert(s =~= t.push(digit(v % 10)));
    }
}

/// How the distances of two numbers from zero compare.
enum Weight {
    Less,
    Same,
    More,
}

/// A decimal number.
#[derive(Debug, PartialEq)]
pub struct Decimal {
    negative: bool,
    digits: Vec<char>,
    exponent: i128,
}

impl DeepView for Decimal {
    type V = (int, int);

    closed spec fn deep_view(&self) -> (int, int) {
        let n = digits_value(self.digits@) as int;
        (if self.negative { -n } else { n }, self.exponent as int)
    }
}

impl Decimal {
    #[verifier::type_invariant]
    spec fn wf(self) -> bool {
        &&& all_digits(self.digits@)
        &&& self.digits@.len() == 0 ==> !self.negative && self.exponent == 0
        &&& self.digits@.len() > 0 ==> self.digits@[0] != '0' && self.digits@.last() != '0'
        &&& -0x1_0000_0000_0000_0000_0000 <= self.exponent <= 0x1_0000_0000_0000_0000_0000
    }

    /// The number made of `digits` times ten to the power `exponent`.
    fn build(negative: bool, digits: Vec<char>, exponent: i128) -> (r: Decimal)
        requires
            all_digits(digits@),
            -MAX_EXPONENT - 0x1_0000_0000_0000_0000 <= exponent <= MAX_EXPONENT,
        ensures
            r.deep_view() == canonical(
                if negative {
                    -(digits_value(digits@) as int)
                } else {
                    digits_value(digits@) as int
                },
                exponent as int,
            ),
    {
        let n: usize = digits.len();
        let mut from: usize = 0;
        assert(digits@.skip(0) =~= digits@);
        while from < n && digits[from] == '0'
            invariant
                from <= n == digits@.len(),
                digits_value(digits@) == digits_value(digits@.skip(from as int)),
            decreases n - from,
        {
            proof {
                let s = digits@.skip(from as int);
                value_split(s, 1);
                value_of_one(s.take(1));
                assert(s.skip(1) =~= digits@.skip(from + 1));
                assert(digits_value(s.take(1)) == 0);
                assert(0 * pow10((s.len() - 1) as nat) == 0);
            }
            from = from + 1;
        }
        let ghost sign: int = if negative { -1 } else { 1 };
        let ghost v = digits_value(digits@) as int;
        let mut to: usize = n;
        assert(digits@.subrange(from as int, to as int) =~= digits@.skip(from as int));
        while to > from && digits[to - 1] == '0'
            invariant
                from <= to <= n == digits@.len(),
                all_digits(digits@),
                sign == 1 || sign == -1,
                to < n ==> from < n && digits@[from as int] != '0',
                from < n ==> digits@[from as int] != '0',
                canonical(sign * v, exponent as int) == canonical(
                    sign * digits_value(digits@.subrange(from as int, to as int)),
                    exponent + (n - to),
                ),
            decreases to,
        {
            proof {
                let s = digits@.subrange(from as int, to as int);
                assert(s.drop_last() =~= digits@.subrange(from as int, to - 1));
                let w = digits_value(s.drop_last()) as int;
                assert(s.last() == digits@[to - 1]);
                assert(digits_value(s) == w * 10);
                assert(s[0] == digits@[from as int]);
                assert(all_digits(s)) by {
                    assert forall|i: int| 0 <= i < s.len() implies is_digit(#[trigger] s[i]) by {
                        assert(is_digit(digits@[from + i]));
                    }
                }
                value_at_least(s);
                pow10_positive((s.len() - 1) as nat);
                assert(sign * (w * 10) == (sign * w) * 10) by (nonlinear_arith);
                assert(sign * (w * 10) != 0) by {
                    assert(w * 10 > 0);
                    if sign == 1 {
                        assert(sign * (w * 10) == w * 10);
                    } else {
                        assert(sign * (w * 10) == -(w * 10)) by (nonlinear_arith)
                            requires
                                sign == -1,
                        ;
                    }
                }
            }
            to = to - 1;
        }
        let mut kept: Vec<char> = Vec::new();
        let mut i: usize = from;
        while i < to
            invariant
                from <= i <= to <= n == digits@.len(),
                kept@ == digits@.subrange(from as int, i as int),
            decreases to - i,
        {
            kept.push(digits[i]);
            i = i + 1;
            assert(kept@ =~= digits@.subrange(from as int, i as int));
        }
        assert(all_digits(kept@)) by {
            assert forall|j: int| 0 <= j < kept@.len() implies is_digit(#[trigger] kept@[j]) by {
                assert(is_digit(digits@[from + j]));
            }
        }
        proof {
            if negative {
                assert(sign * v == -v) by (nonlinear_arith)
                    requires
                        sign == -1,
                ;
            } else {
                assert(sign * v == v);
            }
        }
        if kept.len() == 0 {
            assert(digits_value(kept@) == 0);
            assert(sign * 0 == 0);
            return Decimal { negative: false, digits: kept, exponent: 0 };
        }
        proof {
            let w = digits_value(kept@) as int;
            assert(is_digit(kept@[kept@.len() - 1]));
            assert(w % 10 != 0) by {
                let h = digits_value(kept@.drop_last()) as int;
                assert(w == h * 10 + (kept@.last() as int - 48));
            }
            if negative {
                assert(sign * w == -w) by (nonlinear_arith)
                    requires
                        sign == -1,
                ;
                assert((-w) % 10 != 0);
            } else {
                assert(sign * w == w);
            }
        }
        Decimal { negative, digits: kept, exponent: exponent + (n - to) as i128 }
    }

    /// The number that `s` writes: an optional sign, digits with an optional point, and
    /// an optional exponent.
    pub fn parse(s: &str) -> (r: Option<Decimal>)
        ensures
            r.deep_view() == decimal_of(s@),
    {
        let v = chars_of(s);
        let n: usize = v.len();
        let negative = n > 0 && v[0] == '-';
        let from: usize = if n > 0 && (v[0] == '+' || v[0] == '-') {
            1
        } else {
            0
        };
        let ghost body = unsigned(s@);
        assert(body =~= v@.skip(from as int));
        let mut e: usize = from;
        assert(v@.skip(e as int) =~= body);
        while e < n && v[e] != 'e' && v[e] != 'E'
            invariant
                from <= e <= n == v@.len(),
                exponent_mark(body) == (e - from) + exponent_mark(v@.skip(e as int)),
            decreases n - e,
        {
            assert(v@.skip(e as int).drop_first() =~= v@.skip(e + 1));
            e = e + 1;
        }
        let mut exponent: i128 = 0;
        if e < n {
            assert(body.skip(e - from + 1) =~= v@.skip(e + 1));
            match read_exponent(&v, e + 1) {
                Some(x) => {
                    exponent = x;
                },
                None => {
                    return None;
                },
            }
        }
        let ghost mantissa = if e < n { body.take(e - from) } else { body };
        assert(mantissa =~= v@.subrange(from as int, e as int));
        Decimal::read(negative, &v, from, e, exponent)
    }

    /// The number whose mantissa stands in `v` from `from` up to `e`.
    fn read(negative: bool, v: &Vec<char>, from: usize, e: usize, exponent: i128) -> (r: Option<
        Decimal,
    >)
        requires
            from <= e <= v@.len(),
            -MAX_EXPONENT <= exponent <= MAX_EXPONENT,
        ensures
            r.deep_view() == scaled(
                negative,
                v@.subrange(from as int, e as int),
                exponent as int,
            ),
    {
        let n: usize = v.len();
        let ghost mantissa = v@.subrange(from as int, e as int);
        let mut p: usize = from;
        assert(v@.subrange(p as int, e as int) =~= mantissa);
        while p < e && v[p] != '.'
            invariant
                from <= p <= e <= n == v@.len(),
                point_mark(mantissa) == (p - from) + point_mark(v@.subrange(p as int, e as int)),
            decreases e - p,
        {
            assert(v@.subrange(p as int, e as int).drop_first() =~= v@.subrange(p + 1, e as int));
            p = p + 1;
        }
        let ghost whole = mantissa.take(p - from);
        let ghost frac = if p < e { mantissa.skip(p - from + 1) } else { Seq::empty() };
        let mut digits: Vec<char> = Vec::new();
        let mut i: usize = from;
        while i < p
            invariant
                from <= i <= p <= e <= n == v@.len(),
                mantissa == v@.subrange(from as int, e as int),
                digits@ == mantissa.take(i - from),
            decreases p - i,
        {
            digits.push(v[i]);
            i = i + 1;
            assert(digits@ =~= mantissa.take(i - from));
        }
        assert(digits@ =~= whole + frac.take(0));
        let mut count: usize = 0;
        if p < e {
            i = p + 1;
            assert(frac =~= v@.subrange(p + 1, e as int));
            while i < e
                invariant
                    from <= p < i <= e <= n == v@.len(),
                    count == i - p - 1,
                    frac == v@.subrange(p + 1, e as int),
                    digits@ == whole + frac.take(count as int),
                decreases e - i,
            {
                digits.push(v[i]);
                i = i + 1;
                count = count + 1;
                assert(digits@ =~= whole + frac.take(count as int));
            }
        }
        assert(digits@ =~= whole + frac);
        if digits.len() == 0 || !only_digits(&digits) {
            return None;
        }
        Some(Decimal::build(negative, digits, exponent - count as i128))
    }

    /// How the distances from zero compare.
    fn weigh(&self, other: &Decimal) -> (r: Weight)
        requires
            self.wf(),
            other.wf(),
        ensures
            ({
                let m = if self.exponent <= other.exponent { self.exponent } else { other.exponent };
                let x = digits_value(self.digits@) * pow10((self.exponent - m) as nat);
                let y = digits_value(other.digits@) * pow10((other.exponent - m) as nat);
                match r {
                    Weight::Less => x < y,
                    Weight::Same => x == y,
                    Weight::More => x > y,
                }
            }),
    {
        let ghost m = if self.exponent <= other.exponent { self.exponent } else { other.exponent };
        let ghost a = self.digits@ + zeros((self.exponent - m) as nat);
        let ghost b = other.digits@ + zeros((other.exponent - m) as nat);
        proof {
            value_padded(self.digits@, (self.exponent - m) as nat);
            value_padded(other.digits@, (other.exponent - m) as nat);
        }
        if self.digits.len() == 0 {
            proof {
                assert(self.digits@ =~= Seq::empty());
                assert(0 * pow10((self.exponent - m) as nat) == 0);
            }
            if other.digits.len() == 0 {
                proof {
                    assert(other.digits@ =~= Seq::empty());
                }
                return Weight::Same;
            }
            proof {
                value_at_least(b);
                pow10_positive((b.len() - 1) as nat);
            }
            return Weight::Less;
        }
        if other.digits.len() == 0 {
            proof {
                assert(other.digits@ =~= Seq::empty());
                assert(0 * pow10((other.exponent - m) as nat) == 0);
                value_at_least(a);
                pow10_positive((a.len() - 1) as nat);
            }
            return Weight::More;
        }
        let top: i128 = self.digits.len() as i128 + self.exponent;
        let other_top: i128 = other.digits.len() as i128 + other.exponent;
        if top < other_top {
            proof {
                value_below(a);
                value_at_least(b);
                pow10_grows(a.len(), (b.len() - 1) as nat);
            }
            return Weight::Less;
        }
        if other_top < top {
            proof {
                value_below(b);
                value_at_least(a);
                pow10_grows(b.len(), (a.len() - 1) as nat);
            }
            return Weight::More;
        }
        let n: usize = if self.digits.len() >= other.digits.len() {
            self.digits.len()
        } else {
            other.digits.len()
        };
        assert(a.len() == b.len() == n);
        let mut i: usize = 0;
        while i < n
            invariant
                i <= n == a.len() == b.len(),
                n >= self.digits@.len(),
                n >= other.digits@.len(),
                all_digits(a),
                all_digits(b),
                m == if self.exponent <= other.exponent { self.exponent } else { other.exponent },
                a == self.digits@ + zeros((self.exponent - m) as nat),
                b == other.digits@ + zeros((other.exponent - m) as nat),
                a.take(i as int) == b.take(i as int),
                digits_value(a) == digits_value(self.digits@) * pow10((self.exponent - m) as nat),
                digits_value(b) == digits_value(other.digits@) * pow10((other.exponent - m) as nat),
            decreases n - i,
        {
            let x = if i < self.digits.len() {
                self.digits[i]
            } else {
                '0'
            };
            let y = if i < other.digits.len() {
                other.digits[i]
            } else {
                '0'
            };
            assert(a[i as int] == x && b[i as int] == y);
            if x < y {
                proof {
                    value_lexicographic(a, b, i as int);
                }
                return Weight::Less;
            }
            if y < x {
                proof {
                    value_lexicographic(b, a, i as int);
                }
                return Weight::More;
            }
            assert(a.take(i + 1) =~= a.take(i as int).push(x));
            assert(b.take(i + 1) =~= b.take(i as int).push(y));
            i = i + 1;
        }
        assert(a.take(n as int) =~= a);
        assert(b.take(n as int) =~= b);
        Weight::Same
    }

    /// Whether this number is at most `other`.
    pub fn is_at_most(&self, other: &Decimal) -> (r: bool)
        ensures
            r == at_most(self.deep_view(), other.deep_view()),
    {
        proof {
            use_type_invariant(self);
            use_type_invariant(other);
            let m = if self.exponent <= other.exponent { self.exponent } else { other.exponent };
            let p = pow10((self.exponent - m) as nat) as int;
            let q = pow10((other.exponent - m) as nat) as int;
            let x = digits_value(self.digits@) as int;
            let y = digits_value(other.digits@) as int;
            pow10_positive((self.exponent - m) as nat);
            pow10_positive((other.exponent - m) as nat);
            assert((-x) * p == -(x * p)) by (nonlinear_arith);
            assert((-y) * q == -(y * q)) by (nonlinear_arith);
            assert(x * p >= 0) by (nonlinear_arith)
                requires
                    x >= 0,
                    p >= 0,
            ;
            assert(y * q >= 0) by (nonlinear_arith)
                requires
                    y >= 0,
                    q >= 0,
            ;
            if other.negative {
                value_at_least(other.digits@);
                pow10_positive((other.digits@.len() - 1) as nat);
                assert(y * q > 0) by (nonlinear_arith)
                    requires
                        y > 0,
                        q > 0,
                ;
            }
        }
        if self.negative != other.negative {
            return self.negative;
        }
        let weight = self.weigh(other);
        if self.negative {
            match weight {
                Weight::Less => false,
                _ => true,
            }
        } else {
            match weight {
                Weight::More => false,
                _ => true,
            }
        }
    }

    /// The number times ten to the power `shift`, rounded to an integer, halves away
    /// from zero; beyond the range of `i64`, its nearer bound.
    pub fn round_shifted(&self, shift: u8) -> (r: i64)
        ensures
            r == clamped(rounded(self.deep_view().0, self.deep_view().1 + shift)),
    {
        proof {
            use_type_invariant(self);
        }
        let e: i128 = self.exponent + shift as i128;
        let n: usize = self.digits.len();
        let ghost s = self.digits@;
        let ghost value = digits_value(s) as int;
        let ghost p = if e >= 0 { s + zeros(e as nat) } else { s };
        if n == 0 {
            proof {
                assert(s =~= Seq::empty());
                if e >= 0 {
                    assert(0 * pow10(e as nat) == 0);
                } else {
                    pow10_positive((-e) as nat);
                    rounding(0, 0, pow10((-e) as nat) as int);
                    assert(0 * pow10((-e) as nat) == 0);
                }
            }
            return 0;
        }
        let point: i128 = n as i128 + e;
        proof {
            if e >= 0 {
                value_padded(s, e as nat);
            }
        }
        if point < 0 {
            proof {
                let unit = pow10((-e) as nat) as int;
                value_below(s);
                pow10_grows(s.len(), (-e - 1) as nat);
                assert(unit == 10 * pow10((-e - 1) as nat));
                rounding(0, value, unit);
                assert(0 * unit == 0);
            }
            return 0;
        }
        if point > 19 {
            proof {
                pow10_of_19();
                assert(p.len() >= point);
                assert(p[0] == s[0]);
                let head = p.take(point as int);
                assert(all_digits(head)) by {
                    assert forall|j: int| 0 <= j < head.len() implies is_digit(#[trigger] head[j]) by {
                        assert(is_digit(p[j]));
                    }
                }
                value_at_least(head);
                pow10_grows(19, (point - 1) as nat);
                if e >= 0 {
                    assert(head =~= p);
                    assert((-value) * pow10(e as nat) == -(value * pow10(e as nat)))
                        by (nonlinear_arith);
                } else {
                    split_rounding(s, point as int, (-e) as nat);
                }
            }
            return if self.negative {
                i64::MIN
            } else {
                i64::MAX
            };
        }
        let mut hi: i128 = 0;
        let mut i: usize = 0;
        let whole: usize = point as usize;
        proof {
            assert(p.take(0) =~= Seq::empty());
            pow10_of_19();
        }
        while i < whole
            invariant
                i <= whole <= 19,
                s == self.digits@,
                n == s.len(),
                all_digits(p),
                p.len() >= whole,
                p.len() >= n,
                p.take(n as int) == s,
                forall|j: int| n <= j < p.len() ==> p[j] == '0',
                hi == digits_value(p.take(i as int)),
                pow10(19) == 10_000_000_000_000_000_000,
            decreases whole - i,
        {
            let c = if i < n {
                self.digits[i]
            } else {
                '0'
            };
            proof {
                if i < n {
                    assert(p.take(n as int)[i as int] == s[i as int]);
                }
                assert(is_digit(p[i as int]));
                assert(p.take(i + 1).drop_last() =~= p.take(i as int));
                assert(all_digits(p.take(i as int)));
                value_below(p.take(i as int));
                pow10_grows(i as nat, 19);
            }
            hi = hi * 10 + (c as u8 - 48) as i128;
            i = i + 1;
        }
        proof {
            assert(all_digits(p.take(whole as int)));
            value_below(p.take(whole as int));
            pow10_grows(whole as nat, 19);
            if e >= 0 {
                assert(p.take(whole as int) =~= p);
                assert((-value) * pow10(e as nat) == -(value * pow10(e as nat))) by (nonlinear_arith);
            } else {
                split_rounding(s, point as int, (-e) as nat);
            }
        }
        if e < 0 && self.digits[whole] >= '5' {
            hi = hi + 1;
        }
        if self.negative {
            hi = -hi;
        }
        if hi > i64::MAX as i128 {
            i64::MAX
        } else if hi < i64::MIN as i128 {
            i64::MIN
        } else {
            hi as i64
        }
    }

    /// The number in plain decimal notation, with no more digits than it needs.
    pub fn to_text(&self) -> (r: String)
        ensures
            r@ == plain_text(self.deep_view()),
    {
        proof {
            use_type_invariant(self);
        }
        let mut out = String::new();
        let n: usize = self.digits.len();
        if n == 0 {
            out.push('0');
            proof {
                assert(self.digits@ =~= Seq::empty());
                assert(out@ =~= plain_text((0, 0)));
            }
            return out;
        }
        proof {
            text_of_value(self.digits@);
            value_at_least(self.digits@);
            pow10_positive((n - 1) as nat);
        }
        if self.negative {
            out.push('-');
        }
        let ghost sign = out@;
        let ghost s = self.digits@;
        if self.exponent >= 0 {
            push_digits(&mut out, &self.digits, 0, n);
            push_zeros(&mut out, self.exponent);
            assert(s.subrange(0, n as int) =~= s);
            assert(out@ =~= plain_text(self.deep_view()));
            return out;
        }
        let point: i128 = n as i128 + self.exponent;
        if point > 0 {
            let at: usize = point as usize;
            push_digits(&mut out, &self.digits, 0, at);
            out.push('.');
            push_digits(&mut out, &self.digits, at, n);
            assert(s.subrange(0, at as int) =~= s.take(at as int));
            assert(s.subrange(at as int, n as int) =~= s.skip(at as int));
            assert(out@ =~= plain_text(self.deep_view()));
        } else {
            out.push('0');
            out.push('.');
            push_zeros(&mut out, -point);
            push_digits(&mut out, &self.digits, 0, n);
            assert(s.subrange(0, n as int) =~= s);
            assert(out@ =~= plain_text(self.deep_view()));
        }
        out
    }

    /// The whole number `n`.
    pub fn from_i64(n: i64) -> (r: Decimal)
        ensures
            r.deep_view() == canonical(n as int, 0),
    {
        Decimal::from_scaled(n, 0)
    }

    /// Whether the number is whole.
    pub fn is_whole(&self) -> (r: bool)
        ensures
            r == (self.deep_view().1 >= 0),
    {
        self.exponent >= 0
    }

    /// Ten to the power `exponent`.
    pub fn power(exponent: i16) -> (r: Decimal)
        ensures
            r.deep_view() == (1int, exponent as int),
    {
        let mut digits: Vec<char> = Vec::new();
        digits.push('1');
        proof {
            value_of_one(digits@);
        }
        Decimal::build(false, digits, exponent as i128)
    }

    /// Whether the number is below zero.
    pub fn is_negative(&self) -> (r: bool)
        ensures
            r == (self.deep_view().0 < 0),
    {
        proof {
            use_type_invariant(self);
            if self.digits@.len() > 0 {
                value_at_least(self.digits@);
                pow10_positive((self.digits@.len() - 1) as nat);
            }
        }
        self.negative
    }

    /// How far the number is from zero.
    pub fn size(&self) -> (r: Decimal)
        ensures
            r.deep_view() == (magnitude_spec(self.deep_view().0) as int, self.deep_view().1),
    {
        proof {
            use_type_invariant(self);
        }
        let digits = self.digits.clone();
        assert(digits@ =~= self.digits@);
        Decimal { negative: false, digits, exponent: self.exponent }
    }

    /// `n` times ten to the power `exponent`.
    pub fn from_scaled(n: i64, exponent: i8) -> (r: Decimal)
        ensures
            r.deep_view() == canonical(n as int, exponent as int),
    {
        let mut s = String::new();
        push_u64(&mut s, magnitude(n));
        let digits = chars_of(s.as_str());
        proof {
            let m = magnitude_spec(n as int);
            value_of_text(m);
            assert(s@ =~= nat_text(m));
        }
        Decimal::build(n < 0, digits, exponent as i128)
    }
}

impl Clone for Decimal {
    fn clone(&self) -> (r: Self)
        ensures
            r.deep_view() == self.deep_view(),
    {
        proof {
            use_type_invariant(self);
        }
        let digits = self.digits.clone();
        assert(digits@ =~= self.digits@);
        Decimal { negative: self.negative, digits, exponent: self.exponent }
    }
}

/// Appends the characters of `v` from `from` up to `to`.
fn push_digits(out: &mut String, v: &Vec<char>, from: usize, to: usize)
    requires
        from <= to <= v@.len(),
    ensures
        final(out)@ == old(out)@ + v@.subrange(from as int, to as int),
{
    let mut i: usize = from;
    let ghost before = out@;
    assert(out@ =~= before + v@.subrange(from as int, from as int));
    while i < to
        invariant
            from <= i <= to <= v@.len(),
            out@ == before + v@.subrange(from as int, i as int),
        decreases to - i,
    {
        out.push(v[i]);
        i = i + 1;
        assert(out@ =~= before + v@.subrange(from as int, i as int));
    }
}

/// Appends `n` zeros.
fn push_zeros(out: &mut String, n: i128)
    requires
        n >= 0,
    ensures
        final(out)@ == old(out)@ + zeros(n as nat),
{
    let mut i: i128 = 0;
    let ghost before = out@;
    assert(out@ =~= before + zeros(0));
    while i < n
        invariant
            0 <= i <= n,
            out@ == before + zeros(i as nat),
        decreases n - i,
    {
        out.push('0');
        i = i + 1;
        assert(out@ =~= before + zeros(i as nat));
    }
}

pub(crate) proof fn pow10_of_19()
    ensures
        pow10(19) == 10_000_000_000_000_000_000,
{
    reveal_with_fuel(pow10, 20);
}

proof fn rounding(hi: int, lo: int, unit: int)
    requires
        unit > 0,
        0 <= lo < unit,
        0 <= hi,
    ensures
        (2 * (hi * unit + lo) + unit) / (2 * unit) == hi + if 2 * lo >= unit {
            1int
        } else {
            0
        },
{
    let x = 2 * (hi * unit + lo) + unit;
    let d = 2 * unit;
    let (q, r) = if 2 * lo >= unit { (hi + 1, 2 * lo - unit) } else { (hi, 2 * lo + unit) };
    assert(hi * d == 2 * (hi * unit)) by (nonlinear_arith)
        requires
            d == 2 * unit,
    ;
    assert((hi + 1) * d == hi * d + d) by (nonlinear_arith);
    vstd::arithmetic::div_mod::lemma_fundamental_div_mod_converse(x, d, q, r);
}

proof fn split_rounding(s: Seq<char>, point: int, k: nat)
    requires
        all_digits(s),
        k > 0,
        0 <= point,
        point + k == s.len(),
    ensures
        (2 * digits_value(s) as int + pow10(k) as int) / (2 * pow10(k) as int) == digits_value(s.take(point)) + if s[point]
            >= '5' {
            1int
        } else {
            0
        },
{
    let hi = digits_value(s.take(point)) as int;
    let tail = s.skip(point);
    let lo = digits_value(tail) as int;
    let unit = pow10(k) as int;
    value_split(s, point);
    assert(all_digits(tail)) by {
        assert forall|j: int| 0 <= j < tail.len() implies is_digit(#[trigger] tail[j]) by {
            assert(is_digit(s[point + j]));
        }
    }
    value_below(tail);
    value_split(tail, 1);
    value_of_one(tail.take(1));
    let d = (tail[0] as int - 48);
    let small = pow10((k - 1) as nat) as int;
    let rest = tail.skip(1);
    assert(all_digits(rest));
    value_below(rest);
    assert(is_digit(tail[0]));
    assert(tail[0] == s[point]);
    assert(unit == 10 * small);
    if d >= 5 {
        assert(d * small >= 5 * small) by (nonlinear_arith)
            requires
                d >= 5,
                small >= 0,
        ;
    } else {
        assert(d * small <= 4 * small) by (nonlinear_arith)
            requires
                d <= 4,
                small >= 0,
        ;
    }
    rounding(hi, lo, unit);
}

/// The distance of `n` from zero.
pub open spec fn magnitude_spec(n: int) -> nat {
    if n < 0 {
        (-n) as nat
    } else {
        n as nat
    }
}

/// A number is written in digits.
pub proof fn digits_of(n: nat)
    ensures
        all_digits(nat_text(n)),
        nat_text(n).len() > 0,
{
    value_of_text(n);
}

proof fn value_of_text(n: nat)
    ensures
        all_digits(nat_text(n)),
        digits_value(nat_text(n)) == n,
    decreases n,
{
    if n < 10 {
        value_of_one(nat_text(n));
    } else {
        value_of_text(n / 10);
        assert(nat_text(n).drop_last() =~= nat_text(n / 10));
        assert forall|i: int| 0 <= i < nat_text(n).len() implies is_digit(
            #[trigger] nat_text(n)[i],
        ) by {
            if i < nat_text(n / 10).len() {
                assert(nat_text(n / 10)[i] == nat_text(n)[i]);
            }
        }
    }
}

/// Whether every character of `v` is an ASCII digit.
fn only_digits(v: &Vec<char>) -> (r: bool)
    ensures
        r == all_digits(v@),
{
    let mut i: usize = 0;
    while i < v.len()
        invariant
            i <= v@.len(),
            forall|j: int| 0 <= j < i ==> is_digit(#[trigger] v@[j]),
        decreases v@.len() - i,
    {
        if !('0' <= v[i] && v[i] <= '9') {
            assert(!is_digit(v@[i as int]));
            return false;
        }
        i = i + 1;
    }
    true
}

/// The exponent that stands in `v` from `from` on.
fn read_exponent(v: &Vec<char>, from: usize) -> (r: Option<i128>)
    requires
        from <= v@.len(),
    ensures
        match r {
            Some(x) => exponent_of(v@.skip(from as int)) == Some(x as int) && -MAX_EXPONENT <= x
                <= MAX_EXPONENT,
            None => exponent_of(v@.skip(from as int)) is None,
        },
{
    let ghost s = v@.skip(from as int);
    let n: usize = v.len();
    let negative = from < n && v[from] == '-';
    let start: usize = if from < n && (v[from] == '+' || v[from] == '-') {
        from + 1
    } else {
        from
    };
    let ghost d = unsigned(s);
    assert(d =~= v@.skip(start as int));
    if start == n {
        return None;
    }
    let mut x: i128 = 0;
    let mut i: usize = start;
    while i < n
        invariant
            start <= i <= n == v@.len(),
            d == v@.skip(start as int),
            d == unsigned(v@.skip(from as int)),
            all_digits(d.take(i - start)),
            0 <= x <= MAX_EXPONENT,
            x < MAX_EXPONENT ==> x == digits_value(d.take(i - start)),
            x == MAX_EXPONENT ==> digits_value(d.take(i - start)) >= MAX_EXPONENT,
        decreases n - i,
    {
        let c = v[i];
        if !('0' <= c && c <= '9') {
            assert(!is_digit(d[i - start]));
            return None;
        }
        assert(d.take(i - start + 1).drop_last() =~= d.take(i - start));
        assert(all_digits(d.take(i - start + 1))) by {
            assert forall|j: int| 0 <= j < i - start + 1 implies is_digit(
                #[trigger] d.take(i - start + 1)[j],
            ) by {
                if j < i - start {
                    assert(d.take(i - start)[j] == d[j]);
                }
            }
        }
        x = x * 10 + (c as u8 - 48) as i128;
        if x > MAX_EXPONENT {
            x = MAX_EXPONENT;
        }
        i = i + 1;
    }
    assert(d.take(n - start) =~= d);
    assert(d.len() > 0);
    if negative {
        Some(-x)
    } else {
        Some(x)
    }
}

// ---- reading back what was written ----

proof fn shifted_canonical(num: int, k: nat, exp: int)
    requires
        num != 0,
    ensures
        canonical(num * pow10(k), exp) == canonical(num, exp + k),
    decreases k,
{
    if k == 0 {
        assert(num * 1 == num);
    } else {
        let p = pow10((k - 1) as nat);
        pow10_positive((k - 1) as nat);
        assert(num * (10 * p) == (num * p) * 10) by (nonlinear_arith);
        assert((num * p) * 10 != 0) by (nonlinear_arith)
            requires
                num != 0,
                p > 0,
        ;
        shifted_canonical(num, (k - 1) as nat, exp + 1);
    }
}

proof fn no_exponent(s: Seq<char>)
    requires
        forall|i: int| 0 <= i < s.len() ==> #[trigger] s[i] != 'e' && s[i] != 'E',
    ensures
        exponent_mark(s) == s.len(),
    decreases s.len(),
{
    if s.len() > 0 {
        assert(s[0] != 'e');
        no_exponent(s.drop_first());
    }
}

proof fn point_after(whole: Seq<char>, rest: Seq<char>)
    requires
        all_digits(whole),
        rest.len() == 0 || rest[0] == '.',
    ensures
        point_mark(whole + rest) == whole.len(),
    decreases whole.len(),
{
    let s = whole + rest;
    if whole.len() > 0 {
        assert(s[0] == whole[0]);
        assert(is_digit(whole[0]));
        assert(s.drop_first() =~= whole.drop_first() + rest);
        point_after(whole.drop_first(), rest);
    } else {
        assert(s =~= rest);
    }
}

/// Reading digits with an optional point among them.
proof fn reads_mantissa(negative: bool, whole: Seq<char>, point: bool, frac: Seq<char>)
    requires
        all_digits(whole),
        all_digits(frac),
        whole.len() > 0,
        !point ==> frac.len() == 0,
    ensures
        ({
            let body = whole + if point { seq!['.'] + frac } else { Seq::empty() };
            let n = digits_value(whole + frac) as int;
            decimal_of(if negative { seq!['-'] + body } else { body }) == Some(
                canonical(if negative { -n } else { n }, -(frac.len() as int)),
            )
        }),
{
    let rest = if point { seq!['.'] + frac } else { Seq::empty() };
    let body = whole + rest;
    let s = if negative { seq!['-'] + body } else { body };
    assert(is_digit(whole[0]));
    assert(body[0] == whole[0]);
    assert(unsigned(s) =~= body);
    assert forall|i: int| 0 <= i < body.len() implies #[trigger] body[i] != 'e' && body[i]
        != 'E' by {
        if i < whole.len() {
            assert(is_digit(whole[i]));
        } else if i > whole.len() {
            assert(body[i] == frac[i - whole.len() - 1]);
            assert(is_digit(frac[i - whole.len() - 1]));
        }
    }
    no_exponent(body);
    point_after(whole, rest);
    assert(body.take(whole.len() as int) =~= whole);
    let read = if whole.len() < body.len() {
        body.skip(whole.len() + 1int)
    } else {
        Seq::empty()
    };
    assert(read =~= frac);
    let all = whole + frac;
    assert forall|i: int| 0 <= i < all.len() implies is_digit(#[trigger] all[i]) by {
        if i < whole.len() {
            assert(is_digit(whole[i]));
        } else {
            assert(is_digit(frac[i - whole.len()]));
        }
    }
}

/// The digits of a whole number read as that number.
pub(crate) proof fn natural_reads_as_itself(n: nat)
    ensures
        decimal_of(nat_text(n)) == Some(canonical(n as int, 0)),
        !signed(nat_text(n)),
        all_digits(nat_text(n)),
        nat_text(n).len() > 0,
{
    let digits = nat_text(n);
    value_of_text(n);
    digits_of(n);
    assert(is_digit(digits[0]));
    reads_mantissa(false, digits, false, Seq::empty());
    assert(digits + Seq::<char>::empty() =~= digits);
}

proof fn whole_reads_back(d: (int, int))
    requires
        canonical(d.0, d.1) == d,
        d.1 >= 0,
    ensures
        decimal_of(plain_text(d)) == Some(d),
{
    let negative = d.0 < 0;
    let n = (if negative { -d.0 } else { d.0 }) as nat;
    let digits = nat_text(n);
    let whole = digits + zeros(d.1 as nat);
    let t = if negative { seq!['-'] + whole } else { whole };
    let p = pow10(d.1 as nat) as int;
    assert(plain_text(d) == t) by {
        if negative {
            assert(seq!['-'] + digits + zeros(d.1 as nat) =~= t);
        } else {
            assert(Seq::<char>::empty() + digits + zeros(d.1 as nat) =~= t);
        }
    }
    assert(decimal_of(t) == Some(canonical(if negative { -(n * p) } else { n * p }, 0))) by {
        value_of_text(n);
        value_padded(digits, d.1 as nat);
        assert(whole.len() > 0) by {
            digits_of(n);
        }
        reads_mantissa(negative, whole, false, Seq::empty());
        assert(whole + Seq::<char>::empty() =~= whole);
    }
    if d.0 != 0 {
        shifted_canonical(d.0, d.1 as nat, 0);
        assert(d.0 * p == if negative { -(n * p) } else { n * p }) by {
            assert(-(n * p) == (-(n as int)) * p) by (nonlinear_arith);
        }
    } else {
        assert(n * p == 0) by (nonlinear_arith)
            requires
                n == 0,
        ;
    }
}

proof fn pointed_reads_back(d: (int, int))
    requires
        canonical(d.0, d.1) == d,
        d.1 < 0,
        nat_text((if d.0 < 0 { -d.0 } else { d.0 }) as nat).len() + d.1 > 0,
    ensures
        decimal_of(plain_text(d)) == Some(d),
{
    let negative = d.0 < 0;
    let n = (if negative { -d.0 } else { d.0 }) as nat;
    let digits = nat_text(n);
    value_of_text(n);
    let point = digits.len() + d.1;
    let whole = digits.take(point);
    let frac = digits.skip(point);
    assert forall|i: int| 0 <= i < whole.len() implies is_digit(#[trigger] whole[i]) by {
        assert(is_digit(digits[i]));
    }
    assert forall|i: int| 0 <= i < frac.len() implies is_digit(#[trigger] frac[i]) by {
        assert(is_digit(digits[point + i]));
    }
    let body = whole + (seq!['.'] + frac);
    let s = if negative { seq!['-'] + body } else { body };
    assert(plain_text(d) == s) by {
        if negative {
            assert(seq!['-'] + whole + seq!['.'] + frac =~= s);
        } else {
            assert(Seq::<char>::empty() + whole + seq!['.'] + frac =~= s);
        }
    }
    assert(decimal_of(s) == Some(canonical(d.0, d.1))) by {
        reads_mantissa(negative, whole, true, frac);
        assert(whole + frac =~= digits);
        assert(frac.len() == -d.1);
    }
}

proof fn fraction_reads_back(d: (int, int))
    requires
        canonical(d.0, d.1) == d,
        d.1 < 0,
        nat_text((if d.0 < 0 { -d.0 } else { d.0 }) as nat).len() + d.1 <= 0,
    ensures
        decimal_of(plain_text(d)) == Some(d),
{
    let negative = d.0 < 0;
    let n = (if negative { -d.0 } else { d.0 }) as nat;
    let digits = nat_text(n);
    value_of_text(n);
    let point = digits.len() + d.1;
    let whole = seq!['0'];
    let pad = zeros((-point) as nat);
    let frac = pad + digits;
    assert forall|i: int| 0 <= i < frac.len() implies is_digit(#[trigger] frac[i]) by {
        if i >= pad.len() {
            assert(is_digit(digits[i - pad.len()]));
        }
    }
    let body = whole + (seq!['.'] + frac);
    let s = if negative { seq!['-'] + body } else { body };
    assert(plain_text(d) == s) by {
        if negative {
            assert(seq!['-'] + seq!['0', '.'] + pad + digits =~= s);
        } else {
            assert(Seq::<char>::empty() + seq!['0', '.'] + pad + digits =~= s);
        }
    }
    assert(digits_value(whole + frac) == n) by {
        let lead = zeros((-point + 1) as nat);
        assert(whole + frac =~= lead + digits);
        value_split(lead + digits, lead.len() as int);
        assert((lead + digits).take(lead.len() as int) =~= lead);
        assert((lead + digits).skip(lead.len() as int) =~= digits);
        value_of_zeros(lead.len());
        assert(0 * pow10(digits.len()) == 0);
    }
    assert(decimal_of(s) == Some(canonical(d.0, d.1))) by {
        reads_mantissa(negative, whole, true, frac);
        assert(frac.len() == -d.1);
    }
}

/// What is written in plain notation reads back as the same number.
pub proof fn written_number_reads_back(d: (int, int))
    requires
        canonical(d.0, d.1) == d,
    ensures
        decimal_of(plain_text(d)) == Some(d),
{
    if d.1 >= 0 {
        whole_reads_back(d);
    } else if nat_text((if d.0 < 0 { -d.0 } else { d.0 }) as nat).len() + d.1 > 0 {
        pointed_reads_back(d);
    } else {
        fraction_reads_back(d);
    }
}

/// A whole number that fits is written in plain notation as its digits.
pub proof fn whole_number_text(d: (int, int))
    requires
        canonical(d.0, d.1) == d,
        d.1 >= 0,
    ensures
        plain_text(d) == int_text(rounded(d.0, d.1)),
{
    let n = (if d.0 < 0 { -d.0 } else { d.0 }) as nat;
    let k = d.1 as nat;
    let digits = nat_text(n);
    value_of_text(n);
    pow10_positive(k);
    if n == 0 {
        assert(zeros(0) =~= Seq::empty());
        assert(d == (0int, 0int));
        assert(plain_text(d) =~= nat_text(0));
        assert(d.0 * 1 == 0);
    } else {
        first_digit(n);
        value_padded(digits, k);
        text_of_value(digits + zeros(k));
        assert(n * pow10(k) > 0) by (nonlinear_arith)
            requires
                n > 0,
                pow10(k) > 0,
        ;
        if d.0 < 0 {
            assert(d.0 * pow10(k) == -(n * pow10(k))) by (nonlinear_arith)
                requires
                    d.0 == -(n as int),
            ;
            assert(plain_text(d) =~= seq!['-'] + (digits + zeros(k)));
        } else {
            assert(plain_text(d) =~= digits + zeros(k));
        }
    }
}

proof fn first_digit(n: nat)
    requires
        n > 0,
    ensures
        nat_text(n).len() > 0,
        nat_text(n)[0] != '0',
    decreases n,
{
    if n >= 10 {
        first_digit(n / 10);
    }
}

/// Shifting a number does not depend on how it is written.
pub proof fn canonical_keeps_value(num: int, exp: int, shift: int)
    requires
        exp + shift >= 0,
    ensures
        rounded(canonical(num, exp).0, canonical(num, exp).1 + shift) == num * pow10(
            (exp + shift) as nat,
        ) || num == 0,
        num == 0 ==> canonical(num, exp) == (0int, 0int),
        canonical(canonical(num, exp).0, canonical(num, exp).1) == canonical(num, exp),
        num != 0 ==> canonical(num, exp).1 >= exp,
    decreases (if num < 0 { -num } else { num }),
{
    if num != 0 && num % 10 == 0 {
        canonical_keeps_value(num / 10, exp + 1, shift);
        let p = pow10((exp + shift) as nat);
        assert((num / 10) * (10 * p) == num * p) by (nonlinear_arith)
            requires
                num % 10 == 0,
        ;
    }
}

/// Writing a number with the largest exponent keeps its sign.
pub(crate) proof fn canonical_keeps_sign(num: int, exp: int)
    ensures
        num > 0 ==> canonical(num, exp).0 > 0,
        num < 0 ==> canonical(num, exp).0 < 0,
    decreases magnitude_spec(num),
{
    if num != 0 && num % 10 == 0 {
        canonical_keeps_sign(num / 10, exp + 1);
    }
}

/// Writing a number with the largest exponent takes no more digits, and no exponent
/// larger than its digits allow.
pub(crate) proof fn canonical_is_short(num: int, exp: int, k: nat)
    requires
        num != 0,
        magnitude_spec(num) < pow10(k),
    ensures
        canonical(num, exp).0 != 0,
        magnitude_spec(canonical(num, exp).0) <= magnitude_spec(num),
        exp <= canonical(num, exp).1 < exp + k,
    decreases magnitude_spec(num),
{
    if k == 0 {
        assert(pow10(0) == 1);
    } else if num % 10 == 0 {
        canonical_is_short(num / 10, exp + 1, (k - 1) as nat);
    }
}

/// Numbers compare as their multiples of one power of ten do.
pub(crate) proof fn lifted(a: (int, int), b: (int, int), m: int)
    requires
        m <= a.1,
        m <= b.1,
    ensures
        at_most(a, b) <==> a.0 * pow10((a.1 - m) as nat) <= b.0 * pow10((b.1 - m) as nat),
{
    let k = if a.1 <= b.1 { a.1 } else { b.1 };
    let p = pow10((k - m) as nat);
    pow10_positive((k - m) as nat);
    pow10_sum((a.1 - k) as nat, (k - m) as nat);
    pow10_sum((b.1 - k) as nat, (k - m) as nat);
    let x = pow10((a.1 - k) as nat);
    let y = pow10((b.1 - k) as nat);
    assert(a.0 * (x * p) == (a.0 * x) * p) by (nonlinear_arith);
    assert(b.0 * (y * p) == (b.0 * y) * p) by (nonlinear_arith);
    let u = a.0 * x;
    let v = b.0 * y;
    assert(u <= v <==> u * p <= v * p) by (nonlinear_arith)
        requires
            p > 0,
    ;
}

/// The order of numbers is total and transitive.
pub proof fn order_is_total(a: (int, int), b: (int, int), c: (int, int))
    ensures
        at_most(a, b) || at_most(b, a),
        at_most(a, b) && at_most(b, c) ==> at_most(a, c),
{
    let m = if a.1 <= b.1 && a.1 <= c.1 {
        a.1
    } else if b.1 <= c.1 {
        b.1
    } else {
        c.1
    };
    lifted(a, b, m);
    lifted(b, a, m);
    lifted(b, c, m);
    lifted(a, c, m);
}

/// Powers of ten: each is ten times the one before.
pub proof fn powers_of_ten(n: nat)
    ensures
        pow10(0) == 1,
        pow10(n + 1) == 10 * pow10(n),
{
}

/// Numbers of one exponent are ordered as their digits are; a higher exponent counts ten
/// times as much.
pub proof fn order_goes_by_value(a: int, b: int, exp: int)
    ensures
        at_most((a, exp), (b, exp)) <==> a <= b,
        at_most((a, exp), (b, exp + 1)) <==> a <= 10 * b,
        at_most((a, exp + 1), (b, exp)) <==> 10 * a <= b,
{
    assert(pow10(0) == 1);
    assert(pow10(1) == 10 * pow10(0));
    assert((exp - exp) as nat == 0);
    assert((exp + 1 - exp) as nat == 1);
    assert(a * 1 == a && b * 1 == b);
    assert(a * 10 == 10 * a && b * 10 == 10 * b);
}

/// A rounded number is the nearest integer, of two that are as near the one further from
/// zero; a number without decimals is itself.
pub proof fn rounding_is_to_the_nearest(num: int, places: nat)
    requires
        num >= 0,
    ensures
        rounded(num, places as int) == num * pow10(places),
        places > 0 ==> ({
            let unit = pow10(places) as int;
            let r = rounded(num, -(places as int));
            2 * num - unit < 2 * (r * unit) <= 2 * num + unit
        }),
        num > 0 ==> rounded(-num, -(places as int)) == -rounded(num, -(places as int)),
{
    if places > 0 {
        pow10_positive(places);
        let unit = pow10(places) as int;
        assert((-(-(places as int))) as nat == places);
        let x = 2 * num + unit;
        let d = 2 * unit;
        let r = rounded(num, -(places as int));
        assert(r == x / d);
        assert(d * r <= x < d * r + d) by (nonlinear_arith)
            requires
                r == x / d,
                d > 0,
        ;
        assert(d * r == 2 * (r * unit)) by (nonlinear_arith)
            requires
                d == 2 * unit,
        ;
        assert(-(-num) == num);
    } else {
        assert((-num) * pow10(0) == -(num * pow10(0))) by (nonlinear_arith);
    }
}

/// A number beyond the range of 64 bits is its nearer bound, any other itself.
pub proof fn clamping_keeps_what_fits(n: int)
    ensures
        -0x8000_0000_0000_0000 <= n <= 0x7fff_ffff_ffff_ffff ==> clamped(n) == n,
        n > 0x7fff_ffff_ffff_ffff ==> clamped(n) == 0x7fff_ffff_ffff_ffff,
        n < -0x8000_0000_0000_0000 ==> clamped(n) == -0x8000_0000_0000_0000,
{
}

proof fn canonical_negates(num: int, exp: int)
    requires
        num > 0,
    ensures
        canonical(-num, exp) == (-canonical(num, exp).0, canonical(num, exp).1),
    decreases num,
{
    assert((-num) % 10 == 0 <==> num % 10 == 0);
    if num % 10 == 0 {
        assert((-num) / 10 == -(num / 10));
        canonical_negates(num / 10, exp + 1);
    }
}

/// A sign in front of a number without one: a plus changes nothing, a minus the sign.
pub proof fn signs_are_read(s: Seq<char>)
    requires
        !signed(s),
    ensures
        decimal_of(seq!['+'] + s) == decimal_of(s),
        decimal_of(s) is None <==> decimal_of(seq!['-'] + s) is None,
        decimal_of(s) matches Some(d) ==> decimal_of(seq!['-'] + s) == Some((-d.0, d.1)),
{
    let plus = seq!['+'] + s;
    let minus = seq!['-'] + s;
    assert(unsigned(plus) =~= s);
    assert(unsigned(minus) =~= s);
    assert(unsigned(s) == s);
    let e = exponent_mark(s);
    let mantissa = if e < s.len() {
        s.take(e)
    } else {
        s
    };
    let x = if e < s.len() {
        exponent_of(s.skip(e + 1))
    } else {
        Some(0)
    };
    if let Some(x) = x {
        let p = point_mark(mantissa);
        let frac = if p < mantissa.len() {
            mantissa.skip(p + 1)
        } else {
            Seq::empty()
        };
        let n = digits_value(mantissa.take(p) + frac) as int;
        if n > 0 {
            canonical_negates(n, x - frac.len());
        }
    }
}

proof fn no_point(s: Seq<char>)
    requires
        all_digits(s),
    ensures
        point_mark(s) == s.len(),
        exponent_mark(s) == s.len(),
    decreases s.len(),
{
    if s.len() > 0 {
        let rest = s.drop_first();
        assert forall|i: int| 0 <= i < rest.len() implies is_digit(#[trigger] rest[i]) by {
            assert(rest[i] == s[i + 1]);
        }
        assert(is_digit(s[0]));
        no_point(rest);
    }
}

/// Digits alone are the number that they write, and digits with a point behind the first
/// of them count that many places less.
pub proof fn points_count_places(whole: Seq<char>, frac: Seq<char>)
    requires
        all_digits(whole),
        all_digits(frac),
        whole.len() > 0,
    ensures
        decimal_of(whole) == Some(canonical(digits_value(whole) as int, 0)),
        decimal_of(whole + seq!['.'] + frac) == Some(
            canonical(digits_value(whole + frac) as int, -(frac.len() as int)),
        ),
{
    assert(is_digit(whole[0]));
    no_point(whole);
    no_point(frac);
    assert(whole.take(whole.len() as int) =~= whole);
    assert(whole + Seq::<char>::empty() =~= whole);
    let s = whole + seq!['.'] + frac;
    assert(s[0] == whole[0]);
    marks_behind(whole, frac);
    assert(s.take(whole.len() as int) =~= whole);
    assert(s.skip(whole.len() + 1int) =~= frac);
    let all = whole + frac;
    assert forall|i: int| 0 <= i < all.len() implies is_digit(#[trigger] all[i]) by {
        if i < whole.len() {
            assert(all[i] == whole[i]);
        } else {
            assert(all[i] == frac[i - whole.len()]);
        }
    }
    assert(s.take(s.len() as int) =~= s);
}

proof fn marks_behind(whole: Seq<char>, frac: Seq<char>)
    requires
        all_digits(whole),
        all_digits(frac),
    ensures
        point_mark(whole + seq!['.'] + frac) == whole.len(),
        exponent_mark(whole + seq!['.'] + frac) == (whole + seq!['.'] + frac).len(),
    decreases whole.len(),
{
    let s = whole + seq!['.'] + frac;
    if whole.len() == 0 {
        assert(s[0] == '.');
        assert(s.drop_first() =~= frac);
        no_point(frac);
    } else {
        let rest = whole.drop_first();
        assert forall|i: int| 0 <= i < rest.len() implies is_digit(#[trigger] rest[i]) by {
            assert(rest[i] == whole[i + 1]);
        }
        assert(is_digit(whole[0]));
        assert(s[0] == whole[0]);
        marks_behind(rest, frac);
        assert(s.drop_first() =~= rest + seq!['.'] + frac);
    }
}

proof fn canonical_shifts(num: int, exp: int, k: int)
    ensures
        num == 0 <==> canonical(num, exp).0 == 0,
        num != 0 ==> canonical(num, exp + k) == (canonical(num, exp).0, canonical(num, exp).1 + k),
    decreases magnitude_spec(num),
{
    if num != 0 && num % 10 == 0 {
        canonical_shifts(num / 10, exp + 1, k);
        assert(exp + 1 + k == exp + k + 1);
    }
}

proof fn mark_stops(m: Seq<char>, tail: Seq<char>)
    requires
        !m.contains('e'),
        !m.contains('E'),
        tail.len() > 0,
        tail[0] == 'e' || tail[0] == 'E',
    ensures
        exponent_mark(m + tail) == m.len(),
        exponent_mark(m) == m.len(),
    decreases m.len(),
{
    if m.len() == 0 {
        assert(m + tail =~= tail);
    } else {
        let rest = m.drop_first();
        assert(m.contains(m[0]));
        assert(!rest.contains('e')) by {
            if rest.contains('e') {
                let i = choose|i: int| 0 <= i < rest.len() && rest[i] == 'e';
                assert(m[i + 1] == 'e');
            }
        }
        assert(!rest.contains('E')) by {
            if rest.contains('E') {
                let i = choose|i: int| 0 <= i < rest.len() && rest[i] == 'E';
                assert(m[i + 1] == 'E');
            }
        }
        mark_stops(rest, tail);
        assert((m + tail).drop_first() =~= rest + tail);
    }
}

/// An exponent behind a number without one, after an `e` of either case, counts powers of
/// ten, up or, with a minus, down.
pub proof fn exponents_count_powers(m: Seq<char>, x: Seq<char>)
    requires
        !signed(m),
        !m.contains('e'),
        !m.contains('E'),
        x.len() > 0,
        all_digits(x),
        digits_value(x) <= 0x100_0000_0000_0000_0000,
    ensures
        decimal_of(m) is None ==> decimal_of(m + seq!['e'] + x) is None && decimal_of(
            m + seq!['e', '-'] + x,
        ) is None,
        decimal_of(m) matches Some(d) ==> (d.0 == 0 ==> decimal_of(m + seq!['e'] + x) == Some(
            (0int, 0int),
        ) && decimal_of(m + seq!['e', '-'] + x) == Some((0int, 0int))),
        decimal_of(m) matches Some(d) ==> (d.0 != 0 ==> decimal_of(m + seq!['e'] + x) == Some(
            (d.0, d.1 + digits_value(x)),
        ) && decimal_of(m + seq!['e', '-'] + x) == Some((d.0, d.1 - digits_value(x)))),
        decimal_of(m + seq!['E'] + x) == decimal_of(m + seq!['e'] + x),
{
    let up = m + seq!['e'] + x;
    let cap = m + seq!['E'] + x;
    let down = m + seq!['e', '-'] + x;
    assert(up =~= m + (seq!['e'] + x));
    assert(cap =~= m + (seq!['E'] + x));
    assert(down =~= m + (seq!['e', '-'] + x));
    mark_stops(m, seq!['e'] + x);
    mark_stops(m, seq!['E'] + x);
    mark_stops(m, seq!['e', '-'] + x);
    if m.len() > 0 {
        assert(up[0] == m[0] && cap[0] == m[0] && down[0] == m[0]);
    }
    let n = m.len() as int;
    assert(up.take(n) =~= m && cap.take(n) =~= m && down.take(n) =~= m);
    assert(up.skip(n + 1) =~= x && cap.skip(n + 1) =~= x);
    assert(down.skip(n + 1) =~= seq!['-'] + x);
    assert(is_digit(x[0]));
    assert(unsigned(x) == x);
    assert(unsigned(seq!['-'] + x) =~= x);
    let e = digits_value(x) as int;
    let p = point_mark(m);
    let frac = if p < m.len() {
        m.skip(p + 1)
    } else {
        Seq::empty()
    };
    let v = digits_value(m.take(p) + frac) as int;
    canonical_shifts(v, 0 - frac.len(), e);
    canonical_shifts(v, 0 - frac.len(), -e);
    assert(0 - frac.len() + e == e - frac.len());
    assert(0 - frac.len() + (-e) == -e - frac.len());
}

} // verus!
