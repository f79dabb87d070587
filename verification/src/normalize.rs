//! Normalization of raw scraped values: price text → integer cents, listing URL →
//! canonical form, title whitespace cleanup.

use vstd::prelude::*;
use crate::pattern::{captures, group, group_of, regex_captures};
use crate::text::{
    chars_of, contains, digits_value, i64_of_digits, is_digit, is_space, join, joined, occurs,
    parse_digits, same, split_whitespace, stands_at, starts_with, uppercased, word_len, words,
};

verus! {

/// A number with optional thousands separators and an optional decimal part.
pub const PRICE_PATTERN: &'static str =
    "(\\d{1,3}(?:[ \\u{a0}\\u{202f},.]\\d{3})*|\\d+)(?:[.,](\\d{1,2}))?";

/// The currency that a price text names by its symbol or, in `upper`, its code; the euro
/// where it names none.
pub open spec fn currency_in(text: Seq<char>, upper: Seq<char>) -> Seq<char> {
    if occurs(text, "€"@) || occurs(upper, "EUR"@) {
        "EUR"@
    } else if occurs(text, "$"@) || occurs(upper, "USD"@) {
        "USD"@
    } else if occurs(text, "£"@) || occurs(upper, "GBP"@) {
        "GBP"@
    } else {
        "EUR"@
    }
}

/// The ASCII digits of `s`, in order.
pub open spec fn digits_in(s: Seq<char>) -> Seq<char>
    decreases s.len(),
{
    if s.len() == 0 {
        Seq::empty()
    } else if is_digit(s.last()) {
        digits_in(s.drop_last()).push(s.last())
    } else {
        digits_in(s.drop_last())
    }
}

/// Cents that a decimal part stands for: one digit counts tens.
pub open spec fn cents_of(frac: Option<Seq<char>>) -> Option<int> {
    match frac {
        Some(f) => match i64_of_digits(f) {
            Some(n) => Some(if f.len() == 1 { n * 10 } else { n as int }),
            None => None,
        },
        None => Some(0),
    }
}

/// Cents that the captured whole and decimal parts stand for.
pub open spec fn amount_of(caps: Option<Seq<Option<Seq<char>>>>) -> Option<int> {
    match group_of(caps, 1) {
        Some(whole) => match (i64_of_digits(digits_in(whole)), cents_of(group_of(caps, 2))) {
            (Some(w), Some(c)) => Some(w * 100 + c),
            _ => None,
        },
        None => None,
    }
}

/// The currency that a price text names.
pub fn currency_from(text: &str, upper: &str) -> (r: String)
    ensures
        r@ == currency_in(text@, upper@),
{
    if contains(text, "€") || contains(upper, "EUR") {
        "EUR".to_owned()
    } else if contains(text, "$") || contains(upper, "USD") {
        "USD".to_owned()
    } else if contains(text, "£") || contains(upper, "GBP") {
        "GBP".to_owned()
    } else {
        "EUR".to_owned()
    }
}

/// The ASCII digits of `s`, in order.
fn keep_digits(s: &str) -> (r: String)
    ensures
        r@ == digits_in(s@),
{
    let v = chars_of(s);
    let mut out = String::new();
    let mut i: usize = 0;
    assert(v@.take(0) =~= Seq::empty());
    while i < v.len()
        invariant
            i <= v@.len(),
            out@ == digits_in(v@.take(i as int)),
        decreases v@.len() - i,
    {
        assert(v@.take(i + 1).drop_last() =~= v@.take(i as int));
        let c = v[i];
        if '0' <= c && c <= '9' {
            out.push(c);
        }
        i = i + 1;
    }
    assert(v@.take(v@.len() as int) =~= v@);
    out
}

/// What a captured amount comes to.
#[derive(Debug, Clone, Copy, PartialEq, Eq, Structural)]
pub enum Amount {
    /// No amount: a part is missing, or is not written in ASCII digits that fit 64 bits.
    Missing,
    /// More cents than 64 bits hold.
    TooLarge,
    Cents(i64),
}

/// What an amount comes to in 64 bits.
pub open spec fn amount_in_range(amount: Option<int>) -> Amount {
    match amount {
        None => Amount::Missing,
        Some(n) => if n > i64::MAX {
            Amount::TooLarge
        } else {
            Amount::Cents(n as i64)
        },
    }
}

/// What the captured whole and decimal parts come to.
pub fn amount_from(caps: &Option<Vec<Option<String>>>) -> (r: Amount)
    ensures
        r == amount_in_range(amount_of(caps.deep_view())),
{
    let whole = match group(caps, 1) {
        Some(w) => match parse_digits(keep_digits(w.as_str()).as_str()) {
            Some(n) => n,
            None => {
                return Amount::Missing;
            },
        },
        None => {
            return Amount::Missing;
        },
    };
    let cents: i128 = match group(caps, 2) {
        Some(f) => match parse_digits(f.as_str()) {
            Some(n) => {
                if chars_of(f.as_str()).len() == 1 {
                    n as i128 * 10
                } else {
                    n as i128
                }
            },
            None => {
                return Amount::Missing;
            },
        },
        None => 0,
    };
    let total: i128 = whole as i128 * 100 + cents;
    if total > i64::MAX as i128 {
        Amount::TooLarge
    } else {
        Amount::Cents(total as i64)
    }
}

/// The amount that a price text writes.
pub open spec fn amount_in(text: Seq<char>) -> Option<int> {
    amount_of(regex_captures(PRICE_PATTERN@, text))
}

/// The price that a text writes, in cents, and its currency.
pub open spec fn price_in(text: Seq<char>) -> Option<(int, Seq<char>)> {
    match amount_in(text) {
        Some(n) => Some((n, currency_in(text, uppercased(text)))),
        None => None,
    }
}

/// A price as a text gives it.
#[derive(Debug, PartialEq, Eq)]
pub enum PriceReading {
    /// No price is written there.
    Missing,
    /// The price does not fit 64 bits of cents.
    TooLarge,
    /// Cents, and the ISO currency code.
    Price(i64, String),
}

/// Reads a scraped price text, and says where its price does not fit.
pub fn read_price(text: &str) -> (r: PriceReading)
    ensures
        match r {
            PriceReading::Missing => price_in(text@) is None,
            PriceReading::TooLarge => price_in(text@) matches Some(p) && p.0 > i64::MAX,
            PriceReading::Price(cents, currency) => price_in(text@) == Some(
                (cents as int, currency@),
            ),
        },
{
    let caps = captures(PRICE_PATTERN, text);
    match amount_from(&caps) {
        Amount::Missing => PriceReading::Missing,
        Amount::TooLarge => PriceReading::TooLarge,
        Amount::Cents(_) => match parse_price(text) {
            Some((cents, currency)) => PriceReading::Price(cents, currency),
            None => PriceReading::Missing,
        },
    }
}

/// Reads a scraped price text into cents and a currency. Handles EU ("1 234,56 €") and US
/// ("$1,234.56") styles. The currency is inferred from the symbol or code found in the
/// text; it is the euro where there is none.
pub fn parse_price(text: &str) -> (r: Option<(i64, String)>)
    requires
        price_in(text@) matches Some(p) ==> p.0 <= i64::MAX,
    ensures
        match r {
            Some((cents, currency)) => price_in(text@) == Some((cents as int, currency@)),
            None => price_in(text@) is None,
        },
{
    let caps = captures(PRICE_PATTERN, text);
    match amount_from(&caps) {
        Amount::Cents(cents) => {
            let upper = text.to_uppercase();
            Some((cents, currency_from(text, upper.as_str())))
        },
        _ => None,
    }
}

/// What the `url` crate reads from a URL: its scheme, and the decoded pairs of its query,
/// in order. `None` where it does not parse.
pub uninterp spec fn url_read(raw: Seq<char>) -> Option<
    (Seq<char>, Seq<(Seq<char>, Seq<char>)>),
>;

/// What the `url` crate writes for a URL once its fragment and its query are taken away.
/// `None` where it does not parse.
pub uninterp spec fn url_bare(raw: Seq<char>) -> Option<Seq<char>>;

/// What the `url` crate writes for a URL once its fragment is taken away and its query is
/// made of `pairs`. `None` where it does not parse.
pub uninterp spec fn url_queried(raw: Seq<char>, pairs: Seq<(Seq<char>, Seq<char>)>) -> Option<
    Seq<char>,
>;

/// `url::Url::parse`, then `scheme` and `query_pairs`: they depend on the URL alone.
#[verifier::external_body]
pub(crate) fn read_url(raw: &str) -> (r: Option<(String, Vec<(String, String)>)>)
    ensures
        r.deep_view() == url_read(raw@),
{
    let url = url::Url::parse(raw).ok()?;
    let pairs = url.query_pairs().map(|(k, v)| (k.into_owned(), v.into_owned())).collect();
    Some((url.scheme().to_string(), pairs))
}

/// `url::Url::parse`, then `set_fragment(None)` and `set_query(None)`: what they leave
/// depends on the URL alone.
#[verifier::external_body]
fn bare_url(raw: &str) -> (r: Option<String>)
    ensures
        r.deep_view() == url_bare(raw@),
{
    let mut url = url::Url::parse(raw).ok()?;
    url.set_fragment(None);
    url.set_query(None);
    Some(url.to_string())
}

/// `url::Url::parse`, then `set_fragment(None)` and `query_pairs_mut` cleared and extended
/// by `pairs`: what they leave depends on the URL and the pairs alone.
#[verifier::external_body]
fn queried_url(raw: &str, pairs: &Vec<(String, String)>) -> (r: Option<String>)
    ensures
        r.deep_view() == url_queried(raw@, pairs.deep_view()),
{
    let mut url = url::Url::parse(raw).ok()?;
    url.set_fragment(None);
    url.query_pairs_mut().clear().extend_pairs(pairs).finish();
    Some(url.to_string())
}

/// Query parameters that never identify the product.
pub open spec fn is_tracking(name: Seq<char>) -> bool {
    ||| stands_at(name, "utm_"@, 0)
    ||| name == "ref"@
    ||| name == "referrer"@
    ||| name == "aff"@
    ||| name == "affid"@
    ||| name == "tag"@
    ||| name == "fbclid"@
    ||| name == "gclid"@
    ||| name == "mc_cid"@
    ||| name == "mc_eid"@
}

/// Whether a query parameter never identifies the product.
pub fn tracking(name: &str) -> (r: bool)
    ensures
        r == is_tracking(name@),
{
    starts_with(name, "utm_") || same(name, "ref") || same(name, "referrer") || same(name, "aff")
        || same(name, "affid") || same(name, "tag") || same(name, "fbclid") || same(name, "gclid")
        || same(name, "mc_cid") || same(name, "mc_eid")
}

/// The pairs that may identify the product, in order.
pub open spec fn kept_pairs(pairs: Seq<(Seq<char>, Seq<char>)>) -> Seq<(Seq<char>, Seq<char>)>
    decreases pairs.len(),
{
    if pairs.len() == 0 {
        Seq::empty()
    } else if is_tracking(pairs.last().0) {
        kept_pairs(pairs.drop_last())
    } else {
        kept_pairs(pairs.drop_last()).push(pairs.last())
    }
}

/// The pairs that may identify the product, in order.
pub fn strip_tracking(pairs: &Vec<(String, String)>) -> (r: Vec<(String, String)>)
    ensures
        r.deep_view() == kept_pairs(pairs.deep_view()),
{
    let ghost all = pairs.deep_view();
    let mut out: Vec<(String, String)> = Vec::new();
    let mut i: usize = 0;
    assert(out.deep_view() =~= Seq::empty());
    while i < pairs.len()
        invariant
            i <= pairs@.len(),
            all == pairs.deep_view(),
            out.deep_view() == kept_pairs(all.take(i as int)),
        decreases pairs@.len() - i,
    {
        let ghost before = out.deep_view();
        assert(all.take(i + 1).drop_last() =~= all.take(i as int));
        if !tracking(pairs[i].0.as_str()) {
            out.push((pairs[i].0.clone(), pairs[i].1.clone()));
            assert(out.deep_view() =~= before.push(all[i as int]));
        }
        i = i + 1;
    }
    assert(all.take(all.len() as int) =~= all);
    out
}

/// The canonical form of a URL.
pub open spec fn canonical_of(raw: Seq<char>) -> Option<Seq<char>> {
    match url_read(raw) {
        Some((scheme, pairs)) => if scheme == "http"@ || scheme == "https"@ {
            let kept = kept_pairs(pairs);
            if kept.len() == 0 {
                url_bare(raw)
            } else {
                url_queried(raw, kept)
            }
        } else {
            None
        },
        None => None,
    }
}

/// Canonicalizes a listing URL: lowercase host, no fragment, no tracking query
/// parameters, the rest kept.
pub fn canonical_url(raw: &str) -> (r: Option<String>)
    ensures
        r.deep_view() == canonical_of(raw@),
{
    match read_url(raw) {
        Some((scheme, pairs)) => {
            if !same(scheme.as_str(), "http") && !same(scheme.as_str(), "https") {
                return None;
            }
            let kept = strip_tracking(&pairs);
            if kept.len() == 0 {
                bare_url(raw)
            } else {
                queried_url(raw, &kept)
            }
        },
        None => None,
    }
}

/// `title` with every run of white space made one space, and none at the ends.
pub open spec fn cleaned(title: Seq<char>) -> Seq<char> {
    joined(words(title), " "@)
}

/// Collapses all whitespace runs (no-break spaces among them) to single spaces and trims.
pub fn clean_title(title: &str) -> (r: String)
    ensures
        r@ == cleaned(title@),
{
    join(&split_whitespace(title), " ")
}

/// What is kept of a query holds no tracking parameter, and loses no other.
pub proof fn kept_pairs_hold_no_tracking(pairs: Seq<(Seq<char>, Seq<char>)>)
    ensures
        forall|i: int|
            0 <= i < kept_pairs(pairs).len() ==> !is_tracking((#[trigger] kept_pairs(pairs)[i]).0),
        forall|i: int|
            0 <= i < pairs.len() && !is_tracking((#[trigger] pairs[i]).0) ==> kept_pairs(
                pairs,
            ).contains(pairs[i]),
    decreases pairs.len(),
{
    if pairs.len() > 0 {
        let rest = pairs.drop_last();
        kept_pairs_hold_no_tracking(rest);
        let kept = kept_pairs(pairs);
        let before = kept_pairs(rest);
        assert forall|i: int| 0 <= i < pairs.len() && !is_tracking(
            (#[trigger] pairs[i]).0,
        ) implies kept.contains(pairs[i]) by {
            if i < rest.len() {
                assert(rest[i] == pairs[i]);
                assert(before.contains(pairs[i]));
                let k = choose|k: int| 0 <= k < before.len() && before[k] == pairs[i];
                assert(kept[k] == pairs[i]);
            } else {
                assert(kept.last() == pairs.last());
            }
        }
    }
}

/// Stripping tracking parameters twice strips no more than once.
pub proof fn stripping_is_idempotent(pairs: Seq<(Seq<char>, Seq<char>)>)
    ensures
        kept_pairs(kept_pairs(pairs)) == kept_pairs(pairs),
    decreases pairs.len(),
{
    if pairs.len() > 0 {
        stripping_is_idempotent(pairs.drop_last());
        if !is_tracking(pairs.last().0) {
            let kept = kept_pairs(pairs);
            assert(kept.drop_last() =~= kept_pairs(pairs.drop_last()));
        }
    }
}

/// Whether `w` is one unbroken word.
pub open spec fn is_word(w: Seq<char>) -> bool {
    w.len() > 0 && forall|i: int| 0 <= i < w.len() ==> !is_space(#[trigger] w[i])
}

proof fn front_word(s: Seq<char>)
    ensures
        word_len(s) <= s.len(),
        forall|i: int| 0 <= i < word_len(s) ==> !is_space(#[trigger] s[i]),
        word_len(s) < s.len() ==> is_space(s[word_len(s) as int]),
    decreases s.len(),
{
    if s.len() > 0 && !is_space(s[0]) {
        let t = s.drop_first();
        front_word(t);
        assert forall|i: int| 0 <= i < word_len(s) implies !is_space(#[trigger] s[i]) by {
            if i > 0 {
                assert(t[i - 1] == s[i]);
            }
        }
    }
}

proof fn front_word_is(s: Seq<char>, n: int)
    requires
        0 <= n <= s.len(),
        forall|i: int| 0 <= i < n ==> !is_space(#[trigger] s[i]),
        n < s.len() ==> is_space(s[n]),
    ensures
        word_len(s) == n,
    decreases s.len(),
{
    if n > 0 {
        let t = s.drop_first();
        assert forall|i: int| 0 <= i < n - 1 implies !is_space(#[trigger] t[i]) by {
            assert(t[i] == s[i + 1]);
        }
        assert(!is_space(s[0]));
        front_word_is(t, n - 1);
    }
}

proof fn words_are_words(s: Seq<char>)
    ensures
        forall|i: int| 0 <= i < words(s).len() ==> is_word(#[trigger] words(s)[i]),
    decreases s.len(),
{
    if s.len() > 0 {
        if is_space(s[0]) {
            words_are_words(s.drop_first());
            assert(words(s) == words(s.drop_first()));
        } else {
            let n = word_len(s) as int;
            front_word(s);
            assert(n > 0);
            words_are_words(s.skip(n));
            let w = s.take(n);
            assert(is_word(w));
            assert forall|i: int| 0 <= i < words(s).len() implies is_word(#[trigger] words(s)[i]) by {
                if i > 0 {
                    assert(words(s)[i] == words(s.skip(n))[i - 1]);
                } else {
                    assert(words(s)[0] == w);
                }
            }
        }
    }
}

proof fn words_of_parts(a: Seq<char>, b: Seq<char>)
    requires
        b.len() > 0 ==> is_space(b[0]),
    ensures
        words(a + b) == words(a) + words(b),
    decreases a.len(),
{
    let s = a + b;
    if a.len() == 0 {
        assert(s =~= b);
        assert(words(a) + words(b) =~= words(b));
    } else if is_space(a[0]) {
        words_of_parts(a.drop_first(), b);
        assert(s.drop_first() =~= a.drop_first() + b);
    } else {
        let n = word_len(a) as int;
        front_word(a);
        assert(n > 0);
        assert forall|i: int| 0 <= i < n implies !is_space(#[trigger] s[i]) by {
            assert(s[i] == a[i]);
        }
        front_word_is(s, n);
        words_of_parts(a.skip(n), b);
        assert(s.take(n) =~= a.take(n));
        assert(s.skip(n) =~= a.skip(n) + b);
        assert(seq![a.take(n)] + (words(a.skip(n)) + words(b)) =~= (seq![a.take(n)] + words(
            a.skip(n),
        )) + words(b));
    }
}

proof fn words_of_word(w: Seq<char>)
    requires
        is_word(w),
    ensures
        words(w) == seq![w],
{
    front_word_is(w, w.len() as int);
    assert(w.take(w.len() as int) =~= w);
    assert(w.skip(w.len() as int) =~= Seq::empty());
    assert(words(Seq::<char>::empty()) =~= Seq::<Seq<char>>::empty());
    assert(words(w) =~= seq![w]);
}

proof fn words_of_joined(parts: Seq<Seq<char>>)
    requires
        forall|i: int| 0 <= i < parts.len() ==> is_word(#[trigger] parts[i]),
    ensures
        words(joined(parts, " "@)) == parts,
    decreases parts.len(),
{
    reveal_strlit(" ");
    if parts.len() == 0 {
        assert(words(Seq::<char>::empty()) =~= parts);
    } else if parts.len() == 1 {
        words_of_word(parts[0]);
        assert(seq![parts[0]] =~= parts);
    } else {
        let rest = parts.drop_last();
        assert forall|i: int| 0 <= i < rest.len() implies is_word(#[trigger] rest[i]) by {
            assert(rest[i] == parts[i]);
        }
        words_of_joined(rest);
        let w = parts.last();
        assert(is_word(parts[parts.len() - 1]));
        let tail = " "@ + w;
        words_of_word(w);
        assert(tail.drop_first() =~= w);
        assert(words(tail) == words(w));
        words_of_parts(joined(rest, " "@), tail);
        assert(joined(parts, " "@) =~= joined(rest, " "@) + tail);
        assert(rest + seq![w] =~= parts);
    }
}

/// Cleaning a clean title changes nothing.
pub proof fn cleaning_is_idempotent(title: Seq<char>)
    ensures
        cleaned(cleaned(title)) == cleaned(title),
{
    words_are_words(title);
    words_of_joined(words(title));
}

/// Cleaning keeps every word, in order.
pub proof fn cleaning_keeps_words(title: Seq<char>)
    ensures
        words(cleaned(title)) == words(title),
{
    words_are_words(title);
    words_of_joined(words(title));
}

/// White space splits a text into words and belongs to none: what stands on its two sides
/// is split for itself, and a text without white space is one word.
pub proof fn words_split_at_space(a: Seq<char>, c: char, b: Seq<char>)
    requires
        is_space(c),
    ensures
        words(a + seq![c] + b) == words(a) + words(b),
        is_word(a) ==> words(a) == seq![a],
        words(Seq::empty()).len() == 0,
{
    let tail = seq![c] + b;
    assert(a + seq![c] + b =~= a + tail);
    words_of_parts(a, tail);
    assert(tail.drop_first() =~= b);
    if is_word(a) {
        words_of_word(a);
    }
}

/// Words go to a clean title with one space between two of them.
pub proof fn clean_titles_are_single_spaced(title: Seq<char>)
    ensures
        cleaned(title) == joined(words(title), seq![' ']),
{
    reveal_strlit(" ");
    assert(" "@ =~= seq![' ']);
}

/// The currencies: a euro sign or code anywhere makes the price one in euros, then a dollar
/// sign or code one in dollars, then a pound sign or code one in pounds, and a price that
/// names none is in euros.
pub proof fn currencies_are_named(text: Seq<char>, upper: Seq<char>)
    ensures
        text.contains('€') || occurs(upper, "EUR"@) ==> currency_in(text, upper) == "EUR"@,
        currency_in(text, upper) == "USD"@ <==> !text.contains('€') && !occurs(upper, "EUR"@) && (
        text.contains('$') || occurs(upper, "USD"@)),
        currency_in(text, upper) == "GBP"@ <==> !text.contains('€') && !occurs(upper, "EUR"@)
            && !text.contains('$') && !occurs(upper, "USD"@) && (text.contains('£') || occurs(
            upper,
            "GBP"@,
        )),
        currency_in(text, upper) == "EUR"@ || currency_in(text, upper) == "USD"@ || currency_in(
            text,
            upper,
        ) == "GBP"@,
{
    reveal_strlit("€");
    reveal_strlit("$");
    reveal_strlit("£");
    reveal_strlit("EUR");
    reveal_strlit("USD");
    reveal_strlit("GBP");
    assert("EUR"@[0] != "USD"@[0] && "EUR"@[0] != "GBP"@[0] && "USD"@[0] != "GBP"@[0]);
    assert("€"@ =~= seq!['€']);
    assert("$"@ =~= seq!['$']);
    assert("£"@ =~= seq!['£']);
    sign_occurs(text, "€"@, '€');
    sign_occurs(text, "$"@, '$');
    sign_occurs(text, "£"@, '£');
}

proof fn sign_occurs(text: Seq<char>, sign: Seq<char>, c: char)
    requires
        sign == seq![c],
    ensures
        occurs(text, sign) == text.contains(c),
{
    if occurs(text, sign) {
        let i = choose|i: int| stands_at(text, sign, i);
        assert(text.subrange(i, i + 1)[0] == text[i]);
    }
    if text.contains(c) {
        let i = choose|i: int| 0 <= i < text.len() && text[i] == c;
        assert(text.subrange(i, i + 1) =~= sign);
        assert(stands_at(text, sign, i));
    }
}

/// The digits of a text are those of its characters that are digits, in order.
pub proof fn digits_are_kept(s: Seq<char>)
    ensures
        digits_in(s) == s.filter(|c: char| '0' <= c <= '9'),
    decreases s.len(),
{
    reveal(Seq::filter);
    if s.len() > 0 {
        digits_are_kept(s.drop_last());
    }
    assert(digits_in(s) =~= s.filter(|c: char| '0' <= c <= '9'));
}

/// An amount is a hundred times its whole part, whatever separates its digits, and its
/// decimal part: one digit counts tens of cents, two count cents, and none counts nothing.
pub proof fn amounts_count_cents(groups: Seq<Option<Seq<char>>>, whole: Seq<char>)
    requires
        groups.len() == 3,
        groups[1] == Some(whole),
        i64_of_digits(digits_in(whole)) is Some,
    ensures
        match groups[2] {
            None => amount_of(Some(groups)) == Some(100 * digits_value(digits_in(whole)) as int),
            Some(f) => {
                &&& f.len() == 1 && i64_of_digits(f) is Some ==> amount_of(Some(groups)) == Some(
                    100 * digits_value(digits_in(whole)) + 10 * digits_value(f) as int,
                )
                &&& f.len() != 1 && i64_of_digits(f) is Some ==> amount_of(Some(groups)) == Some(
                    100 * digits_value(digits_in(whole)) + digits_value(f) as int,
                )
                &&& i64_of_digits(f) is None ==> amount_of(Some(groups)) is None
            },
        },
{
}

/// No amount is read without a match, without a whole part, or from a whole part without
/// digits that fit.
pub proof fn amounts_need_a_whole_part(caps: Option<Seq<Option<Seq<char>>>>)
    ensures
        caps is None ==> amount_of(caps) is None,
        group_of(caps, 1) is None ==> amount_of(caps) is None,
        group_of(caps, 1) matches Some(w) ==> i64_of_digits(digits_in(w)) is None ==> amount_of(
            caps,
        ) is None,
{
}

/// A price is the amount of the first number in the text, up to three digits and then
/// groups of three or digits alone, with at most two decimals, in the currency that the
/// text names.
pub proof fn prices_are_the_first_number(text: Seq<char>)
    ensures
        price_in(text) == match amount_of(
            regex_captures(
                "(\\d{1,3}(?:[ \\u{a0}\\u{202f},.]\\d{3})*|\\d+)(?:[.,](\\d{1,2}))?"@,
                text,
            ),
        ) {
            Some(n) => Some((n, currency_in(text, uppercased(text)))),
            None => None,
        },
{
}

/// What an amount comes to in 64 bits: what it is, wherever it fits.
pub proof fn amounts_that_fit(amount: Option<int>)
    requires
        amount matches Some(n) ==> n >= 0,
    ensures
        amount is None <==> amount_in_range(amount) == Amount::Missing,
        amount_in_range(amount) == Amount::TooLarge <==> (amount matches Some(n) && n
            > 0x7fff_ffff_ffff_ffff),
        amount_in_range(amount) matches Amount::Cents(n) ==> amount == Some(n as int),
{
}

/// The query parameters that never identify a product: every one that begins with `utm_`,
/// and nine more by name.
pub proof fn tracking_names(name: Seq<char>)
    ensures
        is_tracking(name) <==> "utm_"@.is_prefix_of(name) || seq![
            "ref"@,
            "referrer"@,
            "aff"@,
            "affid"@,
            "tag"@,
            "fbclid"@,
            "gclid"@,
            "mc_cid"@,
            "mc_eid"@,
        ].contains(name),
{
    let names = seq![
        "ref"@,
        "referrer"@,
        "aff"@,
        "affid"@,
        "tag"@,
        "fbclid"@,
        "gclid"@,
        "mc_cid"@,
        "mc_eid"@,
    ];
    if is_tracking(name) && !"utm_"@.is_prefix_of(name) {
        assert(names[0] == name || names[1] == name || names[2] == name || names[3] == name
            || names[4] == name || names[5] == name || names[6] == name || names[7] == name
            || names[8] == name);
    }
}

/// The parameters kept are those that are no tracking ones, in their order.
pub proof fn other_parameters_stay_in_order(
    pairs: Seq<(Seq<char>, Seq<char>)>,
)
    ensures
        kept_pairs(pairs) == pairs.filter(|x: (Seq<char>, Seq<char>)| !is_tracking(x.0)),
    decreases pairs.len(),
{
    reveal(Seq::filter);
    if pairs.len() > 0 {
        other_parameters_stay_in_order(pairs.drop_last());
    }
    assert(kept_pairs(pairs) =~= pairs.filter(|x: (Seq<char>, Seq<char>)| !is_tracking(x.0)));
}

/// Only a URL of the web has a canonical form: without its query where every parameter is
/// a tracking one, and else with the others, in their order.
pub proof fn canonical_urls(raw: Seq<char>)
    ensures
        match url_read(raw) {
            None => canonical_of(raw) is None,
            Some((scheme, pairs)) => {
                let kept = pairs.filter(|x: (Seq<char>, Seq<char>)| !is_tracking(x.0));
                &&& scheme != "http"@ && scheme != "https"@ ==> canonical_of(raw) is None
                &&& scheme == "http"@ || scheme == "https"@ ==> canonical_of(raw) == if kept.len()
                    == 0 {
                    url_bare(raw)
                } else {
                    url_queried(raw, kept)
                }
            },
        },
{
    if let Some((scheme, pairs)) = url_read(raw) {
        other_parameters_stay_in_order(pairs);
    }
}

} // verus!
