//! Deal sources: which pages to fetch, and what the listings on them are. Two styles:
//! the generic declarative engine (config-driven, static HTML) and hand-written sources.

pub mod ebay;
pub mod generic;
pub mod html;
pub mod leboncoin;
pub mod shopify;

use vstd::prelude::*;
use vstd::utf8::encode_utf8;
use crate::listing::{RawListing, RawListingView};
use crate::pipeline::holds_text;
use crate::text::{hex_digit, same};

verus! {

/// The bytes that stand for themselves in a query: ASCII letters and digits, `*`, `-`, `.`
/// and `_`.
pub open spec fn stands_for_itself(b: u8) -> bool {
    ||| 0x30 <= b <= 0x39
    ||| 0x41 <= b <= 0x5a
    ||| 0x61 <= b <= 0x7a
    ||| b == 0x2a
    ||| b == 0x2d
    ||| b == 0x2e
    ||| b == 0x5f
}

/// What a byte is written as in a query: itself, `+` for a space, and else `%` and its two
/// hexadecimal digits.
pub open spec fn byte_encoded(b: u8) -> Seq<char> {
    if stands_for_itself(b) {
        seq![b as char]
    } else if b == 0x20 {
        seq!['+']
    } else {
        seq!['%', hex_digit((b / 16) as nat, 'A'), hex_digit((b % 16) as nat, 'A')]
    }
}

/// What bytes are written as in a query.
pub open spec fn bytes_encoded(bytes: Seq<u8>) -> Seq<char>
    decreases bytes.len(),
{
    if bytes.len() == 0 {
        Seq::empty()
    } else {
        bytes_encoded(bytes.drop_last()) + byte_encoded(bytes.last())
    }
}

/// What a text is written as in a query.
pub open spec fn form_encoded(s: Seq<char>) -> Seq<char> {
    bytes_encoded(encode_utf8(s))
}

/// The characters that an encoded text is made of.
pub open spec fn plain_in_queries(c: char) -> bool {
    c == '+' || c == '%' || ((c as int) < 128 && stands_for_itself(c as u8))
}

proof fn encoded_bytes_are_plain(bytes: Seq<u8>)
    ensures
        forall|i: int|
            0 <= i < bytes_encoded(bytes).len() ==> plain_in_queries(
                #[trigger] bytes_encoded(bytes)[i],
            ),
    decreases bytes.len(),
{
    if bytes.len() > 0 {
        encoded_bytes_are_plain(bytes.drop_last());
        let before = bytes_encoded(bytes.drop_last());
        let last = byte_encoded(bytes.last());
        let all = bytes_encoded(bytes);
        assert forall|i: int| 0 <= i < all.len() implies plain_in_queries(#[trigger] all[i]) by {
            if i < before.len() {
                assert(all[i] == before[i]);
            } else {
                assert(all[i] == last[i - before.len()]);
            }
        }
    }
}

/// An encoded text stays within its parameter: it is made of letters, digits, `*`, `-`,
/// `.`, `_`, `+` and `%` alone.
pub proof fn encoded_text_is_plain(s: Seq<char>)
    ensures
        forall|i: int|
            0 <= i < form_encoded(s).len() ==> plain_in_queries(#[trigger] form_encoded(s)[i]),
{
    encoded_bytes_are_plain(encode_utf8(s));
}

/// `url::form_urlencoded::byte_serialize` over the UTF-8 bytes of `s`, its pieces joined:
/// ASCII letters and digits, `*`, `-`, `.` and `_` stay, a space becomes `+`, and every
/// other byte `%` and two capital hexadecimal digits.
#[verifier::external_body]
pub(crate) fn form_encode(s: &str) -> (r: String)
    ensures
        r@ == form_encoded(s@),
{
    url::form_urlencoded::byte_serialize(s.as_bytes()).collect()
}

/// Whether a listing of `all` has `url`.
pub open spec fn has_url(all: Seq<RawListingView>, url: Seq<char>) -> bool {
    exists|i: int| 0 <= i < all.len() && (#[trigger] all[i]).url == url
}

/// `all` with those of `more` whose URL is not there yet, in order.
pub open spec fn with_new(all: Seq<RawListingView>, more: Seq<RawListingView>) -> Seq<
    RawListingView,
>
    decreases more.len(),
{
    if more.len() == 0 {
        all
    } else {
        let before = with_new(all, more.drop_last());
        if has_url(before, more.last().url) {
            before
        } else {
            before.push(more.last())
        }
    }
}

/// Whether a listing of `all` has `url`.
pub fn contains_url(all: &Vec<RawListing>, url: &str) -> (r: bool)
    ensures
        r == has_url(all.deep_view(), url@),
{
    let mut i: usize = 0;
    while i < all.len()
        invariant
            i <= all@.len(),
            forall|j: int| 0 <= j < i ==> (#[trigger] all.deep_view()[j]).url != url@,
        decreases all@.len() - i,
    {
        if same(all[i].url.as_str(), url) {
            assert(all.deep_view()[i as int].url == url@);
            return true;
        }
        i = i + 1;
    }
    false
}

/// `all` with those of `more` whose URL is not there yet, in order.
pub fn add_new(all: Vec<RawListing>, more: &Vec<RawListing>) -> (r: Vec<RawListing>)
    ensures
        r.deep_view() == with_new(all.deep_view(), more.deep_view()),
{
    let ghost start = all.deep_view();
    let ghost added = more.deep_view();
    let mut out = all;
    let mut i: usize = 0;
    while i < more.len()
        invariant
            i <= more@.len(),
            added == more.deep_view(),
            out.deep_view() == with_new(start, added.take(i as int)),
        decreases more@.len() - i,
    {
        let ghost before = out.deep_view();
        assert(added.take(i + 1).drop_last() =~= added.take(i as int));
        assert(added.take(i + 1).last() == more@[i as int].deep_view());
        if !contains_url(&out, more[i].url.as_str()) {
            out.push(more[i].clone());
            assert(out.deep_view() =~= before.push(added[i as int]));
        }
        i = i + 1;
    }
    assert(added.take(added.len() as int) =~= added);
    out
}

/// `queries` with those of `extra` that are not among them yet, in order.
pub open spec fn queries_with(queries: Seq<Seq<char>>, extra: Seq<Seq<char>>) -> Seq<Seq<char>>
    decreases extra.len(),
{
    if extra.len() == 0 {
        queries
    } else {
        let before = queries_with(queries, extra.drop_last());
        if before.contains(extra.last()) {
            before
        } else {
            before.push(extra.last())
        }
    }
}

/// The configured queries and the live queries of the watches, each once where it was not
/// configured twice.
pub fn merge_queries(queries: &Vec<String>, extra: &Vec<String>) -> (r: Vec<String>)
    ensures
        r.deep_view() == queries_with(queries.deep_view(), extra.deep_view()),
{
    let ghost added = extra.deep_view();
    let mut out = queries.clone();
    assert(out.deep_view() =~= queries.deep_view());
    let mut i: usize = 0;
    while i < extra.len()
        invariant
            i <= extra@.len(),
            added == extra.deep_view(),
            out.deep_view() == queries_with(queries.deep_view(), added.take(i as int)),
        decreases extra@.len() - i,
    {
        let ghost before = out.deep_view();
        assert(added.take(i + 1).drop_last() =~= added.take(i as int));
        assert(added.take(i + 1).last() == extra@[i as int]@);
        if !holds_text(&out, extra[i].as_str()) {
            out.push(extra[i].clone());
            assert(out.deep_view() =~= before.push(added[i as int]));
        }
        i = i + 1;
    }
    assert(added.take(added.len() as int) =~= added);
    out
}

/// No URL stands twice among listings gathered page by page.
pub proof fn gathered_urls_differ(all: Seq<RawListingView>, more: Seq<RawListingView>)
    requires
        forall|i: int, j: int|
            0 <= i < j < all.len() ==> (#[trigger] all[i]).url != (#[trigger] all[j]).url,
    ensures
        forall|i: int, j: int|
            0 <= i < j < with_new(all, more).len() ==> (#[trigger] with_new(all, more)[i]).url != (
            #[trigger] with_new(all, more)[j]).url,
    decreases more.len(),
{
    if more.len() > 0 {
        gathered_urls_differ(all, more.drop_last());
        let before = with_new(all, more.drop_last());
        let after = with_new(all, more);
        assert forall|i: int, j: int| 0 <= i < j < after.len() implies (#[trigger] after[i]).url != (
        #[trigger] after[j]).url by {
            assert(after[i] == before[i]);
            if j < before.len() {
                assert(after[j] == before[j]);
            }
        }
    }
}

/// Merging queries keeps the configured ones in front and loses none of the live ones.
pub proof fn merged_queries_lose_none(queries: Seq<Seq<char>>, extra: Seq<Seq<char>>)
    ensures
        queries_with(queries, extra).len() >= queries.len(),
        queries_with(queries, extra).take(queries.len() as int) == queries,
        forall|i: int|
            0 <= i < extra.len() ==> queries_with(queries, extra).contains(#[trigger] extra[i]),
    decreases extra.len(),
{
    if extra.len() > 0 {
        let rest = extra.drop_last();
        merged_queries_lose_none(queries, rest);
        let before = queries_with(queries, rest);
        let all = queries_with(queries, extra);
        assert(all.take(queries.len() as int) =~= before.take(queries.len() as int));
        assert forall|i: int| 0 <= i < extra.len() implies all.contains(#[trigger] extra[i]) by {
            if i < rest.len() {
                assert(rest[i] == extra[i]);
                let k = choose|k: int| 0 <= k < before.len() && before[k] == rest[i];
                assert(all[k] == extra[i]);
            } else if !before.contains(extra.last()) {
                assert(all[all.len() - 1] == extra[i]);
            }
        }
    } else {
        assert(queries.take(queries.len() as int) =~= queries);
    }
}

/// How each byte is written in a query.
pub proof fn bytes_are_written(b: u8)
    ensures
        ('0' as u8) <= b <= ('9' as u8) || ('A' as u8) <= b <= ('Z' as u8) || ('a' as u8) <= b <= (
        'z' as u8) || b == '*' as u8 || b == '-' as u8 || b == '.' as u8 || b == '_' as u8
            ==> byte_encoded(b) == seq![b as char],
        b == ' ' as u8 ==> byte_encoded(b) == seq!['+'],
        !(('0' as u8) <= b <= ('9' as u8) || ('A' as u8) <= b <= ('Z' as u8) || ('a' as u8) <= b
            <= ('z' as u8) || b == '*' as u8 || b == '-' as u8 || b == '.' as u8 || b == '_' as u8
            || b == ' ' as u8) ==> byte_encoded(b) == seq![
            '%',
            "0123456789ABCDEF"@[b as int / 16],
            "0123456789ABCDEF"@[b as int % 16],
        ],
{
    reveal_strlit("0123456789ABCDEF");
    assert forall|n: nat| n < 16 implies #[trigger] hex_digit(n, 'A') == "0123456789ABCDEF"@[n as int] by {
        assert(n == 0 || n == 1 || n == 2 || n == 3 || n == 4 || n == 5 || n == 6 || n == 7 || n
            == 8 || n == 9 || n == 10 || n == 11 || n == 12 || n == 13 || n == 14 || n == 15);
    }
    assert(hex_digit((b / 16) as nat, 'A') == "0123456789ABCDEF"@[b as int / 16]);
    assert(hex_digit((b % 16) as nat, 'A') == "0123456789ABCDEF"@[b as int % 16]);
}

/// The bytes of a query are written one after the other.
pub proof fn bytes_are_written_in_order(a: Seq<u8>, b: Seq<u8>)
    ensures
        bytes_encoded(a + b) == bytes_encoded(a) + bytes_encoded(b),
        a.len() == 1 ==> bytes_encoded(a) == byte_encoded(a[0]),
        a.len() == 0 ==> bytes_encoded(a).len() == 0,
    decreases b.len(),
{
    if b.len() == 0 {
        assert(a + b =~= a);
    } else {
        bytes_are_written_in_order(a, b.drop_last());
        assert((a + b).drop_last() =~= a + b.drop_last());
    }
    assert(bytes_encoded(a + b) =~= bytes_encoded(a) + bytes_encoded(b));
    if a.len() == 1 {
        assert(bytes_encoded(a.drop_last()) =~= Seq::empty());
        assert(bytes_encoded(a) =~= byte_encoded(a[0]));
    }
}

/// Listings join those there one by one, each exactly where none has its URL.
pub proof fn new_listings_join_in_order(
    all: Seq<RawListingView>,
    a: Seq<RawListingView>,
    b: Seq<RawListingView>,
)
    ensures
        with_new(all, a + b) == with_new(with_new(all, a), b),
        a.len() == 0 ==> with_new(all, a) == all,
        a.len() == 1 ==> with_new(all, a) == if exists|i: int|
            0 <= i < all.len() && (#[trigger] all[i]).url == a[0].url {
            all
        } else {
            all.push(a[0])
        },
    decreases b.len(),
{
    if b.len() == 0 {
        assert(a + b =~= a);
    } else {
        new_listings_join_in_order(all, a, b.drop_last());
        assert((a + b).drop_last() =~= a + b.drop_last());
    }
    if a.len() == 1 {
        assert(with_new(all, a.drop_last()) == all);
    }
}

/// Queries join those there one by one, each exactly where it is not among them.
pub proof fn new_queries_join_in_order(
    queries: Seq<Seq<char>>,
    a: Seq<Seq<char>>,
    b: Seq<Seq<char>>,
)
    ensures
        queries_with(queries, a + b) == queries_with(queries_with(queries, a), b),
        a.len() == 0 ==> queries_with(queries, a) == queries,
        a.len() == 1 ==> queries_with(queries, a) == if queries.contains(a[0]) {
            queries
        } else {
            queries.push(a[0])
        },
    decreases b.len(),
{
    if b.len() == 0 {
        assert(a + b =~= a);
    } else {
        new_queries_join_in_order(queries, a, b.drop_last());
        assert((a + b).drop_last() =~= a + b.drop_last());
    }
    if a.len() == 1 {
        assert(queries_with(queries, a.drop_last()) == queries);
    }
}

} // verus!
