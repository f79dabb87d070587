//! The generic declarative scraper: one engine that interprets a source's configuration
//! (URL template and CSS selectors).

use vstd::prelude::*;
use crate::config::{SourceConfig, SourceConfigView};
use crate::decimal::digits_of;
use crate::listing::{RawListing, RawListingView};
use crate::scrape::html::{page_rows, select_rows, selector_ok, valid_selector, Row, RowView};
use crate::scrape::{form_encode, form_encoded, merge_queries, queries_with};
use crate::text::{
    chars_of, contains, find_from, first_at, first_at_is_first, is_digit, nat_text, occurs, stands_at,
    text_of, trim, trimmed, u64_text,
};
use crate::time::Timestamp;

verus! {

/// `s` with each occurrence of `from`, searched from the left, replaced by `to`.
pub open spec fn all_replaced(s: Seq<char>, from: Seq<char>, to: Seq<char>) -> Seq<char>
    decreases s.len(),
{
    match first_at(s, from, 0) {
        Some(i) => if from.len() > 0 && 0 <= i && i + from.len() <= s.len() {
            s.take(i) + to + all_replaced(s.skip(i + from.len()), from, to)
        } else {
            s
        },
        None => s,
    }
}

/// `s` with each occurrence of `from`, searched from the left, replaced by `to`.
pub fn replace_all(s: &str, from: &str, to: &str) -> (r: String)
    requires
        from@.len() > 0,
    ensures
        r@ == all_replaced(s@, from@, to@),
{
    let v = chars_of(s);
    let f = chars_of(from);
    let mut out = String::new();
    let mut at: usize = 0;
    assert(v@.skip(0) =~= v@);
    assert(out@ + all_replaced(v@.skip(0), from@, to@) =~= all_replaced(v@, from@, to@));
    loop
        invariant
            at <= v@.len(),
            f@ == from@,
            from@.len() > 0,
            out@ + all_replaced(v@.skip(at as int), from@, to@) == all_replaced(v@, from@, to@),
        ensures
            at <= v@.len(),
            first_at(v@.skip(at as int), from@, 0) is None,
            out@ + all_replaced(v@.skip(at as int), from@, to@) == all_replaced(v@, from@, to@),
        decreases v@.len() - at,
    {
        let found = find_from(&v, &f, at);
        proof {
            first_in_tail(v@, from@, at as int);
        }
        match found {
            Some(i) => {
                let ghost rest = v@.skip(at as int);
                let ghost before = out@;
                out.append(text_of(&v, at, i).as_str());
                out.append(to);
                proof {
                    assert(rest.take(i - at) =~= v@.subrange(at as int, i as int));
                    assert(rest.skip(i - at + from@.len()) =~= v@.skip(i + from@.len()));
                    assert(out@ =~= before + rest.take(i - at) + to@);
                    assert(before + (rest.take(i - at) + to@ + all_replaced(
                        v@.skip(i + from@.len()),
                        from@,
                        to@,
                    )) =~= out@ + all_replaced(v@.skip(i + from@.len()), from@, to@));
                }
                assert(i + f.len() <= v.len());
                at = i + f.len();
            },
            None => {
                break;
            },
        }
    }
    let ghost before = out@;
    out.append(text_of(&v, at, v.len()).as_str());
    assert(v@.subrange(at as int, v@.len() as int) =~= v@.skip(at as int));
    out
}

/// Searching from a position is searching what stands from there on.
pub proof fn first_in_tail(s: Seq<char>, needle: Seq<char>, at: int)
    requires
        0 <= at <= s.len(),
    ensures
        match first_at(s, needle, at) {
            Some(i) => first_at(s.skip(at), needle, 0) == Some(i - at),
            None => first_at(s.skip(at), needle, 0) is None,
        },
{
    let t = s.skip(at);
    first_at_is_first(s, needle, at);
    first_at_is_first(t, needle, 0);
    assert forall|j: int| 0 <= j implies stands_at(t, needle, j) == #[trigger] stands_at(
        s,
        needle,
        at + j,
    ) by {
        if j + needle.len() <= t.len() {
            assert(t.subrange(j, j + needle.len()) =~= s.subrange(at + j, at + j + needle.len()));
        }
    }
    match (first_at(s, needle, at), first_at(t, needle, 0)) {
        (Some(i), Some(j)) => {
            assert(stands_at(s, needle, at + j));
            assert(stands_at(s, needle, at + (i - at)));
            assert(stands_at(t, needle, i - at));
        },
        (Some(i), None) => {
            assert(stands_at(s, needle, at + (i - at)));
            assert(stands_at(t, needle, i - at));
        },
        (None, Some(j)) => {
            assert(stands_at(s, needle, at + j));
        },
        (None, None) => {},
    }
}

/// The URL of one page.
pub open spec fn page_of(url: Seq<char>, page: nat) -> Seq<char> {
    all_replaced(url, "{page}"@, nat_text(page))
}

/// Replacing a text leaves none of it, where what stands in for it shares no character with
/// it.
proof fn nothing_left_to_replace(s: Seq<char>, from: Seq<char>, to: Seq<char>)
    requires
        from.len() > 0,
        to.len() > 0,
        forall|i: int, j: int|
            0 <= i < from.len() && 0 <= j < to.len() ==> #[trigger] from[i] != #[trigger] to[j],
    ensures
        !occurs(all_replaced(s, from, to), from),
        !occurs(s, from) ==> all_replaced(s, from, to) == s,
    decreases s.len(),
{
    let r = all_replaced(s, from, to);
    first_at_is_first(s, from, 0);
    match first_at(s, from, 0) {
        None => {
            assert forall|j: int| !#[trigger] stands_at(s, from, j) by {}
        },
        Some(i) => {
            assert(stands_at(s, from, i));
            let tail = s.skip(i + from.len());
            nothing_left_to_replace(tail, from, to);
            let rest = all_replaced(tail, from, to);
            assert(r == s.take(i) + to + rest);
            assert forall|j: int| !#[trigger] stands_at(r, from, j) by {
                if stands_at(r, from, j) {
                    let window = r.subrange(j, j + from.len());
                    if j + from.len() <= i {
                        assert(s.subrange(j, j + from.len()) =~= window);
                        assert(stands_at(s, from, j));
                    } else if j >= i + to.len() {
                        let k = j - i - to.len();
                        assert(rest.subrange(k, k + from.len()) =~= window);
                        assert(stands_at(rest, from, k));
                    } else {
                        let at = if j <= i { i } else { j };
                        assert(r[at] == to[at - i]);
                        assert(window[at - j] == r[at]);
                        assert(from[at - j] == to[at - i]);
                    }
                }
            }
        },
    }
}

/// The URL of a page keeps no placeholder, and a URL without one is the same on every page.
pub proof fn pages_keep_no_placeholder(url: Seq<char>, page: nat)
    ensures
        !occurs(page_of(url, page), "{page}"@),
        !occurs(url, "{page}"@) ==> page_of(url, page) == url,
{
    reveal_strlit("{page}");
    let digits = nat_text(page);
    digits_of(page);
    let from = "{page}"@;
    assert forall|i: int, j: int| 0 <= i < from.len() && 0 <= j < digits.len() implies #[trigger] from[i]
        != #[trigger] digits[j] by {
        assert(is_digit(digits[j]));
    }
    nothing_left_to_replace(url, from, digits);
}

/// One page of a URL template.
fn page_in(template: &str, page: u32) -> (r: String)
    ensures
        r@ == page_of(template@, page as nat),
{
    proof {
        reveal_strlit("{page}");
    }
    replace_all(template, "{page}", u64_text(page as u64).as_str())
}

/// The URL of one page: `{page}` substituted where it stands.
pub fn page_url(config: &SourceConfig, page: u32) -> (r: String)
    ensures
        r@ == page_of(config.url@, page as nat),
{
    page_in(config.url.as_str(), page)
}

/// What `url::Url::join` makes of a link found on the page at `base`, or the message of
/// the error where either does not parse.
pub uninterp spec fn joined_url(base: Seq<char>, href: Seq<char>) -> Result<Seq<char>, Seq<char>>;

/// What a resolved link holds.
pub open spec fn link_result(r: Result<String, String>) -> Result<Seq<char>, Seq<char>> {
    match r {
        Ok(url) => Ok(url@),
        Err(e) => Err(e@),
    }
}

/// `url::Url::parse` of `base` and its `join`: the URL, or the error's message, depends on
/// the two texts alone.
#[verifier::external_body]
pub(crate) fn join_url(base: &str, href: &str) -> (r: Result<String, String>)
    ensures
        link_result(r) == joined_url(base@, href@),
{
    match url::Url::parse(base).and_then(|base| base.join(href)) {
        Ok(url) => Ok(url.to_string()),
        Err(e) => Err(e.to_string()),
    }
}

/// The link of a listing: that of the link part where there is a link selector, else the
/// item's own.
pub open spec fn row_href(row: RowView, linked: bool) -> Option<Seq<char>> {
    if linked {
        match row.part(2) {
            Some(e) => e.href,
            None => None,
        }
    } else {
        row.own.href
    }
}

/// The listing of one item, where `resolved` is what its link resolves to. None where the
/// title, the price or the link is missing.
pub open spec fn row_listing(
    row: RowView,
    source_id: Seq<char>,
    resolved: Option<Seq<char>>,
    now: Timestamp,
) -> Option<RawListingView> {
    match (row.part(0), row.part(1), resolved) {
        (Some(title), Some(price), Some(url)) => Some(
            RawListingView {
                source_id,
                title: trimmed(title.text),
                price_text: trimmed(price.text),
                url,
                scraped_at: now,
            },
        ),
        _ => None,
    }
}

/// What the link of an item resolves to.
pub open spec fn resolved_href(row: RowView, linked: bool, base: Seq<char>) -> Option<Seq<char>> {
    match row_href(row, linked) {
        Some(href) => match joined_url(base, href) {
            Ok(url) => Some(url),
            Err(_) => None,
        },
        None => None,
    }
}

/// The listings of the items of a page, in order.
pub open spec fn rows_listings(
    rows: Seq<RowView>,
    source_id: Seq<char>,
    linked: bool,
    base: Seq<char>,
    now: Timestamp,
) -> Seq<RawListingView>
    decreases rows.len(),
{
    if rows.len() == 0 {
        Seq::empty()
    } else {
        let before = rows_listings(rows.drop_last(), source_id, linked, base, now);
        match row_listing(rows.last(), source_id, resolved_href(rows.last(), linked, base), now) {
            Some(listing) => before.push(listing),
            None => before,
        }
    }
}

/// The listing of one item, where `resolved` is what its link resolves to.
pub fn listing_from_row(row: &Row, source_id: &str, resolved: Option<String>, now: Timestamp) -> (r:
    Option<RawListing>)
    ensures
        r.deep_view() == row_listing(row.deep_view(), source_id@, resolved.deep_view(), now),
{
    match (row.part(0), row.part(1), resolved) {
        (Some(title), Some(price), Some(url)) => Some(
            RawListing {
                source_id: source_id.to_owned(),
                title: trim(title.text.as_str()),
                price_text: trim(price.text.as_str()),
                url,
                scraped_at: now,
            },
        ),
        _ => None,
    }
}

/// The link of a listing.
fn href_of(row: &Row, linked: bool) -> (r: Option<String>)
    ensures
        r.deep_view() == row_href(row.deep_view(), linked),
{
    if linked {
        match row.part(2) {
            Some(e) => e.href.clone(),
            None => None,
        }
    } else {
        row.own.href.clone()
    }
}

/// Whether the source has a link selector that is accepted.
pub open spec fn has_link_selector(config: SourceConfigView) -> bool {
    config.link_selector matches Some(css) && selector_ok(css)
}

/// The selectors of the parts of an item: title, price and, where there is one, link.
pub open spec fn part_selectors(config: SourceConfigView) -> Seq<Seq<char>> {
    if has_link_selector(config) {
        seq![config.title_selector, config.price_selector, config.link_selector->0]
    } else {
        seq![config.title_selector, config.price_selector]
    }
}

/// The listings of a page. None where the item, title or price selector is not accepted;
/// a link selector that is not accepted counts as none.
pub open spec fn page_listings(
    html: Seq<char>,
    config: SourceConfigView,
    base: Seq<char>,
    now: Timestamp,
) -> Seq<RawListingView> {
    if selector_ok(config.item_selector) && selector_ok(config.title_selector) && selector_ok(
        config.price_selector,
    ) {
        rows_listings(
            page_rows(html, config.item_selector, part_selectors(config)),
            config.id,
            has_link_selector(config),
            base,
            now,
        )
    } else {
        Seq::empty()
    }
}

/// Parses one fetched page into raw listings. Listings that miss a title, a price or a
/// resolvable link are skipped, never fatal.
pub fn parse_listings(html: &str, config: &SourceConfig, base: &str, now: Timestamp) -> (r: Vec<
    RawListing,
>)
    ensures
        r.deep_view() == page_listings(html@, config.deep_view(), base@, now),
{
    let mut out: Vec<RawListing> = Vec::new();
    assert(out.deep_view() =~= Seq::empty());
    if !valid_selector(config.item_selector.as_str()) || !valid_selector(
        config.title_selector.as_str(),
    ) || !valid_selector(config.price_selector.as_str()) {
        return out;
    }
    let mut parts: Vec<String> = Vec::new();
    parts.push(config.title_selector.clone());
    parts.push(config.price_selector.clone());
    assert(parts.deep_view() =~= seq![config.title_selector@, config.price_selector@]);
    let mut linked = false;
    if let Some(css) = &config.link_selector {
        if valid_selector(css.as_str()) {
            parts.push(css.clone());
            linked = true;
            assert(parts.deep_view() =~= seq![
                config.title_selector@,
                config.price_selector@,
                css@,
            ]);
        }
    }
    let rows = select_rows(html, config.item_selector.as_str(), &parts);
    let ghost all = rows.deep_view();
    let mut i: usize = 0;
    while i < rows.len()
        invariant
            i <= rows@.len(),
            all == rows.deep_view(),
            out.deep_view() == rows_listings(
                all.take(i as int),
                config.id@,
                linked,
                base@,
                now,
            ),
        decreases rows@.len() - i,
    {
        let ghost before = out.deep_view();
        assert(all.take(i + 1).drop_last() =~= all.take(i as int));
        assert(all.take(i + 1).last() == rows@[i as int].deep_view());
        let resolved = match href_of(&rows[i], linked) {
            Some(href) => match join_url(base, href.as_str()) {
                Ok(url) => Some(url),
                Err(_) => None,
            },
            None => None,
        };
        if let Some(listing) = listing_from_row(&rows[i], config.id.as_str(), resolved, now) {
            out.push(listing);
            assert(out.deep_view() =~= before.push(listing.deep_view()));
        }
        i = i + 1;
    }
    assert(all.take(all.len() as int) =~= all);
    out
}

/// A declarative source.
#[derive(Debug, PartialEq)]
pub struct GenericSource {
    config: SourceConfig,
}

impl DeepView for GenericSource {
    type V = SourceConfigView;

    closed spec fn deep_view(&self) -> SourceConfigView {
        self.config.deep_view()
    }
}

impl GenericSource {
    /// A source with this configuration.
    pub fn new(config: SourceConfig) -> (r: GenericSource)
        ensures
            r.deep_view() == config.deep_view(),
    {
        GenericSource { config }
    }

    /// The id of this source.
    pub fn id(&self) -> (r: &str)
        ensures
            r@ == self.deep_view().id,
    {
        self.config.id.as_str()
    }

    /// A fetch of the configured queries and the live ones, from its first page on.
    pub fn start(self, extra: &Vec<String>) -> (r: GenericCrawl)
        ensures
            r.deep_view() == (GenericCrawlView {
                config: self.deep_view(),
                targets: targets_of(self.deep_view(), extra.deep_view()),
                next: 0,
                page: 1,
                listings: Seq::empty(),
            }),
    {
        let listings: Vec<RawListing> = Vec::new();
        assert(listings.deep_view() =~= Seq::empty());
        let mut targets: Vec<String> = Vec::new();
        assert(targets.deep_view() =~= Seq::empty());
        if self.config.max_pages > 0 {
            if contains(self.config.url.as_str(), "{query}") {
                let queries = merge_queries(&self.config.queries, extra);
                targets = query_targets(self.config.url.as_str(), &queries);
            } else {
                targets.push(self.config.url.clone());
                assert(targets.deep_view() =~= seq![self.config.url@]);
            }
        }
        GenericCrawl { config: self.config, targets, next: 0, page: 1, listings }
    }
}

/// The URL of each of `queries`: `{query}` substituted, form-encoded.
pub open spec fn queried_urls(url: Seq<char>, queries: Seq<Seq<char>>) -> Seq<Seq<char>> {
    Seq::new(queries.len(), |i: int| all_replaced(url, "{query}"@, form_encoded(queries[i])))
}

/// The URL templates that a fetch goes through: one per query where the URL takes one,
/// else the URL itself; none where no page is allowed.
pub open spec fn targets_of(config: SourceConfigView, extra: Seq<Seq<char>>) -> Seq<Seq<char>> {
    if config.max_pages == 0 {
        Seq::empty()
    } else if occurs(config.url, "{query}"@) {
        queried_urls(config.url, queries_with(config.queries, extra))
    } else {
        seq![config.url]
    }
}

/// The URL of each of `queries`.
fn query_targets(url: &str, queries: &Vec<String>) -> (r: Vec<String>)
    ensures
        r.deep_view() == queried_urls(url@, queries.deep_view()),
{
    let ghost all = queried_urls(url@, queries.deep_view());
    let mut out: Vec<String> = Vec::new();
    let mut i: usize = 0;
    proof {
        reveal_strlit("{query}");
    }
    assert("{query}"@.len() > 0);
    assert(out.deep_view() =~= all.take(0));
    while i < queries.len()
        invariant
            i <= queries@.len(),
            "{query}"@.len() > 0,
            all == queried_urls(url@, queries.deep_view()),
            out.deep_view() == all.take(i as int),
        decreases queries@.len() - i,
    {
        let ghost before = out.deep_view();
        let target = replace_all(url, "{query}", form_encode(queries[i].as_str()).as_str());
        out.push(target);
        assert(queries.deep_view()[i as int] == queries@[i as int]@);
        i = i + 1;
        assert(out.deep_view() =~= before.push(target@));
        assert(out.deep_view() =~= all.take(i as int));
    }
    assert(all.take(all.len() as int) =~= all);
    out
}

/// A fetch of a declarative source under way.
#[derive(Debug, PartialEq)]
pub struct GenericCrawl {
    config: SourceConfig,
    targets: Vec<String>,
    next: usize,
    page: u32,
    listings: Vec<RawListing>,
}

/// What `GenericCrawl` holds.
#[verifier::ext_equal]
pub struct GenericCrawlView {
    pub config: SourceConfigView,
    pub targets: Seq<Seq<char>>,
    /// The place of the target whose page is next.
    pub next: int,
    /// The page that is next.
    pub page: u32,
    pub listings: Seq<RawListingView>,
}

impl DeepView for GenericCrawl {
    type V = GenericCrawlView;

    closed spec fn deep_view(&self) -> GenericCrawlView {
        GenericCrawlView {
            config: self.config.deep_view(),
            targets: self.targets.deep_view(),
            next: self.next as int,
            page: self.page,
            listings: self.listings.deep_view(),
        }
    }
}

impl GenericCrawlView {
    /// The page to fetch next; none where the fetch is complete.
    pub open spec fn url(self) -> Option<Seq<char>> {
        if 0 <= self.next < self.targets.len() {
            Some(page_of(self.targets[self.next], self.page as nat))
        } else {
            None
        }
    }

    /// Whether the page that is next is the last of its target, where it yields `found`
    /// listings: it yields none, it is the last allowed, or the URL takes no page.
    pub open spec fn last_page(self, found: nat) -> bool {
        found == 0 || self.page >= self.config.max_pages || !occurs(
            self.targets[self.next],
            "{page}"@,
        )
    }

    /// The fetch with `found` read from the page that was next.
    pub open spec fn after(self, found: Seq<RawListingView>) -> GenericCrawlView {
        let last = self.last_page(found.len());
        GenericCrawlView {
            next: if last { self.next + 1 } else { self.next },
            page: if last { 1u32 } else { (self.page + 1) as u32 },
            listings: self.listings + found,
            ..self
        }
    }
}

impl GenericCrawl {
    /// The page to fetch next; none where the fetch is complete.
    pub fn next_url(&self) -> (r: Option<String>)
        ensures
            r.deep_view() == self.deep_view().url(),
    {
        if self.next < self.targets.len() {
            assert(self.targets.deep_view()[self.next as int] == self.targets@[self.next as int]@);
            Some(page_in(self.targets[self.next].as_str(), self.page))
        } else {
            None
        }
    }

    /// The fetch with one more page read.
    pub fn accept(self, html: &str, now: Timestamp) -> (r: GenericCrawl)
        requires
            self.deep_view().url() is Some,
        ensures
            r.deep_view() == self.deep_view().after(
                page_listings(html@, self.deep_view().config, self.deep_view().url()->0, now),
            ),
    {
        assert(self.next < self.targets.len());
        assert(self.targets.deep_view()[self.next as int] == self.targets@[self.next as int]@);
        let base = page_in(self.targets[self.next].as_str(), self.page);
        let found = parse_listings(html, &self.config, base.as_str(), now);
        assert(found.deep_view().len() == found@.len());
        let last = found.len() == 0 || self.page >= self.config.max_pages || !contains(
            self.targets[self.next].as_str(),
            "{page}",
        );
        let next: usize = if last {
            self.next + 1
        } else {
            self.next
        };
        let page: u32 = if last {
            1
        } else {
            self.page + 1
        };
        let mut listings = self.listings;
        let mut found = found;
        let ghost a = listings.deep_view();
        let ghost b = found.deep_view();
        listings.append(&mut found);
        assert(listings.deep_view() =~= a + b);
        GenericCrawl { config: self.config, targets: self.targets, next, page, listings }
    }

    /// The listings found.
    pub fn into_listings(self) -> (r: Vec<RawListing>)
        ensures
            r.deep_view() == self.deep_view().listings,
    {
        self.listings
    }
}

/// A page that yields nothing, and a URL that takes no page, end the paging of a target.
pub proof fn paging_ends(crawl: GenericCrawlView, found: Seq<RawListingView>)
    requires
        crawl.url() is Some,
        found.len() == 0 || !occurs(crawl.targets[crawl.next], "{page}"@) || crawl.page
            >= crawl.config.max_pages,
    ensures
        crawl.after(found).next == crawl.next + 1,
        crawl.after(found).page == 1,
{
}

/// A replacement takes the first occurrence, and goes on behind it; a text without any
/// stays as it is.
pub proof fn replacements_go_from_the_left(
    front: Seq<char>,
    from: Seq<char>,
    rest: Seq<char>,
    to: Seq<char>,
)
    requires
        from.len() > 0,
        first_at(front + from + rest, from, 0) == Some(front.len() as int),
    ensures
        all_replaced(front + from + rest, from, to) == front + to + all_replaced(rest, from, to),
        !occurs(front, from) ==> all_replaced(front, from, to) == front,
{
    let s = front + from + rest;
    assert(s.take(front.len() as int) =~= front);
    assert(s.skip((front.len() + from.len()) as int) =~= rest);
    first_at_is_first(front, from, 0);
}

/// A page's URL is its template with the number of the page wherever it asks for it.
pub proof fn pages_are_numbered(url: Seq<char>, page: nat)
    ensures
        page_of(url, page) == all_replaced(url, "{page}"@, nat_text(page)),
{
}

/// An item is listed exactly where it has a title, a price and a link that resolves; the
/// link is that of its link part where a link selector is used, and else its own.
pub proof fn items_need_a_link(
    row: RowView,
    source_id: Seq<char>,
    linked: bool,
    base: Seq<char>,
    now: Timestamp,
)
    ensures
        !linked ==> row_href(row, linked) == row.own.href,
        linked && row.part(2) is None ==> row_href(row, linked) is None,
        linked && row.part(2) is Some ==> row_href(row, linked) == (row.part(2)->0).href,
        row_listing(row, source_id, resolved_href(row, linked, base), now) is Some <==> row.part(0)
            is Some && row.part(1) is Some && row_href(row, linked) is Some && joined_url(
            base,
            row_href(row, linked)->0,
        ) is Ok,
        row_listing(row, source_id, resolved_href(row, linked, base), now) matches Some(l) ==> {
            &&& l.source_id == source_id
            &&& l.title == trimmed((row.part(0)->0).text)
            &&& l.price_text == trimmed((row.part(1)->0).text)
            &&& joined_url(base, row_href(row, linked)->0) == Ok::<Seq<char>, Seq<char>>(l.url)
            &&& l.scraped_at == now
        },
{
}

/// Every item that makes a listing is listed, once each, in order, and nothing else is.
pub proof fn every_item_is_listed(
    source_id: Seq<char>,
    linked: bool,
    base: Seq<char>,
    now: Timestamp,
    rows: Seq<RowView>,
)
    ensures
        rows_listings(rows, source_id, linked, base, now).map_values(
            |l: RawListingView| Some(l),
        ) == rows.map_values(
            |x: RowView| row_listing(x, source_id, resolved_href(x, linked, base), now),
        ).filter(|l: Option<RawListingView>| l is Some),
    decreases rows.len(),
{
    reveal(Seq::filter);
    let f = |x: RowView| row_listing(x, source_id, resolved_href(x, linked, base), now);
    let p = |l: Option<RawListingView>| l is Some;
    let g = |l: RawListingView| Some(l);
    if rows.len() > 0 {
        let rest = rows.drop_last();
        every_item_is_listed(source_id, linked, base, now, rest);
        assert(rows.map_values(f).drop_last() =~= rest.map_values(f));
        assert(rows.map_values(f).last() == f(rows.last()));
        if let Some(l) = f(rows.last()) {
            let before = rows_listings(rest, source_id, linked, base, now);
            assert(before.push(l).map_values(g) =~= before.map_values(g).push(Some(l)));
        }
    }
    let all = rows_listings(rows, source_id, linked, base, now);
    assert(all.map_values(g) =~= rows.map_values(f).filter(p));
}

/// A page is read by the selectors of its source: title, price and, where it is accepted,
/// link. Without accepted selectors for item, title and price nothing is read.
pub proof fn pages_are_read_by_their_selectors(
    html: Seq<char>,
    config: SourceConfigView,
    base: Seq<char>,
    now: Timestamp,
)
    ensures
        selector_ok(config.item_selector) && selector_ok(config.title_selector) && selector_ok(
            config.price_selector,
        ) ==> page_listings(html, config, base, now) == if config.link_selector is Some
            && selector_ok(config.link_selector->0) {
            rows_listings(
                page_rows(
                    html,
                    config.item_selector,
                    seq![config.title_selector, config.price_selector, config.link_selector->0],
                ),
                config.id,
                true,
                base,
                now,
            )
        } else {
            rows_listings(
                page_rows(
                    html,
                    config.item_selector,
                    seq![config.title_selector, config.price_selector],
                ),
                config.id,
                false,
                base,
                now,
            )
        },
        !(selector_ok(config.item_selector) && selector_ok(config.title_selector) && selector_ok(
            config.price_selector,
        )) ==> page_listings(html, config, base, now).len() == 0,
{
}

/// A fetch goes through one URL for each query, configured or live, where the URL takes
/// one; through the URL itself where it takes none; and through nothing where no page is
/// allowed.
pub proof fn every_query_is_fetched(config: SourceConfigView, extra: Seq<Seq<char>>, i: int)
    ensures
        config.max_pages == 0 ==> targets_of(config, extra).len() == 0,
        config.max_pages > 0 && !occurs(config.url, "{query}"@) ==> targets_of(config, extra)
            == seq![config.url],
        config.max_pages > 0 && occurs(config.url, "{query}"@) ==> targets_of(config, extra).len()
            == queries_with(config.queries, extra).len() && (0 <= i < queries_with(
            config.queries,
            extra,
        ).len() ==> targets_of(config, extra)[i] == all_replaced(
            config.url,
            "{query}"@,
            form_encoded(queries_with(config.queries, extra)[i]),
        )),
{
}

/// A fetch goes from page to page of a URL while pages yield listings, are allowed and the
/// URL takes a page, and then on to the first page of the next. It keeps what it has and
/// takes all that the page yields.
pub proof fn pages_follow_while_they_yield(crawl: GenericCrawlView, found: Seq<RawListingView>)
    requires
        crawl.page < u32::MAX,
    ensures
        found.len() > 0 && crawl.page < crawl.config.max_pages && occurs(
            crawl.targets[crawl.next],
            "{page}"@,
        ) ==> crawl.after(found).next == crawl.next && crawl.after(found).page == crawl.page + 1,
        crawl.after(found).listings == crawl.listings + found,
        crawl.after(found).targets == crawl.targets,
        crawl.after(found).config == crawl.config,
        0 <= crawl.next < crawl.targets.len() ==> crawl.url() == Some(
            page_of(crawl.targets[crawl.next], crawl.page as nat),
        ),
        crawl.next >= crawl.targets.len() ==> crawl.url() is None,
{
}

} // verus!
