//! Leboncoin (France): search pages embed the full result set as JSON in a script tag,
//! which is parsed in place of the HTML. A search without results has no `ads` key.

use vstd::prelude::*;
use crate::config::{LeboncoinConfig, LeboncoinConfigView};
use crate::decimal::{clamped, rounded};
use crate::json::{json_read, parse_json, text_at, Json, JsonView};
use crate::listing::{RawListing, RawListingView};
use crate::money::{cents_text, money_text};
use crate::scrape::{add_new, form_encode, form_encoded, merge_queries, queries_with, with_new};
use crate::text::{chars_of, find_from, first_at, nat_text, same, text_of, u64_text};
use crate::time::Timestamp;

verus! {

/// The id of this source.
pub const SOURCE_ID: &'static str = "leboncoin";

/// How many ads a full page holds: a shorter one is the last.
pub const PAGE_SIZE: usize = 35;

/// The search page of a query.
pub open spec fn search_page(query: Seq<char>, page: nat) -> Seq<char> {
    let first = "https://www.leboncoin.fr/recherche?text="@ + form_encoded(query);
    if page <= 1 {
        first
    } else {
        first + "&page="@ + nat_text(page)
    }
}

/// The search page of a query.
pub fn search_url(query: &str, page: u32) -> (r: String)
    ensures
        r@ == search_page(query@, page as nat),
{
    let mut out = "https://www.leboncoin.fr/recherche?text=".to_owned();
    out.append(form_encode(query).as_str());
    if page > 1 {
        out.append("&page=");
        out.append(u64_text(page as u64).as_str());
    }
    out
}

/// The browser-like identity that requests carry.
pub const USER_AGENT: &'static str =
    "Mozilla/5.0 (Windows NT 10.0; Win64; x64) AppleWebKit/537.36 (KHTML, like Gecko) Chrome/126.0.0.0 Safari/537.36";

/// The language that requests ask for.
pub const ACCEPT_LANGUAGE: &'static str = "fr-FR,fr;q=0.9";

/// The content types that requests ask for.
pub const ACCEPT: &'static str =
    "text/html,application/xhtml+xml,application/json;q=0.9,*/*;q=0.8";

/// The arguments of the curl call that fetches a page.
pub open spec fn curl_argv(url: Seq<char>) -> Seq<Seq<char>> {
    seq![
        "-sL"@,
        "--fail"@,
        "-m"@,
        "30"@,
        "--compressed"@,
        "-H"@,
        "User-Agent: "@ + USER_AGENT@,
        "-H"@,
        "Accept-Language: "@ + ACCEPT_LANGUAGE@,
        "-H"@,
        "Accept: "@ + ACCEPT@,
        url,
    ]
}

/// A header as curl takes it.
fn header(name: &str, value: &str) -> (r: String)
    ensures
        r@ == name@ + value@,
{
    let mut out = name.to_owned();
    out.append(value);
    out
}

/// The arguments of the curl call that fetches a page when the plain client is blocked by
/// its fingerprint.
pub fn curl_args(url: &str) -> (r: Vec<String>)
    ensures
        r.deep_view() == curl_argv(url@),
{
    let mut out: Vec<String> = Vec::new();
    out.push("-sL".to_owned());
    out.push("--fail".to_owned());
    out.push("-m".to_owned());
    out.push("30".to_owned());
    out.push("--compressed".to_owned());
    out.push("-H".to_owned());
    out.push(header("User-Agent: ", USER_AGENT));
    out.push("-H".to_owned());
    out.push(header("Accept-Language: ", ACCEPT_LANGUAGE));
    out.push("-H".to_owned());
    out.push(header("Accept: ", ACCEPT));
    out.push(url.to_owned());
    assert(out.deep_view() =~= curl_argv(url@));
    out
}

/// Whether an answer (403 or 429) is a fingerprint block that curl passes.
pub fn fingerprint_blocked(status: u16) -> (r: bool)
    ensures
        r == (status == 403 || status == 429),
{
    status == 403 || status == 429
}

/// The JSON that a search page embeds, or what is wrong with the page.
pub open spec fn embedded_data(html: Seq<char>) -> Result<Seq<char>, Seq<char>> {
    match first_at(html, "<script id=\"__NEXT_DATA__\""@, 0) {
        None => Err("__NEXT_DATA__ not found (blocked page or new layout)"@),
        Some(start) => match first_at(html, ">"@, start) {
            None => Err("malformed __NEXT_DATA__ tag"@),
            Some(close) => match first_at(html, "</script>"@, close + 1) {
                None => Err("unterminated __NEXT_DATA__ tag"@),
                Some(end) => Ok(html.subrange(close + 1, end)),
            },
        },
    }
}

/// The JSON that a search page embeds, or what is wrong with the page.
pub fn next_data(html: &str) -> (r: Result<String, String>)
    ensures
        match (r, embedded_data(html@)) {
            (Ok(data), Ok(d)) => data@ == d,
            (Err(e), Err(m)) => e@ == m,
            _ => false,
        },
{
    let v = chars_of(html);
    let tag = chars_of("<script id=\"__NEXT_DATA__\"");
    let angle = chars_of(">");
    let end_tag = chars_of("</script>");
    let start: usize = match find_from(&v, &tag, 0) {
        Some(i) => i,
        None => {
            return Err("__NEXT_DATA__ not found (blocked page or new layout)".to_owned());
        },
    };
    let close: usize = match find_from(&v, &angle, start) {
        Some(i) => i,
        None => {
            return Err("malformed __NEXT_DATA__ tag".to_owned());
        },
    };
    proof {
        reveal_strlit(">");
    }
    assert(close + 1 <= v.len());
    match find_from(&v, &end_tag, close + 1) {
        Some(end) => Ok(text_of(&v, close + 1, end)),
        None => Err("unterminated __NEXT_DATA__ tag".to_owned()),
    }
}

/// The price of an ad in cents: its cents where it has them, else the first of its euros.
pub open spec fn ad_cents(ad: JsonView) -> Option<i64> {
    match ad.field("price_cents"@).integer() {
        Some(cents) => Some(cents),
        None => match ad.field("price"@).item(0).number() {
            Some(euros) => Some(clamped(rounded(euros.0, euros.1 + 2))),
            None => None,
        },
    }
}

/// The listing of one ad; none where it is not active or lacks a title, a URL or a price.
pub open spec fn ad_listing(ad: JsonView, now: Timestamp) -> Option<RawListingView> {
    let inactive = ad.field("status"@).text() matches Some(status) && status != "active"@;
    match (ad.field("subject"@).text(), ad.field("url"@).text(), ad_cents(ad)) {
        (Some(title), Some(url), Some(cents)) => if inactive {
            None
        } else {
            Some(
                RawListingView {
                    source_id: SOURCE_ID@,
                    title,
                    price_text: money_text(cents as int) + " €"@,
                    url,
                    scraped_at: now,
                },
            )
        },
        _ => None,
    }
}

/// The listings of ads, in order.
pub open spec fn ads_listings(ads: Seq<JsonView>, now: Timestamp) -> Seq<RawListingView>
    decreases ads.len(),
{
    if ads.len() == 0 {
        Seq::empty()
    } else {
        let before = ads_listings(ads.drop_last(), now);
        match ad_listing(ads.last(), now) {
            Some(listing) => before.push(listing),
            None => before,
        }
    }
}

/// The listings in the data of a search page: none where it has no list of ads.
pub open spec fn data_listings(data: JsonView, now: Timestamp) -> Seq<RawListingView> {
    match data.field("props"@).field("pageProps"@).field("searchData"@).field("ads"@).items() {
        Some(ads) => ads_listings(ads, now),
        None => Seq::empty(),
    }
}

/// The listing of one ad.
fn read_ad(ad: &Json, now: Timestamp) -> (r: Option<RawListing>)
    ensures
        r.deep_view() == ad_listing(ad.deep_view(), now),
{
    if let Some(status) = text_at(ad, "status") {
        if !same(status, "active") {
            return None;
        }
    }
    let cents = match ad.get("price_cents") {
        Some(v) => v.as_i64(),
        None => None,
    };
    let cents = match cents {
        Some(c) => Some(c),
        None => match ad.get("price") {
            Some(v) => match v.as_list() {
                Some(prices) => {
                    if prices.len() > 0 {
                        assert(prices.deep_view()[0] == prices@[0].deep_view());
                        match prices[0].as_number() {
                            Some(euros) => Some(euros.round_shifted(2)),
                            None => None,
                        }
                    } else {
                        None
                    }
                },
                None => None,
            },
            None => None,
        },
    };
    match (text_at(ad, "subject"), text_at(ad, "url"), cents) {
        (Some(title), Some(url), Some(cents)) => {
            let mut price_text = cents_text(cents);
            price_text.append(" €");
            Some(
                RawListing {
                    source_id: SOURCE_ID.to_owned(),
                    title: title.to_owned(),
                    price_text,
                    url: url.to_owned(),
                    scraped_at: now,
                },
            )
        },
        _ => None,
    }
}

/// The list of ads in the data of a search page.
fn ads_of(data: &Json) -> (r: Option<&Vec<Json>>)
    ensures
        match (
            r,
            data.deep_view().field("props"@).field("pageProps"@).field("searchData"@).field(
                "ads"@,
            ).items(),
        ) {
            (Some(ads), Some(a)) => ads.deep_view() == a,
            (None, None) => true,
            _ => false,
        },
{
    match data.get("props") {
        Some(props) => match props.get("pageProps") {
            Some(page) => match page.get("searchData") {
                Some(search) => match search.get("ads") {
                    Some(ads) => ads.as_list(),
                    None => None,
                },
                None => None,
            },
            None => None,
        },
        None => None,
    }
}

/// The listings in the data of a search page.
pub fn listings_from_data(data: &Json, now: Timestamp) -> (r: Vec<RawListing>)
    ensures
        r.deep_view() == data_listings(data.deep_view(), now),
{
    let mut out: Vec<RawListing> = Vec::new();
    assert(out.deep_view() =~= Seq::empty());
    match ads_of(data) {
        Some(ads) => {
            let ghost all = ads.deep_view();
            let mut i: usize = 0;
            while i < ads.len()
                invariant
                    i <= ads@.len(),
                    all == ads.deep_view(),
                    out.deep_view() == ads_listings(all.take(i as int), now),
                decreases ads@.len() - i,
            {
                let ghost before = out.deep_view();
                assert(all.take(i + 1).drop_last() =~= all.take(i as int));
                assert(all.take(i + 1).last() == ads@[i as int].deep_view());
                if let Some(listing) = read_ad(&ads[i], now) {
                    out.push(listing);
                    assert(out.deep_view() =~= before.push(listing.deep_view()));
                }
                i = i + 1;
            }
            assert(all.take(all.len() as int) =~= all);
            out
        },
        None => out,
    }
}

/// The listings of a search page, or what is wrong with it.
pub open spec fn page_listings(html: Seq<char>, now: Timestamp) -> Result<
    Seq<RawListingView>,
    Seq<char>,
> {
    match embedded_data(html) {
        Err(e) => Err(e),
        Ok(data) => match json_read(data) {
            Err(e) => Err(e),
            Ok(value) => Ok(data_listings(value, now)),
        },
    }
}

/// Parses one search page. A missing `ads` key is no results; a page without the embedded
/// data is blocked or restructured, and an error, so that back-off and alerting fire in
/// place of "zero listings" that would make everything gone.
pub fn parse_search_page(html: &str, now: Timestamp) -> (r: Result<Vec<RawListing>, String>)
    ensures
        match (r, page_listings(html@, now)) {
            (Ok(listings), Ok(l)) => listings.deep_view() == l,
            (Err(e), Err(m)) => e@ == m,
            _ => false,
        },
{
    let data = match next_data(html) {
        Ok(d) => d,
        Err(e) => {
            return Err(e);
        },
    };
    match parse_json(data.as_str()) {
        Ok(value) => Ok(listings_from_data(&value, now)),
        Err(e) => Err(e),
    }
}

/// The leboncoin source.
#[derive(Debug, PartialEq)]
pub struct LeboncoinSource {
    config: LeboncoinConfig,
}

impl DeepView for LeboncoinSource {
    type V = LeboncoinConfigView;

    closed spec fn deep_view(&self) -> LeboncoinConfigView {
        self.config.deep_view()
    }
}

impl LeboncoinSource {
    /// A source with this configuration.
    pub fn new(config: LeboncoinConfig) -> (r: LeboncoinSource)
        ensures
            r.deep_view() == config.deep_view(),
    {
        LeboncoinSource { config }
    }

    /// The id of this source.
    pub fn id(&self) -> (r: &'static str)
        ensures
            r@ == SOURCE_ID@,
    {
        SOURCE_ID
    }

    /// A fetch of the configured queries and the live ones, from the first page of the
    /// first on.
    pub fn start(&self, extra: &Vec<String>) -> (r: LeboncoinCrawl)
        ensures
            r.deep_view() == (LeboncoinCrawlView {
                queries: queries_with(self.deep_view().queries, extra.deep_view()),
                pages_per_query: self.deep_view().pages_per_query,
                next: 0,
                page: 1,
                listings: Seq::empty(),
            }),
    {
        let listings: Vec<RawListing> = Vec::new();
        assert(listings.deep_view() =~= Seq::empty());
        LeboncoinCrawl {
            queries: merge_queries(&self.config.queries, extra),
            pages_per_query: self.config.pages_per_query,
            next: 0,
            page: 1,
            listings,
        }
    }
}

/// A fetch of the leboncoin source under way.
#[derive(Debug, PartialEq)]
pub struct LeboncoinCrawl {
    queries: Vec<String>,
    pages_per_query: u32,
    next: usize,
    page: u32,
    listings: Vec<RawListing>,
}

/// What `LeboncoinCrawl` holds.
#[verifier::ext_equal]
pub struct LeboncoinCrawlView {
    pub queries: Seq<Seq<char>>,
    pub pages_per_query: u32,
    /// The place of the query whose page is next.
    pub next: int,
    /// The page that is next.
    pub page: u32,
    pub listings: Seq<RawListingView>,
}

impl DeepView for LeboncoinCrawl {
    type V = LeboncoinCrawlView;

    closed spec fn deep_view(&self) -> LeboncoinCrawlView {
        LeboncoinCrawlView {
            queries: self.queries.deep_view(),
            pages_per_query: self.pages_per_query,
            next: self.next as int,
            page: self.page,
            listings: self.listings.deep_view(),
        }
    }
}

impl LeboncoinCrawlView {
    /// The page to fetch next; none where the fetch is complete.
    pub open spec fn url(self) -> Option<Seq<char>> {
        if 0 <= self.next < self.queries.len() {
            Some(search_page(self.queries[self.next], self.page as nat))
        } else {
            None
        }
    }

    /// Whether the page that is next is the last of its query, where it yields `found`
    /// listings: a short page is, and so is the last allowed (one at least is).
    pub open spec fn last_page(self, found: nat) -> bool {
        found < PAGE_SIZE || self.page >= self.pages_per_query
    }

    /// The fetch with `found` read from the page that was next.
    pub open spec fn after(self, found: Seq<RawListingView>) -> LeboncoinCrawlView {
        let last = self.last_page(found.len());
        LeboncoinCrawlView {
            next: if last { self.next + 1 } else { self.next },
            page: if last { 1u32 } else { (self.page + 1) as u32 },
            listings: with_new(self.listings, found),
            ..self
        }
    }
}

impl LeboncoinCrawl {
    /// The page to fetch next; none where the fetch is complete.
    pub fn next_url(&self) -> (r: Option<String>)
        ensures
            r.deep_view() == self.deep_view().url(),
    {
        if self.next < self.queries.len() {
            assert(self.queries.deep_view()[self.next as int] == self.queries@[self.next as int]@);
            Some(search_url(self.queries[self.next].as_str(), self.page))
        } else {
            None
        }
    }

    /// The fetch with one more page read. A page without the embedded data fails the whole
    /// fetch.
    pub fn accept(self, html: &str, now: Timestamp) -> (r: Result<LeboncoinCrawl, String>)
        requires
            self.deep_view().url() is Some,
        ensures
            match (r, page_listings(html@, now)) {
                (Ok(next), Ok(found)) => next.deep_view() == self.deep_view().after(found),
                (Err(e), Err(m)) => e@ == m,
                _ => false,
            },
    {
        assert(self.next < self.queries.len());
        let found = match parse_search_page(html, now) {
            Ok(f) => f,
            Err(e) => {
                return Err(e);
            },
        };
        assert(found.deep_view().len() == found@.len());
        let last = found.len() < PAGE_SIZE || self.page >= self.pages_per_query;
        let next: usize = if last {
            self.next + 1
        } else {
            self.next
        };
        let page: u32 = if last {
            1
        } else {
            self.page + 1
        };
        Ok(
            LeboncoinCrawl {
                queries: self.queries,
                pages_per_query: self.pages_per_query,
                next,
                page,
                listings: add_new(self.listings, &found),
            },
        )
    }

    /// The listings found, each URL once.
    pub fn into_listings(self) -> (r: Vec<RawListing>)
        ensures
            r.deep_view() == self.deep_view().listings,
    {
        self.listings
    }
}

/// The first page of a search is asked for without a number, every other with it.
pub proof fn later_pages_are_numbered(query: Seq<char>, page: nat)
    ensures
        page <= 1 ==> search_page(query, page) == "https://www.leboncoin.fr/recherche?text="@
            + form_encoded(query),
        page > 1 ==> search_page(query, page) == "https://www.leboncoin.fr/recherche?text="@
            + form_encoded(query) + "&page="@ + nat_text(page),
{
}

/// The call that fetches a page follows redirects, fails on an error status, gives up
/// after thirty seconds, and names a browser, a language and content types.
pub proof fn calls_look_like_a_browser(url: Seq<char>)
    ensures
        curl_argv(url).len() == 12,
        curl_argv(url)[0] == "-sL"@ && curl_argv(url)[1] == "--fail"@,
        curl_argv(url)[2] == "-m"@ && curl_argv(url)[3] == "30"@,
        curl_argv(url)[4] == "--compressed"@,
        curl_argv(url)[5] == "-H"@ && curl_argv(url)[6] == "User-Agent: "@
            + "Mozilla/5.0 (Windows NT 10.0; Win64; x64) AppleWebKit/537.36 (KHTML, like Gecko) Chrome/126.0.0.0 Safari/537.36"@,
        curl_argv(url)[7] == "-H"@ && curl_argv(url)[8] == "Accept-Language: "@
            + "fr-FR,fr;q=0.9"@,
        curl_argv(url)[9] == "-H"@ && curl_argv(url)[10] == "Accept: "@
            + "text/html,application/xhtml+xml,application/json;q=0.9,*/*;q=0.8"@,
        curl_argv(url)[11] == url,
{
}

/// The data of a page is what stands between the end of its opening tag and the closing
/// tag; a page that lacks one of the three says which.
pub proof fn data_stands_in_its_tag(html: Seq<char>)
    ensures
        match first_at(html, "<script id=\"__NEXT_DATA__\""@, 0) {
            None => embedded_data(html) == Err::<Seq<char>, Seq<char>>(
                "__NEXT_DATA__ not found (blocked page or new layout)"@,
            ),
            Some(tag) => match first_at(html, ">"@, tag) {
                None => embedded_data(html) == Err::<Seq<char>, Seq<char>>(
                    "malformed __NEXT_DATA__ tag"@,
                ),
                Some(open) => match first_at(html, "</script>"@, open + 1) {
                    None => embedded_data(html) == Err::<Seq<char>, Seq<char>>(
                        "unterminated __NEXT_DATA__ tag"@,
                    ),
                    Some(close) => embedded_data(html) == Ok::<Seq<char>, Seq<char>>(
                        html.subrange(open + 1, close),
                    ),
                },
            },
        },
{
}

/// The price of an ad is the one it gives in cents; one that gives none has the first of
/// its prices in euros, a hundred cents each, to the nearest cent.
pub proof fn ads_are_priced_in_cents(ad: JsonView)
    ensures
        ad.field("price_cents"@).integer() matches Some(cents) ==> ad_cents(ad) == Some(cents),
        ad.field("price_cents"@).integer() is None ==> match ad.field("price"@).item(0).number() {
            Some((num, exp)) => ad_cents(ad) == Some(clamped(rounded(num, exp + 2))),
            None => ad_cents(ad) is None,
        },
{
}

/// An ad is listed exactly where it has a title, a URL and a price and no status but an
/// active one; it is listed with them.
pub proof fn active_ads_are_listed(ad: JsonView, now: Timestamp)
    ensures
        ad_listing(ad, now) is Some <==> {
            &&& ad.field("subject"@).text() is Some
            &&& ad.field("url"@).text() is Some
            &&& ad_cents(ad) is Some
            &&& ad.field("status"@).text() is None || ad.field("status"@).text() == Some("active"@)
        },
        ad_listing(ad, now) matches Some(l) ==> {
            &&& l.source_id == "leboncoin"@
            &&& Some(l.title) == ad.field("subject"@).text()
            &&& Some(l.url) == ad.field("url"@).text()
            &&& l.price_text == money_text(ad_cents(ad)->0 as int) + " €"@
            &&& l.scraped_at == now
        },
{
}

/// Every ad that makes a listing is listed, once each, in order, and nothing else is.
pub proof fn every_active_ad_is_listed(
    now: Timestamp,
    ads: Seq<JsonView>,
)
    ensures
        ads_listings(ads, now).map_values(|l: RawListingView| Some(l)) == ads.map_values(
            |x: JsonView| ad_listing(x, now),
        ).filter(|l: Option<RawListingView>| l is Some),
    decreases ads.len(),
{
    reveal(Seq::filter);
    let f = |x: JsonView| ad_listing(x, now);
    let p = |l: Option<RawListingView>| l is Some;
    let g = |l: RawListingView| Some(l);
    if ads.len() > 0 {
        let rest = ads.drop_last();
        every_active_ad_is_listed(now, rest);
        assert(ads.map_values(f).drop_last() =~= rest.map_values(f));
        assert(ads.map_values(f).last() == f(ads.last()));
        if let Some(l) = f(ads.last()) {
            let before = ads_listings(rest, now);
            assert(before.push(l).map_values(g) =~= before.map_values(g).push(Some(l)));
        }
    }
    assert(ads_listings(ads, now).map_values(g) =~= ads.map_values(f).filter(p));
}

/// The ads of a page stand under its search data; a page whose data cannot be read fails
/// with the reader's message.
pub proof fn ads_stand_in_the_search_data(html: Seq<char>, data: JsonView, now: Timestamp)
    ensures
        match data.field("props"@).field("pageProps"@).field("searchData"@).field("ads"@).items() {
            Some(ads) => data_listings(data, now) == ads_listings(ads, now),
            None => data_listings(data, now).len() == 0,
        },
        match embedded_data(html) {
            Err(e) => page_listings(html, now) == Err::<Seq<RawListingView>, Seq<char>>(e),
            Ok(text) => match json_read(text) {
                Err(e) => page_listings(html, now) == Err::<Seq<RawListingView>, Seq<char>>(e),
                Ok(value) => page_listings(html, now) == Ok::<Seq<RawListingView>, Seq<char>>(
                    data_listings(value, now),
                ),
            },
        },
{
}

/// A fetch goes from page to page of a query until one holds fewer than thirty-five ads or
/// is the last allowed, and then on to the first page of the next query. It keeps what it
/// has, and takes what is new of the page.
pub proof fn short_pages_end_a_query(crawl: LeboncoinCrawlView, found: Seq<RawListingView>)
    requires
        crawl.page < u32::MAX,
    ensures
        found.len() < 35 || crawl.page >= crawl.pages_per_query ==> crawl.after(found).next
            == crawl.next + 1 && crawl.after(found).page == 1,
        found.len() >= 35 && crawl.page < crawl.pages_per_query ==> crawl.after(found).next
            == crawl.next && crawl.after(found).page == crawl.page + 1,
        crawl.after(found).listings == with_new(crawl.listings, found),
        crawl.after(found).queries == crawl.queries,
        crawl.after(found).pages_per_query == crawl.pages_per_query,
        0 <= crawl.next < crawl.queries.len() ==> crawl.url() == Some(
            search_page(crawl.queries[crawl.next], crawl.page as nat),
        ),
        crawl.next >= crawl.queries.len() ==> crawl.url() is None,
{
}

} // verus!
