//! eBay.fr: one search-result page per query, parsed with CSS selectors.

use vstd::prelude::*;
use vstd::utf8::encode_utf8;
use crate::config::{EbayConfig, EbayConfigView};
use crate::listing::{RawListing, RawListingView};
use crate::scrape::html::{page_rows, select_rows, selectors, Row, RowView};
use crate::scrape::{add_new, contains_url, form_encode, form_encoded, has_url, merge_queries,
    queries_with, with_new};
use crate::text::{
    all_digits, chars_of, contains, find_from, first_at, is_digit, occurs, text_of, trim, trimmed,
};
use crate::time::Timestamp;

verus! {

/// The id of this source.
pub const SOURCE_ID: &'static str = "ebay";

/// Seconds to wait before the one retry of a rate-limited request.
pub const RETRY_WAIT: u64 = 120;

/// The browser that requests claim to come from.
pub const USER_AGENT: &'static str =
    "Mozilla/5.0 (Windows NT 10.0; Win64; x64) AppleWebKit/537.36 \
     (KHTML, like Gecko) Chrome/126.0.0.0 Safari/537.36";

/// The search page of a query, lowest price and shipping first.
pub open spec fn search_page(query: Seq<char>) -> Seq<char> {
    "https://www.ebay.fr/sch/i.html?_nkw="@ + form_encoded(query) + "&_sop=15"@
}

/// The search page of a query, lowest price and shipping first.
pub fn search_url(query: &str) -> (r: String)
    ensures
        r@ == search_page(query@),
{
    let mut out = "https://www.ebay.fr/sch/i.html?_nkw=".to_owned();
    out.append(form_encode(query).as_str());
    out.append("&_sop=15");
    out
}

/// The digits at the front of `s`.
pub open spec fn leading_digits(s: Seq<char>) -> Seq<char>
    decreases s.len(),
{
    if s.len() > 0 && is_digit(s[0]) {
        seq![s[0]] + leading_digits(s.drop_first())
    } else {
        Seq::empty()
    }
}

/// The item id in a link: the digits behind the first `/itm/`.
pub open spec fn item_id(href: Seq<char>) -> Option<Seq<char>> {
    match first_at(href, "/itm/"@, 0) {
        Some(i) => {
            let id = leading_digits(href.skip(i + 5));
            if id.len() > 0 {
                Some(id)
            } else {
                None
            }
        },
        None => None,
    }
}

/// The item id in a link: the digits behind the first `/itm/`.
pub fn extract_item_id(href: &str) -> (r: Option<String>)
    ensures
        r.deep_view() == item_id(href@),
{
    let v = chars_of(href);
    let mark = chars_of("/itm/");
    let at: usize = match find_from(&v, &mark, 0) {
        Some(i) => i,
        None => {
            return None;
        },
    };
    proof {
        reveal_strlit("/itm/");
    }
    let from: usize = at + 5;
    let mut to: usize = from;
    let ghost rest = v@.skip(from as int);
    assert(v@.subrange(from as int, to as int) =~= Seq::empty());
    assert(v@.subrange(from as int, to as int) + leading_digits(v@.skip(to as int))
        =~= leading_digits(rest));
    while to < v.len() && '0' <= v[to] && v[to] <= '9'
        invariant
            from <= to <= v@.len(),
            rest == v@.skip(from as int),
            v@.subrange(from as int, to as int) + leading_digits(v@.skip(to as int))
                == leading_digits(rest),
        decreases v@.len() - to,
    {
        proof {
            let tail = v@.skip(to as int);
            assert(tail.drop_first() =~= v@.skip(to + 1));
            assert(leading_digits(tail) == seq![v@[to as int]] + leading_digits(v@.skip(to + 1)));
            assert(v@.subrange(from as int, to + 1) =~= v@.subrange(from as int, to as int).push(
                v@[to as int],
            ));
            assert(v@.subrange(from as int, to + 1) + leading_digits(v@.skip(to + 1))
                =~= v@.subrange(from as int, to as int) + leading_digits(tail));
        }
        to = to + 1;
    }
    assert(leading_digits(v@.skip(to as int)) =~= Seq::empty());
    assert(v@.subrange(from as int, to as int) =~= leading_digits(rest));
    if to > from {
        Some(text_of(&v, from, to))
    } else {
        None
    }
}

/// The listing of one result card. None for a card without a title (of at least ten
/// bytes), a price in euros and an item link, such as a placeholder.
pub open spec fn card_listing(card: RowView, now: Timestamp) -> Option<RawListingView> {
    match (card.part(0), card.part(1), card.part(2)) {
        (Some(title), Some(price), Some(link)) => {
            let title = trimmed(title.text);
            let price = trimmed(price.text);
            let id = match link.href {
                Some(href) => item_id(href),
                None => None,
            };
            if !occurs(price, "EUR"@) && !occurs(price, "€"@) {
                None
            } else if id is None || (encode_utf8(title).len() as usize) < 10 {
                None
            } else {
                Some(
                    RawListingView {
                        source_id: SOURCE_ID@,
                        title,
                        price_text: price,
                        url: "https://www.ebay.fr/itm/"@ + id->0,
                        scraped_at: now,
                    },
                )
            }
        },
        _ => None,
    }
}

/// The listings of the result cards, each item once.
pub open spec fn cards_listings(cards: Seq<RowView>, now: Timestamp) -> Seq<RawListingView>
    decreases cards.len(),
{
    if cards.len() == 0 {
        Seq::empty()
    } else {
        let before = cards_listings(cards.drop_last(), now);
        match card_listing(cards.last(), now) {
            Some(listing) => if has_url(before, listing.url) {
                before
            } else {
                before.push(listing)
            },
            None => before,
        }
    }
}

/// The listing of one result card.
fn read_card(card: &Row, now: Timestamp) -> (r: Option<RawListing>)
    ensures
        r.deep_view() == card_listing(card.deep_view(), now),
{
    let title = match card.part(0) {
        Some(e) => trim(e.text.as_str()),
        None => {
            return None;
        },
    };
    let price = match card.part(1) {
        Some(e) => trim(e.text.as_str()),
        None => {
            return None;
        },
    };
    let id = match card.part(2) {
        Some(e) => match &e.href {
            Some(href) => extract_item_id(href.as_str()),
            None => None,
        },
        None => {
            return None;
        },
    };
    if !contains(price.as_str(), "EUR") && !contains(price.as_str(), "€") {
        return None;
    }
    match id {
        Some(id) => {
            if title.as_str().len() < 10 {
                return None;
            }
            let mut url = "https://www.ebay.fr/itm/".to_owned();
            url.append(id.as_str());
            Some(
                RawListing {
                    source_id: SOURCE_ID.to_owned(),
                    title,
                    price_text: price,
                    url,
                    scraped_at: now,
                },
            )
        },
        None => None,
    }
}

/// What a page without a single card is.
pub open spec fn no_cards() -> Seq<char> {
    "no s-card results on page (blocked or new layout)"@
}

/// The listings of the result cards, each item once; an error where there is no card at
/// all, as on a blocked page.
pub fn listings_from_cards(cards: &Vec<Row>, now: Timestamp) -> (r: Result<Vec<RawListing>, String>)
    ensures
        match r {
            Ok(listings) => cards@.len() > 0 && listings.deep_view() == cards_listings(
                cards.deep_view(),
                now,
            ),
            Err(e) => cards@.len() == 0 && e@ == no_cards(),
        },
{
    if cards.len() == 0 {
        return Err("no s-card results on page (blocked or new layout)".to_owned());
    }
    let ghost all = cards.deep_view();
    let mut out: Vec<RawListing> = Vec::new();
    let mut i: usize = 0;
    assert(out.deep_view() =~= Seq::empty());
    while i < cards.len()
        invariant
            i <= cards@.len(),
            all == cards.deep_view(),
            out.deep_view() == cards_listings(all.take(i as int), now),
        decreases cards@.len() - i,
    {
        let ghost before = out.deep_view();
        assert(all.take(i + 1).drop_last() =~= all.take(i as int));
        assert(all.take(i + 1).last() == cards@[i as int].deep_view());
        if let Some(listing) = read_card(&cards[i], now) {
            if !contains_url(&out, listing.url.as_str()) {
                out.push(listing);
                assert(out.deep_view() =~= before.push(listing.deep_view()));
            }
        }
        i = i + 1;
    }
    assert(all.take(all.len() as int) =~= all);
    Ok(out)
}

/// The result cards of a page: title, price, link.
pub open spec fn cards_of(html: Seq<char>) -> Seq<RowView> {
    page_rows(
        html,
        "li.s-card"@,
        seq![".s-card__title"@, ".s-card__price"@, "a[href*='/itm/']"@],
    )
}

/// Parses one result page. A page without any card scaffold at all is an error (blocked
/// or new layout) so that back-off and alerting fire; cards that are placeholders,
/// out-of-zone (no euro price) or incomplete are skipped.
pub fn parse_search_page(html: &str, now: Timestamp) -> (r: Result<Vec<RawListing>, String>)
    ensures
        match r {
            Ok(listings) => cards_of(html@).len() > 0 && listings.deep_view() == cards_listings(
                cards_of(html@),
                now,
            ),
            Err(e) => cards_of(html@).len() == 0 && e@ == no_cards(),
        },
{
    let parts = selectors([".s-card__title", ".s-card__price", "a[href*='/itm/']"]);
    let cards = select_rows(html, "li.s-card", &parts);
    assert(cards.deep_view().len() == cards@.len());
    listings_from_cards(&cards, now)
}

/// The eBay source.
#[derive(Debug, PartialEq)]
pub struct EbaySource {
    config: EbayConfig,
}

impl DeepView for EbaySource {
    type V = EbayConfigView;

    closed spec fn deep_view(&self) -> EbayConfigView {
        self.config.deep_view()
    }
}

impl EbaySource {
    /// A source with this configuration.
    pub fn new(config: EbayConfig) -> (r: EbaySource)
        ensures
            r.deep_view() == config.deep_view(),
    {
        EbaySource { config }
    }

    /// The id of this source.
    pub fn id(&self) -> (r: &'static str)
        ensures
            r@ == SOURCE_ID@,
    {
        SOURCE_ID
    }

    /// The command that fetches a page in place of the HTTP client, with each argument's
    /// `{url}` made the page's URL; none where none is configured.
    pub fn fetch_command(&self, url: &str) -> (r: Option<Vec<String>>)
        ensures
            r.deep_view() == command_for(self.deep_view().fetch_command, url@),
    {
        if self.config.fetch_command.len() == 0 {
            return None;
        }
        let ghost all = self.config.fetch_command.deep_view();
        let ghost want = substituted(all, url@);
        let mut out: Vec<String> = Vec::new();
        out.push(self.config.fetch_command[0].clone());
        let mut i: usize = 1;
        assert(out.deep_view() =~= want.take(1));
        while i < self.config.fetch_command.len()
            invariant
                1 <= i <= self.config.fetch_command@.len(),
                all == self.config.fetch_command.deep_view(),
                want == substituted(all, url@),
                out.deep_view() == want.take(i as int),
            decreases self.config.fetch_command@.len() - i,
        {
            let ghost before = out.deep_view();
            proof {
                reveal_strlit("{url}");
            }
            let arg = crate::scrape::generic::replace_all(
                self.config.fetch_command[i].as_str(),
                "{url}",
                url,
            );
            out.push(arg);
            assert(all[i as int] == self.config.fetch_command@[i as int]@);
            i = i + 1;
            assert(out.deep_view() =~= before.push(arg@));
            assert(out.deep_view() =~= want.take(i as int));
        }
        assert(want.take(want.len() as int) =~= want);
        Some(out)
    }

    /// The pages to fetch, one per query: the configured queries and the live ones.
    pub fn start(&self, extra: &Vec<String>) -> (r: EbayCrawl)
        ensures
            r.deep_view() == (EbayCrawlView {
                queries: queries_with(self.deep_view().queries, extra.deep_view()),
                next: 0,
                listings: Seq::empty(),
            }),
    {
        let listings: Vec<RawListing> = Vec::new();
        assert(listings.deep_view() =~= Seq::empty());
        EbayCrawl { queries: merge_queries(&self.config.queries, extra), next: 0, listings }
    }
}

/// A command with `{url}` made a URL in all its arguments; the program stays.
pub open spec fn substituted(argv: Seq<Seq<char>>, url: Seq<char>) -> Seq<Seq<char>> {
    Seq::new(
        argv.len(),
        |i: int|
            if i == 0 {
                argv[0]
            } else {
                crate::scrape::generic::all_replaced(argv[i], "{url}"@, url)
            },
    )
}

/// The command that fetches a URL, where one is configured.
pub open spec fn command_for(argv: Seq<Seq<char>>, url: Seq<char>) -> Option<Seq<Seq<char>>> {
    if argv.len() == 0 {
        None
    } else {
        Some(substituted(argv, url))
    }
}

/// A fetch of the eBay source under way.
#[derive(Debug, PartialEq)]
pub struct EbayCrawl {
    queries: Vec<String>,
    next: usize,
    listings: Vec<RawListing>,
}

/// What `EbayCrawl` holds.
#[verifier::ext_equal]
pub struct EbayCrawlView {
    pub queries: Seq<Seq<char>>,
    /// The place of the query whose page is next.
    pub next: int,
    pub listings: Seq<RawListingView>,
}

impl DeepView for EbayCrawl {
    type V = EbayCrawlView;

    closed spec fn deep_view(&self) -> EbayCrawlView {
        EbayCrawlView {
            queries: self.queries.deep_view(),
            next: self.next as int,
            listings: self.listings.deep_view(),
        }
    }
}

impl EbayCrawl {
    /// The page to fetch next; none where the fetch is complete.
    pub fn next_url(&self) -> (r: Option<String>)
        ensures
            r.deep_view() == if self.deep_view().next < self.deep_view().queries.len() {
                Some(search_page(self.deep_view().queries[self.deep_view().next]))
            } else {
                None
            },
    {
        if self.next < self.queries.len() {
            assert(self.queries.deep_view()[self.next as int] == self.queries@[self.next as int]@);
            Some(search_url(self.queries[self.next].as_str()))
        } else {
            None
        }
    }

    /// The fetch with one more page read. A page without cards fails the whole fetch.
    pub fn accept(self, html: &str, now: Timestamp) -> (r: Result<EbayCrawl, String>)
        requires
            self.deep_view().next < self.deep_view().queries.len(),
        ensures
            match r {
                Ok(next) => cards_of(html@).len() > 0 && next.deep_view() == (EbayCrawlView {
                    queries: self.deep_view().queries,
                    next: self.deep_view().next + 1,
                    listings: with_new(
                        self.deep_view().listings,
                        cards_listings(cards_of(html@), now),
                    ),
                }),
                Err(e) => cards_of(html@).len() == 0 && e@ == no_cards(),
            },
    {
        assert(self.next < self.queries.len());
        match parse_search_page(html, now) {
            Ok(page) => Ok(
                EbayCrawl {
                    queries: self.queries,
                    next: self.next + 1,
                    listings: add_new(self.listings, &page),
                },
            ),
            Err(e) => Err(e),
        }
    }

    /// The listings found, each URL once.
    pub fn into_listings(self) -> (r: Vec<RawListing>)
        ensures
            r.deep_view() == self.deep_view().listings,
    {
        self.listings
    }
}

/// Whether an answer says that too much was asked.
pub open spec fn rate_limited(status: u16) -> bool {
    status == 403 || status == 429
}

/// A rate-limited answer (403 or 429) is worth one retry after a pause; any other is not.
pub fn retry_worthy(status: u16) -> (r: bool)
    ensures
        r == rate_limited(status),
{
    status == 403 || status == 429
}

/// What to do with the answer to a request for a page.
#[derive(Debug, Clone, Copy, PartialEq, Eq, Structural)]
pub enum PageStep {
    /// Wait so many seconds, and ask once more.
    Wait { seconds: u64 },
    /// Give up: the fetch has failed with this status.
    Fail,
    /// Take the page.
    Take,
}

/// What to do with an answer: the first one that is rate-limited is waited out, any other
/// error ends the fetch.
pub open spec fn step_of(status: u16, retried: bool) -> PageStep {
    if rate_limited(status) && !retried {
        PageStep::Wait { seconds: RETRY_WAIT }
    } else if 400 <= status < 600 {
        PageStep::Fail
    } else {
        PageStep::Take
    }
}

/// What to do with the answer to a request for a page. `retried` says that it was asked for
/// before.
pub fn page_step(status: u16, retried: bool) -> (r: PageStep)
    ensures
        r == step_of(status, retried),
{
    if retry_worthy(status) && !retried {
        PageStep::Wait { seconds: RETRY_WAIT }
    } else if 400 <= status && status < 600 {
        PageStep::Fail
    } else {
        PageStep::Take
    }
}

/// A page is asked for twice at most: only a rate-limited answer is waited out, and what
/// comes after the wait is taken or ends the fetch.
pub proof fn a_page_is_retried_once(first: u16, second: u16)
    ensures
        step_of(first, false) is Wait <==> rate_limited(first),
        step_of(second, true) !is Wait,
        rate_limited(second) ==> step_of(second, true) is Fail,
{
}

/// A search asks eBay France for the query, the lowest price with shipping first.
pub proof fn searches_go_by_price(query: Seq<char>)
    ensures
        search_page(query) == "https://www.ebay.fr/sch/i.html?_nkw="@ + form_encoded(query)
            + "&_sop=15"@,
{
}

/// The digits at the front of a text end where its first other character stands.
pub proof fn leading_digits_end(digits: Seq<char>, rest: Seq<char>)
    requires
        all_digits(digits),
        rest.len() > 0 ==> !('0' <= rest[0] <= '9'),
    ensures
        leading_digits(digits + rest) == digits,
    decreases digits.len(),
{
    let s = digits + rest;
    if digits.len() == 0 {
        assert(s =~= rest);
    } else {
        let less = digits.drop_first();
        assert(is_digit(digits[0]));
        assert forall|i: int| 0 <= i < less.len() implies is_digit(#[trigger] less[i]) by {
            assert(less[i] == digits[i + 1]);
        }
        leading_digits_end(less, rest);
        assert(s.drop_first() =~= less + rest);
        assert(seq![digits[0]] + less =~= digits);
    }
}

/// The id of a link is the run of digits behind the first `/itm/`; a link without any has
/// none.
pub proof fn ids_follow_the_mark(href: Seq<char>)
    ensures
        match first_at(href, "/itm/"@, 0) {
            Some(i) => {
                let digits = leading_digits(href.skip(i + 5));
                &&& digits.len() == 0 ==> item_id(href) is None
                &&& digits.len() > 0 ==> item_id(href) == Some(digits)
            },
            None => item_id(href) is None,
        },
{
}

/// A card is listed exactly where it has a title of at least ten bytes, a price in euros
/// and a link with an item's id; it is listed under the item's own URL.
pub proof fn cards_need_a_price_in_euros(card: RowView, now: Timestamp)
    ensures
        card_listing(card, now) is Some <==> {
            &&& card.part(0) is Some
            &&& card.part(1) is Some
            &&& card.part(2) is Some
            &&& (card.part(2)->0).href is Some
            &&& item_id((card.part(2)->0).href->0) is Some
            &&& occurs(trimmed((card.part(1)->0).text), "EUR"@) || occurs(
                trimmed((card.part(1)->0).text),
                "€"@,
            )
            &&& (encode_utf8(trimmed((card.part(0)->0).text)).len() as usize) >= 10
        },
        card_listing(card, now) matches Some(l) ==> {
            &&& l.source_id == "ebay"@
            &&& l.title == trimmed((card.part(0)->0).text)
            &&& l.price_text == trimmed((card.part(1)->0).text)
            &&& l.url == "https://www.ebay.fr/itm/"@ + item_id((card.part(2)->0).href->0)->0
            &&& l.scraped_at == now
        },
{
}

/// Each card that makes a listing is listed behind those before it, unless one of them has
/// its URL; any other card adds nothing.
pub proof fn cards_are_listed_once(cards: Seq<RowView>, card: RowView, now: Timestamp)
    ensures
        cards_listings(Seq::empty(), now).len() == 0,
        match card_listing(card, now) {
            Some(l) => cards_listings(cards.push(card), now) == if exists|i: int|
                0 <= i < cards_listings(cards, now).len() && (#[trigger] cards_listings(
                    cards,
                    now,
                )[i]).url == l.url {
                cards_listings(cards, now)
            } else {
                cards_listings(cards, now).push(l)
            },
            None => cards_listings(cards.push(card), now) == cards_listings(cards, now),
        },
{
    assert(cards.push(card).drop_last() =~= cards);
}

/// Every card that makes a listing has its item among the listings.
pub proof fn no_card_is_dropped(cards: Seq<RowView>, now: Timestamp, i: int)
    requires
        0 <= i < cards.len(),
    ensures
        card_listing(cards[i], now) matches Some(l) ==> has_url(cards_listings(cards, now), l.url),
    decreases cards.len(),
{
    let rest = cards.drop_last();
    let before = cards_listings(rest, now);
    let all = cards_listings(cards, now);
    if let Some(l) = card_listing(cards[i], now) {
        if i < rest.len() {
            assert(rest[i] == cards[i]);
            no_card_is_dropped(rest, now, i);
            let k = choose|k: int| 0 <= k < before.len() && (#[trigger] before[k]).url == l.url;
            assert(all[k].url == l.url);
        } else if !has_url(before, l.url) {
            assert(all[before.len() as int].url == l.url);
        }
    }
}

/// A result page is read by its cards, each with its title, its price and its item link.
pub proof fn pages_are_read_by_their_cards(html: Seq<char>)
    ensures
        cards_of(html) == page_rows(
            html,
            "li.s-card"@,
            seq![".s-card__title"@, ".s-card__price"@, "a[href*='/itm/']"@],
        ),
        no_cards() == "no s-card results on page (blocked or new layout)"@,
{
}

/// A fetch command keeps its program and gets the URL in its arguments; none is made of
/// nothing.
pub proof fn commands_get_the_url(argv: Seq<Seq<char>>, url: Seq<char>, i: int)
    requires
        0 < i < argv.len(),
    ensures
        command_for(Seq::empty(), url) is None,
        command_for(argv, url) matches Some(command) && command.len() == argv.len() && command[0]
            == argv[0] && command[i] == crate::scrape::generic::all_replaced(
            argv[i],
            "{url}"@,
            url,
        ),
{
}

/// What becomes of an answer: the first 403 or 429 is waited out for two minutes; any other
/// error, or a second one, ends the fetch; everything else is taken.
pub proof fn answers_are_taken_or_retried(status: u16, retried: bool)
    ensures
        step_of(status, retried) == (PageStep::Wait { seconds: 120 }) <==> (status == 403 || status
            == 429) && !retried,
        step_of(status, retried) == PageStep::Take <==> status < 400 || status >= 600,
        status != 403 && status != 429 && 400 <= status < 600 ==> step_of(status, retried)
            == PageStep::Fail,
        retried && 400 <= status < 600 ==> step_of(status, retried) == PageStep::Fail,
{
}

} // verus!
