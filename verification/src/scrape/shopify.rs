//! Shopify stores: the public catalog, structured JSON. One listing per available
//! variant.

use vstd::prelude::*;
use crate::config::{ShopifyConfig, ShopifyConfigView};
use crate::reading::{reading_of, units_of, word_text, Reading, ReadingView};
use crate::json::{json_read, parse_json, text_at, Json, JsonView};
use crate::listing::{RawListing, RawListingView};
use crate::money::{cents_text, money_text};
use crate::text::{
    chars_of, i64_text, int_text, int_text_is_unique, nat_text, same, text_of, u64_text,
};
use crate::time::Timestamp;

verus! {

/// A store bigger than this many pages of 250 products is not a deal board.
pub const MAX_PAGES: u32 = 10;

/// `s` without slashes at its end.
pub open spec fn without_slashes(s: Seq<char>) -> Seq<char>
    decreases s.len(),
{
    if s.len() > 0 && s.last() == '/' {
        without_slashes(s.drop_last())
    } else {
        s
    }
}

/// `s` without slashes at its end.
pub fn trim_slashes(s: &str) -> (r: String)
    ensures
        r@ == without_slashes(s@),
{
    let v = chars_of(s);
    let mut to: usize = v.len();
    assert(v@.subrange(0, to as int) =~= v@);
    while to > 0 && v[to - 1] == '/'
        invariant
            to <= v@.len(),
            without_slashes(v@) == without_slashes(v@.subrange(0, to as int)),
        decreases to,
    {
        assert(v@.subrange(0, to as int).drop_last() =~= v@.subrange(0, to - 1));
        to = to - 1;
    }
    text_of(&v, 0, to)
}

/// The URL of one page of a store's catalog.
pub open spec fn catalog_page(base: Seq<char>, page: nat) -> Seq<char> {
    without_slashes(base) + "/products.json?limit=250&page="@ + nat_text(page)
}

/// The URL of one page of a store's catalog.
pub fn catalog_url(base: &str, page: u32) -> (r: String)
    ensures
        r@ == catalog_page(base@, page as nat),
{
    let mut out = trim_slashes(base);
    out.append("/products.json?limit=250&page=");
    out.append(u64_text(page as u64).as_str());
    out
}

/// The title of a variant's listing: the product's, and the variant's own where it has
/// one that says something.
pub open spec fn full_title(product: Seq<char>, variant: Option<Seq<char>>) -> Seq<char> {
    match variant {
        Some(t) => if t.len() == 0 || t == "Default Title"@ {
            product
        } else {
            product + " "@ + t
        },
        None => product,
    }
}

/// The URL of a variant: each is its own deal.
pub open spec fn variant_url(base: Seq<char>, handle: Seq<char>, id: Option<i64>) -> Seq<char> {
    let product = base + "/products/"@ + handle;
    match id {
        Some(n) => product + "?variant="@ + int_text(n as int),
        None => product,
    }
}

/// An amount as its text gives it: a number with two decimals, and else its word.
pub open spec fn amount_text(amount: ReadingView) -> Seq<char> {
    match amount {
        ReadingView::Finite(_) => money_text(units_of(amount, 2) as int),
        _ => word_text(amount),
    }
}

/// The price text of an amount: rounded to cents, in the store's currency.
pub open spec fn price_text(amount: ReadingView, currency: Seq<char>) -> Seq<char> {
    amount_text(amount) + " "@ + currency
}

fn write_amount(amount: &Reading) -> (r: String)
    ensures
        r@ == amount_text(amount.deep_view()),
{
    match amount {
        Reading::Finite(_) => cents_text(amount.round_shifted(2)),
        _ => amount.to_text(),
    }
}

/// The listing of one variant of a product; none where it is not available or has no
/// readable price.
pub open spec fn variant_listing(
    title: Seq<char>,
    handle: Seq<char>,
    variant: JsonView,
    store: ShopifyConfigView,
    now: Timestamp,
) -> Option<RawListingView> {
    let price = match variant.field("price"@).text() {
        Some(p) => reading_of(p),
        None => None,
    };
    if variant.field("available"@).truth() != Some(true) || price is None {
        None
    } else {
        Some(
            RawListingView {
                source_id: store.id,
                title: full_title(title, variant.field("title"@).text()),
                price_text: price_text(price->0, store.currency),
                url: variant_url(
                    without_slashes(store.url),
                    handle,
                    variant.field("id"@).integer(),
                ),
                scraped_at: now,
            },
        )
    }
}

/// The listings of a product's variants.
pub open spec fn variants_listings(
    title: Seq<char>,
    handle: Seq<char>,
    variants: Seq<JsonView>,
    store: ShopifyConfigView,
    now: Timestamp,
) -> Seq<RawListingView>
    decreases variants.len(),
{
    if variants.len() == 0 {
        Seq::empty()
    } else {
        let before = variants_listings(title, handle, variants.drop_last(), store, now);
        match variant_listing(title, handle, variants.last(), store, now) {
            Some(listing) => before.push(listing),
            None => before,
        }
    }
}

/// The listings of one product; none without a title and a handle.
pub open spec fn product_listings(product: JsonView, store: ShopifyConfigView, now: Timestamp) -> Seq<
    RawListingView,
> {
    match (
        product.field("title"@).text(),
        product.field("handle"@).text(),
        product.field("variants"@).items(),
    ) {
        (Some(title), Some(handle), Some(variants)) => variants_listings(
            title,
            handle,
            variants,
            store,
            now,
        ),
        _ => Seq::empty(),
    }
}

/// The listings of the products of a catalog page.
pub open spec fn products_listings(
    products: Seq<JsonView>,
    store: ShopifyConfigView,
    now: Timestamp,
) -> Seq<RawListingView>
    decreases products.len(),
{
    if products.len() == 0 {
        Seq::empty()
    } else {
        products_listings(products.drop_last(), store, now) + product_listings(
            products.last(),
            store,
            now,
        )
    }
}

/// The listings of a catalog page and how many products it carries, or the error's
/// message.
pub open spec fn catalog_of(
    read: Result<JsonView, Seq<char>>,
    store: ShopifyConfigView,
    now: Timestamp,
) -> Result<(Seq<RawListingView>, nat), Seq<char>> {
    match read {
        Err(e) => Err(e),
        Ok(data) => match data.field("products"@).items() {
            Some(products) => Ok((products_listings(products, store, now), products.len())),
            None => Err("no products array (not a Shopify catalog?)"@),
        },
    }
}

/// What the reading of a catalog page holds.
pub open spec fn catalog_view(r: Result<(Vec<RawListing>, usize), String>) -> Result<
    (Seq<RawListingView>, nat),
    Seq<char>,
> {
    match r {
        Ok((listings, products)) => Ok((listings.deep_view(), products as nat)),
        Err(e) => Err(e@),
    }
}

/// The listing of one variant of a product.
fn read_variant(
    title: &str,
    handle: &str,
    variant: &Json,
    store: &ShopifyConfig,
    now: Timestamp,
) -> (r: Option<RawListing>)
    ensures
        r.deep_view() == variant_listing(
            title@,
            handle@,
            variant.deep_view(),
            store.deep_view(),
            now,
        ),
{
    let available = match variant.get("available") {
        Some(v) => match v.as_bool() {
            Some(b) => b,
            None => false,
        },
        None => false,
    };
    if !available {
        return None;
    }
    let price = match text_at(variant, "price") {
        Some(p) => match Reading::parse(p) {
            Some(d) => d,
            None => {
                return None;
            },
        },
        None => {
            return None;
        },
    };
    let mut full = title.to_owned();
    if let Some(t) = text_at(variant, "title") {
        if !t.is_empty() && !same(t, "Default Title") {
            full.append(" ");
            full.append(t);
        }
    }
    let mut url = trim_slashes(store.url.as_str());
    url.append("/products/");
    url.append(handle);
    let id = match variant.get("id") {
        Some(v) => v.as_i64(),
        None => None,
    };
    if let Some(n) = id {
        url.append("?variant=");
        url.append(i64_text(n).as_str());
    }
    let mut price_text = write_amount(&price);
    price_text.append(" ");
    price_text.append(store.currency.as_str());
    Some(RawListing { source_id: store.id.clone(), title: full, price_text, url, scraped_at: now })
}

/// The listings of one product.
fn read_product(product: &Json, store: &ShopifyConfig, now: Timestamp) -> (r: Vec<RawListing>)
    ensures
        r.deep_view() == product_listings(product.deep_view(), store.deep_view(), now),
{
    let mut out: Vec<RawListing> = Vec::new();
    assert(out.deep_view() =~= Seq::empty());
    let variants = match product.get("variants") {
        Some(v) => v.as_list(),
        None => None,
    };
    match (text_at(product, "title"), text_at(product, "handle"), variants) {
        (Some(title), Some(handle), Some(variants)) => {
            let ghost all = variants.deep_view();
            let mut i: usize = 0;
            while i < variants.len()
                invariant
                    i <= variants@.len(),
                    all == variants.deep_view(),
                    out.deep_view() == variants_listings(
                        title@,
                        handle@,
                        all.take(i as int),
                        store.deep_view(),
                        now,
                    ),
                decreases variants@.len() - i,
            {
                let ghost before = out.deep_view();
                assert(all.take(i + 1).drop_last() =~= all.take(i as int));
                assert(all.take(i + 1).last() == variants@[i as int].deep_view());
                if let Some(listing) = read_variant(title, handle, &variants[i], store, now) {
                    out.push(listing);
                    assert(out.deep_view() =~= before.push(listing.deep_view()));
                }
                i = i + 1;
            }
            assert(all.take(all.len() as int) =~= all);
            out
        },
        _ => out,
    }
}

/// The listings (available variants only) of a catalog page that was read as JSON, and
/// how many products it carries.
pub fn catalog_from(data: Result<Json, String>, store: &ShopifyConfig, now: Timestamp) -> (r: Result<
    (Vec<RawListing>, usize),
    String,
>)
    ensures
        catalog_view(r) == catalog_of(crate::json::read_view(data), store.deep_view(), now),
{
    let data = match data {
        Ok(d) => d,
        Err(e) => {
            return Err(e);
        },
    };
    let products = match data.get("products") {
        Some(v) => v.as_list(),
        None => None,
    };
    let products = match products {
        Some(p) => p,
        None => {
            return Err("no products array (not a Shopify catalog?)".to_owned());
        },
    };
    let ghost all = products.deep_view();
    let mut out: Vec<RawListing> = Vec::new();
    let mut i: usize = 0;
    assert(out.deep_view() =~= Seq::empty());
    while i < products.len()
        invariant
            i <= products@.len(),
            all == products.deep_view(),
            out.deep_view() == products_listings(all.take(i as int), store.deep_view(), now),
        decreases products@.len() - i,
    {
        let ghost before = out.deep_view();
        assert(all.take(i + 1).drop_last() =~= all.take(i as int));
        assert(all.take(i + 1).last() == products@[i as int].deep_view());
        let mut more = read_product(&products[i], store, now);
        let ghost added = more.deep_view();
        out.append(&mut more);
        assert(out.deep_view() =~= before + added);
        i = i + 1;
    }
    assert(all.take(all.len() as int) =~= all);
    Ok((out, products.len()))
}

/// Parses one catalog page. The number of products ends the paging: a page whose variants
/// all happen to be unavailable is not the last.
pub fn parse_catalog(json: &str, store: &ShopifyConfig, now: Timestamp) -> (r: Result<
    (Vec<RawListing>, usize),
    String,
>)
    ensures
        catalog_view(r) == catalog_of(json_read(json@), store.deep_view(), now),
{
    catalog_from(parse_json(json), store, now)
}

/// A Shopify store as a source.
#[derive(Debug, PartialEq)]
pub struct ShopifySource {
    config: ShopifyConfig,
}

impl DeepView for ShopifySource {
    type V = ShopifyConfigView;

    closed spec fn deep_view(&self) -> ShopifyConfigView {
        self.config.deep_view()
    }
}

impl ShopifySource {
    /// A source with this configuration.
    pub fn new(config: ShopifyConfig) -> (r: ShopifySource)
        ensures
            r.deep_view() == config.deep_view(),
    {
        ShopifySource { config }
    }

    /// The id of this source.
    pub fn id(&self) -> (r: &str)
        ensures
            r@ == self.deep_view().id,
    {
        self.config.id.as_str()
    }

    /// A fetch from its first page on.
    pub fn start(self) -> (r: ShopifyCrawl)
        ensures
            r.deep_view() == (ShopifyCrawlView {
                config: self.deep_view(),
                page: Some(1),
                listings: Seq::empty(),
            }),
    {
        let listings: Vec<RawListing> = Vec::new();
        assert(listings.deep_view() =~= Seq::empty());
        ShopifyCrawl { config: self.config, page: Some(1), listings }
    }
}

/// A fetch of a store under way.
#[derive(Debug, PartialEq)]
pub struct ShopifyCrawl {
    config: ShopifyConfig,
    page: Option<u32>,
    listings: Vec<RawListing>,
}

/// What `ShopifyCrawl` holds.
#[verifier::ext_equal]
pub struct ShopifyCrawlView {
    pub config: ShopifyConfigView,
    /// The page that is next; none where the fetch is complete.
    pub page: Option<u32>,
    pub listings: Seq<RawListingView>,
}

impl DeepView for ShopifyCrawl {
    type V = ShopifyCrawlView;

    closed spec fn deep_view(&self) -> ShopifyCrawlView {
        ShopifyCrawlView {
            config: self.config.deep_view(),
            page: self.page,
            listings: self.listings.deep_view(),
        }
    }
}

/// The page after `page`, where that one carried `products`: none after an empty page or
/// the last allowed.
pub open spec fn page_after(page: u32, products: nat) -> Option<u32> {
    if products == 0 || page >= MAX_PAGES {
        None
    } else {
        Some((page + 1) as u32)
    }
}

impl ShopifyCrawl {
    /// The page to fetch next; none where the fetch is complete.
    pub fn next_url(&self) -> (r: Option<String>)
        ensures
            r.deep_view() == match self.deep_view().page {
                Some(page) => Some(catalog_page(self.deep_view().config.url, page as nat)),
                None => None,
            },
    {
        match self.page {
            Some(page) => Some(catalog_url(self.config.url.as_str(), page)),
            None => None,
        }
    }

    /// The fetch with one more page read. A page that is no catalog fails the whole fetch.
    pub fn accept(self, body: &str, now: Timestamp) -> (r: Result<ShopifyCrawl, String>)
        requires
            self.deep_view().page is Some,
        ensures
            match (r, catalog_of(json_read(body@), self.deep_view().config, now)) {
                (Ok(next), Ok((found, products))) => next.deep_view() == (ShopifyCrawlView {
                    config: self.deep_view().config,
                    page: page_after(self.deep_view().page->0, products),
                    listings: self.deep_view().listings + found,
                }),
                (Err(e), Err(m)) => e@ == m,
                _ => false,
            },
    {
        let page: u32 = match self.page {
            Some(p) => p,
            None => 1,
        };
        match parse_catalog(body, &self.config, now) {
            Ok((found, products)) => {
                let mut found = found;
                let mut listings = self.listings;
                let ghost a = listings.deep_view();
                let ghost b = found.deep_view();
                listings.append(&mut found);
                assert(listings.deep_view() =~= a + b);
                let next = if products == 0 || page >= MAX_PAGES {
                    None
                } else {
                    Some(page + 1)
                };
                Ok(ShopifyCrawl { config: self.config, page: next, listings })
            },
            Err(e) => Err(e),
        }
    }

    /// The listings found.
    pub fn into_listings(self) -> (r: Vec<RawListing>)
        ensures
            r.deep_view() == self.deep_view().listings,
    {
        self.listings
    }
}

/// Every variant that makes a listing is listed, once each, in order, and nothing else is.
pub proof fn every_available_variant_is_listed(
    title: Seq<char>,
    handle: Seq<char>,
    store: ShopifyConfigView,
    now: Timestamp,
    variants: Seq<JsonView>,
)
    ensures
        variants_listings(title, handle, variants, store, now).map_values(
            |l: RawListingView| Some(l),
        ) == variants.map_values(
            |x: JsonView| variant_listing(title, handle, x, store, now),
        ).filter(|l: Option<RawListingView>| l is Some),
    decreases variants.len(),
{
    reveal(Seq::filter);
    let f = |x: JsonView| variant_listing(title, handle, x, store, now);
    let p = |l: Option<RawListingView>| l is Some;
    let g = |l: RawListingView| Some(l);
    if variants.len() > 0 {
        let rest = variants.drop_last();
        every_available_variant_is_listed(title, handle, store, now, rest);
        assert(variants.map_values(f).drop_last() =~= rest.map_values(f));
        assert(variants.map_values(f).last() == f(variants.last()));
        if let Some(l) = f(variants.last()) {
            let before = variants_listings(title, handle, rest, store, now);
            assert(before.push(l).map_values(g) =~= before.map_values(g).push(Some(l)));
        }
    }
    let all = variants_listings(title, handle, variants, store, now);
    assert(all.map_values(g) =~= variants.map_values(f).filter(p));
}

/// The listing of each variant that makes one is among those of the product.
pub proof fn no_variant_is_dropped(
    title: Seq<char>,
    handle: Seq<char>,
    variants: Seq<JsonView>,
    store: ShopifyConfigView,
    now: Timestamp,
    i: int,
)
    requires
        0 <= i < variants.len(),
    ensures
        variant_listing(title, handle, variants[i], store, now) matches Some(l)
            ==> variants_listings(title, handle, variants, store, now).contains(l),
    decreases variants.len(),
{
    let all = variants_listings(title, handle, variants, store, now);
    let rest = variants.drop_last();
    let before = variants_listings(title, handle, rest, store, now);
    if let Some(l) = variant_listing(title, handle, variants[i], store, now) {
        if i < rest.len() {
            no_variant_is_dropped(title, handle, rest, store, now, i);
            assert(rest[i] == variants[i]);
            let k = choose|k: int| 0 <= k < before.len() && before[k] == l;
            assert(all[k] == l);
        } else {
            assert(all.last() == l);
        }
    }
}

/// A variant is listed exactly where it says that it is available and its price reads as
/// a number or a word for one.
pub proof fn available_and_priced_is_listed(
    title: Seq<char>,
    handle: Seq<char>,
    variant: JsonView,
    store: ShopifyConfigView,
    now: Timestamp,
)
    ensures
        variant_listing(title, handle, variant, store, now) is Some <==> variant.field(
            "available"@,
        ).truth() == Some(true) && variant.field("price"@).text() is Some && reading_of(
            variant.field("price"@).text()->0,
        ) is Some,
        variant_listing(title, handle, variant, store, now) matches Some(l) ==> {
            &&& l.source_id == store.id
            &&& l.scraped_at == now
            &&& l.price_text == amount_text(
                reading_of(variant.field("price"@).text()->0)->0,
            ) + seq![' '] + store.currency
            &&& match variant.field("title"@).text() {
                Some(t) => if t == "Default Title"@ || t.len() == 0 {
                    l.title == title
                } else {
                    l.title == title + seq![' '] + t
                },
                None => l.title == title,
            }
            &&& match variant.field("id"@).integer() {
                Some(n) => l.url == without_slashes(store.url) + "/products/"@ + handle
                    + "?variant="@ + int_text(n as int),
                None => l.url == without_slashes(store.url) + "/products/"@ + handle,
            }
        },
{
    reveal_strlit(" ");
    assert(" "@ =~= seq![' ']);
}

/// An amount that is a number is written in whole units and two decimals, one that is
/// none by its word.
pub proof fn amounts_are_written_in_cents(amount: ReadingView)
    ensures
        amount is Finite ==> amount_text(amount) == money_text(units_of(amount, 2) as int),
        !(amount is Finite) ==> amount_text(amount) == word_text(amount),
{
}

/// Two variants of a product with different ids never share a URL.
pub proof fn variants_have_their_own_urls(base: Seq<char>, handle: Seq<char>, a: i64, b: i64)
    ensures
        variant_url(base, handle, Some(a)) == variant_url(base, handle, Some(b)) ==> a == b,
        variant_url(base, handle, None).is_prefix_of(variant_url(base, handle, Some(a))),
        variant_url(base, handle, Some(a)) != variant_url(base, handle, None),
{
    let front = base + "/products/"@ + handle + "?variant="@;
    let x = variant_url(base, handle, Some(a));
    let y = variant_url(base, handle, Some(b));
    reveal_strlit("?variant=");
    assert(x =~= front + int_text(a as int));
    assert(y =~= front + int_text(b as int));
    if x == y {
        assert(x.skip(front.len() as int) =~= int_text(a as int));
        assert(y.skip(front.len() as int) =~= int_text(b as int));
        int_text_is_unique(a as int, b as int);
    }
    let bare = variant_url(base, handle, None);
    assert(x.len() > bare.len());
    assert(bare =~= x.subrange(0, bare.len() as int));
}

/// What is cut from the end of a base URL is slashes, all of them and nothing else.
pub proof fn only_end_slashes_go(s: Seq<char>)
    ensures
        without_slashes(s).is_prefix_of(s),
        forall|i: int| without_slashes(s).len() <= i < s.len() ==> s[i] == '/',
        without_slashes(s).len() > 0 ==> without_slashes(s).last() != '/',
    decreases s.len(),
{
    if s.len() > 0 && s.last() == '/' {
        let rest = s.drop_last();
        only_end_slashes_go(rest);
        assert forall|i: int| without_slashes(s).len() <= i < s.len() implies s[i] == '/' by {
            if i < rest.len() {
                assert(rest[i] == s[i]);
            }
        }
        assert(without_slashes(s) =~= s.subrange(0, without_slashes(s).len() as int));
    } else {
        assert(s =~= s.subrange(0, s.len() as int));
    }
}

/// A catalog page is asked for by its number, 250 products at a time, whatever slashes the
/// base ends in.
pub proof fn pages_are_asked_for_by_number(base: Seq<char>, page: nat)
    ensures
        catalog_page(base, page) == without_slashes(base) + "/products.json?limit=250&page="@
            + nat_text(page),
        catalog_page(base.push('/'), page) == catalog_page(base, page),
{
    assert(base.push('/').drop_last() =~= base);
}

/// The paging goes on, one page further, after every page before the tenth that carries a
/// product, and after no other.
pub proof fn paging_ends_at_an_empty_page(page: u32, products: nat)
    ensures
        page_after(page, products) is Some <==> products > 0 && page < 10,
        page_after(page, products) matches Some(next) ==> next == page + 1,
{
}

/// The listings of a catalog are those of its products, one product after the other.
pub proof fn catalogs_list_every_product(
    a: Seq<JsonView>,
    b: Seq<JsonView>,
    store: ShopifyConfigView,
    now: Timestamp,
)
    ensures
        products_listings(a + b, store, now) == products_listings(a, store, now)
            + products_listings(b, store, now),
        a.len() == 1 ==> products_listings(a, store, now) == product_listings(a[0], store, now),
        a.len() == 0 ==> products_listings(a, store, now).len() == 0,
    decreases b.len(),
{
    if b.len() == 0 {
        assert(a + b =~= a);
        assert(products_listings(a, store, now) + products_listings(b, store, now)
            =~= products_listings(a, store, now));
    } else {
        catalogs_list_every_product(a, b.drop_last(), store, now);
        assert((a + b).drop_last() =~= a + b.drop_last());
        assert(products_listings(a + b, store, now) =~= products_listings(a, store, now)
            + products_listings(b, store, now));
    }
    if a.len() == 1 {
        assert(a.drop_last() =~= Seq::empty());
        assert(products_listings(a.drop_last(), store, now) =~= Seq::empty());
        assert(products_listings(a, store, now) =~= product_listings(a[0], store, now));
    }
}

/// A product with a title, a handle and a list of variants lists them; one that lacks any
/// of these lists nothing.
pub proof fn products_need_a_title_and_a_handle(
    product: JsonView,
    store: ShopifyConfigView,
    now: Timestamp,
)
    ensures
        match (
            product.field("title"@).text(),
            product.field("handle"@).text(),
            product.field("variants"@).items(),
        ) {
            (Some(t), Some(h), Some(v)) => product_listings(product, store, now).map_values(
                |l: RawListingView| Some(l),
            ) == v.map_values(|x: JsonView| variant_listing(t, h, x, store, now)).filter(
                |l: Option<RawListingView>| l is Some,
            ),
            _ => product_listings(product, store, now).len() == 0,
        },
{
    match (
        product.field("title"@).text(),
        product.field("handle"@).text(),
        product.field("variants"@).items(),
    ) {
        (Some(t), Some(h), Some(v)) => {
            every_available_variant_is_listed(t, h, store, now, v);
        },
        _ => {},
    }
}

/// A page that reads as JSON with a list of products gives their listings and their
/// number; any other fails, one that does not read with the reader's own message.
pub proof fn a_catalog_is_a_list_of_products(
    data: JsonView,
    message: Seq<char>,
    store: ShopifyConfigView,
    now: Timestamp,
)
    ensures
        catalog_of(Err(message), store, now) == Err::<(Seq<RawListingView>, nat), Seq<char>>(message),
        match data.field("products"@).items() {
            Some(products) => catalog_of(Ok(data), store, now) == Ok::<
                (Seq<RawListingView>, nat),
                Seq<char>,
            >((products_listings(products, store, now), products.len())),
            None => catalog_of(Ok(data), store, now) == Err::<
                (Seq<RawListingView>, nat),
                Seq<char>,
            >("no products array (not a Shopify catalog?)"@),
        },
{
}

/// A product has as many listings as it has variants that make one.
pub proof fn one_listing_per_available_variant(
    title: Seq<char>,
    handle: Seq<char>,
    variants: Seq<JsonView>,
    store: ShopifyConfigView,
    now: Timestamp,
)
    ensures
        variants_listings(title, handle, variants, store, now).len() == variants.filter(
            |v: JsonView| variant_listing(title, handle, v, store, now) is Some,
        ).len(),
    decreases variants.len(),
{
    reveal(Seq::filter);
    if variants.len() > 0 {
        one_listing_per_available_variant(title, handle, variants.drop_last(), store, now);
    }
}

} // verus!
