use ferret::config::{EbayConfig, LeboncoinConfig, ShopifyConfig, SourceConfig};
use ferret::normalize::parse_price;
use ferret::scrape::ebay::{
    listings_from_cards, page_step, retry_worthy, EbaySource, PageStep, RETRY_WAIT,
};
use ferret::scrape::generic::{page_url, parse_listings, replace_all, GenericSource};
use ferret::scrape::html::{Element, Row};
use ferret::scrape::leboncoin::{curl_args, fingerprint_blocked, next_data, LeboncoinSource};
use ferret::scrape::merge_queries;
use ferret::scrape::shopify::{parse_catalog, trim_slashes, ShopifySource};
use ferret::time::Timestamp;
use ferret::websearch::{found, parse, trim_filler};
use ferret::{scrape::ebay, scrape::leboncoin};

const EBAY_SEARCH: &str = r#"<html><body><ul>
  <li class="s-card"><div class="s-card__title">Shop on eBay</div></li>
  <li class="s-card">
    <div class="s-card__title">NVIDIA RTX 3080 Founders Edition 10GB</div>
    <span class="s-card__price">419,99 EUR</span>
    <a href="https://www.ebay.fr/itm/335512340001?_skw=rtx">view</a>
  </li>
  <li class="s-card">
    <div class="s-card__title">RTX 3080 shipped from the States</div>
    <span class="s-card__price">$399.00</span>
    <a href="https://www.ebay.fr/itm/335512340009">view</a>
  </li>
  <li class="s-card">
    <div class="s-card__title"> MSI RTX 3080 Ventus 3X </div>
    <span class="s-card__price">389,00 €</span>
    <a href="https://www.ebay.fr/itm/335512340002">view</a>
  </li>
  <li class="s-card">
    <div class="s-card__title">NVIDIA RTX 3080 Founders Edition 10GB</div>
    <span class="s-card__price">419,99 EUR</span>
    <a href="https://www.ebay.fr/itm/335512340001">view</a>
  </li>
</ul></body></html>"#;

const LEBONCOIN_SEARCH: &str = r#"<html><body>
<script id="__NEXT_DATA__" type="application/json">{"props":{"pageProps":{"searchData":{"ads":[
 {"subject":"RTX 3080 Founders Edition occasion","price_cents":45000,"status":"active",
  "url":"https://www.leboncoin.fr/ad/informatique/2900000001"},
 {"subject":"Sold already","price_cents":100,"status":"sold",
  "url":"https://www.leboncoin.fr/ad/informatique/2900000002"},
 {"subject":"IronWolf 4TB","price":[90],
  "url":"https://www.leboncoin.fr/ad/informatique/2900000003"}
]}}}}</script></body></html>"#;

const LEBONCOIN_EMPTY: &str = r#"<script id="__NEXT_DATA__" type="application/json">
{"props":{"pageProps":{"searchData":{"total":0}}}}</script>"#;

const EXAMPLE_BOARD: &str = r#"<!doctype html><html><body><main>
  <div class="listing">
    <h2 class="title">Seagate IronWolf 4TB NAS — neuf</h2>
    <span class="price">89,99 €</span>
    <a class="listing-link" href="/item/1?utm_source=feed">details</a>
  </div>
  <div class="listing">
    <h2 class="title">RTX 3080 Founders Edition occasion</h2>
    <span class="price">450 €</span>
    <a class="listing-link" href="https://deals.example.com/item/2">details</a>
  </div>
  <div class="listing">
    <h2 class="title">Mystery item</h2>
    <a class="listing-link" href="/item/3">details</a>
  </div>
</main></body></html>"#;

const SHOPIFY_PRODUCTS: &str = r#"{"products":[
 {"title":"IronWolf NAS HDD","handle":"ironwolf-nas-hdd","variants":[
   {"id":91001,"title":"4TB","price":"119.90","available":true},
   {"id":91002,"title":"8TB","price":"199.90","available":false}]},
 {"title":"MiniPC AI-X1","handle":"minipc-ai-x1","variants":[
   {"id":91003,"title":"Default Title","price":"899","available":true},
   {"id":91004,"title":"Pro","price":"not-a-price","available":true}]}
]}"#;

fn now() -> Timestamp {
    Timestamp::unix_epoch()
}

fn strings(names: &[&str]) -> Vec<String> {
    names.iter().map(|s| s.to_string()).collect()
}

fn ebay_config(queries: &[&str]) -> EbayConfig {
    EbayConfig {
        enabled: true,
        queries: strings(queries),
        delay_ms: 0,
        interval_minutes: 60,
        fetch_command: vec![],
    }
}

fn source_config() -> SourceConfig {
    SourceConfig {
        id: "example-board".into(),
        url: "https://deals.example.com/hardware?page={page}".into(),
        item_selector: "div.listing".into(),
        title_selector: "h2.title".into(),
        price_selector: "span.price".into(),
        link_selector: Some("a.listing-link".into()),
        queries: vec![],
        interval_minutes: 30,
        delay_ms: 0,
        max_concurrency: 1,
        max_pages: 1,
    }
}

fn shopify_config() -> ShopifyConfig {
    ShopifyConfig {
        id: "test-store".into(),
        url: "https://store.example.com/".into(),
        currency: "EUR".into(),
        interval_minutes: 360,
        delay_ms: 0,
    }
}

#[test]
fn ebay_parses_search_fixture() {
    let listings = ebay::parse_search_page(EBAY_SEARCH, now()).unwrap();

    // placeholder ✗ (no price), USD card ✗, duplicate item id ✗
    assert_eq!(listings.len(), 2);

    assert_eq!(listings[0].title, "NVIDIA RTX 3080 Founders Edition 10GB");
    assert_eq!(listings[0].price_text, "419,99 EUR");
    assert_eq!(listings[0].url, "https://www.ebay.fr/itm/335512340001");

    // "419,99 EUR" survives the shared pipeline's price parsing
    assert_eq!(parse_price(&listings[0].price_text), Some((41_999, "EUR".into())));

    assert_eq!(listings[1].url, "https://www.ebay.fr/itm/335512340002");
}

#[test]
fn ebay_blocked_page_is_an_error() {
    assert!(
        ebay::parse_search_page("<html><body>Pardon our interruption</body></html>", now()).is_err()
    );
}

#[test]
fn ebay_title_length_counts_bytes() {
    let element = |text: &str, href: Option<&str>| Element {
        text: text.into(),
        href: href.map(String::from),
        class: None,
    };
    let card = |title: &str| Row {
        own: element("", None),
        parts: vec![
            Some(element(title, None)),
            Some(element("10 €", None)),
            Some(element("view", Some("/itm/7"))),
        ],
    };
    assert_eq!(listings_from_cards(&vec![card("carte 308")], now()).unwrap().len(), 0);
    assert_eq!(listings_from_cards(&vec![card("écran 308")], now()).unwrap().len(), 1);
}

#[test]
fn search_url_encodes() {
    assert_eq!(
        ebay::search_url("rtx 3080"),
        "https://www.ebay.fr/sch/i.html?_nkw=rtx+3080&_sop=15"
    );
}

#[test]
fn ebay_crawl_walks_its_queries() {
    let source = EbaySource::new(ebay_config(&["rtx 3080"]));
    assert_eq!(source.id(), "ebay");
    assert_eq!(source.fetch_command("https://x.fr"), None);
    let crawl = source.start(&strings(&["rtx 3080", "nas"]));
    assert_eq!(crawl.next_url().unwrap(), ebay::search_url("rtx 3080"));
    let crawl = crawl.accept(EBAY_SEARCH, now()).unwrap();
    assert_eq!(crawl.next_url().unwrap(), ebay::search_url("nas"));
    let crawl = crawl.accept(EBAY_SEARCH, now()).unwrap();
    assert_eq!(crawl.next_url(), None);
    assert_eq!(crawl.into_listings().len(), 2, "each URL once");
    assert!(source.start(&vec![]).accept("<p>blocked</p>", now()).is_err());
}

#[test]
fn ebay_fetch_command_gets_the_url() {
    let mut config = ebay_config(&["x"]);
    config.fetch_command = strings(&["browser", "{url}"]);
    assert_eq!(
        EbaySource::new(config).fetch_command("https://x.fr").unwrap(),
        strings(&["browser", "https://x.fr"])
    );
    assert!(retry_worthy(403) && retry_worthy(429) && !retry_worthy(503));
}

#[test]
fn rate_limited_pages_are_asked_for_once_more() {
    let wait = PageStep::Wait { seconds: RETRY_WAIT };
    assert_eq!((page_step(403, false), page_step(429, false)), (wait, wait));
    assert_eq!((page_step(403, true), page_step(429, true)), (PageStep::Fail, PageStep::Fail));
    assert_eq!((page_step(503, false), page_step(404, true)), (PageStep::Fail, PageStep::Fail));
    assert_eq!((page_step(200, false), page_step(200, true)), (PageStep::Take, PageStep::Take));
    assert_eq!((page_step(304, false), page_step(600, false)), (PageStep::Take, PageStep::Take));
}

#[test]
fn a_failed_web_search_finds_nothing() {
    assert!(found(&Err("down".into())).is_empty());
    let page = "<div class=\"result\"><a class=\"result__title\">RTX 5090</a></div>";
    assert_eq!(found(&Ok(page.into())), parse(page));
    assert_eq!(found(&Ok(page.into())).len(), 1);
}

#[test]
fn parses_fixture_listings() {
    let listings =
        parse_listings(EXAMPLE_BOARD, &source_config(), "https://deals.example.com/hardware", now());

    assert_eq!(listings.len(), 2, "broken third listing is skipped");

    assert_eq!(listings[0].title, "Seagate IronWolf 4TB NAS — neuf");
    assert_eq!(listings[0].price_text, "89,99 €");
    // relative href resolved against the page URL
    assert_eq!(listings[0].url, "https://deals.example.com/item/1?utm_source=feed");
    assert_eq!(listings[0].source_id, "example-board");

    assert_eq!(listings[1].url, "https://deals.example.com/item/2");
}

#[test]
fn broken_selectors_find_nothing() {
    let mut config = source_config();
    config.item_selector = "div[".into();
    assert!(parse_listings(EXAMPLE_BOARD, &config, "https://deals.example.com/", now()).is_empty());
}

#[test]
fn page_url_substitution() {
    assert_eq!(page_url(&source_config(), 2), "https://deals.example.com/hardware?page=2");
    let mut cfg = source_config();
    cfg.url = "https://ex.com/deals".into(); // no {page} placeholder
    assert_eq!(page_url(&cfg, 2), "https://ex.com/deals");
    assert_eq!(replace_all("aaa", "aa", "b"), "ba");
    let mut nested = source_config();
    nested.url = "https://ex.com/{pa{page}ge}/{page}".into();
    assert_eq!(page_url(&nested, 12), "https://ex.com/{pa12ge}/12");
}

#[test]
fn generic_crawl_turns_pages() {
    let mut config = source_config();
    config.max_pages = 2;
    let source = GenericSource::new(config);
    assert_eq!(source.id(), "example-board");
    let crawl = source.start(&vec![]);
    assert_eq!(crawl.next_url().unwrap(), "https://deals.example.com/hardware?page=1");
    let crawl = crawl.accept(EXAMPLE_BOARD, now());
    assert_eq!(crawl.next_url().unwrap(), "https://deals.example.com/hardware?page=2");
    let crawl = crawl.accept("<html></html>", now());
    assert_eq!(crawl.next_url(), None);
    assert_eq!(crawl.into_listings().len(), 2);
}

#[test]
fn leboncoin_parses_search_fixture() {
    let listings = leboncoin::parse_search_page(LEBONCOIN_SEARCH, now()).unwrap();

    assert_eq!(listings.len(), 2, "sold ad is skipped");

    assert_eq!(listings[0].title, "RTX 3080 Founders Edition occasion");
    assert_eq!(listings[0].price_text, "450.00 €");
    assert_eq!(listings[0].url, "https://www.leboncoin.fr/ad/informatique/2900000001");
    assert_eq!(listings[0].source_id, "leboncoin");

    // euros-array price shape
    assert_eq!(listings[1].price_text, "90.00 €");
}

#[test]
fn no_results_is_empty_not_error() {
    assert_eq!(leboncoin::parse_search_page(LEBONCOIN_EMPTY, now()).unwrap(), Vec::new());
}

#[test]
fn leboncoin_blocked_page_is_an_error() {
    // a DataDome challenge page has no __NEXT_DATA__ — must be a fetch
    // failure (backoff + alert), never "zero listings"
    assert!(
        leboncoin::parse_search_page("<html><body>Please verify</body></html>", now()).is_err()
    );
}

#[test]
fn every_broken_data_tag_has_its_error() {
    assert_eq!(
        next_data("<p>").unwrap_err(),
        "__NEXT_DATA__ not found (blocked page or new layout)"
    );
    assert_eq!(
        next_data(r#"<script id="__NEXT_DATA__""#).unwrap_err(),
        "malformed __NEXT_DATA__ tag"
    );
    assert_eq!(
        next_data(r#"<script id="__NEXT_DATA__">{}"#).unwrap_err(),
        "unterminated __NEXT_DATA__ tag"
    );
    assert_eq!(next_data(r#"<script id="__NEXT_DATA__" a>{}</script>"#).unwrap(), "{}");
}

#[test]
fn search_url_encodes_query_and_pages() {
    assert_eq!(
        leboncoin::search_url("rtx 3080", 1),
        "https://www.leboncoin.fr/recherche?text=rtx+3080"
    );
    assert_eq!(
        leboncoin::search_url("rtx 3080", 2),
        "https://www.leboncoin.fr/recherche?text=rtx+3080&page=2"
    );
}

#[test]
fn curl_args_carry_browser_identity() {
    let args = curl_args("https://www.leboncoin.fr/recherche?text=x");
    assert!(args.contains(&"--compressed".to_string()));
    assert!(args.iter().any(|a| a.starts_with("User-Agent: Mozilla/5.0")));
    assert_eq!(args.last().unwrap(), "https://www.leboncoin.fr/recherche?text=x");
}

#[test]
fn leboncoin_short_page_is_the_last_one() {
    let source = LeboncoinSource::new(LeboncoinConfig {
        enabled: true,
        queries: strings(&["a"]),
        pages_per_query: 2,
        delay_ms: 0,
        interval_minutes: 30,
    });
    assert_eq!(source.id(), "leboncoin");
    let crawl = source.start(&strings(&["b"]));
    assert_eq!(crawl.next_url().unwrap(), leboncoin::search_url("a", 1));
    let crawl = crawl.accept(LEBONCOIN_SEARCH, now()).unwrap();
    assert_eq!(crawl.next_url().unwrap(), leboncoin::search_url("b", 1));
    let crawl = crawl.accept(LEBONCOIN_EMPTY, now()).unwrap();
    assert_eq!(crawl.next_url(), None);
    assert_eq!(crawl.into_listings().len(), 2);

    // a full page leads to the next one
    let ads: Vec<String> = (0..35)
        .map(|i| format!("{{\"subject\":\"ad\",\"price_cents\":1,\"url\":\"https://x.fr/{i}\"}}"))
        .collect();
    let full = format!(
        "<script id=\"__NEXT_DATA__\">{{\"props\":{{\"pageProps\":{{\"searchData\":{{\"ads\":[{}]}}}}}}}}</script>",
        ads.join(",")
    );
    let crawl = source.start(&vec![]).accept(&full, now()).unwrap();
    assert_eq!(crawl.next_url().unwrap(), leboncoin::search_url("a", 2));
    let crawl = crawl.accept(&full, now()).unwrap();
    assert_eq!(crawl.next_url(), None, "at most the configured pages");
    assert_eq!(crawl.into_listings().len(), 35);
    assert!(fingerprint_blocked(403) && fingerprint_blocked(429) && !fingerprint_blocked(500));
}

#[test]
fn parses_catalog_fixture() {
    let (listings, product_count) =
        parse_catalog(SHOPIFY_PRODUCTS, &shopify_config(), now()).unwrap();
    assert_eq!(product_count, 2);

    // 4TB available ✓; 8TB unavailable ✗; Default Title ✓ (bare title);
    // "not-a-price" variant ✗
    assert_eq!(listings.len(), 2);

    assert_eq!(listings[0].title, "IronWolf NAS HDD 4TB");
    assert_eq!(listings[0].price_text, "119.90 EUR");
    assert_eq!(
        listings[0].url, "https://store.example.com/products/ironwolf-nas-hdd?variant=91001",
        "variant id keeps each variant a distinct deal"
    );

    assert_eq!(listings[1].title, "MiniPC AI-X1", "Default Title is dropped");
    assert_eq!(parse_price(&listings[1].price_text), Some((89_900, "EUR".into())));
}

#[test]
fn odd_catalog_prices_keep_their_words() {
    let text = |price: &str| {
        let body = format!(
            "{{\"products\": [{{\"title\": \"A\", \"handle\": \"a\", \"variants\": \
             [{{\"available\": true, \"price\": \"{price}\"}}]}}]}}"
        );
        parse_catalog(&body, &shopify_config(), now()).unwrap().0.pop().map(|l| l.price_text)
    };
    assert_eq!(text("1e2").as_deref(), Some("100.00 EUR"));
    assert_eq!(text("inf").as_deref(), Some("inf EUR"));
    assert_eq!(text("-1e999").as_deref(), Some("-inf EUR"));
    assert_eq!(text("nan").as_deref(), Some("NaN EUR"));
    assert_eq!(text("free"), None);
}

#[test]
fn queries_are_encoded_byte_by_byte() {
    assert_eq!(
        ebay::search_url("a*b-c.d_e é/&=+~"),
        "https://www.ebay.fr/sch/i.html?_nkw=a*b-c.d_e+%C3%A9%2F%26%3D%2B%7E&_sop=15"
    );
}

#[test]
fn non_catalog_body_is_an_error() {
    assert!(parse_catalog("{\"error\": \"nope\"}", &shopify_config(), now()).is_err());
    assert!(parse_catalog("<html>", &shopify_config(), now()).is_err());
}

#[test]
fn shopify_crawl_ends_at_the_empty_page() {
    let crawl = ShopifySource::new(shopify_config()).start();
    assert_eq!(
        crawl.next_url().unwrap(),
        "https://store.example.com/products.json?limit=250&page=1"
    );
    let crawl = crawl.accept(SHOPIFY_PRODUCTS, now()).unwrap();
    assert_eq!(
        crawl.next_url().unwrap(),
        "https://store.example.com/products.json?limit=250&page=2"
    );
    let crawl = crawl.accept("{\"products\":[]}", now()).unwrap();
    assert_eq!(crawl.next_url(), None);
    assert_eq!(crawl.into_listings().len(), 2);
    assert_eq!(trim_slashes("https://x.fr//"), "https://x.fr");
}

#[test]
fn queries_merge_in_order_without_repeats() {
    assert_eq!(
        merge_queries(&strings(&["a", "b"]), &strings(&["b", "c", "c"])),
        strings(&["a", "b", "c"])
    );
}

#[test]
fn parses_ddg_result_markup() {
    let html = r#"
        <div class="result">
          <h2 class="result__title"><a>NVIDIA GeForce RTX 3090</a></h2>
          <a class="result__snippet">The GeForce RTX 3090 is a big ferocious GPU.</a>
        </div>
        <div class="result">
          <h2 class="result__title"><a>RTX 3090 review</a></h2>
        </div>"#;
    let out = parse(html);
    assert_eq!(out.len(), 2);
    assert!(out[0].contains("ferocious GPU"));
    assert_eq!(out[1], "RTX 3090 review");
}

#[test]
fn ads_are_skipped() {
    let html = r#"
        <div class="result results_links result--ad ">
          <h2 class="result__title"><a>Cheap prices on Amazon</a></h2>
        </div>
        <div class="result results_links web-result ">
          <h2 class="result__title"><a>RTX 3090 specs</a></h2>
        </div>"#;
    let out = parse(html);
    assert_eq!(out, vec!["RTX 3090 specs".to_string()]);
}

#[test]
fn empty_page_yields_nothing() {
    assert!(parse("<html><body>captcha?</body></html>").is_empty());
}

#[test]
fn snippets_stop_at_the_limit() {
    let result = "<div class=\"result\"><h2 class=\"result__title\">t</h2></div>";
    let out = parse(&result.repeat(20));
    assert_eq!(out.len(), ferret::websearch::MAX_SNIPPETS);
    assert_eq!(trim_filler(" — a — "), "a");
}
