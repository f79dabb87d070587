use ferret::llm::extract_json;
use ferret::normalize::parse_price;
use ferret::scheduler::FailureState;
use ferret::scrape::ebay::extract_item_id;
use ferret::scrape::shopify::catalog_url;

#[test]
fn extract_json_strips_fences_and_prose() {
    assert_eq!(extract_json("{\"a\": 1}"), "{\"a\": 1}");
    assert_eq!(extract_json("```json\n{\"a\": 1}\n```"), "{\"a\": 1}");
    assert_eq!(
        extract_json("Sure! Here is it: {\"a\": {\"b\": 2}} hope it helps"),
        "{\"a\": {\"b\": 2}}"
    );
    assert_eq!(extract_json("no json at all"), "no json at all");
}

#[test]
fn extract_json_skips_think_blocks() {
    let content = "<think>Hmm {is it an hdd?} let me think</think>\n{\"a\": 1}";
    assert_eq!(extract_json(content), "{\"a\": 1}");
}

#[test]
fn backoff_grows_and_caps() {
    let mut fs = FailureState::new(3);
    assert_eq!(fs.record_failure(), 60);
    assert_eq!(fs.record_failure(), 120);
    assert_eq!(fs.record_failure(), 240);
    for _ in 0..10 {
        fs.record_failure();
    }
    assert_eq!(fs.record_failure(), 3600, "capped at 1h");
}

#[test]
fn alerts_once_at_threshold() {
    let mut fs = FailureState::new(3);
    fs.record_failure();
    fs.record_failure();
    assert!(!fs.should_alert());
    fs.record_failure();
    assert!(fs.should_alert(), "alert at the threshold");
    assert!(!fs.should_alert(), "but only once");
    fs.record_failure();
    assert!(!fs.should_alert(), "still silent while failing");
}

#[test]
fn success_resets_everything() {
    let mut fs = FailureState::new(2);
    fs.record_failure();
    fs.record_failure();
    assert!(fs.should_alert());
    fs.record_success();
    assert_eq!(fs.record_failure(), 60, "backoff reset");
    fs.record_failure();
    assert!(fs.should_alert(), "alert re-armed after recovery");
}

#[test]
fn item_id_extraction() {
    assert_eq!(
        extract_item_id("https://www.ebay.fr/itm/335512340001?_skw=x"),
        Some("335512340001".into())
    );
    assert_eq!(extract_item_id("https://www.ebay.fr/sch/"), None);
}

#[test]
fn price_text_round_trips_through_normalize() {
    // the plugin's price_text must stay parseable by the shared pipeline
    assert_eq!(parse_price("450.00 €"), Some((45_000, "EUR".to_string())));
}

#[test]
fn catalog_url_paginates() {
    assert_eq!(
        catalog_url("https://store.example.com/", 3),
        "https://store.example.com/products.json?limit=250&page=3"
    );
}
