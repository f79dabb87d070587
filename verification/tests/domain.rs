use ferret::attributes::{capacity_from, condition_from, extract, read_number};
use ferret::category::{
    categorize, category_score, extract_specs, filters_match, find_value, interpret_heuristic,
    split_list, Category, CategoryOrigin, CategorySpec, CategoryStatus, SpecFilter, SpecKind,
    SpecValue, Specs,
};
use ferret::db::{flag_from_str, verdict_from_str, verdict_to_str};
use ferret::db_rows::{row_to_watch, watch_to_row};
use ferret::deal::{Deal, DealStatus, Flag, LlmVerdict, Moderation};
use ferret::decimal::Decimal;
use ferret::reading::Reading;
use ferret::family::{match_families, FamilyMatch, ProductFamily, StuffingScore};
use ferret::history::watch_prices;
use ferret::matching::watch_matches;
use ferret::money::cents_text;
use ferret::normalize::{
    canonical_url, clean_title, parse_price, read_price, strip_tracking, PriceReading,
};
use ferret::order::{not_after, sort_texts};
use ferret::pattern::{word_bounded, word_hits};
use ferret::pipeline::flag_tag;
use ferret::price::{is_outlier, median};
use ferret::ratio::Ratio;
use ferret::refine::needs_refinement;
use ferret::text::{
    blank, contains, eq_ignore_ascii_case, join, replace, split, split_whitespace, trim,
};
use ferret::time::Timestamp;
use ferret::watch::{Watch, WatchRequest};

fn epoch() -> Timestamp {
    Timestamp::unix_epoch()
}

fn number(n: i64) -> Decimal {
    Decimal::from_i64(n)
}

fn bound(n: i64) -> Reading {
    Reading::Finite(number(n))
}

fn cap(title: &str) -> Option<i64> {
    extract(title).capacity_gb
}

#[test]
fn extracts_tb_capacity() {
    assert_eq!(cap("Seagate IronWolf 4TB NAS"), Some(4000));
    assert_eq!(cap("WD Red 4 To 3.5\""), Some(4000));
}

#[test]
fn extracts_gb_capacity() {
    assert_eq!(cap("Crucial 16GB DDR4 3200"), Some(16));
    assert_eq!(cap("Kit 2x8 Go DDR4"), Some(8)); // first capacity token wins
}

#[test]
fn extracts_fractional_tb() {
    assert_eq!(cap("SSD 1.5TB"), Some(1500));
    assert_eq!(cap("SSD 1,5 To"), Some(1500));
}

#[test]
fn no_capacity_in_gpu_title() {
    // "3080" must not parse as capacity
    assert_eq!(cap("RTX 3080 Founders Edition"), None);
}

#[test]
fn detects_condition() {
    assert_eq!(extract("RTX 3080 occasion").condition.as_deref(), Some("used"));
    assert_eq!(extract("RTX 3080 used, works").condition.as_deref(), Some("used"));
    assert_eq!(extract("Disque neuf sous blister").condition.as_deref(), Some("new"));
    assert_eq!(extract("Serveur reconditionné DL380").condition.as_deref(), Some("refurbished"));
    assert_eq!(extract("HP refurb server").condition.as_deref(), Some("refurbished"));
    assert_eq!(extract("RTX 3080").condition, None);
}

fn half() -> Ratio {
    Ratio::new(1, 2).unwrap()
}

#[test]
fn median_of_odd_and_even_counts() {
    assert_eq!(median(&[3, 1, 2]), Some(2));
    assert_eq!(median(&[4, 1, 2, 3]), Some(2)); // lower of the two middles
    assert_eq!(median(&[]), None);
}

#[test]
fn outlier_when_far_below_median() {
    // median 50_000, ratio 0.5 → outlier under 25_000
    let history = [48_000, 50_000, 52_000, 51_000, 49_000];
    assert!(is_outlier(20_000, &history, half()));
    assert!(!is_outlier(30_000, &history, half()));
    assert!(!is_outlier(50_000, &history, half()));
}

#[test]
fn no_outlier_with_thin_history() {
    // too few observations → never an outlier
    assert!(!is_outlier(1, &[50_000, 51_000], half()));
    assert!(!is_outlier(1, &[], half()));
}

#[test]
fn outlier_boundary_is_exact() {
    let history = [50_000, 50_000, 50_000, 50_000, 50_000];
    assert!(!is_outlier(25_000, &history, half()));
    assert!(is_outlier(24_999, &history, half()));
    assert!(Ratio::new(1, 0).is_none());
}

fn models(names: &[&str]) -> Vec<String> {
    names.iter().map(|s| s.to_string()).collect()
}

#[test]
fn clean_single_model_is_not_ambiguous() {
    assert!(!needs_refinement(Some("nvidia-rtx"), &models(&["3080"]), &[]));
}

#[test]
fn multi_model_title_is_ambiguous() {
    assert!(needs_refinement(Some("nvidia-rtx"), &models(&["3080", "3090"]), &[]));
}

#[test]
fn price_outlier_is_ambiguous() {
    assert!(needs_refinement(Some("nvidia-rtx"), &models(&["3080"]), &[Flag::PriceOutlier]));
}

#[test]
fn no_family_match_is_never_refined() {
    assert!(!needs_refinement(None, &[], &[Flag::PriceOutlier]));
}

fn strings(names: &[&str]) -> Vec<String> {
    names.iter().map(|s| s.to_string()).collect()
}

fn number_spec(key: &str, label: &str, unit: &str) -> CategorySpec {
    CategorySpec {
        key: key.into(),
        label: label.into(),
        kind: SpecKind::Number,
        unit: Some(unit.into()),
        allowed_values: vec![],
        extraction_hint: None,
    }
}

fn hdd() -> Category {
    Category {
        slug: "hdd".into(),
        label: "Hard drive".into(),
        aliases: strings(&["hdd", "disque dur", "ironwolf", "wd red", "nas"]),
        origin: CategoryOrigin::Curated,
        status: CategoryStatus::Active,
        specs: vec![
            number_spec("capacity", "Capacity (GB)", "GB"),
            number_spec("rpm", "Rotation speed", "rpm"),
        ],
        created_at: epoch(),
    }
}

fn gpu() -> Category {
    Category {
        slug: "gpu".into(),
        label: "Graphics card".into(),
        aliases: strings(&["gpu", "rtx", "carte graphique"]),
        origin: CategoryOrigin::Curated,
        status: CategoryStatus::Active,
        specs: vec![CategorySpec {
            key: "model".into(),
            label: "Model".into(),
            kind: SpecKind::Enum,
            unit: None,
            allowed_values: strings(&["3070", "3080", "3090"]),
            extraction_hint: None,
        }],
        created_at: epoch(),
    }
}

#[test]
fn extracts_number_specs() {
    let specs = extract_specs("Seagate IronWolf 4TB 7200 rpm neuf", &hdd());
    assert_eq!(specs.get("capacity"), Some(&SpecValue::Number(number(4000))));
    assert_eq!(specs.get("rpm"), Some(&SpecValue::Number(number(7200))));
    assert_eq!(specs.get("condition"), Some(&SpecValue::Text("new".into())));
}

#[test]
fn extracts_enum_specs() {
    let specs = extract_specs("RTX 3080 occasion", &gpu());
    assert_eq!(specs.get("model"), Some(&SpecValue::Text("3080".into())));
    assert_eq!(specs.get("condition"), Some(&SpecValue::Text("used".into())));
}

#[test]
fn filters_enforce_ops_and_missing_keys_fail() {
    let specs = Specs::new()
        .insert("capacity".to_string(), SpecValue::Number(number(4000)))
        .insert("condition".to_string(), SpecValue::Text("used".into()));

    let min = SpecFilter::Min { key: "capacity".into(), value: bound(4000) };
    let max = SpecFilter::Max { key: "capacity".into(), value: bound(2000) };
    let cond =
        SpecFilter::AnyOf { key: "condition".into(), values: vec!["new".into(), "used".into()] };
    let rpm = SpecFilter::Min { key: "rpm".into(), value: bound(5400) };

    assert!(filters_match(&[min.clone(), cond], &specs));
    assert!(!filters_match(&[max], &specs), "over the max");
    assert!(!filters_match(&[rpm], &specs), "missing key fails");
    assert!(filters_match(&[], &specs), "no filters = pass");
}

#[test]
fn filters_of_every_kind() {
    let specs = Specs::new()
        .insert("model".into(), SpecValue::Text("Ti".into()))
        .insert("ecc".into(), SpecValue::Bool(true))
        .insert("size".into(), SpecValue::Number(Decimal::parse("2.5").unwrap()));
    let eq = SpecFilter::Eq { key: "model".into(), value: "TI".into() };
    let is = SpecFilter::Is { key: "ecc".into(), value: true };
    let is_not = SpecFilter::Is { key: "ecc".into(), value: false };
    let max = SpecFilter::Max { key: "size".into(), value: Reading::parse("2.50").unwrap() };
    let wrong_kind = SpecFilter::Min { key: "model".into(), value: bound(0) };
    assert_eq!(eq.key(), "model");
    assert!(filters_match(&[eq], &specs), "any case");
    assert!(filters_match(&[is, max], &specs));
    assert!(!filters_match(&[is_not], &specs));
    assert!(!filters_match(&[wrong_kind], &specs));
    assert_eq!(specs.len(), 3);
    let replaced = specs.insert("ecc".into(), SpecValue::Bool(false));
    assert_eq!(replaced.len(), 3);
    assert_eq!(replaced.entry(1), ("ecc", &SpecValue::Bool(false)));
}

#[test]
fn categorize_by_alias_and_enum_values() {
    let cats = [hdd(), gpu()];
    assert_eq!(categorize("Seagate IronWolf 4To NAS", &cats).unwrap().slug, "hdd");
    assert_eq!(categorize("RTX 3080 Founders", &cats).unwrap().slug, "gpu");
    // bare model number, no alias — enum value hit still categorizes
    assert_eq!(categorize("MSI 3080 Ventus", &cats).unwrap().slug, "gpu");
    assert!(categorize("Chaise de bureau", &cats).is_none());
}

#[test]
fn aliases_weigh_twice() {
    assert_eq!(category_score("RTX 3080", &gpu()), 3);
    assert_eq!(category_score("MSI 3080 Ventus", &gpu()), 1);
    assert_eq!(category_score("IronWolf NAS", &hdd()), 4);
}

#[test]
fn proposed_categories_never_categorize() {
    let mut proposed = hdd();
    proposed.status = CategoryStatus::Proposed;
    assert!(categorize("IronWolf 4TB", &[proposed]).is_none());
}

#[test]
fn interpret_heuristic_maps_text_to_category_and_floors() {
    let cats = [hdd(), gpu()];
    let (cat, constraints) = interpret_heuristic("4TB HDD", &cats).unwrap();
    assert_eq!(cat.slug, "hdd");
    assert_eq!(
        constraints,
        vec![SpecFilter::Min { key: "capacity".into(), value: bound(4000) }]
    );

    let (cat, constraints) = interpret_heuristic("rtx 3080", &cats).unwrap();
    assert_eq!(cat.slug, "gpu");
    assert_eq!(constraints, vec![SpecFilter::Eq { key: "model".into(), value: "3080".into() }]);

    assert!(interpret_heuristic("machine à café", &cats).is_none());
}

#[test]
fn clean_title_is_expected_by_extractors() {
    // extraction runs on cleaned titles: nbsp collapse must not break units
    let title = clean_title("WD\u{a0}Red 4 To 5400 rpm");
    let specs = extract_specs(&title, &hdd());
    assert_eq!(specs.get("capacity"), Some(&SpecValue::Number(number(4000))));
}

#[test]
fn boolean_specs_go_by_their_keywords() {
    let spec = CategorySpec {
        key: "ecc".into(),
        label: "ECC".into(),
        kind: SpecKind::Boolean,
        unit: None,
        allowed_values: vec![],
        extraction_hint: Some("ECC, registered".into()),
    };
    assert_eq!(find_value("16GB DDR4 ecc", &spec), Some(SpecValue::Bool(true)));
    assert_eq!(find_value("16GB DDR4", &spec), None);
    assert_eq!(split_list(" a, ,b ,"), strings(&["a", "b"]));
}

fn gpu_family() -> ProductFamily {
    ProductFamily {
        name: "nvidia-rtx".into(),
        models: strings(&["2080", "3060", "3070", "3080", "3090", "4080", "4090"]),
        context: vec![],
    }
}

#[test]
fn single_model_scores_zero() {
    let m = match_families("RTX 3080 Founders Edition 10GB", &[gpu_family()]);
    assert_eq!(m.family.as_deref(), Some("nvidia-rtx"));
    assert_eq!(m.models, vec!["3080"]);
    assert_eq!(m.stuffing_score.extra, 0);
}

#[test]
fn stuffed_title_scores_high() {
    let m = match_families("GPU riser for 2080 3060 3070 3080 3090 4080 4090", &[gpu_family()]);
    assert_eq!(m.family.as_deref(), Some("nvidia-rtx"));
    assert_eq!(m.models.len(), 7);
    assert_eq!(m.stuffing_score.extra, m.stuffing_score.siblings);
}

#[test]
fn two_models_score_partial() {
    // 2 of 7 models → (2-1)/(7-1) ≈ 0.1667
    let m = match_families("RTX 3080 or 3090, you pick", &[gpu_family()]);
    assert_eq!(m.models.len(), 2);
    assert_eq!(m.stuffing_score, StuffingScore { extra: 1, siblings: 6 });
}

#[test]
fn model_must_be_word_bounded() {
    // "30809" must not match "3080"
    let m = match_families("Part number 30809", &[gpu_family()]);
    assert_eq!(m.family, None);
    assert!(m.models.is_empty());
}

#[test]
fn no_match_is_empty_default() {
    let m = match_families("4TB IronWolf NAS drive", &[gpu_family()]);
    assert_eq!(m, FamilyMatch::default());
}

#[test]
fn picks_family_with_most_hits() {
    let other = ProductFamily {
        name: "amd-rx".into(),
        models: vec!["6800".into(), "6900".into()],
        context: vec![],
    };
    let m = match_families("RTX 3080 3090 vs RX 6800", &[gpu_family(), other]);
    assert_eq!(m.family.as_deref(), Some("nvidia-rtx"));
}

#[test]
fn context_words_are_required_where_there_are_any() {
    let mut family = gpu_family();
    family.context = strings(&["rtx", "geforce"]);
    assert_eq!(match_families("Dell Optiplex 3080", &[family]), FamilyMatch::default());
    let mut family = gpu_family();
    family.context = strings(&["rtx", "geforce"]);
    assert_eq!(match_families("GeForce 3080", &[family]).models, vec!["3080"]);
}

fn deal() -> Deal {
    Deal {
        id: 0,
        source_id: "src".into(),
        canonical_url: "https://ex.com/1".into(),
        title: "RTX 3080 10GB".into(),
        price_cents: 45_000,
        currency: "EUR".into(),
        family: Some("nvidia-rtx".into()),
        models: vec!["3080".into()],
        capacity_gb: Some(10),
        condition: None,
        stuffing_score: StuffingScore { extra: 0, siblings: 6 },
        flags: vec![],
        status: DealStatus::Active,
        llm_verdict: None,
        llm_reason: None,
        category: None,
        specs: Specs::new(),
        moderation: Moderation::Unmoderated,
        first_seen: epoch(),
        last_seen: epoch(),
    }
}

fn watch() -> Watch {
    Watch {
        id: 0,
        name: "RTX 3080".into(),
        family: Some("nvidia-rtx".into()),
        model: Some("3080".into()),
        min_capacity_gb: None,
        min_price_cents: None,
        max_price_cents: Some(50_000),
        category: None,
        spec_filters: vec![],
        queries: vec![],
        active: true,
        created_at: epoch(),
    }
}

#[test]
fn matches_family_model_and_price() {
    assert!(watch_matches(&watch(), &deal()));
}

#[test]
fn price_over_budget_rejects() {
    let mut d = deal();
    d.price_cents = 60_000;
    assert!(!watch_matches(&watch(), &d));
}

#[test]
fn wrong_model_rejects() {
    let mut w = watch();
    w.model = Some("3090".into());
    assert!(!watch_matches(&w, &deal()));
}

#[test]
fn stuffed_listing_containing_watched_model_still_matches() {
    // stuffing is a signal, not a filter
    let mut d = deal();
    d.models = vec!["3070".into(), "3080".into(), "3090".into()];
    d.stuffing_score = StuffingScore { extra: 2, siblings: 5 };
    assert!(watch_matches(&watch(), &d));
}

#[test]
fn capacity_floor_enforced() {
    let mut w = watch();
    w.family = None;
    w.model = None;
    w.min_capacity_gb = Some(4000);
    let mut d = deal();
    d.capacity_gb = Some(2000);
    assert!(!watch_matches(&w, &d));
    d.capacity_gb = Some(4000);
    assert!(watch_matches(&w, &d));
    d.capacity_gb = None; // watch demands capacity, deal has none
    assert!(!watch_matches(&w, &d));
}

#[test]
fn price_floor_filters_implausible_listings() {
    // a floor filters accessories ("support RTX 3080, 15 €") and scam placeholder prices
    let mut w = watch();
    w.min_price_cents = Some(20_000);
    let mut d = deal();
    d.price_cents = 1_500;
    assert!(!watch_matches(&w, &d));
    d.price_cents = 45_000;
    assert!(watch_matches(&w, &d));
}

#[test]
fn category_watch_gates_on_category_and_spec_filters() {
    let mut w = watch();
    w.family = None;
    w.model = None;
    w.category = Some("hdd".into());
    w.spec_filters = vec![SpecFilter::Min { key: "capacity".into(), value: bound(4000) }];

    let mut d = deal();
    assert!(!watch_matches(&w, &d), "uncategorized deal rejected");

    d.category = Some("hdd".into());
    assert!(!watch_matches(&w, &d), "capacity missing → filter fails");

    d.specs = d.specs.insert("capacity".into(), SpecValue::Number(number(4000)));
    assert!(watch_matches(&w, &d));

    d.category = Some("ssd".into());
    assert!(!watch_matches(&w, &d), "wrong category rejected");
}

#[test]
fn inactive_watch_never_matches() {
    let mut w = watch();
    w.active = false;
    assert!(!watch_matches(&w, &deal()));
}

#[test]
fn llm_verdict_serializes_kebab_case() {
    assert_eq!(verdict_to_str(LlmVerdict::StuffedTitle), "stuffed-title");
    assert_eq!(verdict_from_str("scam"), Ok(LlmVerdict::Scam));
    assert_eq!(
        verdict_from_str("maybe \"so\"").unwrap_err().message(),
        "invalid stored data: bad llm verdict \"maybe \\\"so\\\"\""
    );
}

#[test]
fn flag_serializes_kebab_case() {
    assert_eq!(flag_tag(Flag::PossibleStuffing), "possible-stuffing");
    assert_eq!(flag_tag(Flag::PriceOutlier), "price-outlier");
    assert_eq!(flag_from_str("wanted-ad"), Some(Flag::WantedAd));
    assert_eq!(flag_from_str("other"), None);
}

#[test]
fn watch_request_defaults() {
    let req = WatchRequest::named("4TB HDD".into());
    assert_eq!(req.name, "4TB HDD");
    assert!(req.active);
    assert!(req.family.is_none());
}

#[test]
fn watch_round_trips() {
    let w = watch();
    let row = watch_to_row(&w).unwrap();
    assert_eq!(row.id, "00000000-0000-0000-0000-000000000000");
    assert_eq!(row.created_at, "1970-01-01T00:00:00+00:00");
    assert_eq!(row_to_watch(row).unwrap(), w);
}

#[test]
fn requests_make_watches() {
    let w = WatchRequest::named("x".into()).into_watch(7, epoch());
    assert_eq!((w.id, w.name.as_str(), w.active), (7, "x", true));
}

#[test]
fn prices_are_read_in_every_notation() {
    let eur = |c: i64| Some((c, "EUR".to_string()));
    assert_eq!(parse_price("450 €"), eur(45_000));
    assert_eq!(parse_price("1 234,56 €"), eur(123_456));
    assert_eq!(parse_price("1\u{202f}234,56 €"), eur(123_456));
    assert_eq!(parse_price("1.234,56 EUR"), eur(123_456));
    assert_eq!(parse_price("$1,234.50"), Some((123_450, "USD".to_string())));
    assert_eq!(parse_price("£99"), Some((9_900, "GBP".to_string())));
    assert_eq!(parse_price("Contact seller"), None);
    assert_eq!(read_price("999.999.999.999.999.999 €"), PriceReading::TooLarge);
    assert_eq!(read_price("999.999.999.999.999.999.999 €"), PriceReading::Missing);
    assert_eq!(read_price("nope"), PriceReading::Missing);
}

#[test]
fn urls_lose_their_tracking() {
    assert_eq!(
        canonical_url("https://ex.com/1?utm_source=x&id=3&ref=y#top").as_deref(),
        Some("https://ex.com/1?id=3")
    );
    assert_eq!(canonical_url("https://ex.com/1?utm_source=x").as_deref(), Some("https://ex.com/1"));
    assert_eq!(canonical_url("not a url"), None);
    let pairs = vec![("gclid".to_string(), "1".to_string()), ("q".to_string(), "2".to_string())];
    let kept = strip_tracking(&pairs);
    assert_eq!(kept, vec![("q".to_string(), "2".to_string())]);
    assert_eq!(strip_tracking(&kept), kept, "once is enough");
}

#[test]
fn titles_are_cleaned_once_and_for_all() {
    let cleaned = clean_title("  RTX\u{a0}3080 \n  FE ");
    assert_eq!(cleaned, "RTX 3080 FE");
    assert_eq!(clean_title(&cleaned), cleaned);
}

#[test]
fn decimals_read_write_and_compare() {
    let texts = ["0", "4000", "1.5", "-0.05", "12345678901234567890.125"];
    for t in texts {
        assert_eq!(Decimal::parse(t).unwrap().to_text(), t);
    }
    assert_eq!(Decimal::parse("1e3").unwrap(), number(1000));
    assert_eq!(Decimal::parse("2.50e-1").unwrap().to_text(), "0.25");
    assert_eq!(Decimal::parse("+7").unwrap(), number(7));
    for bad in ["", ".", "1.2.3", "1e", "abc", "1e+", "inf"] {
        assert!(Decimal::parse(bad).is_none(), "{bad}");
    }
    assert!(number(-3).is_at_most(&number(2)));
    assert!(!Decimal::parse("0.1").unwrap().is_at_most(&Decimal::parse("0.09").unwrap()));
    assert_eq!(Decimal::parse("1.005").unwrap().round_shifted(2), 101);
    assert_eq!(Decimal::parse("-1.005").unwrap().round_shifted(2), -101);
    assert_eq!(Decimal::parse("1e30").unwrap().round_shifted(0), i64::MAX);
    assert_eq!(Decimal::from_scaled(1250, -2).to_text(), "12.5");
    assert!(Decimal::from_scaled(1200, -2).is_whole());
}

#[test]
fn readings_go_beyond_numbers() {
    for word in ["inf", "+INF", "Infinity"] {
        assert_eq!(Reading::parse(word), Some(Reading::Infinite { negative: false }), "{word}");
    }
    assert_eq!(Reading::parse("-inf").unwrap().to_text(), "-inf");
    assert!(matches!(Reading::parse("nan"), Some(Reading::NotANumber)));
    assert_eq!(Reading::parse("-NaN").unwrap().to_text(), "NaN");
    assert_eq!(Reading::parse("infinit"), None);
    assert_eq!(Reading::parse(""), None);
    assert_eq!(Reading::parse("1e"), None);

    assert_eq!(Reading::parse("1e1000"), Some(Reading::Infinite { negative: false }));
    assert_eq!(Reading::parse("-2e309"), Some(Reading::Infinite { negative: true }));
    assert_eq!(Reading::parse("1e99999999999999999999999999999999"), Reading::parse("inf"));
    assert_eq!(Reading::parse("1e-1000"), Some(bound(0)));
    assert_eq!(Reading::parse("0e1000"), Some(bound(0)));
    assert_eq!(Reading::parse("0.001e1000"), Reading::parse("inf"));
    assert_eq!(Reading::parse("1e300").unwrap().round_shifted(2), i64::MAX);
    assert_eq!(Reading::parse("-1e1000").unwrap().round_shifted(2), i64::MIN);
    assert_eq!(Reading::parse("nan").unwrap().round_shifted(2), 0);
    assert_eq!(Reading::parse("12.5").unwrap().round_shifted(2), 1250);

    let (inf, nan) = (Reading::parse("inf").unwrap(), Reading::parse("nan").unwrap());
    assert!(bound(7).is_at_most(&inf) && inf.is_at_most(&inf) && !inf.is_at_most(&bound(7)));
    assert!(Reading::parse("-inf").unwrap().is_at_most(&bound(-7)));
    assert!(!nan.is_at_most(&bound(7)) && !bound(7).is_at_most(&nan) && !nan.is_at_most(&nan));
}

#[test]
fn bounds_without_number_let_all_or_nothing_through() {
    let specs = Specs::new().insert("capacity".into(), SpecValue::Number(number(4000)));
    let floor = |t: &str| {
        [SpecFilter::Min { key: "capacity".into(), value: Reading::parse(t).unwrap() }]
    };
    let ceiling = |t: &str| {
        [SpecFilter::Max { key: "capacity".into(), value: Reading::parse(t).unwrap() }]
    };
    assert!(filters_match(&floor("-inf"), &specs) && filters_match(&ceiling("1e400"), &specs));
    assert!(!filters_match(&floor("inf"), &specs) && !filters_match(&ceiling("-inf"), &specs));
    assert!(!filters_match(&floor("nan"), &specs) && !filters_match(&ceiling("nan"), &specs));
    assert!(filters_match(&floor("1e-400"), &specs));
}

#[test]
fn whole_capacities_are_read_in_gigabytes() {
    for (n, unit, gb) in [("16", "go", 16), ("500", "gb", 500), ("4", "to", 4000), ("2", "tb", 2000)]
    {
        assert_eq!(capacity_from(n, unit), Some(gb), "{n} {unit}");
    }
    assert_eq!(capacity_from("9999999999999999999", "to"), Some(i64::MAX));
}

#[test]
fn attributes_piece_by_piece() {
    assert_eq!(read_number("1,5").unwrap().to_text(), "1.5");
    assert_eq!(capacity_from("2,5", "to"), Some(2500));
    assert_eq!(capacity_from("512", "go"), Some(512));
    assert_eq!(condition_from("comme neuf, occasion").as_deref(), Some("used"));
    assert_eq!(cents_text(-5), "-0.05");
    assert_eq!(cents_text(123_456), "1234.56");
}

#[test]
fn words_are_found_whole_and_literally() {
    assert!(word_bounded("Disque M.2 neuf", "m.2"));
    assert!(!word_bounded("Disque MX2 neuf", "m.2"), "the dot is no wildcard");
    assert_eq!(word_hits("RTX 3080", &strings(&["3080", "308"])), vec![true, false]);
}

#[test]
fn texts_are_cut_and_joined() {
    assert_eq!(trim("\u{a0} a b \n"), "a b");
    assert_eq!(split_whitespace(" a  b\tc "), strings(&["a", "b", "c"]));
    assert_eq!(split("a,,b", ','), strings(&["a", "", "b"]));
    assert_eq!(join(&strings(&["a", "b"]), " · "), "a · b");
    assert_eq!(replace("a b c", ' ', "--"), "a--b--c");
    assert!(contains("ferret", "erre") && !contains("ferret", "x"));
    assert!(eq_ignore_ascii_case("RTX", "rtx") && !eq_ignore_ascii_case("É", "é"));
    assert!(blank(" \t") && !blank("x"));
}

#[test]
fn texts_sort_alphabetically() {
    assert!(not_after("abc", "abd") && not_after("ab", "abc") && !not_after("b", "abc"));
    assert_eq!(sort_texts(&strings(&["qwen3", "llama", "qwen", "Mistral"])),
        strings(&["Mistral", "llama", "qwen", "qwen3"]));
}

#[test]
fn watch_prices_come_to_one_point_a_day() {
    let point = |day: &str, price_cents: i64| ferret::deal::PricePoint { day: day.into(), price_cents };
    let out = watch_prices(&vec![
        point("2026-07-21", 90_000),
        point("2026-07-20", 150_000),
        point("2026-07-20", 100_000),
        point("2026-07-20", 160_000),
        point("2026-07-21", 149_000),
    ]);
    assert_eq!(out.len(), 2);
    assert_eq!(
        (out[0].day.as_str(), out[0].min_cents, out[0].median_cents, out[0].count),
        ("2026-07-20", 100_000, 150_000, 3)
    );
    assert_eq!(
        (out[1].day.as_str(), out[1].min_cents, out[1].median_cents, out[1].count),
        ("2026-07-21", 90_000, 90_000, 2)
    );
    assert!(watch_prices(&vec![]).is_empty());
}

#[test]
fn the_last_of_equal_categories_wins() {
    let mut twin = hdd();
    twin.slug = "hdd-twin".into();
    let cats = [hdd(), twin];
    assert_eq!(categorize("IronWolf 4TB", &cats).unwrap().slug, "hdd-twin");
}

#[test]
fn tighter_floors_match_no_more() {
    let specs = Specs::new().insert("capacity".into(), SpecValue::Number(number(4000)));
    let floor = |n: i64| [SpecFilter::Min { key: "capacity".into(), value: bound(n) }];
    assert!(filters_match(&floor(2000), &specs));
    assert!(filters_match(&floor(4000), &specs));
    assert!(!filters_match(&floor(4001), &specs));
}
