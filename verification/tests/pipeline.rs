use ferret::category::{Category, SpecValue};
use ferret::config::{Config, ScrapeConfig, SourceConfig};
use ferret::db::{day_text, DbError};
use ferret::db_category::{category_from_row, category_to_row, seeds_to_store, spec_from_row, specs_to_rows};
use ferret::db_rows::{deal_to_row, row_to_deal};
use ferret::deal::{Deal, DealStatus, Flag, LlmVerdict, Moderation};
use ferret::decimal::Decimal;
use ferret::family::ProductFamily;
use ferret::fetch::Fetch;
use ferret::ingest::{Ingest, Next, Reply, Request, Rules};
use ferret::listing::RawListing;
use ferret::llm::Refinement;
use ferret::notify::Notification;
use ferret::pipeline::{
    apply_refinement, has_dropped, mark_gone, records_price, upsert_deal, PipelineStats,
    UpsertOutcome,
};
use ferret::ratio::Ratio;
use ferret::search::{one_shot_sources, progress_of, SearchContext, SearchJob};
use ferret::seeds::builtin;
use ferret::sources::schedule;
use ferret::status::SourceProgress;
use ferret::time::Timestamp;
use ferret::watch::{Watch, WatchRequest};
use ferret::watches::{armed_price, retro_match, watch_queries, MAX_QUERIES};

fn epoch() -> Timestamp {
    Timestamp::unix_epoch()
}

fn strings(names: &[&str]) -> Vec<String> {
    names.iter().map(|s| s.to_string()).collect()
}

fn listing(title: &str, price: &str, url: &str) -> RawListing {
    RawListing {
        source_id: "test-src".into(),
        title: title.into(),
        price_text: price.into(),
        url: url.into(),
        scraped_at: epoch(),
    }
}

fn families() -> Vec<ProductFamily> {
    vec![ProductFamily {
        name: "nvidia-rtx".into(),
        models: strings(&["3070", "3080", "3090", "4080", "4090"]),
        context: vec![],
    }]
}

fn rtx_watch() -> Watch {
    let mut request = WatchRequest::named("RTX 3080".into());
    request.family = Some("nvidia-rtx".into());
    request.model = Some("3080".into());
    request.max_price_cents = Some(50_000);
    request.into_watch(1, epoch())
}

fn refinement(verdict: LlmVerdict, reason: &str) -> Refinement {
    Refinement { verdict, reason: reason.into(), capacity_gb: None, condition: None }
}

/// A store in memory, with the notifications that went out and the calls to the LLM.
struct World {
    rules: Rules,
    deals: Vec<Deal>,
    prices: Vec<(u128, i64)>,
    model_prices: Vec<(String, String, i64)>,
    matches: Vec<(u128, u128, Option<i64>)>,
    sent: Vec<Notification>,
    refiner: Option<Option<Refinement>>,
    calls: u32,
    next_id: u128,
}

impl World {
    fn new() -> World {
        World {
            rules: Rules {
                families: families(),
                categories: vec![],
                watches: vec![rtx_watch()],
                scrape: ScrapeConfig::default(),
                llm: false,
            },
            deals: vec![],
            prices: vec![],
            model_prices: vec![],
            matches: vec![],
            sent: vec![],
            refiner: None,
            calls: 0,
            next_id: 100,
        }
    }

    fn with_refiner(result: Option<Refinement>) -> World {
        let mut w = World::new();
        w.rules.llm = true;
        w.refiner = Some(result);
        w
    }

    fn answer(&mut self, request: Request) -> Reply {
        match request {
            Request::RecentPrices { family, model, limit } => Reply::Prices {
                history: self
                    .model_prices
                    .iter()
                    .rev()
                    .filter(|p| p.0 == family && p.1 == model)
                    .take(limit as usize)
                    .map(|p| p.2)
                    .collect(),
            },
            Request::StoredDeal { source_id, canonical_url } => Reply::Stored {
                deal: self
                    .deals
                    .iter()
                    .find(|d| d.source_id == source_id && d.canonical_url == canonical_url)
                    .cloned(),
            },
            Request::SaveDeal { deal, outcome } => {
                if records_price(outcome) {
                    self.prices.push((deal.id, deal.price_cents));
                }
                self.save(deal);
                Reply::Done
            }
            Request::Refine { .. } => {
                self.calls += 1;
                let r = self.refiner.as_ref().unwrap();
                Reply::Refined {
                    refinement: r.as_ref().map(|r| Refinement {
                        verdict: r.verdict,
                        reason: r.reason.clone(),
                        capacity_gb: r.capacity_gb,
                        condition: r.condition.clone(),
                    }),
                }
            }
            Request::SaveRefined { deal } => {
                self.save(deal);
                Reply::Done
            }
            Request::RecordPrice { family, model, price_cents } => {
                self.model_prices.push((family, model, price_cents));
                Reply::Done
            }
            Request::RecordMatch { deal_id, watch_id } => {
                match self.matches.iter().find(|m| m.0 == deal_id && m.1 == watch_id) {
                    Some(m) => Reply::Match { fresh: false, notified: m.2 },
                    None => {
                        self.matches.push((deal_id, watch_id, None));
                        Reply::Match { fresh: true, notified: None }
                    }
                }
            }
            Request::Push { notification, deal_id, watch_id, price_cents } => {
                self.sent.push(notification);
                for m in self.matches.iter_mut() {
                    if m.0 == deal_id && m.1 == watch_id {
                        m.2 = Some(price_cents);
                    }
                }
                Reply::Done
            }
        }
    }

    fn save(&mut self, deal: Deal) {
        self.deals.retain(|d| d.id != deal.id);
        self.deals.push(deal);
    }

    fn run(&mut self, listings: Vec<RawListing>) -> PipelineStats {
        let mut fetch = Fetch::new();
        for raw in listings {
            self.next_id += 1;
            let mut next = Ingest::begin(&self.rules, &raw, self.next_id, epoch());
            let report = loop {
                match next {
                    Next::Finished { report } => break report,
                    Next::Ask { ingest, request } => {
                        let reply = self.answer(request);
                        next = ingest.reply(&self.rules, reply);
                    }
                }
            };
            assert!(fetch.room_for(report));
            fetch = fetch.take(&raw, report);
        }
        let active: Vec<(u128, String)> = self
            .deals
            .iter()
            .filter(|d| d.status == DealStatus::Active)
            .map(|d| (d.id, d.canonical_url.clone()))
            .collect();
        let (stats, gone) = fetch.finish(&active, true);
        for d in self.deals.iter_mut() {
            if gone.contains(&d.id) {
                d.status = DealStatus::Gone;
            }
        }
        stats
    }
}

#[test]
fn matching_listing_is_persisted_and_notified() {
    let mut w = World::new();
    let stats =
        w.run(vec![listing("RTX 3080 FE occasion", "450 €", "https://ex.com/1?utm_source=x")]);

    assert_eq!(stats.new_deals, 1);
    assert_eq!(stats.notified, 1);

    assert_eq!(w.deals.len(), 1);
    assert_eq!(w.deals[0].canonical_url, "https://ex.com/1"); // tracking stripped
    assert_eq!(w.deals[0].price_cents, 45_000);
    assert_eq!(w.deals[0].models, vec!["3080"]);
    assert!(w.deals[0].flags.is_empty());

    assert_eq!(w.sent.len(), 1);
    assert!(w.sent[0].title.contains("RTX 3080"), "notification titled by watch");
}

#[test]
fn rescrape_does_not_renotify() {
    let mut w = World::new();
    w.run(vec![listing("RTX 3080 FE", "450 €", "https://ex.com/1")]);
    let stats = w.run(vec![listing("RTX 3080 FE", "450 €", "https://ex.com/1")]);

    assert_eq!(stats.new_deals, 0);
    assert_eq!(stats.updated_deals, 1);
    assert_eq!(stats.notified, 0, "same deal same price, no second push");
    assert_eq!(w.sent.len(), 1);
}

#[test]
fn price_drop_renotifies_small_change_does_not() {
    let mut w = World::new();
    w.run(vec![listing("RTX 3080 FE", "450 €", "https://ex.com/1")]);

    // -2% : below the 5% threshold → silent
    let stats = w.run(vec![listing("RTX 3080 FE", "441 €", "https://ex.com/1")]);
    assert_eq!(stats.notified, 0);

    // -10% vs last NOTIFIED price (450) → re-notify
    let stats = w.run(vec![listing("RTX 3080 FE", "405 €", "https://ex.com/1")]);
    assert_eq!(stats.notified, 1);
    assert_eq!(w.sent.len(), 2);
    assert!(
        w.sent[1].title.contains("450.00 → 405.00"),
        "drop shown in title: {}",
        w.sent[1].title
    );
    assert!(w.sent[1].tags.contains("chart_with_downwards_trend"));

    // price history recorded every change
    assert_eq!(w.prices.last().unwrap().1, 40_500);
}

#[test]
fn unseen_deal_goes_gone_and_revives() {
    let mut w = World::new();
    w.run(vec![listing("RTX 3080 FE", "450 €", "https://ex.com/1")]);

    // next tick: the listing is no longer published
    let stats = w.run(vec![]);
    assert_eq!(stats.gone, 1);
    assert_eq!(w.deals[0].status, DealStatus::Gone);

    // it reappears → revived, no duplicate notification
    let stats = w.run(vec![listing("RTX 3080 FE", "450 €", "https://ex.com/1")]);
    assert_eq!(stats.gone, 0);
    assert_eq!(stats.notified, 0);
    assert_eq!(w.deals[0].status, DealStatus::Active);
}

#[test]
fn stuffed_listing_matches_with_flag() {
    let mut w = World::new();
    w.run(vec![listing(
        "Brackets for 3070 3080 3090 4080 4090",
        "400 €",
        "https://ex.com/stuffed",
    )]);

    assert_eq!(w.deals.len(), 1);
    assert!(w.deals[0].flags.contains(&Flag::PossibleStuffing));
    // noise policy: the match is recorded and visible, the push is not
    assert_eq!(w.sent.len(), 0, "stuffed = no push");
    assert!(!w.matches.is_empty(), "match still recorded for the UI");
}

#[test]
fn ambiguous_new_deal_is_refined_and_merged() {
    let mut r = refinement(LlmVerdict::StuffedTitle, "accessory listing");
    r.capacity_gb = Some(10);
    let mut w = World::with_refiner(Some(r));
    let stats =
        w.run(vec![listing("Riser for 3070 3080 3090 4080 4090", "400 €", "https://ex.com/s")]);

    assert_eq!(stats.refined, 1);
    assert_eq!(w.calls, 1);
    assert_eq!(w.deals[0].llm_verdict, Some(LlmVerdict::StuffedTitle));
    assert_eq!(w.deals[0].llm_reason.as_deref(), Some("accessory listing"));
    assert_eq!(w.deals[0].capacity_gb, Some(10), "empty capacity filled by LLM");
    // heuristic signal untouched; match recorded but the stuffed-title
    // verdict suppresses the push (noise policy)
    assert!(w.deals[0].flags.contains(&Flag::PossibleStuffing));
    assert_eq!(w.sent.len(), 0);
    assert_eq!(stats.suppressed, 1);
}

#[test]
fn refinement_never_overwrites_heuristic_condition() {
    let mut r = refinement(LlmVerdict::Genuine, "bundle of two GPUs");
    r.condition = Some("new".into()); // heuristics will already say "used"
    let mut w = World::with_refiner(Some(r));
    w.run(vec![listing("RTX 3080 + 3090 occasion", "800 €", "https://ex.com/b")]);

    assert_eq!(w.deals[0].condition.as_deref(), Some("used"), "heuristic wins");
    assert_eq!(w.deals[0].llm_verdict, Some(LlmVerdict::Genuine));
}

#[test]
fn llm_failure_is_fail_open() {
    let mut w = World::with_refiner(None);
    let stats = w.run(vec![listing("Riser for 3070 3080 3090", "400 €", "https://ex.com/s")]);

    assert_eq!(stats.refined, 0);
    assert_eq!(w.calls, 1);
    assert_eq!(w.deals.len(), 1, "deal persisted despite LLM failure");
    assert_eq!(w.deals[0].llm_verdict, None);
    // no verdict → heuristics gate: the possible-stuffing flag
    // suppresses the push, the match itself is recorded
    assert_eq!(w.sent.len(), 0);
    assert_eq!(stats.suppressed, 1);
}

#[test]
fn llm_calls_go_to_matches_and_ambiguity_only() {
    let mut w = World::with_refiner(Some(refinement(LlmVerdict::Genuine, "")));
    w.run(vec![
        // clean AND matches the watch → one gate call, then notified
        listing("RTX 3080 FE occasion", "450 €", "https://ex.com/1"),
        // no family, no match → never touches the LLM
        listing("4TB IronWolf NAS", "90 €", "https://ex.com/2"),
    ]);
    assert_eq!(w.calls, 1, "one call: the notification gate on the match");
    assert_eq!(w.sent.len(), 1, "genuine verdict → push goes out");
    let matched = w.deals.iter().filter(|d| d.llm_verdict.is_some()).count();
    assert_eq!(matched, 1, "only the matched deal got a verdict");
}

#[test]
fn rescrape_does_not_rerefine() {
    let mut w = World::with_refiner(Some(refinement(LlmVerdict::StuffedTitle, "stuffed")));
    let l = || listing("Riser for 3070 3080 3090", "400 €", "https://ex.com/s");
    w.run(vec![l()]);
    let stats = w.run(vec![l()]);

    assert_eq!(w.calls, 1, "only the first sighting is refined");
    assert_eq!(stats.refined, 0);
    // stored verdict survives the re-scrape
    assert_eq!(w.deals[0].llm_verdict, Some(LlmVerdict::StuffedTitle));
}

#[test]
fn deals_get_categorized_with_spec_values() {
    let mut w = World::new();
    w.rules.categories = builtin(&[], epoch());
    w.run(vec![listing("Seagate IronWolf 4TB NAS 7200rpm", "90 €", "https://ex.com/hdd")]);
    assert_eq!(w.deals[0].category.as_deref(), Some("hdd"));
    assert_eq!(
        w.deals[0].specs.get("capacity"),
        Some(&SpecValue::Number(Decimal::from_i64(4000)))
    );
    assert_eq!(w.deals[0].specs.get("rpm"), Some(&SpecValue::Number(Decimal::from_i64(7200))));
}

#[test]
fn unparseable_price_is_skipped() {
    let mut w = World::new();
    let stats = w.run(vec![listing("RTX 3080", "Contact seller", "https://ex.com/1")]);
    assert_eq!(stats.skipped, 1);
    assert!(w.deals.is_empty());
}

#[test]
fn unreadable_url_is_skipped() {
    let mut w = World::new();
    let stats = w.run(vec![
        listing("RTX 3080", "450 €", "nowhere"),
        listing("RTX 3080", "450 €", "ftp://ex.com/1"),
        listing("RTX 3080", "999.999.999.999.999.999 €", "https://ex.com/1"),
    ]);
    assert_eq!(stats.skipped, 3);
    assert!(w.deals.is_empty());
}

#[test]
fn price_outlier_flagged_after_history_builds() {
    let mut w = World::new();
    // seed 5 unambiguous observations around 450 €
    for price in [44_000, 45_000, 46_000, 45_500, 44_500] {
        w.model_prices.push(("nvidia-rtx".into(), "3080".into(), price));
    }
    w.run(vec![listing("RTX 3080 cheap!!", "100 €", "https://ex.com/scam")]);
    assert!(w.deals[0].flags.contains(&Flag::PriceOutlier));
}

#[test]
fn muted_deals_are_never_pushed() {
    let mut w = World::new();
    w.run(vec![listing("RTX 3080 FE", "450 €", "https://ex.com/1")]);
    w.deals[0].moderation = Moderation::Dismissed;
    let stats = w.run(vec![listing("RTX 3080 FE", "300 €", "https://ex.com/1")]);
    assert_eq!(stats.notified, 0);
    assert_eq!(w.deals[0].moderation, Moderation::Dismissed, "kept by the re-scrape");
    assert_eq!(w.deals[0].price_cents, 30_000);
}

fn deal(url: &str, price: i64) -> Deal {
    let mut w = World::new();
    w.rules.watches = vec![];
    w.run(vec![listing("RTX 3080", "1 €", url)]);
    let mut d = w.deals.remove(0);
    d.price_cents = price;
    d
}

fn flagged(url: &str, price: i64) -> Deal {
    let mut d = deal(url, price);
    d.flags = vec![Flag::PossibleStuffing];
    d
}

#[test]
fn upsert_deal_inserts_then_updates() {
    let mut prices: Vec<(u128, String, i64)> = vec![];
    let mut record = |d: &Deal, outcome: UpsertOutcome| {
        if records_price(outcome) {
            let day = day_text(epoch()).unwrap();
            prices.retain(|p| (p.0, &p.1) != (d.id, &day));
            prices.push((d.id, day, d.price_cents));
        }
        prices.clone()
    };
    let (stored, outcome) = upsert_deal(None, flagged("https://ex.com/1", 45_000));
    assert_eq!(outcome, UpsertOutcome::New);
    assert_eq!(stored.flags, vec![Flag::PossibleStuffing]);
    record(&stored, outcome);
    let (id, first_seen) = (stored.id, stored.first_seen);

    // same source and URL, new price: updated, with its id and its first sight
    let mut d2 = flagged("https://ex.com/1", 42_000);
    d2.id = 7;
    d2.first_seen = Timestamp { seconds: 60, nanos: 0 };
    let (updated, outcome) = upsert_deal(Some(stored), d2);
    assert_eq!(outcome, UpsertOutcome::PriceChanged { old_price_cents: 45_000 });
    assert_eq!(updated.id, id);
    assert_eq!(updated.price_cents, 42_000);
    assert_eq!(updated.first_seen, first_seen);
    record(&updated, outcome);

    // same price again: unchanged
    let mut d3 = flagged("https://ex.com/1", 42_000);
    d3.id = 8;
    let (same, outcome) = upsert_deal(Some(updated), d3);
    assert_eq!(outcome, UpsertOutcome::Unchanged);
    assert_eq!(same.id, id, "one deal");

    // one price a day, the latest wins
    let prices = record(&same, outcome);
    assert_eq!(prices.len(), 1);
    assert_eq!(prices[0].2, 42_000);
}

#[test]
fn mark_gone_and_revive() {
    let mut d1 = flagged("https://ex.com/1", 45_000);
    d1.id = 1;
    let mut d2 = flagged("https://ex.com/2", 46_000);
    d2.id = 2;
    let active = vec![(d1.id, d1.canonical_url.clone()), (d2.id, d2.canonical_url.clone())];

    // a fetch that only saw /2: /1 goes gone
    let gone = mark_gone(&active, &strings(&["https://ex.com/2"]), true);
    assert_eq!(gone, vec![d1.id]);
    assert!(mark_gone(&active, &vec![], false).is_empty(), "a partial fetch marks nothing");
    d1.status = DealStatus::Gone;
    assert_eq!(d2.status, DealStatus::Active);

    // /1 reappears: revived
    let (revived, outcome) = upsert_deal(Some(d1), flagged("https://ex.com/1", 45_000));
    assert_eq!(outcome, UpsertOutcome::Unchanged);
    assert_eq!(revived.status, DealStatus::Active);
    assert_eq!(revived.id, 1);

    // other sources are untouched: none of their deals are among those asked about
    assert!(mark_gone(&vec![], &vec![], true).is_empty());
}

#[test]
fn refinement_fills_gaps_but_never_overwrites() {
    let mut d = flagged("https://ex.com/1", 45_000);
    d.condition = Some("used".into()); // heuristic already extracted this
    d.capacity_gb = None;
    let (stored, _) = upsert_deal(None, d);

    let refined = apply_refinement(
        stored,
        Refinement {
            verdict: LlmVerdict::StuffedTitle,
            reason: "title enumerates five sibling GPUs".into(),
            capacity_gb: Some(10),
            condition: Some("new".into()), // must NOT replace the heuristic "used"
        },
    );
    assert_eq!(refined.llm_verdict, Some(LlmVerdict::StuffedTitle));
    assert_eq!(refined.llm_reason.as_deref(), Some("title enumerates five sibling GPUs"));
    assert_eq!(refined.capacity_gb, Some(10), "empty capacity filled");
    assert_eq!(refined.condition.as_deref(), Some("used"), "heuristic kept");
    // heuristic flags untouched
    assert_eq!(refined.flags, vec![Flag::PossibleStuffing]);
}

#[test]
fn rescrape_keeps_llm_fields() {
    let (stored, _) = upsert_deal(None, flagged("https://ex.com/1", 45_000));
    let stored = apply_refinement(stored, refinement(LlmVerdict::Genuine, "looks fine"));

    // seen again, with nothing said of it yet
    let mut d2 = flagged("https://ex.com/1", 42_000);
    d2.id = 7;
    let (updated, _) = upsert_deal(Some(stored), d2);
    assert_eq!(updated.llm_verdict, Some(LlmVerdict::Genuine));
    assert_eq!(updated.llm_reason.as_deref(), Some("looks fine"));

    // and it reads back from its row
    let listed = row_to_deal(deal_to_row(&updated).unwrap()).unwrap();
    assert_eq!(listed.llm_verdict, Some(LlmVerdict::Genuine));
}

#[test]
fn days_are_written_in_utc() {
    assert_eq!(day_text(epoch()).as_deref(), Some("1970-01-01"));
    let late = Timestamp { seconds: 1_784_591_999, nanos: 5 };
    assert_eq!(day_text(late).as_deref(), Some("2026-07-20"));
    assert_eq!(day_text(Timestamp { seconds: i64::MAX, nanos: 0 }), None);
}

#[test]
fn columns_say_what_is_wrong_with_them() {
    let d = flagged("https://ex.com/1", 45_000);
    let broken = |models: &str, flags: &str| {
        let mut row = deal_to_row(&d).unwrap();
        row.models = models.into();
        row.flags = flags.into();
        match row_to_deal(row) {
            Err(DbError::Corrupt(m)) => m,
            other => panic!("{other:?}"),
        }
    };
    assert_eq!(
        broken("[\"3080\", 1]", "[]"),
        "bad models json: invalid type: integer `1`, expected a string at line 1 column 10"
    );
    assert_eq!(
        broken("[]", "[\"shiny\"]"),
        "bad flags json: unknown variant `shiny`, expected one of `possible-stuffing`, \
         `price-outlier`, `wanted-ad`"
    );
    assert_eq!(broken("[]", "[null]"), "bad flags json: invalid type: null, expected string or map");
    assert_eq!(broken("[]", "{}"), "bad flags json: invalid type: map, expected a sequence");
    assert!(broken("[]", "[").starts_with("bad flags json: EOF"));

    let mut row = deal_to_row(&d).unwrap();
    row.flags = "[{\"wanted-ad\": null}, \"price-outlier\"]".into();
    assert_eq!(row_to_deal(row).unwrap().flags, vec![Flag::WantedAd, Flag::PriceOutlier]);
}

#[test]
fn drops_are_measured_against_the_notified_price() {
    let five = Ratio::new(5, 1).unwrap();
    assert!(has_dropped(95, 100, five), "exactly the threshold");
    assert!(!has_dropped(96, 100, five));
    assert!(!has_dropped(100, 100, five));
}

#[test]
fn stored_deals_read_back() {
    let d = deal("https://ex.com/1", 45_000);
    let row = deal_to_row(&d).unwrap();
    assert_eq!(row.status, "active");
    assert_eq!(row_to_deal(row).unwrap(), d);
    let mut row = deal_to_row(&d).unwrap();
    row.status = "lost".into();
    assert!(row_to_deal(row).is_err());
}

#[test]
fn retro_match_populates_matches_and_sends_one_summary() {
    let mut gone = deal("https://ex.com/3", 30_000);
    gone.status = DealStatus::Gone;
    let deals = vec![deal("https://ex.com/1", 45_000), deal("https://ex.com/2", 42_000), gone];
    let r = retro_match(&rtx_watch(), &deals, "created");
    assert_eq!(r.matched, vec![0, 1], "gone deal excluded");
    assert_eq!(r.best, Some((42_000, "EUR".into())));
    assert!(r.summary.message.contains("2 existing deals match"), "{}", r.summary.message);
    assert!(r.summary.message.contains("420.00 EUR"), "{}", r.summary.message);
}

#[test]
fn retro_match_leaves_out_what_was_put_aside() {
    let mut dismissed = deal("https://ex.com/1", 30_000);
    dismissed.moderation = Moderation::Dismissed;
    let mut banned = deal("https://ex.com/2", 31_000);
    banned.moderation = Moderation::Banned;
    let r = retro_match(
        &rtx_watch(),
        &vec![dismissed, banned, deal("https://ex.com/3", 45_000)],
        "created",
    );
    assert_eq!(r.matched, vec![2]);
    assert_eq!(r.best, Some((45_000, "EUR".into())));
}

#[test]
fn new_matches_are_armed_at_the_price() {
    let d = deal("https://ex.com/1", 45_000);
    assert_eq!(armed_price(true, &d), Some(45_000));
    assert_eq!(armed_price(false, &d), None);
}

#[test]
fn a_fetch_adds_up() {
    let mut w = World::new();
    w.run(vec![listing("RTX 3080 FE", "450 €", "https://ex.com/1")]);
    let stats = w.run(vec![
        listing("RTX 3080 FE", "440 €", "https://ex.com/1?utm_source=x"),
        listing("RTX 3080 TUF", "430 €", "https://ex.com/2"),
        listing("RTX 3080", "on demand", "https://ex.com/3"),
        listing("RTX 3080", "400 €", "not a url"),
    ]);
    assert_eq!((stats.new_deals, stats.updated_deals, stats.skipped), (1, 1, 2));
    assert_eq!(stats.gone, 0);
    let stats = w.run(vec![listing("RTX 3080 TUF", "430 €", "https://ex.com/2")]);
    assert_eq!((stats.updated_deals, stats.gone), (1, 1));
    assert!(w.deals.iter().any(|d| {
        d.canonical_url == "https://ex.com/1" && d.status == DealStatus::Gone
    }));
}

#[test]
fn a_failing_model_changes_nothing() {
    let listings = || {
        vec![
            listing("RTX 3080 FE", "450 €", "https://ex.com/1"),
            listing("RTX 3080 3070 3060 TUF", "300 €", "https://ex.com/2"),
            listing("RTX 3080", "?", "https://ex.com/3"),
        ]
    };
    let mut off = World::new();
    let mut failing = World::with_refiner(None);
    assert_eq!(off.run(listings()), failing.run(listings()));
    assert!(failing.calls > 0);
    assert_eq!(off.deals, failing.deals);
    assert_eq!(off.sent, failing.sent);
    assert_eq!(off.matches, failing.matches);
    assert_eq!(off.model_prices, failing.model_prices);
}

#[test]
fn retro_match_empty_db_still_acknowledges() {
    let mut request = WatchRequest::named("4TB HDD".into());
    request.min_capacity_gb = Some(4000);
    let r = retro_match(&request.into_watch(1, epoch()), &vec![], "created");
    assert!(r.matched.is_empty());
    assert_eq!(r.best, None);
    assert!(r.summary.message.contains("No existing deals match yet"));
}

#[test]
fn the_rotation_is_bounded() {
    let mut w = rtx_watch();
    w.queries = (0..30).map(|i| format!("q{i}")).collect();
    let mut paused = rtx_watch();
    paused.queries = strings(&["paused"]);
    paused.active = false;
    let all = watch_queries(&vec![paused, w]);
    assert_eq!(all.len(), MAX_QUERIES);
    assert_eq!(all[0], "q0");
}

#[test]
fn one_shot_sources_respect_enabled_flags() {
    let context = SearchContext {
        config: Config::default(),
        families: families(),
        scrape: ScrapeConfig::default(),
    };
    assert!(one_shot_sources(&context, &strings(&["x"])).is_empty(), "nothing enabled");

    let mut config = Config::default();
    config.leboncoin.enabled = true;
    let context = SearchContext { config, ..context };
    let sources = one_shot_sources(&context, &strings(&["x"]));
    assert_eq!(sources.len(), 1);
    assert_eq!(sources[0].id(), "leboncoin");
}

#[test]
fn enabled_sources_are_scheduled() {
    let mut c = Config::default();
    assert!(schedule(&c).is_empty());
    c.ebay.enabled = true;
    c.sources.push(SourceConfig {
        id: "board".into(),
        url: "https://x.fr".into(),
        item_selector: "a".into(),
        title_selector: "a".into(),
        price_selector: "a".into(),
        link_selector: None,
        queries: vec![],
        interval_minutes: 15,
        delay_ms: 10,
        max_concurrency: 2,
        max_pages: 1,
    });
    let all = schedule(&c);
    assert_eq!(all.len(), 2);
    assert_eq!(all[0].interval_minutes(), 15);
    assert_eq!(all[0].pace(), (10, 2));
    assert_eq!(all[1].interval_minutes(), 60);
}

#[test]
fn jobs_report_their_progress() {
    let job = SearchJob::new(9, &strings(&["mock-ok", "mock-bad"]));
    assert!(!job.done);
    let job = job.report("mock-ok", progress_of(Ok(1)));
    let job = job.report("mock-bad", progress_of(Err("blocked".into()))).finish();
    assert!(job.done);
    assert_eq!(job.sources[0], ("mock-ok".into(), SourceProgress::Done { listings: 1 }));
    assert!(matches!(job.sources[1].1, SourceProgress::Error { .. }));
}

#[test]
fn category_round_trip_and_seed_semantics() {
    let hdd = builtin(&families(), epoch()).remove(0);
    let rows = specs_to_rows(&hdd.specs);
    let row = category_to_row(&hdd, epoch()).unwrap();
    let specs = rows.into_iter().map(|r| spec_from_row(r).unwrap()).collect();
    let read: Category = category_from_row(row, specs).unwrap();
    assert_eq!(read, hdd);

    // seeding must NOT clobber what is stored
    let seeds = builtin(&[], epoch());
    let fresh = seeds_to_store(&vec![hdd.slug.clone()], &seeds);
    assert_eq!(fresh.len(), seeds.len() - 1);
    assert!(fresh.iter().all(|c| c.slug != hdd.slug));
}
