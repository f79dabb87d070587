use ferret::category::{
    Category, CategoryOrigin, CategorySpec, CategoryStatus, Interpretation, SpecFilter, SpecKind,
    SpecValue, Specs,
};
use ferret::client::{
    category_path, check_status, deal_prices_path, deals_path, moderation_path, search_path,
    watch_path, watch_prices_path, ClientError, FerretClient,
};
use ferret::db::{
    deal_status_from_str, id_text, moderation_from_str, moderation_to_str, parse_ts, parse_uuid,
    ts_text, DbError,
};
use ferret::deal::{
    Deal, DealRow, DealStatus, Flag, LlmVerdict, MatchInfo, Moderation, WatchPricePoint,
};
use ferret::decimal::Decimal;
use ferret::reading::Reading;
use ferret::family::StuffingScore;
use ferret::json::Json;
use ferret::notify::endpoint;
use ferret::scheduler::{after_tick, tick_stats, FailureState};
use ferret::search::SearchJob;
use ferret::settings::{LlmProbeResult, LlmSettings};
use ferret::shell::{configured_server, init_script, server_override};
use ferret::status::{
    health, sort_sources, LlmStatus, SourceProgress, SourceStatus, StatusResponse, TickStats,
};
use ferret::time::Timestamp;
use ferret::ui::cards::{
    deal_badges, deal_details, deals_placeholder, format_capacity, format_price, match_count,
    moderation_actions, report_outcome, request_from, watch_summary, watches_placeholder,
};
use ferret::ui::chart::{chart_option, chart_placeholder, ChartColors};
use ferret::ui::editor::{
    approve, category_summary, proposal_lines, sync_shared_specs, Editor, SpecRow,
};
use ferret::ui::filters::{parse_euros, price_input, trim_number, FilterState};
use ferret::ui::guided::{
    confirmation_header, conversation_so_far, instruction, preview_count, search_progress_line,
    spec_title, talk, worth_searching, Confirmation, Guided,
};
use ferret::ui::labels::{
    about_llm, about_server, ago, elapsed_after, llm_avg_ms, llm_chip, llm_progress_label,
    source_chip,
};
use ferret::ui::panel::{Panel, PanelChange};
use ferret::watch::{Watch, WatchRequest};

fn epoch() -> Timestamp {
    Timestamp::unix_epoch()
}

fn at_second(seconds: i64) -> Timestamp {
    Timestamp { seconds, nanos: 0 }
}

fn strings(names: &[&str]) -> Vec<String> {
    names.iter().map(|s| s.to_string()).collect()
}

fn number(n: i64) -> Decimal {
    Decimal::from_i64(n)
}

fn bound(n: i64) -> Reading {
    Reading::Finite(number(n))
}

fn spec(key: &str, kind: SpecKind, values: &[&str]) -> CategorySpec {
    CategorySpec {
        key: key.into(),
        label: key.to_uppercase(),
        kind,
        unit: None,
        allowed_values: strings(values),
        extraction_hint: None,
    }
}

fn gpu() -> Category {
    Category {
        slug: "gpu".into(),
        label: "Graphics card".into(),
        aliases: strings(&["gpu", "rtx"]),
        origin: CategoryOrigin::Curated,
        status: CategoryStatus::Active,
        specs: vec![
            spec("memory", SpecKind::Number, &[]),
            spec("model", SpecKind::Enum, &["3080", "3090"]),
        ],
        created_at: epoch(),
    }
}

fn deal(price_cents: i64) -> Deal {
    Deal {
        id: 5,
        source_id: "ebay".into(),
        canonical_url: "https://ex.com/1".into(),
        title: "RTX 3080 10GB".into(),
        price_cents,
        currency: "EUR".into(),
        family: None,
        models: vec![],
        capacity_gb: Some(4000),
        condition: Some("used".into()),
        stuffing_score: StuffingScore { extra: 0, siblings: 0 },
        flags: vec![],
        status: DealStatus::Active,
        llm_verdict: None,
        llm_reason: None,
        category: Some("gpu".into()),
        specs: Specs::new().insert("model".into(), SpecValue::Text("3080".into())),
        moderation: Moderation::Unmoderated,
        first_seen: epoch(),
        last_seen: epoch(),
    }
}

fn watch() -> Watch {
    let mut r = WatchRequest::named("cheap 3080".into());
    r.category = Some("gpu".into());
    r.spec_filters = vec![SpecFilter::AnyOf { key: "model".into(), values: strings(&["3080", "3090"]) }];
    r.max_price_cents = Some(50_000);
    r.queries = strings(&["rtx 3080", "3080"]);
    r.into_watch(9, epoch())
}

#[test]
fn option_builds_two_series_over_days() {
    let point = |day: &str, min_cents: i64, median_cents: i64, count: i64| WatchPricePoint {
        day: day.into(),
        min_cents,
        median_cents,
        count,
    };
    let points =
        vec![point("2026-07-20", 100_000, 150_000, 3), point("2026-07-21", 90_000, 149_000, 4)];
    let option = chart_option(&points, &ChartColors::default());
    let series = option.get("series").unwrap().as_list().unwrap();
    let data = |i: usize, j: usize| {
        series[i].get("data").unwrap().as_list().unwrap()[j].as_number().unwrap()
    };
    assert_eq!(
        option.get("xAxis").unwrap().get("data").unwrap().as_list().unwrap()[1].as_str(),
        Some("2026-07-21")
    );
    assert_eq!(series[0].get("name").unwrap().as_str(), Some("best"));
    assert_eq!(data(0, 1), number(900));
    assert_eq!(data(1, 0), number(1500));
    let written = |i: usize| series[0].get("data").unwrap().as_list().unwrap()[i].to_text();
    assert_eq!((written(0).as_str(), written(1).as_str()), ("1000.0", "900.0"));
    let odd = chart_option(&vec![point("2026-07-20", 1_250, 1_234, 1)], &ChartColors::default());
    let text = odd.to_text();
    assert!(text.contains("[12.5]") && text.contains("[12.34]"), "{text}");
    assert_eq!(series.len(), 2, "one axis, two lines");
    assert!(
        option.get("yAxis").unwrap().get("scale").unwrap().as_bool().unwrap(),
        "zoomed to data range"
    );
    assert_eq!(chart_placeholder(None).as_deref(), Some("Loading price history…"));
    assert_eq!(
        chart_placeholder(Some(Err("down".into()))).as_deref(),
        Some("history unavailable: down")
    );
}

#[test]
fn typed_prices_mean_cents() {
    assert_eq!(parse_euros("450"), Some(45_000));
    assert_eq!(parse_euros(" 12,50 "), Some(1_250));
    assert_eq!(parse_euros("12.345"), Some(1_235));
    assert_eq!(parse_euros("soon"), None);
    assert_eq!(price_input(Some(1_250)), "12.5");
    assert_eq!(price_input(Some(45_000)), "450");
    assert_eq!(price_input(None), "");
    assert_eq!(parse_euros(&price_input(Some(-7))), Some(-7));
    assert_eq!(trim_number(&Reading::parse("4000.0").unwrap()), "4000");
    assert_eq!(trim_number(&Reading::parse("2.5").unwrap()), "2.5");
    assert_eq!(trim_number(&Reading::parse("Infinity").unwrap()), "inf");
    assert_eq!(parse_euros("nan"), Some(0));
    assert_eq!(parse_euros("1e1000"), Some(i64::MAX));
    assert_eq!(parse_euros("-inf"), Some(i64::MIN));
    assert_eq!(parse_euros("1e-1000"), Some(0));
}

#[test]
fn controls_show_filters_and_mean_them_again() {
    let filters = vec![
        SpecFilter::Min { key: "memory".into(), value: bound(8) },
        SpecFilter::Max { key: "memory".into(), value: bound(24) },
        SpecFilter::AnyOf { key: "model".into(), values: strings(&["3080", "3090"]) },
        SpecFilter::Is { key: "ecc".into(), value: true },
    ];
    let state = FilterState::from_filters(&filters);
    assert_eq!(state.floor("memory"), "8");
    assert_eq!(state.ceiling("memory"), "24");
    assert!(state.is_checked("model", "3090") && !state.is_checked("model", "4090"));
    assert!(state.is_on("ecc") && !state.is_on("other"));
    assert_eq!(state.to_filters(), filters);

    let state = state
        .toggle_enum("model", "3090", false)
        .type_floor("memory", "")
        .type_ceiling("memory", "16")
        .switch("ecc", false);
    let left = state.to_filters();
    assert!(left.contains(&SpecFilter::Max { key: "memory".into(), value: bound(16) }));
    assert!(left.contains(&SpecFilter::Eq { key: "model".into(), value: "3080".into() }));
    assert_eq!(left.len(), 2);
    assert_eq!(FilterState::default().to_filters(), vec![]);
}

fn interpretation(category: Option<Category>, proposal: Option<Category>) -> Interpretation {
    Interpretation {
        category,
        constraints: vec![SpecFilter::Eq { key: "model".into(), value: "3080".into() }],
        queries: strings(&["rtx 3080"]),
        proposal,
        via: "heuristic".into(),
        llm_active: true,
        llm_error: None,
    }
}

#[test]
fn guided_flow_ends_in_a_watch() {
    let mut flow = Guided::new();
    let (same, nothing) = flow.submit();
    assert_eq!(nothing, None, "nothing typed");
    flow = same;
    flow.text = " rtx 3080 ".into();
    let (flow, query) = flow.submit();
    assert_eq!(query.as_deref(), Some("rtx 3080"));
    assert!(flow.busy);

    let out = interpretation(Some(gpu()), None);
    assert!(worth_searching(&out));
    let flow = flow.interpreted("rtx 3080", Ok(out)).search_started(4);
    assert!(!flow.busy);
    assert_eq!(flow.to_poll(), Some(4));
    let job = SearchJob::new(4, &strings(&["ebay"])).finish();
    let mut flow = flow.progressed(job);
    assert_eq!(flow.to_poll(), None);

    assert_eq!(flow.preview(&vec![deal(40_000)]).len(), 1);
    let mut aside = deal(40_000);
    aside.moderation = Moderation::Dismissed;
    assert!(flow.preview(&vec![aside]).is_empty());
    flow.max_price = "300".into();
    assert!(flow.preview(&vec![deal(40_000)]).is_empty());

    flow.name = "cheap 3080".into();
    let (flow, request) = flow.save();
    let (editing, request) = request.unwrap();
    assert_eq!(editing, None);
    assert_eq!(request.name, "cheap 3080");
    assert_eq!(request.max_price_cents, Some(30_000));
    assert_eq!(request.category.as_deref(), Some("gpu"));
    assert_eq!(request.queries, strings(&["rtx 3080"]));
    let flow = flow.saved(Ok(()));
    assert_eq!(flow.text, "");
    assert!(flow.interpretation.is_none());
}

#[test]
fn guided_flow_says_what_went_wrong() {
    let mut flow = Guided::new();
    flow.text = "x".into();
    let (flow, _) = flow.submit();
    let flow = flow.interpreted("x", Err("down".into()));
    assert!(flow.error.is_some() && !flow.busy);
    let mut flow = flow.interpreted("x", Ok(interpretation(Some(gpu()), None)));
    flow.name = "  ".into();
    let (mut flow, request) = flow.save();
    assert_eq!(request.unwrap().1.name, "x", "the text stands in for a name");
    flow.text = " ".into();
    let (flow, request) = flow.save();
    assert!(request.is_none());
    assert_eq!(flow.error.as_deref(), Some("the watch needs a name"));
}

#[test]
fn editing_a_watch_keeps_it() {
    let flow = Guided::new().edit(&watch());
    let flow = flow.edit_loaded(&Some("gpu".into()), vec![gpu()]);
    let (_, request) = flow.save();
    let (editing, request) = request.unwrap();
    assert_eq!(editing, Some(9));
    assert_eq!(request, request_from(&watch(), true));
}

#[test]
fn drafts_are_approved_and_reworked() {
    let mut draft = gpu();
    draft.status = CategoryStatus::Proposed;
    let mut flow = Guided::new();
    flow.text = "rtx".into();
    let flow = flow.interpreted("rtx", Ok(interpretation(None, Some(draft))));
    let flow = flow.revised("shorter label", gpu(), "{}");
    assert_eq!(flow.chat.len(), 2);
    assert_eq!(flow.chat[0].content, "shorter label");
    let (held, approved) = flow.approve().unwrap();
    assert_eq!(approved.status, CategoryStatus::Active);
    assert!(held.proposal.is_none());
    let flow = flow.approved(held, Ok(approved), Some(3));
    assert_eq!(flow.job_id, Some(3));
    let interp = flow.interpretation.unwrap();
    assert_eq!(interp.category.unwrap().slug, "gpu");
    assert!(interp.proposal.is_none());
}

#[test]
fn an_approval_stands_whatever_came_meanwhile() {
    let mut draft = gpu();
    draft.status = CategoryStatus::Proposed;
    let mut flow = Guided::new();
    flow.text = "rtx".into();
    let flow = flow.interpreted("rtx", Ok(interpretation(None, Some(draft))));
    let (held, approved) = flow.approve().unwrap();
    let queries = held.queries.clone();

    let reset = Guided::new();
    let flow = reset.approved(held, Ok(approved), None);
    assert_eq!(flow.job_id, None);
    let interp = flow.interpretation.unwrap();
    assert_eq!(interp.category.unwrap(), gpu());
    assert_eq!(interp.queries, queries);

    let mut other = Guided::new();
    other.text = "hdd".into();
    let other = other.interpreted("hdd", Ok(interpretation(Some(gpu()), None)));
    let other = other.approved(interpretation(None, None), Err("down".into()), Some(9));
    assert_eq!(other.error.as_deref(), Some("down"));
    assert_eq!(other.job_id, None);
    assert_eq!(other.interpretation.unwrap().category.unwrap().slug, "gpu");
}

#[test]
fn a_conversation_is_summed_up_by_what_was_asked() {
    assert_eq!(conversation_so_far(&vec![]), None);
    let chat = talk(talk(vec![], "shorter label", "{}"), "add a unit", "{}");
    assert_eq!(
        conversation_so_far(&chat).as_deref(),
        Some("conversation so far: shorter label · add a unit")
    );
}

#[test]
fn the_header_is_honest() {
    let understood = confirmation_header(&interpretation(Some(gpu()), None));
    assert_eq!(
        understood,
        Confirmation::Understood { label: "Graphics card".into(), via: "(via heuristic)".into() }
    );
    assert_eq!(
        confirmation_header(&interpretation(None, Some(gpu()))),
        Confirmation::Drafted
    );
    let mut nothing = interpretation(None, None);
    assert_eq!(confirmation_header(&nothing), Confirmation::Unknown);
    nothing.llm_active = false;
    assert_eq!(confirmation_header(&nothing), Confirmation::NoLlm);
    assert_eq!(instruction("  "), None);
    assert_eq!(instruction(" a "), Some("a".into()));
}

#[test]
fn progress_is_spelled_out() {
    let job = SearchJob::new(1, &strings(&["a", "b"]))
        .report("a", SourceProgress::Done { listings: 3 });
    assert_eq!(
        search_progress_line(&job),
        "Live search running — a: 3 found · b: searching…"
    );
    assert!(search_progress_line(&job.finish()).starts_with("Live search done — "));
    assert!(preview_count(1).contains('1'));
    assert!(spec_title(&gpu().specs[0]).contains("MEMORY"));
}

#[test]
fn the_editor_reads_back_what_it_shows() {
    let editor = Editor::open(Some(gpu()));
    assert_eq!(editor.aliases, "gpu, rtx");
    assert_eq!(editor.rows[1].values, "3080, 3090");
    assert_eq!(editor.to_category(at_second(1)).unwrap(), gpu());
}

#[test]
fn the_editor_makes_new_categories() {
    let mut editor = Editor::open(None).add_row().add_row();
    assert_eq!(
        editor.to_category(epoch()).unwrap_err(),
        "the category needs a slug"
    );
    editor.slug = " Power Supply ".into();
    editor.aliases = "psu, ,atx ".into();
    editor.rows[0].key = " Watts".into();
    editor.rows[0].unit = "W".into();
    let made = editor.to_category(at_second(7)).unwrap();
    assert_eq!(made.slug, "power-supply");
    assert_eq!(made.label, "power-supply");
    assert_eq!(made.aliases, strings(&["psu", "atx"]));
    assert_eq!(made.origin, CategoryOrigin::User);
    assert_eq!(made.created_at, at_second(7));
    assert_eq!(made.specs.len(), 1, "the empty line is dropped");
    assert_eq!(made.specs[0].key, "watts");
    assert_eq!(made.specs[0].unit.as_deref(), Some("W"));
    let editor = editor.remove_row(0).load_revision(&gpu());
    assert_eq!(editor.slug, " Power Supply ", "the slug stays");
    assert_eq!(editor.rows.len(), 2);
    assert!(SpecRow::new(0, None).to_spec().is_none());
}

#[test]
fn a_rename_is_mirrored_once() {
    let mut edited = gpu();
    edited.specs[0].label = "VRAM".into();
    let mut other = gpu();
    other.slug = "igpu".into();
    let all = vec![gpu(), other];
    let again = sync_shared_specs(&all, &edited);
    assert_eq!(again.len(), 1);
    assert_eq!(again[0].slug, "igpu");
    assert_eq!(again[0].specs[0].label, "VRAM");
    assert!(sync_shared_specs(&again, &edited).is_empty(), "nothing left to do");
}

#[test]
fn categories_are_summed_up() {
    let mut draft = gpu();
    draft.status = CategoryStatus::Proposed;
    assert_eq!(approve(&draft), gpu());
    let (aliases, filters) = proposal_lines(&draft);
    assert!(aliases.contains("gpu") && aliases.contains("rtx"));
    assert!(filters.contains("MEMORY") && filters.contains("MODEL"));
    assert!(!category_summary(&gpu()).is_empty());
}

#[test]
fn cards_show_prices_and_details() {
    assert_eq!(format_price(45_000, "EUR"), "450.00 €");
    assert_eq!(format_price(199, "USD"), "1.99 USD");
    assert_eq!(format_capacity(4000), "4 TB");
    assert_eq!(format_capacity(1500), "1500 GB");
    assert_eq!(deal_details(&deal(1)), "ebay · 4 TB · used");
    let mut d = deal(1);
    d.flags = vec![Flag::PriceOutlier];
    d.llm_verdict = Some(LlmVerdict::Scam);
    d.status = DealStatus::Gone;
    d.moderation = Moderation::Banned;
    let texts: Vec<String> = deal_badges(&d).into_iter().map(|b| b.text).collect();
    assert_eq!(texts, ["price outlier", "llm: scam", "gone", "banned"]);
    assert_eq!(
        moderation_actions(Moderation::Unmoderated),
        vec![Moderation::Dismissed, Moderation::Banned]
    );
}

#[test]
fn cards_say_whether_a_deal_was_reported() {
    let matched = |notified: Option<i64>| MatchInfo {
        watch_id: 9,
        watch_name: "cheap 3080".into(),
        notified_price_cents: notified,
    };
    let row = DealRow { deal: deal(1), matches: vec![matched(Some(1))] };
    assert_eq!(report_outcome(&row).text, "reported: cheap 3080");
    let mut muted = DealRow { deal: deal(1), matches: vec![matched(None)] };
    muted.deal.flags = vec![Flag::PossibleStuffing];
    assert_eq!(
        report_outcome(&muted).text,
        "matched cheap 3080 — muted: possible stuffing without LLM"
    );
    muted.deal.llm_verdict = Some(LlmVerdict::Scam);
    assert_eq!(report_outcome(&muted).text, "matched cheap 3080 — muted: scam verdict");
    let mut alone = DealRow { deal: deal(1), matches: vec![] };
    assert_eq!(report_outcome(&alone).text, "not reported: no watch matches");
    alone.deal.moderation = Moderation::Dismissed;
    assert_eq!(report_outcome(&alone).text, "not reported: dismissed by you");
}

#[test]
fn lists_have_placeholders() {
    assert_eq!(deals_placeholder(None, false).as_deref(), Some("Loading…"));
    assert_eq!(deals_placeholder(Some(Ok(1)), false), None);
    assert_eq!(
        deals_placeholder(Some(Ok(0)), true).as_deref(),
        Some("Nothing dismissed or banned.")
    );
    assert_eq!(
        watches_placeholder(Some(Err("x".into()))).as_deref(),
        Some("server unreachable: x")
    );
}

#[test]
fn watches_are_summed_up() {
    assert_eq!(
        watch_summary(&watch()),
        "gpu · model ∈ 3080/3090 · ≤ 500.00 € · searches: rtx 3080, 3080"
    );
    let paused = request_from(&watch(), false).into_watch(9, epoch());
    assert!(!paused.active);
    assert_eq!(paused.spec_filters, watch().spec_filters);
    let status = StatusResponse {
        sources: vec![],
        watch_matches: vec![(9, 3)],
        llm: llm_status(false, 0),
    };
    assert_eq!(match_count(Some(&status), 9), 3);
    assert_eq!(match_count(Some(&status), 8), 0);
    assert_eq!(match_count(None, 9), 0);
}

fn llm_status(enabled: bool, busy: u32) -> LlmStatus {
    LlmStatus {
        enabled,
        model: Some("qwen3".into()),
        busy,
        avg_ms: vec![("refine".into(), 2_400)],
    }
}

#[test]
fn the_strip_tells_the_state() {
    assert_eq!(ago(None, epoch()), "waiting for first pass");
    assert_eq!(ago(Some(epoch()), at_second(59)), "just now");
    assert_eq!(ago(Some(epoch()), at_second(600)), "10 min ago");
    assert_eq!(ago(Some(epoch()), at_second(3_900)), "1h05 ago");
    assert_eq!(llm_chip(&llm_status(true, 0)), ("LLM ✓ qwen3".into(), "ok"));
    assert_eq!(llm_chip(&llm_status(true, 2)), ("LLM ⋯ working (2 calls)".into(), "warn"));
    assert_eq!(llm_chip(&llm_status(false, 0)), ("LLM off".into(), "muted"));
    assert_eq!(llm_avg_ms(&llm_status(true, 0), "refine"), Some(2_400));
    assert_eq!(llm_progress_label("Thinking", 3, Some(2_400)), "Thinking… 3s / ~2s");
    assert_eq!(llm_progress_label("Thinking", 3, None), "Thinking… 3s");
    assert_eq!(elapsed_after(3, true), 4);
    assert_eq!(elapsed_after(3, false), 0);
    assert_eq!(elapsed_after(u32::MAX, false), 0);
    assert_eq!(about_server(None, "u"), "checking…");
    assert_eq!(about_server(Some(Ok(health("0.1", "abc"))), "u"), "0.1 (abc) at u");
    assert_eq!(about_server(Some(Err("x".into())), "u"), "unreachable (x)");
    assert!(about_llm(Some(&llm_status(true, 0))).contains("qwen3"));
}

#[test]
fn sources_report_their_ticks() {
    let idle = SourceStatus::idle("ebay", 60);
    assert_eq!(source_chip(&idle, epoch()).0, "ebay · every 60 min, waiting for first pass");
    let stats = TickStats { fetched: 12, ..TickStats::default() };
    let ok = idle.record_tick(epoch(), Ok(stats));
    assert_eq!(source_chip(&ok, epoch()), ("ebay ✓ 12 listings, just now".into(), false));
    let failing = ok.record_tick(epoch(), Err("blocked".into()));
    assert_eq!(failing.consecutive_failures, 1);
    assert_eq!(source_chip(&failing, epoch()), ("ebay ✗ failing, just now".into(), true));
    let sorted = sort_sources(&vec![failing, SourceStatus::idle("board", 1)]);
    assert_eq!(sorted[0].source_id, "board");
}

#[test]
fn failed_ticks_back_off_and_alert_once() {
    let mut failures = FailureState::new(2);
    let first = after_tick(&mut failures, "ebay", 3_600, Some("blocked"));
    assert_eq!((first.sleep_secs, first.alert.is_some()), (60, false));
    let second = after_tick(&mut failures, "ebay", 3_600, Some("blocked"));
    assert_eq!((second.sleep_secs, second.alert.is_some()), (120, true));
    let third = after_tick(&mut failures, "ebay", 3_600, Some("blocked"));
    assert!(third.alert.is_none());
    let fine = after_tick(&mut failures, "ebay", 3_600, None);
    assert_eq!((fine.sleep_secs, fine.alert.is_none()), (3_600, true));
    let stats = tick_stats(7, ferret::pipeline::PipelineStats::default());
    assert_eq!(stats.fetched, 7);
}

#[test]
fn the_settings_panel_keeps_the_key_secret() {
    let settings = || LlmSettings {
        enabled: true,
        base_url: "http://x/v1".into(),
        model: "".into(),
        api_key_set: true,
        from_override: true,
    };
    let panel = Panel::new().loaded(Ok(settings()));
    assert_eq!(panel.api_key, "");
    assert!(panel.key_stored() && panel.overridden());
    assert_eq!(panel.update().api_key, None, "an empty field keeps the key");
    assert_eq!(panel.clear_key().api_key.as_deref(), Some(""));
    let mut panel = panel.models_listed(Ok(strings(&["llama", "qwen3"])));
    assert_eq!(panel.model, "llama", "the first fills an empty field");
    assert_eq!(panel.message.as_deref(), Some("2 models found"));
    panel.api_key = "sk-new".into();
    assert_eq!(panel.update().api_key.as_deref(), Some("sk-new"));
    assert_eq!(panel.probe_request().model.as_deref(), Some("llama"));
    let panel = panel.waiting("testing…");
    assert_eq!(panel.message.as_deref(), Some("testing…"));
    let panel = panel.tested(Ok(LlmProbeResult { ok: false, error: Some("404".into()) }));
    assert_eq!(panel.message.as_deref(), Some("LLM test failed — 404"));
    let panel = panel.tested(Ok(LlmProbeResult { ok: true, error: None }));
    assert_eq!(panel.message.as_deref(), Some("LLM answered ✓"));
    let panel = panel.models_listed(Err("down".into()));
    assert_eq!(panel.message.as_deref(), Some("model listing failed — down"));
    let (panel, again) = panel.changed(PanelChange::Saved, Ok(settings()));
    assert_eq!(panel.api_key, "", "never shown again");
    assert_eq!(
        panel.message.as_deref(),
        Some("saved — applies to the next interpretation/tick")
    );
    assert!(again);
    let (panel, again) = panel.changed(PanelChange::KeyCleared, Ok(settings()));
    assert_eq!(panel.message.as_deref(), Some("stored key cleared"));
    assert!(!again, "nothing to look at again");
    let (panel, again) = panel.changed(PanelChange::Reset, Err("down".into()));
    assert_eq!(panel.message.as_deref(), Some("down"));
    assert!(!again, "a failed change");
    assert!(panel.changed(PanelChange::Reset, Ok(settings())).1);
}

const ID: u128 = 0x1234;
const ID_TEXT: &str = "00000000-0000-0000-0000-000000001234";

#[test]
fn requests_have_their_paths() {
    assert_eq!(watch_path(ID), format!("api/watches/{ID_TEXT}"));
    assert_eq!(
        watch_path(0x0123_4567_89ab_cdef_fedc_ba98_7654_3210),
        "api/watches/01234567-89ab-cdef-fedc-ba9876543210"
    );
    assert_eq!(watch_prices_path(ID), format!("api/watches/{ID_TEXT}/prices"));
    assert_eq!(deals_path(None, false), "api/deals");
    assert_eq!(deals_path(None, true), "api/deals?hidden=true");
    assert_eq!(deals_path(Some(ID), false), format!("api/deals?watch_id={ID_TEXT}&hidden=false"));
    assert_eq!(moderation_path(ID), format!("api/deals/{ID_TEXT}/moderation"));
    assert_eq!(deal_prices_path(ID), format!("api/deals/{ID_TEXT}/prices"));
    assert!(category_path("hdd").ends_with("hdd"));
    assert!(search_path(ID).ends_with(ID_TEXT));
    let client = FerretClient::new("http://host:4800/".into());
    assert_eq!(client.base(), "http://host:4800/");
    assert_eq!(client.url("api/deals").unwrap(), "http://host:4800/api/deals");
    assert!(FerretClient::new("nowhere".into()).url("api/deals").is_err());
}

#[test]
fn failed_requests_say_why() {
    assert_eq!(check_status(200, "ok".into()), Ok("ok".into()));
    let e = check_status(404, "not found".into()).unwrap_err();
    assert_eq!(e.message(), "server returned 404: not found");
    assert_eq!(ClientError::Transport("x".into()).message(), "request failed: x");
    assert_eq!(ClientError::Decode("x".into()).message(), "invalid response body: x");
}

#[test]
fn the_shell_finds_its_server() {
    assert_eq!(
        configured_server(Some(" http://a ".into()), Some("http://b".into())).as_deref(),
        Some("http://a")
    );
    assert_eq!(configured_server(None, Some("http://b\n".into())).as_deref(), Some("http://b"));
    assert_eq!(configured_server(None, Some(" \n".into())), None);
    assert_eq!(
        init_script(Some("http://a/it's".into())).as_deref(),
        Some("window.FERRET_API_BASE = 'http://a/it\\'s';")
    );
    assert_eq!(init_script(Some("not a url".into())), None);
    assert_eq!(server_override(" http://a ").as_deref(), Some("http://a"));
    assert_eq!(server_override("nope"), None);
}

#[test]
fn stored_values_are_read_strictly() {
    assert_eq!(id_text(ID), ID_TEXT);
    assert_eq!(parse_uuid(ID_TEXT), Ok(ID));
    assert!(parse_uuid("nope").is_err());
    assert_eq!(ts_text(at_second(86_400)).unwrap(), "1970-01-02T00:00:00+00:00");
    assert_eq!(parse_ts("1970-01-02T01:00:00+01:00"), Ok(at_second(86_400)));
    assert!(parse_ts("yesterday").is_err());
    assert!(deal_status_from_str("lost").is_err());
    for m in [Moderation::Unmoderated, Moderation::Dismissed, Moderation::Banned] {
        assert_eq!(moderation_from_str(moderation_to_str(m)), Ok(m));
    }
    assert_eq!((DbError::NotFound.status(), DbError::Corrupt("x".into()).status()), (404, 500));
}

#[test]
fn json_values_have_shapes() {
    let v = Json::Object(vec![("a".into(), Json::Number("1.50".into()))]);
    assert_eq!(v.get("a").unwrap().as_number(), Decimal::parse("1.5"));
    assert_eq!(v.get("a").unwrap().as_i64(), None);
    assert_eq!(v.get("b"), None);
    assert_eq!(Json::Number("7".into()).as_i64(), Some(7));
}

#[test]
fn builds_endpoint_from_url_and_topic() {
    assert_eq!(
        endpoint(Some("https://notify.zeus.balem.fr".into()), "deals-zeus"),
        Ok(Some("https://notify.zeus.balem.fr/deals-zeus".into()))
    );
    assert_eq!(endpoint(None, ""), Ok(None), "off without a server");
    assert!(endpoint(Some("https://ntfy.sh".into()), " ").is_err());
}
