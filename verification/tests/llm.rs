use ferret::ask::{interpret_request_body, probe_body, request_body, revise_request_body};
use ferret::category::{
    Category, CategoryOrigin, CategorySpec, CategoryStatus, SpecFilter, SpecKind,
};
use ferret::chat::{
    kind_of, models_answer, probe_answer, Answer, Attempt, Chat, Posted, Purpose, Turn,
};
use ferret::config::LlmConfig;
use ferret::deal::{Flag, LlmVerdict};
use ferret::decimal::Decimal;
use ferret::reading::Reading;
use ferret::interpret::{
    first_rung, interpret, parse_interpretation, parse_proposal, queries_for, revise_category,
    to_filter,
    to_spec, LlmConstraint, LlmInterpretation, LlmOutcome, LlmProposal, LlmProposalSpec,
    Rung,
};
use ferret::json::Json;
use ferret::llm::{
    apply_update, backend_error, build_runtime, chat_url, content_of, default_prompts, effective,
    effective_prompts, key_file, keyless, log_entry, long_timeout, models_url, parse_models,
    parse_refinement, parse_response, probe_target, prompts_to_store, retry_body, retry_failed,
    unreadable, usage_from, LlmOverride, RefineInput, INTERPRET_PROMPT, REFINE_PROMPT, REVISE_PROMPT,
};
use ferret::settings::{ChatTurn, LlmProbeRequest, LlmSettingsUpdate, PromptSet};
use ferret::time::Timestamp;

fn epoch() -> Timestamp {
    Timestamp::unix_epoch()
}

fn strings(names: &[&str]) -> Vec<String> {
    names.iter().map(|s| s.to_string()).collect()
}

/// The value at a path of keys and list places.
fn at<'a>(value: &'a Json, path: &[&str]) -> &'a Json {
    let mut here = value;
    for step in path {
        here = match step.parse::<usize>() {
            Ok(i) => &here.as_list().unwrap()[i],
            Err(_) => here.get(step).unwrap(),
        };
    }
    here
}

fn input() -> RefineInput {
    RefineInput {
        title: "Brackets for 3070 3080 3090".into(),
        price_cents: 40_000,
        currency: "EUR".into(),
        family: "nvidia-rtx".into(),
        models: strings(&["3070", "3080", "3090"]),
        flags: vec![Flag::PossibleStuffing],
    }
}

fn hdd() -> Category {
    Category {
        slug: "hdd".into(),
        label: "Hard drive".into(),
        aliases: strings(&["hdd", "disque dur"]),
        origin: CategoryOrigin::Curated,
        status: CategoryStatus::Active,
        specs: vec![CategorySpec {
            key: "capacity".into(),
            label: "Capacity (GB)".into(),
            kind: SpecKind::Number,
            unit: Some("GB".into()),
            allowed_values: vec![],
            extraction_hint: None,
        }],
        created_at: epoch(),
    }
}

#[test]
fn parses_chat_completions_response() {
    let body = r#"{
        "choices": [{ "message": { "role": "assistant", "content":
            "{\"verdict\": \"stuffed-title\", \"reason\": \"bracket accessory, not a GPU\", \"capacity_gb\": null, \"condition\": null}"
        }}]
    }"#;
    let r = parse_response(body).unwrap();
    assert_eq!(r.verdict, LlmVerdict::StuffedTitle);
    assert_eq!(r.reason, "bracket accessory, not a GPU");
    assert_eq!(r.capacity_gb, None);
}

#[test]
fn request_bodies_set_explicit_max_tokens() {
    assert!(at(&request_body("m", &input(), REFINE_PROMPT), &["max_tokens"]).as_i64().unwrap() >= 500);
    assert!(
        at(&interpret_request_body("m", "x", &[], &vec![], INTERPRET_PROMPT), &["max_tokens"])
            .as_i64()
            .unwrap()
            >= 1000
    );
}

#[test]
fn request_bodies_leave_thinking_enabled_with_room_for_it() {
    // CoT is allowed — the budget must fit thoughts AND the answer
    for body in [
        request_body("m", &input(), REFINE_PROMPT),
        interpret_request_body("m", "x", &[], &vec![], INTERPRET_PROMPT),
    ] {
        assert!(body.get("chat_template_kwargs").is_none(), "thinking left on");
        assert!(at(&body, &["max_tokens"]).as_i64().unwrap() >= 4000);
    }
}

#[test]
fn empty_content_with_reasoning_is_a_clear_error() {
    // Qwen-style reasoning ate the whole budget (the real zeus failure)
    let body = r#"{"choices": [{"finish_reason": "length", "message":
        {"role": "assistant", "content": "", "reasoning_content": "Let me think..."}}]}"#;
    let err = content_of(body).unwrap_err();
    assert!(err.contains("token budget reasoning"), "got: {err}");
    assert!(err.contains("finish_reason=length"), "got: {err}");

    // finished cleanly but the answer hid in reasoning_content → salvaged
    let body = r#"{"choices": [{"finish_reason": "stop", "message":
        {"role": "assistant", "content": "", "reasoning_content": "here: {\"a\": 1}"}}]}"#;
    assert!(content_of(body).unwrap().contains("{\"a\": 1}"));
}

#[test]
fn revise_request_carries_category_and_instruction() {
    let category = Category {
        slug: "hdd".into(),
        label: "Hard drive".into(),
        aliases: vec!["hdd".into()],
        origin: CategoryOrigin::Curated,
        status: CategoryStatus::Active,
        specs: vec![],
        created_at: epoch(),
    };
    let body = revise_request_body("qwen3", &category, "add an rpm spec", &vec![], REVISE_PROMPT);
    let user = at(&body, &["messages", "1", "content"]).as_str().unwrap();
    assert!(user.contains("\"slug\":\"hdd\""));
    assert!(user.contains("add an rpm spec"));
    assert_eq!(at(&body, &["response_format", "json_schema", "strict"]), &Json::Bool(true));
    assert!(at(&body, &["max_tokens"]).as_i64().unwrap() >= 1000);
}

#[test]
fn revise_request_keeps_the_conversation() {
    let turn = |role: &str, content: &str| ChatTurn { role: role.into(), content: content.into() };
    let history = vec![turn("user", "one"), turn("assistant", "two"), turn("system", "three")];
    let body = revise_request_body("m", &hdd(), "four", &history, REVISE_PROMPT);
    let roles: Vec<&str> = at(&body, &["messages"])
        .as_list()
        .unwrap()
        .iter()
        .map(|m| m.get("role").unwrap().as_str().unwrap())
        .collect();
    assert_eq!(roles, ["system", "user", "assistant", "user", "user"]);
    assert_eq!(at(&body, &["messages", "2", "content"]).as_str(), Some("two"));
}

#[test]
fn parses_fenced_content() {
    let body = r#"{
        "choices": [{ "message": { "role": "assistant", "content":
            "```json\n{\"verdict\": \"genuine\", \"reason\": \"looks fine\", \"capacity_gb\": 4000, \"condition\": \"used\"}\n```"
        }}]
    }"#;
    let r = parse_response(body).unwrap();
    assert_eq!(r.verdict, LlmVerdict::Genuine);
    assert_eq!(r.capacity_gb, Some(4000));
}

#[test]
fn interpret_request_carries_web_context() {
    let body = interpret_request_body(
        "qwen3",
        "RTX 3090",
        &[],
        &strings(&["NVIDIA GeForce RTX 3090 — a graphics card"]),
        INTERPRET_PROMPT,
    );
    let user = at(&body, &["messages", "1", "content"]).as_str().unwrap();
    assert!(user.contains("web_search_results"));
    assert!(user.contains("a graphics card"));
}

#[test]
fn rejects_malformed_responses() {
    assert!(parse_response("not json").is_err());
    assert!(parse_response(r#"{"choices": []}"#).is_err());
    let bad_verdict = r#"{"choices": [{"message": {"content": "{\"verdict\": \"maybe\", \"reason\": \"\"}"}}]}"#;
    assert!(parse_response(bad_verdict).is_err());
}

#[test]
fn request_carries_model_listing_and_strict_schema() {
    let body = request_body("qwen3", &input(), REFINE_PROMPT);
    assert_eq!(at(&body, &["model"]).as_str(), Some("qwen3"));
    assert_eq!(at(&body, &["response_format", "type"]).as_str(), Some("json_schema"));
    assert_eq!(at(&body, &["response_format", "json_schema", "strict"]), &Json::Bool(true));
    let user = at(&body, &["messages", "1", "content"]).as_str().unwrap();
    assert!(user.contains("Brackets for 3070 3080 3090"));
    assert!(user.contains("400.00 EUR"));
    assert!(user.contains("possible-stuffing"));
}

#[test]
fn disabled_config_builds_no_refiner() {
    let eff = effective(&LlmConfig::default(), None, None);
    let runtime = build_runtime(eff);
    assert!(!runtime.client);
    assert!(!runtime.status.enabled && runtime.status.model.is_none());
}

#[test]
fn override_supersedes_config_blank_fields_fall_back() {
    let mut base = LlmConfig::default();
    base.model = "conf-model".into();
    let o = LlmOverride {
        enabled: true,
        base_url: "http://ollama:11434/v1".into(),
        model: String::new(),
        api_key: Some("sk-x".into()),
    };
    let eff = effective(&base, Some(&o), None);
    assert!(eff.enabled, "override enables a config-disabled pass");
    assert_eq!(eff.base_url, "http://ollama:11434/v1");
    assert_eq!(eff.model, "conf-model", "blank override field falls back to TOML");
    assert_eq!(eff.api_key.as_deref(), Some("sk-x"));
    assert!(eff.from_override && eff.override_key_set);

    let runtime = build_runtime(eff);
    assert!(runtime.client);
    assert_eq!(runtime.status.model.as_deref(), Some("conf-model"));
    assert!(runtime.settings.api_key_set && runtime.settings.from_override);
}

#[test]
fn key_file_is_read_only_where_it_counts() {
    let mut base = LlmConfig::default();
    base.api_key_file = Some("/run/key".into());
    base.enabled = true;
    assert_eq!(key_file(&base, None).as_deref(), Some("/run/key"));
    let eff = effective(&base, None, Some("from-file".into()));
    assert_eq!(eff.api_key.as_deref(), Some("from-file"));
    assert!(!eff.override_key_set && !eff.from_override);
}

#[test]
fn settings_updates_keep_or_clear_the_key() {
    let update = |api_key: Option<&str>| LlmSettingsUpdate {
        enabled: true,
        base_url: "u".into(),
        model: "m".into(),
        api_key: api_key.map(String::from),
    };
    let stored = apply_update(None, update(Some("sk-1")));
    assert_eq!(stored.api_key.as_deref(), Some("sk-1"));
    let kept = apply_update(Some(&stored), update(None));
    assert_eq!(kept.api_key.as_deref(), Some("sk-1"), "absent keeps");
    let cleared = apply_update(Some(&stored), update(Some("")));
    assert_eq!(cleared.api_key, None, "empty clears");

    let eff = effective(&LlmConfig::default(), Some(&stored), None);
    let probe = LlmProbeRequest { base_url: None, model: Some("other".into()), api_key: None };
    let (url, model, key) = probe_target(&probe, &eff);
    assert_eq!((url.as_str(), model.as_str(), key.as_deref()), ("u", "other", Some("sk-1")));
}

#[test]
fn prompts_fall_back_to_the_defaults() {
    let set = |r: &str| PromptSet { refine: r.into(), interpret: "".into(), revise: " ".into() };
    assert_eq!(effective_prompts(None), default_prompts());
    let current = effective_prompts(Some(&set("mine")));
    assert_eq!(current.refine, "mine");
    assert_eq!(current.interpret, default_prompts().interpret);
    let stored = prompts_to_store(set(REFINE_PROMPT));
    assert_eq!(effective_prompts(Some(&stored)), default_prompts());
}

#[test]
fn merged_prompts_are_trimmed_and_stay() {
    let given =
        PromptSet { refine: "  mine\n".into(), interpret: " \t".into(), revise: "".into() };
    let once = effective_prompts(Some(&given));
    assert_eq!(once.refine, "mine");
    assert_eq!(once.interpret, default_prompts().interpret);
    assert_eq!(once.revise, default_prompts().revise);
    assert_eq!(effective_prompts(Some(&once)), once);
    let stored = prompts_to_store(given);
    assert_eq!(effective_prompts(Some(&stored)), once);
}

#[test]
fn answers_may_list_their_fields() {
    let r = parse_refinement("[\"scam\", \"too cheap\", 4000, null]").unwrap();
    assert_eq!(r.verdict, LlmVerdict::Scam);
    assert_eq!((r.reason.as_str(), r.capacity_gb, r.condition), ("too cheap", Some(4000), None));
    let r = parse_refinement("[\"genuine\", \"fine\"]").unwrap();
    assert_eq!((r.verdict, r.capacity_gb), (LlmVerdict::Genuine, None));
    let r = parse_refinement("{\"verdict\": {\"scam\": null}, \"reason\": \"x\"}").unwrap();
    assert_eq!(r.verdict, LlmVerdict::Scam, "a variant may be a key of null");

    let p = parse_proposal("[\"nas\", \"NAS\", [\"nas box\"], [[\"bays\", \"Bays\", \"number\"]]]")
        .unwrap();
    assert_eq!((p.slug.as_str(), p.label.as_str()), ("nas", "NAS"));
    assert_eq!((p.specs[0].key.as_str(), p.specs[0].kind.as_str()), ("bays", "number"));
    assert_eq!(p.specs[0].unit, None);
    assert!(parse_proposal("[\"nas\"]").is_err());

    let i = parse_interpretation("[\"hdd\", [[\"min\", \"capacity\", 4000]], null]").unwrap();
    assert_eq!(i.category_slug.as_deref(), Some("hdd"));
    assert_eq!((i.constraints[0].op.as_str(), i.constraints[0].key.as_str()), ("min", "capacity"));
    assert!(i.proposal.is_none());
    assert_eq!(
        parse_interpretation("[\"hdd\", []]").unwrap_err(),
        "invalid length 2, expected struct LlmInterpretation with 3 elements"
    );
}

#[test]
fn the_web_is_searched_only_for_the_model() {
    let cats = [hdd()];
    let known = interpret("4to disque dur", &cats, LlmOutcome::Failed("down".into()), epoch());
    assert_eq!(first_rung("4to disque dur", &cats, true), Rung::Done(known));
    let nothing = interpret("espresso machine", &cats, LlmOutcome::Off, epoch());
    assert_eq!(first_rung("espresso machine", &cats, false), Rung::Done(nothing));
    assert_eq!(first_rung("espresso machine", &cats, true), Rung::Search);
}

#[test]
fn misfits_name_the_field() {
    let fault = |t: &str| parse_refinement(t).unwrap_err();
    assert_eq!(fault("{\"reason\": \"x\"}"), "missing field `verdict`");
    assert_eq!(fault("{\"verdict\": \"scam\"}"), "missing field `reason`");
    assert_eq!(
        fault("{\"verdict\": 3, \"reason\": \"x\"}"),
        "invalid type for field `verdict`: number, expected a string"
    );
    assert_eq!(
        fault("{\"verdict\": \"scam\", \"reason\": \"x\", \"capacity_gb\": \"4\"}"),
        "invalid type for field `capacity_gb`: string, expected an integer"
    );
    assert_eq!(
        fault("{\"verdict\": \"scam\", \"reason\": \"x\", \"condition\": []}"),
        "invalid type for field `condition`: sequence, expected a string"
    );
    assert_eq!(fault("[1]"), "invalid length 1, expected struct Refinement with 4 elements");
    assert_eq!(fault("[\"scam\", \"x\", 1, \"new\", 2]"), "trailing characters");
    assert_eq!(fault("3"), "invalid type: number, expected struct Refinement");

    let fault = |t: &str| parse_proposal(t).unwrap_err();
    assert_eq!(fault("{\"slug\": \"a\"}"), "missing field `label`");
    assert_eq!(
        fault("{\"slug\": \"a\", \"label\": \"A\", \"aliases\": [1]}"),
        "invalid type for field `aliases`: sequence, expected a sequence of strings"
    );
    assert_eq!(
        fault("{\"slug\": \"a\", \"label\": \"A\", \"specs\": [{\"key\": \"k\", \"label\": \"K\"}]}"),
        "missing field `kind`"
    );

    let fault = |t: &str| parse_interpretation(t).unwrap_err();
    assert_eq!(
        fault("{\"constraints\": [{\"op\": \"min\", \"key\": \"k\"}]}"),
        "missing field `value`"
    );
    assert_eq!(
        fault("{\"constraints\": null}"),
        "invalid type for field `constraints`: null, expected a sequence"
    );
    assert_eq!(fault("{\"proposal\": {\"label\": \"A\"}}"), "missing field `slug`");
    assert_eq!(
        fault("{\"category_slug\": true}"),
        "invalid type for field `category_slug`: boolean, expected a string"
    );
}

#[test]
fn endpoints_and_messages() {
    assert_eq!(chat_url("http://x/v1/"), "http://x/v1/chat/completions");
    assert_eq!(models_url("http://x/v1"), "http://x/v1/models");
    assert_eq!(long_timeout(30), 300);
    assert_eq!(long_timeout(900), 900);
    assert_eq!(backend_error("404 Not Found", " model X not found\n"), "404 Not Found: model X not found");
    assert_eq!(retry_failed("a", "b"), "a; plain retry: b");
    assert_eq!(unreadable("e", "c"), "e (content: c)");
    assert_eq!(probe_body("m").get("max_tokens").unwrap().as_i64(), Some(2048));
}

#[test]
fn models_come_sorted() {
    let body = r#"{"data": [{"id": "qwen3"}, {"name": "x"}, {"id": "llama"}]}"#;
    assert_eq!(parse_models(body, "u").unwrap(), strings(&["llama", "qwen3"]));
    assert_eq!(parse_models("{}", "u").unwrap_err(), "no data[] in u response");
    assert!(parse_models("<html>", "u").is_err());
}

#[test]
fn the_plain_retry_drops_the_format() {
    let body = request_body("m", &input(), REFINE_PROMPT);
    let plain = retry_body(body).unwrap();
    assert!(plain.get("response_format").is_none());
    assert_eq!(plain.get("model").unwrap().as_str(), Some("m"));
    assert_eq!(retry_body(plain), None, "once only");
}

#[test]
fn calls_are_logged_with_their_usage() {
    let usage = Json::Object(vec![(
        "usage".into(),
        Json::Object(vec![
            ("prompt_tokens".into(), Json::Number("12".into())),
            ("completion_tokens".into(), Json::Number("34".into())),
        ]),
    )]);
    assert_eq!(usage_from(&usage), Some((12, 34)));
    assert_eq!(usage_from(&Json::Null), None);
    let entry = log_entry("refine", "m", 5, Some("down".into()), Some((12, 34)));
    assert!(!entry.ok);
    assert_eq!((entry.prompt_tokens, entry.completion_tokens), (Some(12), Some(34)));
    assert!(log_entry("refine", "m", 5, None, None).ok);
}

#[test]
fn heuristic_answers_without_llm() {
    let out = interpret("4to disque dur", &[hdd()], LlmOutcome::Off, epoch());
    assert_eq!(out.via, "heuristic");
    assert_eq!(out.category.as_ref().unwrap().slug, "hdd");
    assert_eq!(
        out.constraints,
        vec![SpecFilter::Min { key: "capacity".into(), value: Reading::Finite(Decimal::from_i64(4000)) }]
    );
    assert!(out.queries.contains(&"4to disque dur".to_string()));
}

#[test]
fn llm_maps_unknown_phrasing_to_known_category() {
    let llm = LlmOutcome::Answered(LlmInterpretation {
        category_slug: Some("hdd".into()),
        constraints: vec![LlmConstraint {
            op: "min".into(),
            key: "capacity".into(),
            value: Json::Number("8000".into()),
        }],
        proposal: None,
    });
    let out = interpret("spinning rust for my nas box", &[hdd()], llm, epoch());
    assert_eq!(out.via, "llm");
    assert_eq!(out.category.as_ref().unwrap().slug, "hdd");
    assert_eq!(
        out.constraints,
        vec![SpecFilter::Min { key: "capacity".into(), value: Reading::Finite(Decimal::from_i64(8000)) }]
    );
}

fn espresso() -> LlmProposal {
    LlmProposal {
        slug: "espresso-machine".into(),
        label: "Espresso machine".into(),
        aliases: strings(&["espresso", "machine à café"]),
        specs: vec![LlmProposalSpec {
            key: "pressure".into(),
            label: "Pressure (bar)".into(),
            kind: "number".into(),
            unit: Some("bar".into()),
            allowed_values: vec![],
            extraction_hint: None,
        }],
    }
}

#[test]
fn llm_drafts_proposal_for_unknown_product() {
    let llm = LlmOutcome::Answered(LlmInterpretation {
        category_slug: None,
        constraints: vec![],
        proposal: Some(espresso()),
    });
    let out = interpret("machine à café DeLonghi", &[hdd()], llm, epoch());
    assert_eq!(out.via, "llm");
    assert!(out.category.is_none());
    let proposal = out.proposal.unwrap();
    assert_eq!(proposal.status, CategoryStatus::Proposed);
    assert_eq!(proposal.origin, CategoryOrigin::Llm);
    assert_eq!(proposal.specs.len(), 1);
}

#[test]
fn llm_failure_is_fail_open_to_none() {
    let out = interpret(
        "machine à café",
        &[hdd()],
        LlmOutcome::Failed("backend down".into()),
        epoch(),
    );
    assert_eq!(out.via, "none");
    assert!(out.category.is_none() && out.proposal.is_none());
    assert_eq!(out.queries, vec!["machine à café".to_string()]);
    assert_eq!(out.llm_error.as_deref(), Some("backend down"));
}

#[test]
fn llm_answers_are_read_strictly() {
    let answer = parse_interpretation(
        r#"{"category_slug": null, "proposal": null,
            "constraints": [{"op": "eq", "key": "model", "value": "3080"}]}"#,
    )
    .unwrap();
    assert_eq!(
        to_filter(&answer.constraints[0]),
        Some(SpecFilter::Eq { key: "model".into(), value: "3080".into() })
    );
    assert!(parse_interpretation("{\"constraints\": 3}").is_err());
    assert!(parse_proposal("{\"slug\": \"x\"}").is_err());
    let unknown = LlmConstraint { op: "like".into(), key: "k".into(), value: Json::Null };
    assert_eq!(to_filter(&unknown), None);
    let mut spec = espresso().specs.remove(0);
    spec.kind = "text".into();
    assert!(to_spec(&spec).is_none());
}

#[test]
fn revision_keeps_identity() {
    let revised = revise_category(hdd(), espresso());
    assert_eq!(revised.slug, "hdd");
    assert_eq!(revised.label, "Espresso machine");
    assert_eq!(revised.origin, CategoryOrigin::Curated);
    assert_eq!(revised.specs[0].key, "pressure");
}

#[test]
fn queries_hold_the_text_and_the_label() {
    assert_eq!(queries_for(" 4TB HDD ", Some("Hard drive")), strings(&["4tb hdd", "hard drive"]));
    assert_eq!(queries_for("hard drive", None), strings(&["hard drive"]));
}

fn answered(content: &str) -> Posted {
    let content = content.replace('\\', "\\\\").replace('"', "\\\"");
    Posted::Answered {
        status: "200 OK".into(),
        success: true,
        body: format!(
            "{{\"choices\": [{{\"message\": {{\"content\": \"{content}\"}}}}],
              \"usage\": {{\"prompt_tokens\": 3, \"completion_tokens\": 4}}}}"
        ),
    }
}

fn refused() -> Posted {
    Posted::Answered {
        status: "400 Bad Request".into(),
        success: false,
        body: "no response_format here".into(),
    }
}

const GENUINE: &str = r#"{"verdict": "genuine", "reason": "fine"}"#;

#[test]
fn a_readable_answer_ends_the_call() {
    let chat = Chat::new(Purpose::Refine, request_body("m", &input(), REFINE_PROMPT));
    assert!(chat.request().contains("\"model\":\"m\""));
    match chat.reply(answered(GENUINE)) {
        Turn::Over { result: Ok(Answer::Refinement(r)), usage } => {
            assert_eq!(r.verdict, LlmVerdict::Genuine);
            assert_eq!(usage, Some((3, 4)));
        }
        other => panic!("{other:?}"),
    }
    assert_eq!(kind_of(Purpose::Revise), "revise");
}

#[test]
fn a_refused_format_is_retried_plain() {
    let chat = Chat::new(Purpose::Refine, request_body("m", &input(), REFINE_PROMPT));
    let again = match chat.reply(refused()) {
        Turn::Again(chat) => chat,
        other => panic!("{other:?}"),
    };
    assert!(!again.request().contains("response_format"));
    match again.reply(refused()) {
        Turn::Over { result: Err(e), usage: None } => assert_eq!(
            e,
            "400 Bad Request: no response_format here; plain retry: \
             400 Bad Request: no response_format here"
        ),
        other => panic!("{other:?}"),
    }
}

#[test]
fn a_mangled_answer_is_retried_plain() {
    let chat = Chat::new(Purpose::Refine, request_body("m", &input(), REFINE_PROMPT));
    let again = match chat.reply(answered("{\"verdict\": \"maybe\"}")) {
        Turn::Again(chat) => chat,
        other => panic!("{other:?}"),
    };
    assert_eq!(
        again.first.as_deref(),
        Some(
            "unknown variant `maybe` for field `verdict`, expected one of `genuine`, \
             `stuffed-title`, `scam`, `irrelevant` (content: {\"verdict\": \"maybe\"})"
        )
    );
    assert!(matches!(again.reply(answered(GENUINE)), Turn::Over { result: Ok(_), .. }));
}

#[test]
fn a_plain_request_is_not_retried() {
    let chat = Chat::new(Purpose::Interpret, probe_body("m"));
    assert_eq!(
        chat.settle(Attempt::Refused("down".into())),
        Turn::Over { result: Err("down".into()), usage: None }
    );
    let chat = Chat::new(Purpose::Revise, probe_body("m"));
    let proposal = r#"{"slug": "x", "label": "X"}"#;
    assert!(matches!(
        chat.reply(answered(proposal)),
        Turn::Over { result: Ok(Answer::Proposal(_)), .. }
    ));
}

#[test]
fn endpoints_are_probed() {
    assert!(probe_answer(answered("ok")).ok);
    assert_eq!(
        probe_answer(refused()).error.as_deref(),
        Some("400 Bad Request: no response_format here")
    );
    assert_eq!(probe_answer(Posted::Failed("dns".into())).error.as_deref(), Some("dns"));
    assert_eq!(models_answer(Posted::Failed("dns".into()), "u").unwrap_err(), "dns");
    let catalog = Posted::Answered {
        status: "200 OK".into(),
        success: true,
        body: "{\"data\": [{\"id\": \"b\"}, {\"id\": \"a\"}]}".into(),
    };
    assert_eq!(models_answer(catalog, "u").unwrap(), strings(&["a", "b"]));
    let off = keyless(&LlmConfig::default());
    assert!(!off.enabled && off.api_key.is_none());
    assert_eq!(off.model, "local");
}
