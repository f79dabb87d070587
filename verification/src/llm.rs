//! The LLM layer: what is asked of the model, and what its answers mean.

use vstd::prelude::*;
use crate::config::{LlmConfig, LlmConfigView};
use crate::db::{verdict_from_str, verdict_named};
use crate::deal::{Flag, LlmVerdict};
use crate::json::{
    dropped_field, json_read, object, parse_json, read_view, remove_field, text_at, Json, JsonView,
};
use crate::order::{alphabetical, alphabetical_is_total, at_or_before, sort_texts};
use crate::schema::{
    missing, names_of, optional_integer, optional_text, place_fields, placed,
    read_optional_integer, read_optional_text, read_required_text, read_variant_name,
    required_text, say_missing, say_unknown_name, say_wrong_kind, unknown_name, variant_name,
    wrong_kind,
};
use crate::scrape::shopify::{trim_slashes, without_slashes};
use crate::settings::{
    LlmProbeRequest, LlmProbeRequestView, LlmSettings, LlmSettingsUpdate, LlmSettingsUpdateView,
    LlmSettingsView, PromptSet, PromptSetView,
};
use crate::status::{LlmStatus, LlmStatusView};
use crate::text::{
    blank, chars_of, contains, find_from, first_at, first_at_is_first, last_at, last_at_is_last,
    occurs, push_text, rfind, same, stands_at, text_of, trim, trimmed, trimmed_stays,
};

verus! {

/// What the model is told of a listing.
#[derive(Debug, PartialEq)]
pub struct RefineInput {
    pub title: String,
    pub price_cents: i64,
    pub currency: String,
    pub family: String,
    pub models: Vec<String>,
    pub flags: Vec<Flag>,
}

/// What `RefineInput` holds.
#[verifier::ext_equal]
pub struct RefineInputView {
    pub title: Seq<char>,
    pub price_cents: i64,
    pub currency: Seq<char>,
    pub family: Seq<char>,
    pub models: Seq<Seq<char>>,
    pub flags: Seq<Flag>,
}

impl DeepView for RefineInput {
    type V = RefineInputView;

    open spec fn deep_view(&self) -> RefineInputView {
        RefineInputView {
            title: self.title@,
            price_cents: self.price_cents,
            currency: self.currency@,
            family: self.family@,
            models: self.models.deep_view(),
            flags: self.flags@,
        }
    }
}

/// What the model makes of a listing.
#[derive(Debug, PartialEq)]
pub struct Refinement {
    pub verdict: LlmVerdict,
    pub reason: String,
    pub capacity_gb: Option<i64>,
    pub condition: Option<String>,
}

/// What `Refinement` holds.
#[verifier::ext_equal]
pub struct RefinementView {
    pub verdict: LlmVerdict,
    pub reason: Seq<char>,
    pub capacity_gb: Option<i64>,
    pub condition: Option<Seq<char>>,
}

impl DeepView for Refinement {
    type V = RefinementView;

    open spec fn deep_view(&self) -> RefinementView {
        RefinementView {
            verdict: self.verdict,
            reason: self.reason@,
            capacity_gb: self.capacity_gb,
            condition: self.condition.deep_view(),
        }
    }
}

// ---- settings: the configuration, and an override stored by the user ----

/// Stored override of the LLM section. Saved wholesale from the UI; empty url and model
/// fields fall back to the configuration.
#[derive(Debug, PartialEq)]
pub struct LlmOverride {
    pub enabled: bool,
    pub base_url: String,
    pub model: String,
    pub api_key: Option<String>,
}

/// What `LlmOverride` holds.
#[verifier::ext_equal]
pub struct LlmOverrideView {
    pub enabled: bool,
    pub base_url: Seq<char>,
    pub model: Seq<char>,
    pub api_key: Option<Seq<char>>,
}

impl DeepView for LlmOverride {
    type V = LlmOverrideView;

    open spec fn deep_view(&self) -> LlmOverrideView {
        LlmOverrideView {
            enabled: self.enabled,
            base_url: self.base_url@,
            model: self.model@,
            api_key: self.api_key.deep_view(),
        }
    }
}

/// Fully resolved LLM configuration.
#[derive(Debug, PartialEq)]
pub struct EffectiveLlm {
    pub enabled: bool,
    pub base_url: String,
    pub model: String,
    pub timeout_secs: u64,
    pub api_key: Option<String>,
    pub from_override: bool,
    /// The override carries its own key (drives the UI's "clear key").
    pub override_key_set: bool,
}

/// What `EffectiveLlm` holds.
#[verifier::ext_equal]
pub struct EffectiveLlmView {
    pub enabled: bool,
    pub base_url: Seq<char>,
    pub model: Seq<char>,
    pub timeout_secs: u64,
    pub api_key: Option<Seq<char>>,
    pub from_override: bool,
    pub override_key_set: bool,
}

impl DeepView for EffectiveLlm {
    type V = EffectiveLlmView;

    open spec fn deep_view(&self) -> EffectiveLlmView {
        EffectiveLlmView {
            enabled: self.enabled,
            base_url: self.base_url@,
            model: self.model@,
            timeout_secs: self.timeout_secs,
            api_key: self.api_key.deep_view(),
            from_override: self.from_override,
            override_key_set: self.override_key_set,
        }
    }
}

/// `over`, trimmed, unless it is blank: then `base`.
pub open spec fn picked(over: Seq<char>, base: Seq<char>) -> Seq<char> {
    if trimmed(over).len() == 0 {
        base
    } else {
        trimmed(over)
    }
}

/// `over`, trimmed, unless it is blank: then `base`.
pub fn pick(over: &str, base: &str) -> (r: String)
    ensures
        r@ == picked(over@, base@),
{
    let t = trim(over);
    if t.as_str().is_empty() {
        base.to_owned()
    } else {
        t
    }
}

/// Whether the pass is on: as the override says, else as the configuration does.
pub open spec fn llm_enabled(base: LlmConfigView, over: Option<LlmOverrideView>) -> bool {
    match over {
        Some(o) => o.enabled,
        None => base.enabled,
    }
}

/// The key of the override, where it has one that is not empty.
pub open spec fn override_key(over: Option<LlmOverrideView>) -> Option<Seq<char>> {
    match over {
        Some(o) => match o.api_key {
            Some(k) => if k.len() > 0 {
                Some(k)
            } else {
                None
            },
            None => None,
        },
        None => None,
    }
}

/// The key file that has to be read: only where the pass is on and the override has no
/// key of its own, so that a broken path never blocks the startup of a disabled pass.
pub open spec fn key_file_wanted(base: LlmConfigView, over: Option<LlmOverrideView>) -> Option<
    Seq<char>,
> {
    if override_key(over) is None && llm_enabled(base, over) {
        base.api_key_file
    } else {
        None
    }
}

/// The configuration and the override, merged. `key_file` is what the key file holds.
pub open spec fn resolved(
    base: LlmConfigView,
    over: Option<LlmOverrideView>,
    key_file: Option<Seq<char>>,
) -> EffectiveLlmView {
    EffectiveLlmView {
        enabled: llm_enabled(base, over),
        base_url: match over {
            Some(o) => picked(o.base_url, base.base_url),
            None => base.base_url,
        },
        model: match over {
            Some(o) => picked(o.model, base.model),
            None => base.model,
        },
        timeout_secs: base.timeout_secs,
        api_key: if override_key(over) is Some {
            override_key(over)
        } else if key_file_wanted(base, over) is Some && key_file is Some {
            Some(trimmed(key_file->0))
        } else {
            None
        },
        from_override: over is Some,
        override_key_set: override_key(over) is Some,
    }
}

/// What a borrowed override holds.
pub open spec fn override_view(over: Option<&LlmOverride>) -> Option<LlmOverrideView> {
    match over {
        Some(o) => Some(o.deep_view()),
        None => None,
    }
}

/// The key of the override, where it has one that is not empty.
fn own_key(over: Option<&LlmOverride>) -> (r: Option<String>)
    ensures
        r.deep_view() == override_key(override_view(over)),
{
    match over {
        Some(o) => match &o.api_key {
            Some(k) => {
                if k.as_str().is_empty() {
                    None
                } else {
                    Some(k.clone())
                }
            },
            None => None,
        },
        None => None,
    }
}

/// The key file that has to be read before `effective`, where one has.
pub fn key_file(base: &LlmConfig, over: Option<&LlmOverride>) -> (r: Option<String>)
    ensures
        r.deep_view() == key_file_wanted(base.deep_view(), override_view(over)),
{
    let enabled = match over {
        Some(o) => o.enabled,
        None => base.enabled,
    };
    if own_key(over).is_none() && enabled {
        base.api_key_file.clone()
    } else {
        None
    }
}

/// Merges the configuration with an optional override. `key` is what the file that
/// `key_file` names holds.
pub fn effective(base: &LlmConfig, over: Option<&LlmOverride>, key: Option<String>) -> (r:
    EffectiveLlm)
    requires
        key_file_wanted(base.deep_view(), override_view(over)) is Some ==> key is Some,
    ensures
        r.deep_view() == resolved(base.deep_view(), override_view(over), key.deep_view()),
{
    let (enabled, base_url, model) = match over {
        Some(o) => (
            o.enabled,
            pick(o.base_url.as_str(), base.base_url.as_str()),
            pick(o.model.as_str(), base.model.as_str()),
        ),
        None => (base.enabled, base.base_url.clone(), base.model.clone()),
    };
    let own = own_key(over);
    let override_key_set = own.is_some();
    let wanted = key_file(base, over).is_some();
    let api_key = match own {
        Some(k) => Some(k),
        None => match key {
            Some(k) => {
                if wanted {
                    Some(trim(k.as_str()))
                } else {
                    None
                }
            },
            None => None,
        },
    };
    EffectiveLlm {
        enabled,
        base_url,
        model,
        timeout_secs: base.timeout_secs,
        api_key,
        from_override: over.is_some(),
        override_key_set,
    }
}

/// What there is to probe where the key file cannot be read: the configured endpoint,
/// switched off and without a key.
pub fn keyless(base: &LlmConfig) -> (r: EffectiveLlm)
    ensures
        r.deep_view() == (EffectiveLlmView {
            enabled: false,
            base_url: base.deep_view().base_url,
            model: base.deep_view().model,
            timeout_secs: base.timeout_secs,
            api_key: None,
            from_override: false,
            override_key_set: false,
        }),
{
    EffectiveLlm {
        enabled: false,
        base_url: base.base_url.clone(),
        model: base.model.clone(),
        timeout_secs: base.timeout_secs,
        api_key: None,
        from_override: false,
        override_key_set: false,
    }
}

/// What the live LLM layer shows of itself.
#[derive(Debug, PartialEq)]
pub struct LlmRuntime {
    /// Whether there is a client for the model.
    pub client: bool,
    pub status: LlmStatus,
    pub settings: LlmSettings,
}

/// What the live LLM layer shows of itself: a client and a model name only where the pass
/// is on, and of the key only whether the override has one.
pub fn build_runtime(eff: EffectiveLlm) -> (r: LlmRuntime)
    ensures
        r.client == eff.enabled,
        r.status.deep_view() == (LlmStatusView {
            enabled: eff.enabled,
            model: if eff.enabled {
                Some(eff.model@)
            } else {
                None
            },
            busy: 0,
            avg_ms: Seq::empty(),
        }),
        r.settings.deep_view() == (LlmSettingsView {
            enabled: eff.enabled,
            base_url: eff.base_url@,
            model: eff.model@,
            api_key_set: eff.override_key_set,
            from_override: eff.from_override,
        }),
{
    let model = if eff.enabled {
        Some(eff.model.clone())
    } else {
        None
    };
    LlmRuntime {
        client: eff.enabled,
        status: LlmStatus { enabled: eff.enabled, model, busy: 0, avg_ms: Vec::new() },
        settings: LlmSettings {
            enabled: eff.enabled,
            base_url: eff.base_url,
            model: eff.model,
            api_key_set: eff.override_key_set,
            from_override: eff.from_override,
        },
    }
}

/// The override that an update leaves: a missing key keeps the stored one, an empty one
/// clears it.
pub open spec fn updated(
    stored: Option<LlmOverrideView>,
    update: LlmSettingsUpdateView,
) -> LlmOverrideView {
    LlmOverrideView {
        enabled: update.enabled,
        base_url: update.base_url,
        model: update.model,
        api_key: match update.api_key {
            Some(k) => if k.len() == 0 {
                None
            } else {
                Some(k)
            },
            None => match stored {
                Some(o) => o.api_key,
                None => None,
            },
        },
    }
}

/// The override that an update leaves.
pub fn apply_update(stored: Option<&LlmOverride>, update: LlmSettingsUpdate) -> (r: LlmOverride)
    ensures
        r.deep_view() == updated(override_view(stored), update.deep_view()),
{
    let api_key = match update.api_key {
        Some(k) => {
            if k.as_str().is_empty() {
                None
            } else {
                Some(k)
            }
        },
        None => match stored {
            Some(o) => o.api_key.clone(),
            None => None,
        },
    };
    LlmOverride {
        enabled: update.enabled,
        base_url: update.base_url,
        model: update.model,
        api_key,
    }
}

/// The endpoint, the model and the key that a probe goes to: what the form gives, else
/// what is in effect.
pub open spec fn probed(req: LlmProbeRequestView, eff: EffectiveLlmView) -> (
    Seq<char>,
    Seq<char>,
    Option<Seq<char>>,
) {
    (
        match req.base_url {
            Some(u) => picked(u, eff.base_url),
            None => eff.base_url,
        },
        match req.model {
            Some(m) => picked(m, eff.model),
            None => eff.model,
        },
        match req.api_key {
            Some(k) => if k.len() == 0 {
                eff.api_key
            } else {
                Some(k)
            },
            None => eff.api_key,
        },
    )
}

/// The endpoint, the model and the key that a probe goes to.
pub fn probe_target(req: &LlmProbeRequest, eff: &EffectiveLlm) -> (r: (
    String,
    String,
    Option<String>,
))
    ensures
        (r.0@, r.1@, r.2.deep_view()) == probed(req.deep_view(), eff.deep_view()),
{
    let base_url = match &req.base_url {
        Some(u) => pick(u.as_str(), eff.base_url.as_str()),
        None => eff.base_url.clone(),
    };
    let model = match &req.model {
        Some(m) => pick(m.as_str(), eff.model.as_str()),
        None => eff.model.clone(),
    };
    let api_key = match &req.api_key {
        Some(k) => {
            if k.as_str().is_empty() {
                eff.api_key.clone()
            } else {
                Some(k.clone())
            }
        },
        None => eff.api_key.clone(),
    };
    (base_url, model, api_key)
}

// ---- system prompts: defaults here, overridable by the user ----

/// The listing review prompt.
pub const REFINE_PROMPT: &'static str =
    "You review second-hand hardware marketplace listings. Given a listing whose \
     title mentions the models listed, decide: is it a genuine offer for one \
     product (\"genuine\"), a title stuffed with sibling model names for search \
     visibility or an accessory/bundle mentioning many models (\"stuffed-title\"), \
     or a likely scam, e.g. an implausibly low price (\"scam\")? Also extract the \
     storage/RAM capacity in decimal gigabytes and the condition when the title \
     states them, else null. Answer only with the JSON object.";

/// The search interpretation prompt.
pub const INTERPRET_PROMPT: &'static str =
    "A user typed a product search into a second-hand deal tracker. Map it to ONE \
     of the known product categories (by slug) and derive spec constraints from the \
     text using that category's spec keys (a quantity the user typed is a minimum: \
     op \"min\"; a named variant is op \"eq\"). If NO known category fits, set \
     category_slug to null and draft a `proposal`: a kebab-case slug, a short \
     label, title words that identify the product (aliases), and 1-4 spec \
     dimensions buyers filter on (kind number with a unit, enum with \
     allowed_values, or boolean). `web_search_results`, when present, are \
     snippets about the search — use them to identify what the product is. \
     Answer only with the JSON object.";

/// The category revision prompt.
pub const REVISE_PROMPT: &'static str =
    "You maintain product category definitions for a second-hand deal \
     tracker. Given the current category (JSON) and the user's instruction, \
     answer with the FULL revised category object — apply the instruction \
     and keep everything else unchanged, including the slug. Specs are the \
     filters buyers get: kind \"number\" carries a unit, \"enum\" carries \
     allowed_values, \"boolean\" carries extraction_hint (title words that \
     mean yes). Answer only with the JSON object.";

/// The built-in prompts.
pub open spec fn built_in() -> PromptSetView {
    PromptSetView {
        refine: REFINE_PROMPT@,
        interpret: INTERPRET_PROMPT@,
        revise: REVISE_PROMPT@,
    }
}

/// The built-in prompts.
pub fn default_prompts() -> (r: PromptSet)
    ensures
        r.deep_view() == built_in(),
{
    PromptSet {
        refine: REFINE_PROMPT.to_owned(),
        interpret: INTERPRET_PROMPT.to_owned(),
        revise: REVISE_PROMPT.to_owned(),
    }
}

/// Stored prompts over the built-in ones: a blank field is the built-in prompt.
pub open spec fn prompts_with(stored: Option<PromptSetView>) -> PromptSetView {
    match stored {
        Some(s) => PromptSetView {
            refine: picked(s.refine, built_in().refine),
            interpret: picked(s.interpret, built_in().interpret),
            revise: picked(s.revise, built_in().revise),
        },
        None => built_in(),
    }
}

/// What borrowed prompts hold.
pub open spec fn prompts_view(stored: Option<&PromptSet>) -> Option<PromptSetView> {
    match stored {
        Some(s) => Some(s.deep_view()),
        None => None,
    }
}

/// Stored prompts merged over the built-in ones.
pub fn effective_prompts(stored: Option<&PromptSet>) -> (r: PromptSet)
    ensures
        r.deep_view() == prompts_with(prompts_view(stored)),
{
    let defaults = default_prompts();
    match stored {
        Some(s) => PromptSet {
            refine: pick(s.refine.as_str(), defaults.refine.as_str()),
            interpret: pick(s.interpret.as_str(), defaults.interpret.as_str()),
            revise: pick(s.revise.as_str(), defaults.revise.as_str()),
        },
        None => defaults,
    }
}

/// The built-in prompts are not blank, and there is nothing to trim of them.
proof fn built_in_is_settled()
    ensures
        trimmed(built_in().refine) == built_in().refine,
        trimmed(built_in().interpret) == built_in().interpret,
        trimmed(built_in().revise) == built_in().revise,
        built_in().refine.len() > 0,
        built_in().interpret.len() > 0,
        built_in().revise.len() > 0,
{
    reveal_strlit(
        "You review second-hand hardware marketplace listings. Given a listing whose \
     title mentions the models listed, decide: is it a genuine offer for one \
     product (\"genuine\"), a title stuffed with sibling model names for search \
     visibility or an accessory/bundle mentioning many models (\"stuffed-title\"), \
     or a likely scam, e.g. an implausibly low price (\"scam\")? Also extract the \
     storage/RAM capacity in decimal gigabytes and the condition when the title \
     states them, else null. Answer only with the JSON object.",
    );
    reveal_strlit(
        "A user typed a product search into a second-hand deal tracker. Map it to ONE \
     of the known product categories (by slug) and derive spec constraints from the \
     text using that category's spec keys (a quantity the user typed is a minimum: \
     op \"min\"; a named variant is op \"eq\"). If NO known category fits, set \
     category_slug to null and draft a `proposal`: a kebab-case slug, a short \
     label, title words that identify the product (aliases), and 1-4 spec \
     dimensions buyers filter on (kind number with a unit, enum with \
     allowed_values, or boolean). `web_search_results`, when present, are \
     snippets about the search — use them to identify what the product is. \
     Answer only with the JSON object.",
    );
    reveal_strlit(
        "You maintain product category definitions for a second-hand deal \
     tracker. Given the current category (JSON) and the user's instruction, \
     answer with the FULL revised category object — apply the instruction \
     and keep everything else unchanged, including the slug. Specs are the \
     filters buyers get: kind \"number\" carries a unit, \"enum\" carries \
     allowed_values, \"boolean\" carries extraction_hint (title words that \
     mean yes). Answer only with the JSON object.",
    );
    let refine = built_in().refine;
    let interpret = built_in().interpret;
    let revise = built_in().revise;
    assert(refine[0] == 'Y' && refine.last() == '.');
    assert(interpret[0] == 'A' && interpret.last() == '.');
    assert(revise[0] == 'Y' && revise.last() == '.');
}

/// Every merged prompt is trimmed and not blank, merging twice is merging once, and a
/// blank override, or none, is the built-in prompt.
pub proof fn merged_prompts_are_settled(stored: Option<PromptSetView>)
    ensures
        ({
            let p = prompts_with(stored);
            &&& trimmed(p.refine) == p.refine && p.refine.len() > 0
            &&& trimmed(p.interpret) == p.interpret && p.interpret.len() > 0
            &&& trimmed(p.revise) == p.revise && p.revise.len() > 0
            &&& prompts_with(Some(p)) == p
            &&& stored is None ==> p == built_in()
            &&& stored matches Some(s) ==> {
                &&& trimmed(s.refine).len() == 0 ==> p.refine == built_in().refine
                &&& trimmed(s.interpret).len() == 0 ==> p.interpret == built_in().interpret
                &&& trimmed(s.revise).len() == 0 ==> p.revise == built_in().revise
            }
        }),
{
    built_in_is_settled();
    if let Some(s) = stored {
        trimmed_stays(s.refine);
        trimmed_stays(s.interpret);
        trimmed_stays(s.revise);
    }
}

/// What to store of a prompt: nothing where it is the built-in one.
pub open spec fn stored_prompt(given: Seq<char>, built_in: Seq<char>) -> Seq<char> {
    if trimmed(given) == trimmed(built_in) {
        Seq::empty()
    } else {
        given
    }
}

/// What to store of the prompts that a user saves.
pub open spec fn stored_prompts(given: PromptSetView) -> PromptSetView {
    PromptSetView {
        refine: stored_prompt(given.refine, built_in().refine),
        interpret: stored_prompt(given.interpret, built_in().interpret),
        revise: stored_prompt(given.revise, built_in().revise),
    }
}

/// What is stored of saved prompts comes to the same prompts as what was saved.
pub proof fn storing_keeps_the_prompts(given: PromptSetView)
    ensures
        prompts_with(Some(stored_prompts(given))) == prompts_with(Some(given)),
{
    built_in_is_settled();
    assert(trimmed(Seq::<char>::empty()) =~= Seq::empty());
}

/// What to store of the prompts that a user saves: a field left at, or reset to, the
/// built-in prompt is stored blank, so that a later change of the built-in prompt applies.
pub fn prompts_to_store(given: PromptSet) -> (r: PromptSet)
    ensures
        r.deep_view() == stored_prompts(given.deep_view()),
{
    PromptSet {
        refine: blank_if(given.refine, REFINE_PROMPT),
        interpret: blank_if(given.interpret, INTERPRET_PROMPT),
        revise: blank_if(given.revise, REVISE_PROMPT),
    }
}

/// `given`; blank where it is `built_in`, but for white space at the ends.
fn blank_if(given: String, built_in: &str) -> (r: String)
    ensures
        r@ == stored_prompt(given@, built_in@),
{
    if trim(given.as_str()) == trim(built_in) {
        String::new()
    } else {
        given
    }
}

// ---- answers ----

/// The assistant's text in an answer, or what is wrong with it.
pub open spec fn content_in(v: JsonView) -> Result<Seq<char>, Seq<char>> {
    let choice = v.field("choices"@).item(0);
    let message = choice.field("message"@);
    let content = message.field("content"@).text();
    let reasoning = message.field("reasoning_content"@).text();
    let finish = match choice.field("finish_reason"@).text() {
        Some(f) => f,
        None => "?"@,
    };
    if content is Some && trimmed(content->0).len() > 0 {
        Ok(content->0)
    } else if reasoning is Some && trimmed(reasoning->0).len() > 0 {
        if finish == "stop"@ && occurs(reasoning->0, "{"@) {
            Ok(reasoning->0)
        } else {
            Err(
                "the model spent its whole token budget reasoning without answering (finish_reason="@
                    + finish + ") — thinking should be disabled for this call"@,
            )
        }
    } else {
        Err("no choices[0].message.content in llm response"@)
    }
}

/// What a reading of text holds.
pub open spec fn text_result(r: Result<String, String>) -> Result<Seq<char>, Seq<char>> {
    match r {
        Ok(t) => Ok(t@),
        Err(e) => Err(e@),
    }
}

/// The assistant's text in an answer that was read as JSON. A reasoning model that ran out
/// of tokens leaves its content empty; one that finished may have answered in its
/// reasoning.
pub fn content_from(v: &Json) -> (r: Result<String, String>)
    ensures
        text_result(r) == content_in(v.deep_view()),
{
    let choice = match v.get("choices") {
        Some(choices) => match choices.as_list() {
            Some(items) => {
                if items.len() > 0 {
                    assert(items.deep_view()[0] == items@[0].deep_view());
                    Some(&items[0])
                } else {
                    None
                }
            },
            None => None,
        },
        None => None,
    };
    let choice = match choice {
        Some(c) => c,
        None => {
            return Err("no choices[0].message.content in llm response".to_owned());
        },
    };
    let message = match choice.get("message") {
        Some(m) => m,
        None => {
            return Err("no choices[0].message.content in llm response".to_owned());
        },
    };
    if let Some(content) = crate::json::text_at(message, "content") {
        if !blank(content) {
            return Ok(content.to_owned());
        }
    }
    if let Some(reasoning) = crate::json::text_at(message, "reasoning_content") {
        if !blank(reasoning) {
            let finish = match crate::json::text_at(choice, "finish_reason") {
                Some(f) => f,
                None => "?",
            };
            if same(finish, "stop") && contains(reasoning, "{") {
                return Ok(reasoning.to_owned());
            }
            let mut e =
                "the model spent its whole token budget reasoning without answering (finish_reason=".to_owned();
            e.append(finish);
            e.append(") — thinking should be disabled for this call");
            return Err(e);
        }
    }
    Err("no choices[0].message.content in llm response".to_owned())
}

/// The assistant's text in an answer.
pub open spec fn content_of_body(body: Seq<char>) -> Result<Seq<char>, Seq<char>> {
    match json_read(body) {
        Ok(v) => content_in(v),
        Err(e) => Err(e),
    }
}

/// The assistant's text of a chat-completions answer.
pub fn content_of(body: &str) -> (r: Result<String, String>)
    ensures
        text_result(r) == content_of_body(body@),
{
    match parse_json(body) {
        Ok(v) => content_from(&v),
        Err(e) => Err(e),
    }
}

/// `content` behind the last `</think>`.
pub open spec fn after_thoughts(content: Seq<char>) -> Seq<char> {
    match last_at(content, "</think>"@, content.len() + 1int) {
        Some(i) => content.skip(i + 8),
        None => content,
    }
}

/// What stands from the first `{` to the last `}`; all of it where they do not stand in
/// that order.
pub open spec fn outermost_object(content: Seq<char>) -> Seq<char> {
    match (first_at(content, "{"@, 0), last_at(content, "}"@, content.len() + 1int)) {
        (Some(start), Some(end)) => if end > start {
            content.subrange(start, end + 1)
        } else {
            content
        },
        _ => content,
    }
}

/// Models love to wrap JSON in fences or prose: cuts an answer down to its outermost
/// object. Thoughts before it may hold braces, and are skipped first.
pub fn extract_json(content: &str) -> (r: String)
    ensures
        r@ == outermost_object(after_thoughts(content@)),
{
    let v = chars_of(content);
    let mark = chars_of("</think>");
    proof {
        reveal_strlit("</think>");
        reveal_strlit("{");
        reveal_strlit("}");
    }
    let from: usize = match rfind(&v, &mark) {
        Some(i) => {
            assert(mark@.len() == 8);
            assert(i + 8 <= v.len());
            i + 8
        },
        None => 0,
    };
    let rest = text_of(&v, from, v.len());
    assert(rest@ =~= after_thoughts(content@));
    let w = chars_of(rest.as_str());
    let open = chars_of("{");
    let close = chars_of("}");
    match (find_from(&w, &open, 0), rfind(&w, &close)) {
        (Some(start), Some(end)) => {
            if end > start {
                return text_of(&w, start, end + 1);
            }
            rest
        },
        _ => rest,
    }
}

/// The verdicts as an answer may name them.
pub const VERDICTS: &'static str =
    "one of `genuine`, `stuffed-title`, `scam`, `irrelevant`";

/// The verdict that an answer gives, or what is wrong with it.
pub open spec fn verdict_in(v: JsonView) -> Result<LlmVerdict, Seq<char>> {
    match v.get("verdict"@) {
        None => Err(missing("verdict"@)),
        Some(said) => match variant_name(said) {
            None => Err(wrong_kind("verdict"@, said, "a string"@)),
            Some(name) => match verdict_named(name) {
                Some(verdict) => Ok(verdict),
                None => Err(unknown_name("verdict"@, name, VERDICTS@)),
            },
        },
    }
}

fn read_verdict(v: &Json) -> (r: Result<LlmVerdict, String>)
    ensures
        match (r, verdict_in(v.deep_view())) {
            (Ok(verdict), Ok(said)) => verdict == said,
            (Err(e), Err(fault)) => e@ == fault,
            _ => false,
        },
{
    match v.get("verdict") {
        None => Err(say_missing("verdict")),
        Some(said) => match read_variant_name(said) {
            None => Err(say_wrong_kind("verdict", said, "a string")),
            Some(name) => match verdict_from_str(name) {
                Ok(verdict) => Ok(verdict),
                Err(_) => Err(say_unknown_name("verdict", name, VERDICTS)),
            },
        },
    }
}

/// The fields of a refinement, in order.
pub open spec fn refinement_names() -> Seq<Seq<char>> {
    seq!["verdict"@, "reason"@, "capacity_gb"@, "condition"@]
}

/// The refinement that a JSON object, or a list of its fields, states, or its first fault.
pub open spec fn refinement_in(v: JsonView) -> Result<RefinementView, Seq<char>> {
    match placed(v, refinement_names(), 2, "struct Refinement"@) {
        Err(e) => Err(e),
        Ok(v) => match (
            verdict_in(v),
            required_text(v, "reason"@),
            optional_integer(v, "capacity_gb"@),
            optional_text(v, "condition"@),
        ) {
            (Ok(verdict), Ok(reason), Ok(capacity_gb), Ok(condition)) => Ok(
                RefinementView { verdict, reason, capacity_gb, condition },
            ),
            (Err(e), _, _, _) => Err(e),
            (_, Err(e), _, _) => Err(e),
            (_, _, Err(e), _) => Err(e),
            (_, _, _, Err(e)) => Err(e),
        },
    }
}

/// The refinement that a JSON object, or a list of its fields, states, or its first fault.
pub fn refinement_from(v: &Json) -> (r: Result<Refinement, String>)
    ensures
        refinement_result(r) == refinement_in(v.deep_view()),
{
    let names: Vec<&'static str> = vec!["verdict", "reason", "capacity_gb", "condition"];
    assert(names_of(names@) =~= refinement_names());
    let object = match place_fields(v, &names, 2, "struct Refinement") {
        Ok(object) => object,
        Err(e) => {
            return Err(e);
        },
    };
    let v = match &object {
        Some(o) => o,
        None => v,
    };
    match (
        read_verdict(v),
        read_required_text(v, "reason"),
        read_optional_integer(v, "capacity_gb"),
        read_optional_text(v, "condition"),
    ) {
        (Ok(verdict), Ok(reason), Ok(capacity_gb), Ok(condition)) => Ok(
            Refinement { verdict, reason, capacity_gb, condition },
        ),
        (Err(e), _, _, _) => Err(e),
        (_, Err(e), _, _) => Err(e),
        (_, _, Err(e), _) => Err(e),
        (_, _, _, Err(e)) => Err(e),
    }
}

/// The refinement that an answer's content states, or what is wrong with it.
pub open spec fn refinement_of_content(content: Seq<char>) -> Result<RefinementView, Seq<char>> {
    match json_read(outermost_object(after_thoughts(content))) {
        Ok(v) => refinement_in(v),
        Err(e) => Err(e),
    }
}

/// What a reading of a refinement holds.
pub open spec fn refinement_result(r: Result<Refinement, String>) -> Result<
    RefinementView,
    Seq<char>,
> {
    match r {
        Ok(refinement) => Ok(refinement.deep_view()),
        Err(e) => Err(e@),
    }
}

/// The refinement that an answer's content states.
pub fn parse_refinement(content: &str) -> (r: Result<Refinement, String>)
    ensures
        refinement_result(r) == refinement_of_content(content@),
{
    match parse_json(extract_json(content).as_str()) {
        Ok(v) => refinement_from(&v),
        Err(e) => Err(e),
    }
}

/// The refinement that a chat-completions answer states.
pub fn parse_response(body: &str) -> (r: Result<Refinement, String>)
    ensures
        refinement_result(r) == match content_of_body(body@) {
            Ok(content) => refinement_of_content(content),
            Err(e) => Err(e),
        },
{
    match content_of(body) {
        Ok(content) => parse_refinement(content.as_str()),
        Err(e) => Err(e),
    }
}

/// The tokens that an answer says it used: of the prompt, and of the completion.
pub open spec fn usage_in(v: JsonView) -> Option<(i64, i64)> {
    let usage = v.field("usage"@);
    match (usage.field("prompt_tokens"@).integer(), usage.field("completion_tokens"@).integer()) {
        (Some(p), Some(c)) => Some((p, c)),
        _ => None,
    }
}

/// The tokens that an answer says it used.
pub fn usage_from(v: &Json) -> (r: Option<(i64, i64)>)
    ensures
        r == usage_in(v.deep_view()),
{
    let usage = match v.get("usage") {
        Some(u) => u,
        None => {
            return None;
        },
    };
    match (usage.get("prompt_tokens"), usage.get("completion_tokens")) {
        (Some(p), Some(c)) => match (p.as_i64(), c.as_i64()) {
            (Some(p), Some(c)) => Some((p, c)),
            _ => None,
        },
        _ => None,
    }
}

/// The first `n` characters of `s`, or all of it.
pub open spec fn front(s: Seq<char>, n: int) -> Seq<char> {
    if s.len() <= n {
        s
    } else {
        s.take(n)
    }
}

/// The first `n` characters of `s`, or all of it.
pub fn take_chars(s: &str, n: usize) -> (r: String)
    ensures
        r@ == front(s@, n as int),
{
    let v = chars_of(s);
    let to: usize = if v.len() <= n {
        v.len()
    } else {
        n
    };
    assert(v@.subrange(0, to as int) =~= front(s@, n as int));
    text_of(&v, 0, to)
}

/// What a refused request comes to: the status, and the front of the backend's own
/// message.
pub fn backend_error(status: &str, body: &str) -> (r: String)
    ensures
        r@ == status@ + ": "@ + trimmed(front(body@, 300)),
{
    let mut out = status.to_owned();
    out.append(": ");
    out.append(trim(take_chars(body, 300).as_str()).as_str());
    out
}

/// What an answer that could not be read comes to: the error, and the front of the
/// answer.
pub fn unreadable(error: &str, content: &str) -> (r: String)
    ensures
        r@ == error@ + " (content: "@ + front(content@, 120) + ")"@,
{
    let mut out = error.to_owned();
    out.append(" (content: ");
    out.append(take_chars(content, 120).as_str());
    out.append(")");
    out
}

/// What a retry that failed as well comes to.
pub fn retry_failed(first: &str, error: &str) -> (r: String)
    ensures
        r@ == first@ + "; plain retry: "@ + error@,
{
    let mut out = first.to_owned();
    out.append("; plain retry: ");
    out.append(error);
    out
}

/// The body of the one retry of a failed structured request: the same without
/// `response_format`, for backends that reject or mangle it. None where the request had
/// none: it is not retried.
pub open spec fn plain_body(body: JsonView) -> Option<JsonView> {
    match body {
        JsonView::Object(fields) => if body.get("response_format"@) is Some {
            Some(JsonView::Object(dropped_field(fields, "response_format"@)))
        } else {
            None
        },
        _ => None,
    }
}

/// The body of the one retry of a failed structured request.
pub fn retry_body(body: Json) -> (r: Option<Json>)
    ensures
        r.deep_view() == plain_body(body.deep_view()),
{
    let had = body.get("response_format").is_some();
    match body {
        Json::Object(fields) => {
            if had {
                assert(body.deep_view()->Object_0 =~= fields.deep_view());
                Some(object(remove_field(fields, "response_format")))
            } else {
                None
            }
        },
        _ => None,
    }
}

/// The chat endpoint of a backend.
pub fn chat_url(base_url: &str) -> (r: String)
    ensures
        r@ == without_slashes(base_url@) + "/chat/completions"@,
{
    let mut out = trim_slashes(base_url);
    out.append("/chat/completions");
    out
}

/// The model catalog of a backend.
pub fn models_url(base_url: &str) -> (r: String)
    ensures
        r@ == without_slashes(base_url@) + "/models"@,
{
    let mut out = trim_slashes(base_url);
    out.append("/models");
    out
}

/// The ids of listed models, without those that have none.
pub open spec fn model_ids(items: Seq<JsonView>) -> Seq<Seq<char>>
    decreases items.len(),
{
    if items.len() == 0 {
        Seq::empty()
    } else {
        let before = model_ids(items.drop_last());
        match items.last().field("id"@).text() {
            Some(id) => before.push(id),
            None => before,
        }
    }
}

/// The models that a backend's catalog lists, in alphabetical order, or what is wrong with
/// it. `url` is where it came from.
pub open spec fn catalog_models(
    read: Result<JsonView, Seq<char>>,
    url: Seq<char>,
) -> Result<Seq<Seq<char>>, Seq<char>> {
    match read {
        Err(e) => Err(e),
        Ok(v) => match v.field("data"@).items() {
            Some(items) => Ok(model_ids(items).sort_by(alphabetical())),
            None => Err("no data[] in "@ + url + " response"@),
        },
    }
}

/// What a reading of texts holds.
pub open spec fn models_result(r: Result<Vec<String>, String>) -> Result<Seq<Seq<char>>, Seq<char>> {
    match r {
        Ok(models) => Ok(models.deep_view()),
        Err(e) => Err(e@),
    }
}

/// The models that a catalog, read as JSON, lists.
pub fn models_from(read: Result<Json, String>, url: &str) -> (r: Result<Vec<String>, String>)
    ensures
        models_result(r) == catalog_models(read_view(read), url@),
{
    let v = match read {
        Ok(v) => v,
        Err(e) => {
            return Err(e);
        },
    };
    let data = match v.get("data") {
        Some(d) => d.as_list(),
        None => None,
    };
    let items = match data {
        Some(items) => items,
        None => {
            let mut m = "no data[] in ".to_owned();
            m.append(url);
            m.append(" response");
            return Err(m);
        },
    };
    let ghost all = items.deep_view();
    let mut ids: Vec<String> = Vec::new();
    let mut i: usize = 0;
    assert(ids.deep_view() =~= Seq::empty());
    while i < items.len()
        invariant
            i <= items@.len(),
            all == items.deep_view(),
            ids.deep_view() == model_ids(all.take(i as int)),
        decreases items@.len() - i,
    {
        assert(all.take(i + 1).drop_last() =~= all.take(i as int));
        assert(all.take(i + 1).last() == items@[i as int].deep_view());
        if let Some(id) = text_at(&items[i], "id") {
            push_text(&mut ids, id);
        }
        i = i + 1;
    }
    assert(all.take(all.len() as int) =~= all);
    Ok(sort_texts(&ids))
}

/// The models that the body of a catalog lists.
pub fn parse_models(body: &str, url: &str) -> (r: Result<Vec<String>, String>)
    ensures
        models_result(r) == catalog_models(json_read(body@), url@),
{
    models_from(parse_json(body), url)
}

/// Seconds that an interpretation or a revision may take: they generate a lot more than a
/// refinement, and a reasoning model thinks first.
pub fn long_timeout(timeout_secs: u64) -> (r: u64)
    ensures
        r == if timeout_secs >= 300 {
            timeout_secs
        } else {
            300
        },
{
    if timeout_secs >= 300 {
        timeout_secs
    } else {
        300
    }
}

/// One logged LLM call.
#[derive(Debug, PartialEq)]
pub struct LlmLogEntry {
    pub kind: String,
    pub model: String,
    pub duration_ms: i64,
    pub ok: bool,
    pub error: Option<String>,
    pub prompt_tokens: Option<i64>,
    pub completion_tokens: Option<i64>,
}

/// The log entry of a call.
pub fn log_entry(
    kind: &str,
    model: &str,
    duration_ms: i64,
    error: Option<String>,
    usage: Option<(i64, i64)>,
) -> (r: LlmLogEntry)
    ensures
        r.kind@ == kind@,
        r.model@ == model@,
        r.duration_ms == duration_ms,
        r.ok == (error is None),
        r.error == error,
        r.prompt_tokens == match usage {
            Some((p, _)) => Some(p),
            None => None,
        },
        r.completion_tokens == match usage {
            Some((_, c)) => Some(c),
            None => None,
        },
{
    let (prompt_tokens, completion_tokens) = match usage {
        Some((p, c)) => (Some(p), Some(c)),
        None => (None, None),
    };
    LlmLogEntry {
        kind: kind.to_owned(),
        model: model.to_owned(),
        duration_ms,
        ok: error.is_none(),
        error,
        prompt_tokens,
        completion_tokens,
    }
}

/// Blank fields of an override fall back to the configuration, and the override's switch
/// always wins.
pub proof fn blank_override_fields_fall_back(
    base: LlmConfigView,
    over: LlmOverrideView,
    key: Option<Seq<char>>,
)
    ensures
        resolved(base, Some(over), key).enabled == over.enabled,
        trimmed(over.model).len() == 0 ==> resolved(base, Some(over), key).model == base.model,
        trimmed(over.base_url).len() == 0 ==> resolved(base, Some(over), key).base_url
            == base.base_url,
        resolved(base, None, key).enabled == base.enabled,
{
}

/// A disabled pass without a key of its own reads no key file and has no key.
pub proof fn disabled_pass_reads_no_key(
    base: LlmConfigView,
    over: Option<LlmOverrideView>,
    key: Option<Seq<char>>,
)
    requires
        !llm_enabled(base, over),
        override_key(over) is None,
    ensures
        key_file_wanted(base, over) is None,
        resolved(base, over, key).api_key is None,
{
}

/// Saving settings without a key keeps the stored key; saving an empty key clears it.
pub proof fn saving_keeps_or_clears_the_key(stored: LlmOverrideView, update: LlmSettingsUpdateView)
    ensures
        update.api_key is None ==> updated(Some(stored), update).api_key == stored.api_key,
        update.api_key == Some(Seq::<char>::empty()) ==> updated(Some(stored), update).api_key
            is None,
{
}

/// What is saved of the prompts runs as it was typed, but for white space at the ends; a
/// prompt saved blank runs the built-in one.
pub proof fn saved_prompts_run(given: Seq<char>, built_in: Seq<char>)
    requires
        trimmed(built_in) == built_in,
    ensures
        picked(stored_prompt(given, built_in), built_in) == picked(given, built_in),
{
    assert(trimmed(Seq::<char>::empty()) =~= Seq::<char>::empty());
}

/// A retry never carries a response format again, so there is at most one.
pub proof fn at_most_one_retry(fields: Seq<(Seq<char>, JsonView)>)
    requires
        crate::table::keys_differ(fields),
    ensures
        plain_body(JsonView::Object(fields)) matches Some(body) ==> plain_body(body) is None,
{
    let key = "response_format"@;
    let rest = dropped_field(fields, key);
    crate::table::place_is_first(fields, key);
    crate::table::place_is_first(rest, key);
    let i = crate::table::place_of(fields, key);
    if i < fields.len() {
        let k = crate::table::place_of(rest, key);
        if k < rest.len() {
            let j = if k < i { k } else { k + 1 };
            assert(rest[k] == fields[j]);
            assert(fields[i].0 == key);
        }
    }
}

/// What is cut out of an answer is found again when it is cut once more.
pub proof fn cutting_out_is_idempotent(content: Seq<char>)
    ensures
        outermost_object(outermost_object(content)) == outermost_object(content),
{
    let inner = outermost_object(content);
    reveal_strlit("{");
    reveal_strlit("}");
    match (first_at(content, "{"@, 0), last_at(content, "}"@, content.len() + 1int)) {
        (Some(start), Some(end)) => {
            if end > start {
                first_at_is_first(content, "{"@, 0);
                last_at_is_last(content, "}"@, content.len() + 1int);
                assert(content.subrange(start, start + 1) == "{"@);
                assert(content.subrange(end, end + 1) == "}"@);
                assert(content[start] == content.subrange(start, start + 1)[0]);
                assert(content[end] == content.subrange(end, end + 1)[0]);
                assert(inner.subrange(0, 1) =~= "{"@);
                assert(stands_at(inner, "{"@, 0));
                assert(inner.subrange(end - start, end - start + 1) =~= "}"@);
                assert(stands_at(inner, "}"@, end - start));
                last_at_is_last(inner, "}"@, inner.len() + 1int);
                first_at_is_first(inner, "{"@, 0);
                assert(inner.subrange(0, inner.len() as int) =~= inner);
            }
        },
        _ => {},
    }
}

/// What is in effect, field by field: the override, where it says something, goes before
/// the configuration; a key of the override goes before the key file, of which what it
/// holds without the white space around it is the key.
pub proof fn what_is_in_effect(
    base: LlmConfigView,
    over: Option<LlmOverrideView>,
    key_file: Option<Seq<char>>,
)
    ensures
        ({
            let eff = resolved(base, over, key_file);
            &&& eff.timeout_secs == base.timeout_secs
            &&& eff.from_override == over is Some
            &&& over is None ==> eff.base_url == base.base_url && eff.model == base.model
                && !eff.override_key_set
            &&& over matches Some(o) ==> {
                &&& trimmed(o.base_url).len() > 0 ==> eff.base_url == trimmed(o.base_url)
                &&& trimmed(o.model).len() > 0 ==> eff.model == trimmed(o.model)
                &&& eff.override_key_set == (o.api_key is Some && (o.api_key->0).len() > 0)
                &&& eff.override_key_set ==> eff.api_key == o.api_key
            }
            &&& !eff.override_key_set && eff.enabled && base.api_key_file is Some
                && key_file is Some ==> eff.api_key == Some(trimmed(key_file->0))
            &&& !eff.override_key_set && (base.api_key_file is None || key_file is None)
                ==> eff.api_key is None
        }),
        key_file_wanted(base, over) is Some <==> base.api_key_file is Some && llm_enabled(base, over)
            && override_key(over) is None,
        key_file_wanted(base, over) is Some ==> key_file_wanted(base, over) == base.api_key_file,
{
}

/// What an update stores: what it says, and the key that it gives, keeps or clears.
pub proof fn updates_store_what_they_say(
    stored: Option<LlmOverrideView>,
    update: LlmSettingsUpdateView,
)
    ensures
        updated(stored, update).enabled == update.enabled,
        updated(stored, update).base_url == update.base_url,
        updated(stored, update).model == update.model,
        update.api_key matches Some(k) ==> updated(stored, update).api_key == if k.len() == 0 {
            None
        } else {
            Some(k)
        },
        update.api_key is None && stored is None ==> updated(stored, update).api_key is None,
{
}

/// A probe goes to what the form gives, and where it gives nothing to what is in effect.
pub proof fn probes_go_by_the_form(req: LlmProbeRequestView, eff: EffectiveLlmView)
    ensures
        probed(req, eff).0 == if req.base_url is Some && trimmed(req.base_url->0).len() > 0 {
            trimmed(req.base_url->0)
        } else {
            eff.base_url
        },
        probed(req, eff).1 == if req.model is Some && trimmed(req.model->0).len() > 0 {
            trimmed(req.model->0)
        } else {
            eff.model
        },
        probed(req, eff).2 == if req.api_key is Some && (req.api_key->0).len() > 0 {
            req.api_key
        } else {
            eff.api_key
        },
{
}

/// Each prompt that is stored runs in the place of the built-in one of the same name, each
/// for itself.
pub proof fn prompts_run_for_themselves(stored: PromptSetView)
    ensures
        prompts_with(None) == built_in(),
        built_in().refine == REFINE_PROMPT@,
        built_in().interpret == INTERPRET_PROMPT@,
        built_in().revise == REVISE_PROMPT@,
        prompts_with(Some(stored)).refine == if trimmed(stored.refine).len() == 0 {
            REFINE_PROMPT@
        } else {
            trimmed(stored.refine)
        },
        prompts_with(Some(stored)).interpret == if trimmed(stored.interpret).len() == 0 {
            INTERPRET_PROMPT@
        } else {
            trimmed(stored.interpret)
        },
        prompts_with(Some(stored)).revise == if trimmed(stored.revise).len() == 0 {
            REVISE_PROMPT@
        } else {
            trimmed(stored.revise)
        },
        stored_prompts(stored).refine == if trimmed(stored.refine) == trimmed(REFINE_PROMPT@) {
            Seq::empty()
        } else {
            stored.refine
        },
        stored_prompts(stored).interpret == if trimmed(stored.interpret) == trimmed(
            INTERPRET_PROMPT@,
        ) {
            Seq::empty()
        } else {
            stored.interpret
        },
        stored_prompts(stored).revise == if trimmed(stored.revise) == trimmed(REVISE_PROMPT@) {
            Seq::empty()
        } else {
            stored.revise
        },
{
}

/// The text of an answer is its content where that is not blank; else its reasoning, where
/// the model stopped by itself and an object stands in it; else there is none, and the
/// message says whether the budget went into reasoning.
pub proof fn where_the_answer_stands(v: JsonView)
    ensures
        ({
            let choice = v.field("choices"@).item(0);
            let said = choice.field("message"@).field("content"@).text();
            let thought = choice.field("message"@).field("reasoning_content"@).text();
            let finish = choice.field("finish_reason"@).text();
            let spoke = said is Some && trimmed(said->0).len() > 0;
            let mused = thought is Some && trimmed(thought->0).len() > 0;
            &&& spoke ==> content_in(v) == Ok::<Seq<char>, Seq<char>>(said->0)
            &&& !spoke && mused && finish == Some("stop"@) && occurs(thought->0, "{"@)
                ==> content_in(v) == Ok::<Seq<char>, Seq<char>>(thought->0)
            &&& !spoke && mused && finish is Some && (finish != Some("stop"@) || !occurs(
                thought->0,
                "{"@,
            )) ==> content_in(v) == Err::<Seq<char>, Seq<char>>(
                "the model spent its whole token budget reasoning without answering (finish_reason="@
                    + finish->0 + ") — thinking should be disabled for this call"@,
            )
            &&& !spoke && mused && finish is None ==> content_in(v) is Err
            &&& !spoke && !mused ==> content_in(v) == Err::<Seq<char>, Seq<char>>(
                "no choices[0].message.content in llm response"@,
            )
        }),
{
    reveal_strlit("?");
    reveal_strlit("stop");
    assert("?"@.len() != "stop"@.len());
}

/// What stands behind the last end of a thought is the answer; without one all of it is.
pub proof fn thoughts_are_cut_off(thoughts: Seq<char>, answer: Seq<char>)
    requires
        last_at(thoughts + "</think>"@ + answer, "</think>"@, (thoughts + "</think>"@
            + answer).len() + 1int) == Some(thoughts.len() as int),
    ensures
        after_thoughts(thoughts + "</think>"@ + answer) == answer,
        !occurs(thoughts, "</think>"@) ==> after_thoughts(thoughts) == thoughts,
{
    reveal_strlit("</think>");
    let all = thoughts + "</think>"@ + answer;
    assert(all.skip(thoughts.len() + 8int) =~= answer);
    last_at_is_last(thoughts, "</think>"@, thoughts.len() + 1int);
}

/// What is cut out of a text begins with its first opening brace and ends with its last
/// closing one, where they stand in that order; else all of it stays.
pub proof fn objects_are_cut_out(content: Seq<char>)
    ensures
        match (first_at(content, "{"@, 0), last_at(content, "}"@, content.len() + 1int)) {
            (Some(a), Some(b)) => {
                &&& a < b ==> outermost_object(content) == content.subrange(a, b + 1)
                    && outermost_object(content)[0] == '{' && outermost_object(content).last()
                    == '}'
                &&& a >= b ==> outermost_object(content) == content
            },
            _ => outermost_object(content) == content,
        },
{
    reveal_strlit("{");
    reveal_strlit("}");
    first_at_is_first(content, "{"@, 0);
    last_at_is_last(content, "}"@, content.len() + 1int);
    if let (Some(a), Some(b)) = (
        first_at(content, "{"@, 0),
        last_at(content, "}"@, content.len() + 1int),
    ) {
        assert(content.subrange(a, a + 1)[0] == content[a]);
        assert("{"@[0] == '{');
        if a < b {
            assert(content.subrange(b, b + 1)[0] == content[b]);
            assert("}"@[0] == '}');
            let cut = content.subrange(a, b + 1);
            assert(cut[0] == content[a]);
            assert(cut.last() == content[b]);
        }
    }
}

/// The verdicts are the four of that name, and no other name is one.
pub proof fn verdicts_go_by_name(v: JsonView)
    ensures
        v.get("verdict"@) is None ==> verdict_in(v) is Err,
        v.get("verdict"@) == Some(JsonView::Text("genuine"@)) ==> verdict_in(v) == Ok::<
            LlmVerdict,
            Seq<char>,
        >(LlmVerdict::Genuine),
        v.get("verdict"@) == Some(JsonView::Text("stuffed-title"@)) ==> verdict_in(v) == Ok::<
            LlmVerdict,
            Seq<char>,
        >(LlmVerdict::StuffedTitle),
        v.get("verdict"@) == Some(JsonView::Text("scam"@)) ==> verdict_in(v) == Ok::<
            LlmVerdict,
            Seq<char>,
        >(LlmVerdict::Scam),
        v.get("verdict"@) == Some(JsonView::Text("irrelevant"@)) ==> verdict_in(v) == Ok::<
            LlmVerdict,
            Seq<char>,
        >(LlmVerdict::Irrelevant),
        v.get("verdict"@) matches Some(JsonView::Text(name)) ==> name != "genuine"@ && name
            != "stuffed-title"@ && name != "scam"@ && name != "irrelevant"@ ==> verdict_in(v)
            is Err,
{
    reveal_strlit("genuine");
    reveal_strlit("stuffed-title");
    reveal_strlit("scam");
    reveal_strlit("irrelevant");
    assert("genuine"@.len() == 7 && "stuffed-title"@.len() == 13 && "scam"@.len() == 4
        && "irrelevant"@.len() == 10);
}

/// A refinement says what its four fields say, of which the first two have to be there.
pub proof fn refinements_say_what_they_state(v: JsonView)
    requires
        v is Object,
    ensures
        refinement_in(v) is Ok <==> verdict_in(v) is Ok && required_text(v, "reason"@) is Ok
            && optional_integer(v, "capacity_gb"@) is Ok && optional_text(v, "condition"@) is Ok,
        refinement_in(v) matches Ok(r) ==> {
            &&& verdict_in(v) == Ok::<LlmVerdict, Seq<char>>(r.verdict)
            &&& v.get("reason"@) == Some(JsonView::Text(r.reason))
            &&& r.capacity_gb is Some ==> v.field("capacity_gb"@).integer() == r.capacity_gb
            &&& r.capacity_gb is None ==> v.field("capacity_gb"@) is Null
            &&& r.condition matches Some(c) ==> v.get("condition"@) == Some(JsonView::Text(c))
            &&& r.condition is None ==> v.field("condition"@) is Null
        },
{
}

/// The tokens of an answer are those it states for its prompt and for its completion, where
/// it states both.
pub proof fn usage_is_stated(v: JsonView)
    ensures
        match (
            v.field("usage"@).field("prompt_tokens"@).integer(),
            v.field("usage"@).field("completion_tokens"@).integer(),
        ) {
            (Some(prompt), Some(completion)) => usage_in(v) == Some((prompt, completion)),
            _ => usage_in(v) is None,
        },
{
}

/// The front of a text is a prefix of it, as long as asked for or as there is.
pub proof fn fronts_are_prefixes(s: Seq<char>, n: int)
    requires
        n >= 0,
    ensures
        front(s, n).is_prefix_of(s),
        front(s, n).len() == if s.len() <= n {
            s.len() as int
        } else {
            n
        },
{
}

/// The plain body of a request lacks its response format and nothing else; a request
/// without one has no plain body.
pub proof fn plain_bodies_keep_the_rest(fields: Seq<(Seq<char>, JsonView)>, key: Seq<char>)
    requires
        crate::table::keys_differ(fields),
    ensures
        plain_body(JsonView::Object(fields)) is Some <==> crate::table::lookup(
            fields,
            "response_format"@,
        ) is Some,
        plain_body(JsonView::Object(fields)) matches Some(plain) ==> plain.get(key) == if key
            == "response_format"@ {
            None
        } else {
            crate::table::lookup(fields, key)
        },
{
    crate::table::place_is_first(fields, "response_format"@);
    crate::table::place_is_first(fields, key);
    let i = crate::table::place_of(fields, "response_format"@);
    let j = crate::table::place_of(fields, key);
    if i < fields.len() {
        let less = fields.remove(i);
        crate::table::place_is_first(less, key);
        let k = crate::table::place_of(less, key);
        if key == "response_format"@ {
            if k < less.len() {
                if k < i {
                    assert(less[k] == fields[k]);
                } else {
                    assert(less[k] == fields[k + 1]);
                    assert(fields[i].0 != fields[k + 1].0);
                }
            }
        } else {
            if j < fields.len() {
                let m = if j < i {
                    j
                } else {
                    j - 1
                };
                assert(less[m] == fields[j]);
                if k < m {
                    if k < i {
                        assert(less[k] == fields[k]);
                    } else {
                        assert(less[k] == fields[k + 1]);
                    }
                }
                assert(k == m);
            } else if k < less.len() {
                if k < i {
                    assert(less[k] == fields[k]);
                } else {
                    assert(less[k] == fields[k + 1]);
                }
            }
        }
    }
}

/// The ids of a catalog are those of exactly the models that have one, in order.
pub proof fn every_model_with_an_id_is_listed(
    items: Seq<JsonView>,
)
    ensures
        model_ids(items).map_values(|l: Seq<char>| Some(l)) == items.map_values(
            |x: JsonView| x.field("id"@).text(),
        ).filter(|l: Option<Seq<char>>| l is Some),
    decreases items.len(),
{
    reveal(Seq::filter);
    let f = |x: JsonView| x.field("id"@).text();
    let p = |l: Option<Seq<char>>| l is Some;
    let g = |l: Seq<char>| Some(l);
    if items.len() > 0 {
        let rest = items.drop_last();
        every_model_with_an_id_is_listed(rest);
        assert(items.map_values(f).drop_last() =~= rest.map_values(f));
        assert(items.map_values(f).last() == f(items.last()));
        if let Some(l) = f(items.last()) {
            let before = model_ids(rest);
            assert(before.push(l).map_values(g) =~= before.map_values(g).push(Some(l)));
        }
    }
    assert(model_ids(items).map_values(g) =~= items.map_values(f).filter(p));
}

/// The models of a catalog come in alphabetical order, every one of them and no other.
pub proof fn models_come_in_order(v: JsonView, url: Seq<char>)
    ensures
        match v.field("data"@).items() {
            Some(items) => catalog_models(Ok(v), url) matches Ok(models) && models.to_multiset()
                == model_ids(items).to_multiset() && forall|i: int, j: int|
                0 <= i < j < models.len() ==> at_or_before(
                    #[trigger] models[i],
                    #[trigger] models[j],
                ),
            None => catalog_models(Ok(v), url) == Err::<Seq<Seq<char>>, Seq<char>>(
                "no data[] in "@ + url + " response"@,
            ),
        },
{
    if let Some(items) = v.field("data"@).items() {
        let ids = model_ids(items);
        let models = ids.sort_by(alphabetical());
        alphabetical_is_total();
        ids.lemma_sort_by_ensures(alphabetical());
        assert forall|i: int, j: int| 0 <= i < j < models.len() implies at_or_before(
            #[trigger] models[i],
            #[trigger] models[j],
        ) by {
            assert(alphabetical()(models[i], models[j]));
        }
    }
}

/// The fields of a refinement, in the order in which a list gives them; the first two have
/// to be given.
pub proof fn refinement_fields_come_in_order(items: Seq<JsonView>)
    ensures
        refinement_names() == seq!["verdict"@, "reason"@, "capacity_gb"@, "condition"@],
        items.len() < 2 || items.len() > 4 ==> refinement_in(JsonView::List(items)) is Err,
{
}

} // verus!
