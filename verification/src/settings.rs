//! Runtime-editable server settings. The configuration file is the base; a stored
//! override (edited from the UI) takes precedence field by field and applies without a
//! restart.

use vstd::prelude::*;

verus! {

/// Effective LLM configuration. The API key itself never leaves the server: only whether
/// one is set.
#[derive(Debug, PartialEq, Eq)]
pub struct LlmSettings {
    pub enabled: bool,
    pub base_url: String,
    pub model: String,
    /// An override API key is stored on the server.
    pub api_key_set: bool,
    /// True when an override is active.
    pub from_override: bool,
}

/// What `LlmSettings` holds.
#[verifier::ext_equal]
pub struct LlmSettingsView {
    pub enabled: bool,
    pub base_url: Seq<char>,
    pub model: Seq<char>,
    pub api_key_set: bool,
    pub from_override: bool,
}

impl DeepView for LlmSettings {
    type V = LlmSettingsView;

    open spec fn deep_view(&self) -> LlmSettingsView {
        LlmSettingsView {
            enabled: self.enabled,
            base_url: self.base_url@,
            model: self.model@,
            api_key_set: self.api_key_set,
            from_override: self.from_override,
        }
    }
}

/// The three system prompts driving the LLM calls. In override storage an empty field
/// means "use the built-in default".
#[derive(Debug, PartialEq, Eq)]
pub struct PromptSet {
    /// Listing review (genuine / stuffed-title / scam).
    pub refine: String,
    /// Free-text search → category + constraints / proposal.
    pub interpret: String,
    /// Category rework per user instruction.
    pub revise: String,
}

/// What `PromptSet` holds.
#[verifier::ext_equal]
pub struct PromptSetView {
    pub refine: Seq<char>,
    pub interpret: Seq<char>,
    pub revise: Seq<char>,
}

impl DeepView for PromptSet {
    type V = PromptSetView;

    open spec fn deep_view(&self) -> PromptSetView {
        PromptSetView {
            refine: self.refine@,
            interpret: self.interpret@,
            revise: self.revise@,
        }
    }
}

impl Clone for PromptSet {
    fn clone(&self) -> (r: Self)
        ensures
            r.deep_view() == self.deep_view(),
    {
        PromptSet {
            refine: self.refine.clone(),
            interpret: self.interpret.clone(),
            revise: self.revise.clone(),
        }
    }
}

/// The prompts that run now, and the factory defaults, so that the UI can offer a reset
/// and show what changed.
#[derive(Debug, PartialEq, Eq)]
pub struct PromptsResponse {
    pub current: PromptSet,
    pub default: PromptSet,
}

/// One message of an LLM revision conversation (role "user"/"assistant").
#[derive(Debug, PartialEq, Eq)]
pub struct ChatTurn {
    pub role: String,
    pub content: String,
}

/// What `ChatTurn` holds.
#[verifier::ext_equal]
pub struct ChatTurnView {
    pub role: Seq<char>,
    pub content: Seq<char>,
}

impl DeepView for ChatTurn {
    type V = ChatTurnView;

    open spec fn deep_view(&self) -> ChatTurnView {
        ChatTurnView { role: self.role@, content: self.content@ }
    }
}

/// Probe an endpoint with the values currently typed in the form. Missing fields fall
/// back to the server's effective settings (including the stored API key).
#[derive(Debug, PartialEq, Eq)]
pub struct LlmProbeRequest {
    pub base_url: Option<String>,
    pub model: Option<String>,
    pub api_key: Option<String>,
}

/// What `LlmProbeRequest` holds.
#[verifier::ext_equal]
pub struct LlmProbeRequestView {
    pub base_url: Option<Seq<char>>,
    pub model: Option<Seq<char>>,
    pub api_key: Option<Seq<char>>,
}

impl DeepView for LlmProbeRequest {
    type V = LlmProbeRequestView;

    open spec fn deep_view(&self) -> LlmProbeRequestView {
        LlmProbeRequestView {
            base_url: self.base_url.deep_view(),
            model: self.model.deep_view(),
            api_key: self.api_key.deep_view(),
        }
    }
}

/// Answer to a probe.
#[derive(Debug, PartialEq, Eq)]
pub struct LlmProbeResult {
    pub ok: bool,
    pub error: Option<String>,
}

/// What `LlmProbeResult` holds.
#[verifier::ext_equal]
pub struct LlmProbeResultView {
    pub ok: bool,
    pub error: Option<Seq<char>>,
}

impl DeepView for LlmProbeResult {
    type V = LlmProbeResultView;

    open spec fn deep_view(&self) -> LlmProbeResultView {
        LlmProbeResultView { ok: self.ok, error: self.error.deep_view() }
    }
}

/// Replaces the whole override. `api_key: None` keeps the stored key; `Some("")` clears
/// it.
#[derive(Debug, PartialEq, Eq)]
pub struct LlmSettingsUpdate {
    pub enabled: bool,
    pub base_url: String,
    pub model: String,
    pub api_key: Option<String>,
}

/// What `LlmSettingsUpdate` holds.
#[verifier::ext_equal]
pub struct LlmSettingsUpdateView {
    pub enabled: bool,
    pub base_url: Seq<char>,
    pub model: Seq<char>,
    pub api_key: Option<Seq<char>>,
}

impl DeepView for LlmSettingsUpdate {
    type V = LlmSettingsUpdateView;

    open spec fn deep_view(&self) -> LlmSettingsUpdateView {
        LlmSettingsUpdateView {
            enabled: self.enabled,
            base_url: self.base_url@,
            model: self.model@,
            api_key: self.api_key.deep_view(),
        }
    }
}

} // verus!
