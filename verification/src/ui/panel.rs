//! The panel of the LLM settings that the server keeps.

use vstd::prelude::*;
use crate::settings::{
    LlmProbeRequest, LlmProbeRequestView, LlmProbeResult, LlmSettings, LlmSettingsUpdate,
    LlmSettingsUpdateView, LlmSettingsView,
};
use crate::text::{nat_text, trim, trim_or_none, trimmed, trimmed_or_none, u64_text};

verus! {

/// The state of the panel.
#[derive(Debug, PartialEq)]
pub struct Panel {
    pub enabled: bool,
    pub base_url: String,
    pub model: String,
    /// What is typed as a new key; empty keeps the stored one.
    pub api_key: String,
    /// The settings as the server last gave them.
    pub current: Option<LlmSettings>,
    pub message: Option<String>,
    /// The models that the endpoint lists.
    pub models: Vec<String>,
}

/// What `Panel` holds.
#[verifier::ext_equal]
pub struct PanelView {
    pub enabled: bool,
    pub base_url: Seq<char>,
    pub model: Seq<char>,
    pub api_key: Seq<char>,
    pub current: Option<LlmSettingsView>,
    pub message: Option<Seq<char>>,
    pub models: Seq<Seq<char>>,
}

impl DeepView for Panel {
    type V = PanelView;

    open spec fn deep_view(&self) -> PanelView {
        PanelView {
            enabled: self.enabled,
            base_url: self.base_url@,
            model: self.model@,
            api_key: self.api_key@,
            current: self.current.deep_view(),
            message: self.message.deep_view(),
            models: self.models.deep_view(),
        }
    }
}

/// The panel once settings came from the server: the form shows them, and no key.
pub open spec fn applied(panel: PanelView, settings: LlmSettingsView) -> PanelView {
    PanelView {
        enabled: settings.enabled,
        base_url: settings.base_url,
        model: settings.model,
        api_key: Seq::empty(),
        current: Some(settings),
        ..panel
    }
}

/// What a request for settings brought.
pub open spec fn settings_view(r: Result<LlmSettings, String>) -> Result<
    LlmSettingsView,
    Seq<char>,
> {
    match r {
        Ok(s) => Ok(s.deep_view()),
        Err(e) => Err(e@),
    }
}

/// A change of the settings.
#[derive(Debug, Clone, Copy, PartialEq, Eq, Structural)]
pub enum PanelChange {
    Saved,
    KeyCleared,
    Reset,
}

/// What is said of a change that went through.
pub open spec fn change_note(change: PanelChange) -> Seq<char> {
    match change {
        PanelChange::Saved => "saved — applies to the next interpretation/tick"@,
        PanelChange::KeyCleared => "stored key cleared"@,
        PanelChange::Reset => "override dropped — back to the server config"@,
    }
}

fn note_change(change: PanelChange) -> (r: &'static str)
    ensures
        r@ == change_note(change),
{
    match change {
        PanelChange::Saved => "saved — applies to the next interpretation/tick",
        PanelChange::KeyCleared => "stored key cleared",
        PanelChange::Reset => "override dropped — back to the server config",
    }
}

/// A key as it is typed; none where the field is empty.
pub open spec fn typed_key(field: Seq<char>) -> Option<Seq<char>> {
    if field.len() == 0 {
        None
    } else {
        Some(field)
    }
}

fn key_of(field: &String) -> (r: Option<String>)
    ensures
        r.deep_view() == typed_key(field@),
{
    if field.as_str().is_empty() {
        None
    } else {
        Some(field.clone())
    }
}

/// What saving the panel sends.
pub open spec fn update_of(panel: PanelView, api_key: Option<Seq<char>>) -> LlmSettingsUpdateView {
    LlmSettingsUpdateView {
        enabled: panel.enabled,
        base_url: trimmed(panel.base_url),
        model: trimmed(panel.model),
        api_key,
    }
}

/// The panel once a request for models came back.
pub open spec fn listed(panel: PanelView, found: Result<Seq<Seq<char>>, Seq<char>>) -> PanelView {
    match found {
        Ok(models) => if models.len() == 0 {
            PanelView {
                message: Some("the endpoint answered but lists no models"@),
                ..panel
            }
        } else {
            PanelView {
                message: Some(nat_text(models.len()) + " models found"@),
                model: if trimmed(panel.model).len() == 0 {
                    models[0]
                } else {
                    panel.model
                },
                models,
                ..panel
            }
        },
        Err(e) => PanelView { message: Some("model listing failed — "@ + e), ..panel },
    }
}

/// What a request for models brought.
pub open spec fn found_view(r: Result<Vec<String>, String>) -> Result<Seq<Seq<char>>, Seq<char>> {
    match r {
        Ok(models) => Ok(models.deep_view()),
        Err(e) => Err(e@),
    }
}

/// What the panel says of a test.
pub open spec fn test_message(ok: bool, error: Option<Seq<char>>) -> Seq<char> {
    if ok {
        "LLM answered ✓"@
    } else {
        "LLM test failed — "@ + (match error {
            Some(e) => e,
            None => "unknown error"@,
        })
    }
}

impl Panel {
    /// The panel before the settings are there.
    pub fn new() -> (r: Panel)
        ensures
            r.deep_view() == (PanelView {
                enabled: false,
                base_url: Seq::empty(),
                model: Seq::empty(),
                api_key: Seq::empty(),
                current: None,
                message: None,
                models: Seq::empty(),
            }),
    {
        let r = Panel {
            enabled: false,
            base_url: String::new(),
            model: String::new(),
            api_key: String::new(),
            current: None,
            message: None,
            models: Vec::new(),
        };
        assert(r.models.deep_view() =~= Seq::empty());
        r
    }

    /// What a probe sends: what is typed; missing fields fall back to the stored settings.
    pub fn probe_request(&self) -> (r: LlmProbeRequest)
        ensures
            r.deep_view() == (LlmProbeRequestView {
                base_url: trimmed_or_none(self.deep_view().base_url),
                model: trimmed_or_none(self.deep_view().model),
                api_key: typed_key(self.deep_view().api_key),
            }),
    {
        LlmProbeRequest {
            base_url: trim_or_none(self.base_url.as_str()),
            model: trim_or_none(self.model.as_str()),
            api_key: key_of(&self.api_key),
        }
    }

    fn apply(self, settings: LlmSettings) -> (r: Panel)
        ensures
            r.deep_view() == applied(self.deep_view(), settings.deep_view()),
    {
        let mut p = self;
        p.enabled = settings.enabled;
        p.base_url = settings.base_url.clone();
        p.model = settings.model.clone();
        p.api_key = String::new();
        p.current = Some(settings);
        p
    }

    /// The panel once the settings came.
    pub fn loaded(self, result: Result<LlmSettings, String>) -> (r: Panel)
        ensures
            r.deep_view() == match settings_view(result) {
                Ok(s) => applied(self.deep_view(), s),
                Err(e) => PanelView {
                    message: Some("couldn't load LLM settings: "@ + e),
                    ..self.deep_view()
                },
            },
    {
        match result {
            Ok(settings) => self.apply(settings),
            Err(e) => {
                let mut p = self;
                let mut m = "couldn't load LLM settings: ".to_owned();
                m.append(e.as_str());
                p.message = Some(m);
                p
            },
        }
    }

    /// The panel while something is asked of the endpoint.
    pub fn waiting(self, message: &str) -> (r: Panel)
        ensures
            r.deep_view() == (PanelView { message: Some(message@), ..self.deep_view() }),
    {
        let mut p = self;
        p.message = Some(message.to_owned());
        p
    }

    /// The panel once a request for models came back: the first of them fills an empty
    /// model field.
    pub fn models_listed(self, found: Result<Vec<String>, String>) -> (r: Panel)
        ensures
            r.deep_view() == listed(self.deep_view(), found_view(found)),
    {
        let mut p = self;
        match found {
            Ok(models) => {
                assert(models.deep_view().len() == models@.len());
                if models.len() == 0 {
                    p.message = Some("the endpoint answered but lists no models".to_owned());
                } else {
                    let mut m = u64_text(models.len() as u64);
                    m.append(" models found");
                    p.message = Some(m);
                    if trim(p.model.as_str()).as_str().is_empty() {
                        assert(models.deep_view()[0] == models@[0]@);
                        p.model = models[0].clone();
                    }
                    p.models = models;
                }
            },
            Err(e) => {
                let mut m = "model listing failed — ".to_owned();
                m.append(e.as_str());
                p.message = Some(m);
            },
        }
        p
    }

    /// The panel once a test came back.
    pub fn tested(self, result: Result<LlmProbeResult, String>) -> (r: Panel)
        ensures
            r.deep_view() == (PanelView {
                message: Some(
                    match result {
                        Ok(t) => test_message(t.ok, t.error.deep_view()),
                        Err(e) => test_message(false, Some(e@)),
                    },
                ),
                ..self.deep_view()
            }),
    {
        let (ok, error) = match result {
            Ok(t) => (t.ok, t.error),
            Err(e) => (false, Some(e)),
        };
        let message = if ok {
            "LLM answered ✓".to_owned()
        } else {
            let mut m = "LLM test failed — ".to_owned();
            match &error {
                Some(e) => {
                    m.append(e.as_str());
                },
                None => {
                    m.append("unknown error");
                },
            }
            m
        };
        let mut p = self;
        p.message = Some(message);
        p
    }

    /// What saving sends: an empty key field keeps the stored key.
    pub fn update(&self) -> (r: LlmSettingsUpdate)
        ensures
            r.deep_view() == update_of(self.deep_view(), typed_key(self.deep_view().api_key)),
    {
        LlmSettingsUpdate {
            enabled: self.enabled,
            base_url: trim(self.base_url.as_str()),
            model: trim(self.model.as_str()),
            api_key: key_of(&self.api_key),
        }
    }

    /// What clearing the stored key sends.
    pub fn clear_key(&self) -> (r: LlmSettingsUpdate)
        ensures
            r.deep_view() == update_of(self.deep_view(), Some(Seq::empty())),
    {
        LlmSettingsUpdate {
            enabled: self.enabled,
            base_url: trim(self.base_url.as_str()),
            model: trim(self.model.as_str()),
            api_key: Some(String::new()),
        }
    }

    /// The panel once a change came back, and whether the other pages have to look again: a
    /// change that failed, or that only cleared the key, leaves them as they are.
    pub fn changed(self, change: PanelChange, result: Result<LlmSettings, String>) -> (r: (
        Panel,
        bool,
    ))
        ensures
            r.0.deep_view() == match settings_view(result) {
                Ok(s) => PanelView {
                    message: Some(change_note(change)),
                    ..applied(self.deep_view(), s)
                },
                Err(e) => PanelView { message: Some(e), ..self.deep_view() },
            },
            r.1 == (result is Ok && change != PanelChange::KeyCleared),
    {
        match result {
            Ok(settings) => {
                let mut p = self.apply(settings);
                p.message = Some(note_change(change).to_owned());
                (p, change != PanelChange::KeyCleared)
            },
            Err(e) => {
                let mut p = self;
                p.message = Some(e);
                (p, false)
            },
        }
    }

    /// Whether a key is stored, so that it can be cleared.
    pub fn key_stored(&self) -> (r: bool)
        ensures
            r == (self.deep_view().current matches Some(s) && s.api_key_set),
    {
        match &self.current {
            Some(s) => s.api_key_set,
            None => false,
        }
    }

    /// Whether an override is active, so that it can be dropped.
    pub fn overridden(&self) -> (r: bool)
        ensures
            r == (self.deep_view().current matches Some(s) && s.from_override),
    {
        match &self.current {
            Some(s) => s.from_override,
            None => false,
        }
    }
}

/// Saving without touching the key field keeps the stored key, and clearing it drops the
/// key, whatever else the form holds.
pub proof fn the_key_field_decides(
    panel: PanelView,
    stored: Option<crate::llm::LlmOverrideView>,
)
    requires
        panel.api_key.len() == 0,
    ensures
        crate::llm::updated(stored, update_of(panel, typed_key(panel.api_key))).api_key == (
        match stored {
            Some(o) => o.api_key,
            None => None,
        }),
        crate::llm::updated(stored, update_of(panel, Some(Seq::empty()))).api_key is None,
{
}

/// Settings that came fill the form, and never its key.
pub proof fn settings_fill_the_form(panel: PanelView, settings: LlmSettingsView)
    ensures
        ({
            let p = applied(panel, settings);
            &&& p.enabled == settings.enabled
            &&& p.base_url == settings.base_url
            &&& p.model == settings.model
            &&& p.api_key.len() == 0
            &&& p.current == Some(settings)
            &&& p.models == panel.models
            &&& p.message == panel.message
        }),
{
}

/// Saving sends the form, without the white space around its texts, and the key as it was
/// typed where one was.
pub proof fn saving_sends_the_form(panel: PanelView, key: Option<Seq<char>>, field: Seq<char>)
    ensures
        update_of(panel, key).enabled == panel.enabled,
        update_of(panel, key).base_url == trimmed(panel.base_url),
        update_of(panel, key).model == trimmed(panel.model),
        update_of(panel, key).api_key == key,
        typed_key(field) is Some <==> field.len() > 0,
        typed_key(field) is Some ==> typed_key(field)->0 == field,
{
}

/// Models that were found are listed and counted, and the first of them fills a blank
/// field; a list of none and a failure only say so.
pub proof fn found_models_are_listed(panel: PanelView, models: Seq<Seq<char>>, e: Seq<char>)
    ensures
        listed(panel, Err(e)) == (PanelView {
            message: Some("model listing failed — "@ + e),
            ..panel
        }),
        models.len() == 0 ==> listed(panel, Ok(models)) == (PanelView {
            message: Some("the endpoint answered but lists no models"@),
            ..panel
        }),
        models.len() > 0 ==> ({
            let p = listed(panel, Ok(models));
            &&& p.models == models
            &&& p.message == Some(nat_text(models.len()) + " models found"@)
            &&& trimmed(panel.model).len() == 0 ==> p.model == models[0]
            &&& trimmed(panel.model).len() > 0 ==> p.model == panel.model
            &&& p.base_url == panel.base_url && p.enabled == panel.enabled && p.api_key
                == panel.api_key && p.current == panel.current
        }),
{
}

/// What the panel says of changes and tests.
pub proof fn the_panel_says(e: Seq<char>)
    ensures
        change_note(PanelChange::Saved) == "saved — applies to the next interpretation/tick"@,
        change_note(PanelChange::KeyCleared) == "stored key cleared"@,
        change_note(PanelChange::Reset) == "override dropped — back to the server config"@,
        test_message(true, Some(e)) == "LLM answered ✓"@,
        test_message(true, None) == "LLM answered ✓"@,
        test_message(false, Some(e)) == "LLM test failed — "@ + e,
        test_message(false, None) == "LLM test failed — "@ + "unknown error"@,
{
}

} // verus!
