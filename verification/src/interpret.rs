//! What a free-text product search means. Heuristics answer at once when the text matches
//! a known category; otherwise the model maps it or drafts a new category. Every failure
//! ends in an answer that says nothing was found, and the user creates by hand.

use vstd::prelude::*;
use crate::category::{
    asked_of, categorized, interpret_heuristic, specs_of, Category, CategoryOrigin, CategorySpec,
    CategorySpecView, CategoryStatus, CategoryView, Interpretation, InterpretationView, SpecFilter,
    SpecFilterView, SpecKind,
};
use crate::db_category::{kind_from_str, kind_named};
use crate::json::{copy_json, json_read, parse_json, Json, JsonView};
use crate::llm::{after_thoughts, extract_json, outermost_object};
use crate::reading::{Reading, ReadingView};
use crate::schema::{
    default_list, default_texts, missing, names_of, optional_text, outcome, place_fields, placed,
    read_default_texts, read_optional_text, read_required_text, required_text, say_missing,
    say_wrong_kind,
};
use crate::text::{blank, lowercased, same, trim, trimmed};
use crate::time::Timestamp;

verus! {

/// A constraint as the model states it.
#[derive(Debug, PartialEq)]
pub struct LlmConstraint {
    /// "min" | "max" | "eq"
    pub op: String,
    pub key: String,
    pub value: Json,
}

/// What `LlmConstraint` holds.
pub struct LlmConstraintView {
    pub op: Seq<char>,
    pub key: Seq<char>,
    pub value: JsonView,
}

impl DeepView for LlmConstraint {
    type V = LlmConstraintView;

    open spec fn deep_view(&self) -> LlmConstraintView {
        LlmConstraintView { op: self.op@, key: self.key@, value: self.value.deep_view() }
    }
}

/// A spec as the model drafts it.
#[derive(Debug, PartialEq)]
pub struct LlmProposalSpec {
    pub key: String,
    pub label: String,
    /// "number" | "enum" | "boolean"
    pub kind: String,
    pub unit: Option<String>,
    pub allowed_values: Vec<String>,
    /// Boolean kind: title words that mean "yes".
    pub extraction_hint: Option<String>,
}

/// What `LlmProposalSpec` holds.
#[verifier::ext_equal]
pub struct LlmProposalSpecView {
    pub key: Seq<char>,
    pub label: Seq<char>,
    pub kind: Seq<char>,
    pub unit: Option<Seq<char>>,
    pub allowed_values: Seq<Seq<char>>,
    pub extraction_hint: Option<Seq<char>>,
}

impl DeepView for LlmProposalSpec {
    type V = LlmProposalSpecView;

    open spec fn deep_view(&self) -> LlmProposalSpecView {
        LlmProposalSpecView {
            key: self.key@,
            label: self.label@,
            kind: self.kind@,
            unit: self.unit.deep_view(),
            allowed_values: self.allowed_values.deep_view(),
            extraction_hint: self.extraction_hint.deep_view(),
        }
    }
}

/// A category as the model drafts it.
#[derive(Debug, PartialEq)]
pub struct LlmProposal {
    pub slug: String,
    pub label: String,
    pub aliases: Vec<String>,
    pub specs: Vec<LlmProposalSpec>,
}

/// What `LlmProposal` holds.
#[verifier::ext_equal]
pub struct LlmProposalView {
    pub slug: Seq<char>,
    pub label: Seq<char>,
    pub aliases: Seq<Seq<char>>,
    pub specs: Seq<LlmProposalSpecView>,
}

impl DeepView for LlmProposal {
    type V = LlmProposalView;

    open spec fn deep_view(&self) -> LlmProposalView {
        LlmProposalView {
            slug: self.slug@,
            label: self.label@,
            aliases: self.aliases.deep_view(),
            specs: self.specs.deep_view(),
        }
    }
}

/// The model's answer to "what product is this text about?".
#[derive(Debug, PartialEq)]
pub struct LlmInterpretation {
    /// Slug of a category that it was shown, or none when none fits.
    pub category_slug: Option<String>,
    pub constraints: Vec<LlmConstraint>,
    /// Drafted new category when none that it was shown fits.
    pub proposal: Option<LlmProposal>,
}

/// What `LlmInterpretation` holds.
pub struct LlmInterpretationView {
    pub category_slug: Option<Seq<char>>,
    pub constraints: Seq<LlmConstraintView>,
    pub proposal: Option<LlmProposalView>,
}

impl DeepView for LlmInterpretation {
    type V = LlmInterpretationView;

    open spec fn deep_view(&self) -> LlmInterpretationView {
        LlmInterpretationView {
            category_slug: self.category_slug.deep_view(),
            constraints: self.constraints.deep_view(),
            proposal: self.proposal.deep_view(),
        }
    }
}

// ---- reading answers ----

/// The fields of a drafted spec, in order.
pub open spec fn proposal_spec_names() -> Seq<Seq<char>> {
    seq!["key"@, "label"@, "kind"@, "unit"@, "allowed_values"@, "extraction_hint"@]
}

/// The spec that a JSON object, or a list of its fields, drafts, or its first fault.
pub open spec fn proposal_spec_in(v: JsonView) -> Result<LlmProposalSpecView, Seq<char>> {
    match placed(v, proposal_spec_names(), 3, "struct LlmProposalSpec"@) {
        Err(e) => Err(e),
        Ok(v) => match (
            required_text(v, "key"@),
            required_text(v, "label"@),
            required_text(v, "kind"@),
            optional_text(v, "unit"@),
            default_texts(v, "allowed_values"@),
            optional_text(v, "extraction_hint"@),
        ) {
            (Ok(key), Ok(label), Ok(kind), Ok(unit), Ok(allowed_values), Ok(
                extraction_hint,
            )) => Ok(
                LlmProposalSpecView { key, label, kind, unit, allowed_values, extraction_hint },
            ),
            (Err(e), _, _, _, _, _) => Err(e),
            (_, Err(e), _, _, _, _) => Err(e),
            (_, _, Err(e), _, _, _) => Err(e),
            (_, _, _, Err(e), _, _) => Err(e),
            (_, _, _, _, Err(e), _) => Err(e),
            (_, _, _, _, _, Err(e)) => Err(e),
        },
    }
}

fn read_proposal_spec(v: &Json) -> (r: Result<LlmProposalSpec, String>)
    ensures
        outcome(r) == proposal_spec_in(v.deep_view()),
{
    let names: Vec<&'static str> = vec!["key", "label", "kind", "unit", "allowed_values", "extraction_hint"];
    assert(names_of(names@) =~= proposal_spec_names());
    let object = match place_fields(v, &names, 3, "struct LlmProposalSpec") {
        Ok(object) => object,
        Err(e) => {
            return Err(e);
        },
    };
    let v = match &object {
        Some(o) => o,
        None => v,
    };
    match (
        read_required_text(v, "key"),
        read_required_text(v, "label"),
        read_required_text(v, "kind"),
        read_optional_text(v, "unit"),
        read_default_texts(v, "allowed_values"),
        read_optional_text(v, "extraction_hint"),
    ) {
        (Ok(key), Ok(label), Ok(kind), Ok(unit), Ok(allowed_values), Ok(extraction_hint)) => Ok(
            LlmProposalSpec { key, label, kind, unit, allowed_values, extraction_hint },
        ),
        (Err(e), _, _, _, _, _) => Err(e),
        (_, Err(e), _, _, _, _) => Err(e),
        (_, _, Err(e), _, _, _) => Err(e),
        (_, _, _, Err(e), _, _) => Err(e),
        (_, _, _, _, Err(e), _) => Err(e),
        (_, _, _, _, _, Err(e)) => Err(e),
    }
}

/// Specs drafted by a list, or the fault of the first that does not fit.
pub open spec fn proposal_specs_in(items: Seq<JsonView>) -> Result<
    Seq<LlmProposalSpecView>,
    Seq<char>,
>
    decreases items.len(),
{
    if items.len() == 0 {
        Ok(Seq::empty())
    } else {
        match (proposal_specs_in(items.drop_last()), proposal_spec_in(items.last())) {
            (Ok(before), Ok(spec)) => Ok(before.push(spec)),
            (Err(e), _) => Err(e),
            (_, Err(e)) => Err(e),
        }
    }
}

/// An item that does not fit spoils every list that holds it.
pub proof fn misfit_spoils_specs(items: Seq<JsonView>, n: int)
    requires
        0 <= n <= items.len(),
        proposal_specs_in(items.take(n)) is Err,
    ensures
        proposal_specs_in(items) == proposal_specs_in(items.take(n)),
    decreases items.len() - n,
{
    if n < items.len() {
        assert(items.take(n + 1).drop_last() =~= items.take(n));
        misfit_spoils_specs(items, n + 1);
    } else {
        assert(items.take(n) =~= items);
    }
}

fn read_proposal_specs(items: &Vec<Json>) -> (r: Result<Vec<LlmProposalSpec>, String>)
    ensures
        outcome(r) == proposal_specs_in(items.deep_view()),
{
    let ghost all = items.deep_view();
    let mut out: Vec<LlmProposalSpec> = Vec::new();
    let mut i: usize = 0;
    assert(out.deep_view() =~= Seq::empty());
    assert(all.take(0) =~= Seq::empty());
    while i < items.len()
        invariant
            i <= items@.len(),
            all == items.deep_view(),
            proposal_specs_in(all.take(i as int)) == Ok::<Seq<LlmProposalSpecView>, Seq<char>>(
                out.deep_view(),
            ),
        decreases items@.len() - i,
    {
        let ghost before = out.deep_view();
        assert(all.take(i + 1).drop_last() =~= all.take(i as int));
        assert(all.take(i + 1).last() == items@[i as int].deep_view());
        match read_proposal_spec(&items[i]) {
            Ok(spec) => {
                out.push(spec);
                assert(out.deep_view() =~= before.push(spec.deep_view()));
            },
            Err(e) => {
                proof {
                    misfit_spoils_specs(all, i + 1);
                }
                return Err(e);
            },
        }
        i = i + 1;
    }
    assert(all.take(all.len() as int) =~= all);
    Ok(out)
}

/// The specs of a drafted category, or their first fault.
pub open spec fn stated_specs(v: JsonView) -> Result<Seq<LlmProposalSpecView>, Seq<char>> {
    match default_list(v, "specs"@) {
        Ok(items) => proposal_specs_in(items),
        Err(e) => Err(e),
    }
}

fn read_stated_specs(v: &Json) -> (r: Result<Vec<LlmProposalSpec>, String>)
    ensures
        outcome(r) == stated_specs(v.deep_view()),
{
    match v.get("specs") {
        None => {
            let nothing: Vec<LlmProposalSpec> = Vec::new();
            assert(nothing.deep_view() =~= Seq::empty());
            Ok(nothing)
        },
        Some(list) => match list.as_list() {
            Some(items) => read_proposal_specs(items),
            None => Err(say_wrong_kind("specs", list, "a sequence")),
        },
    }
}

/// The fields of a drafted category, in order.
pub open spec fn proposal_names() -> Seq<Seq<char>> {
    seq!["slug"@, "label"@, "aliases"@, "specs"@]
}

/// The category that a JSON object, or a list of its fields, drafts, or its first fault.
pub open spec fn proposal_in(v: JsonView) -> Result<LlmProposalView, Seq<char>> {
    match placed(v, proposal_names(), 2, "struct LlmProposal"@) {
        Err(e) => Err(e),
        Ok(v) => match (
            required_text(v, "slug"@),
            required_text(v, "label"@),
            default_texts(v, "aliases"@),
            stated_specs(v),
        ) {
            (Ok(slug), Ok(label), Ok(aliases), Ok(specs)) => Ok(
                LlmProposalView { slug, label, aliases, specs },
            ),
            (Err(e), _, _, _) => Err(e),
            (_, Err(e), _, _) => Err(e),
            (_, _, Err(e), _) => Err(e),
            (_, _, _, Err(e)) => Err(e),
        },
    }
}

/// The category that a JSON object drafts, or its first fault.
pub fn proposal_from(v: &Json) -> (r: Result<LlmProposal, String>)
    ensures
        outcome(r) == proposal_in(v.deep_view()),
{
    let names: Vec<&'static str> = vec!["slug", "label", "aliases", "specs"];
    assert(names_of(names@) =~= proposal_names());
    let object = match place_fields(v, &names, 2, "struct LlmProposal") {
        Ok(object) => object,
        Err(e) => {
            return Err(e);
        },
    };
    let v = match &object {
        Some(o) => o,
        None => v,
    };
    match (
        read_required_text(v, "slug"),
        read_required_text(v, "label"),
        read_default_texts(v, "aliases"),
        read_stated_specs(v),
    ) {
        (Ok(slug), Ok(label), Ok(aliases), Ok(specs)) => Ok(
            LlmProposal { slug, label, aliases, specs },
        ),
        (Err(e), _, _, _) => Err(e),
        (_, Err(e), _, _) => Err(e),
        (_, _, Err(e), _) => Err(e),
        (_, _, _, Err(e)) => Err(e),
    }
}

/// The fields of a constraint, in order.
pub open spec fn constraint_names() -> Seq<Seq<char>> {
    seq!["op"@, "key"@, "value"@]
}

/// The constraint that a JSON object, or a list of its fields, states, or its first fault.
pub open spec fn constraint_in(v: JsonView) -> Result<LlmConstraintView, Seq<char>> {
    match placed(v, constraint_names(), 3, "struct LlmConstraint"@) {
        Err(e) => Err(e),
        Ok(v) => match (required_text(v, "op"@), required_text(v, "key"@), v.get("value"@)) {
            (Ok(op), Ok(key), Some(value)) => Ok(LlmConstraintView { op, key, value }),
            (Err(e), _, _) => Err(e),
            (_, Err(e), _) => Err(e),
            (_, _, None) => Err(missing("value"@)),
        },
    }
}

/// Constraints stated by a list, or the fault of the first that does not fit.
pub open spec fn constraints_in(items: Seq<JsonView>) -> Result<
    Seq<LlmConstraintView>,
    Seq<char>,
>
    decreases items.len(),
{
    if items.len() == 0 {
        Ok(Seq::empty())
    } else {
        match (constraints_in(items.drop_last()), constraint_in(items.last())) {
            (Ok(before), Ok(c)) => Ok(before.push(c)),
            (Err(e), _) => Err(e),
            (_, Err(e)) => Err(e),
        }
    }
}

/// An item that does not fit spoils every list that holds it.
pub proof fn misfit_spoils_constraints(items: Seq<JsonView>, n: int)
    requires
        0 <= n <= items.len(),
        constraints_in(items.take(n)) is Err,
    ensures
        constraints_in(items) == constraints_in(items.take(n)),
    decreases items.len() - n,
{
    if n < items.len() {
        assert(items.take(n + 1).drop_last() =~= items.take(n));
        misfit_spoils_constraints(items, n + 1);
    } else {
        assert(items.take(n) =~= items);
    }
}

fn read_constraint(v: &Json) -> (r: Result<LlmConstraint, String>)
    ensures
        outcome(r) == constraint_in(v.deep_view()),
{
    let names: Vec<&'static str> = vec!["op", "key", "value"];
    assert(names_of(names@) =~= constraint_names());
    let object = match place_fields(v, &names, 3, "struct LlmConstraint") {
        Ok(object) => object,
        Err(e) => {
            return Err(e);
        },
    };
    let v = match &object {
        Some(o) => o,
        None => v,
    };
    match (read_required_text(v, "op"), read_required_text(v, "key"), v.get("value")) {
        (Ok(op), Ok(key), Some(value)) => Ok(LlmConstraint { op, key, value: copy_json(value) }),
        (Err(e), _, _) => Err(e),
        (_, Err(e), _) => Err(e),
        (_, _, None) => Err(say_missing("value")),
    }
}

fn read_constraints(items: &Vec<Json>) -> (r: Result<Vec<LlmConstraint>, String>)
    ensures
        outcome(r) == constraints_in(items.deep_view()),
{
    let ghost all = items.deep_view();
    let mut out: Vec<LlmConstraint> = Vec::new();
    let mut i: usize = 0;
    assert(out.deep_view() =~= Seq::empty());
    assert(all.take(0) =~= Seq::empty());
    while i < items.len()
        invariant
            i <= items@.len(),
            all == items.deep_view(),
            constraints_in(all.take(i as int)) == Ok::<Seq<LlmConstraintView>, Seq<char>>(
                out.deep_view(),
            ),
        decreases items@.len() - i,
    {
        let ghost before = out.deep_view();
        assert(all.take(i + 1).drop_last() =~= all.take(i as int));
        assert(all.take(i + 1).last() == items@[i as int].deep_view());
        match read_constraint(&items[i]) {
            Ok(c) => {
                out.push(c);
                assert(out.deep_view() =~= before.push(c.deep_view()));
            },
            Err(e) => {
                proof {
                    misfit_spoils_constraints(all, i + 1);
                }
                return Err(e);
            },
        }
        i = i + 1;
    }
    assert(all.take(all.len() as int) =~= all);
    Ok(out)
}

/// The constraints of an interpretation, or their first fault.
pub open spec fn stated_constraints(v: JsonView) -> Result<Seq<LlmConstraintView>, Seq<char>> {
    match default_list(v, "constraints"@) {
        Ok(items) => constraints_in(items),
        Err(e) => Err(e),
    }
}

fn read_stated_constraints(v: &Json) -> (r: Result<Vec<LlmConstraint>, String>)
    ensures
        outcome(r) == stated_constraints(v.deep_view()),
{
    match v.get("constraints") {
        None => {
            let nothing: Vec<LlmConstraint> = Vec::new();
            assert(nothing.deep_view() =~= Seq::empty());
            Ok(nothing)
        },
        Some(list) => match list.as_list() {
            Some(items) => read_constraints(items),
            None => Err(say_wrong_kind("constraints", list, "a sequence")),
        },
    }
}

/// The draft of an interpretation, where it has one, or its first fault.
pub open spec fn stated_proposal(v: JsonView) -> Result<Option<LlmProposalView>, Seq<char>> {
    match v.get("proposal"@) {
        None => Ok(None),
        Some(JsonView::Null) => Ok(None),
        Some(draft) => match proposal_in(draft) {
            Ok(p) => Ok(Some(p)),
            Err(e) => Err(e),
        },
    }
}

fn read_stated_proposal(v: &Json) -> (r: Result<Option<LlmProposal>, String>)
    ensures
        outcome(r) == stated_proposal(v.deep_view()),
{
    match v.get("proposal") {
        None => Ok(None),
        Some(Json::Null) => Ok(None),
        Some(draft) => match proposal_from(draft) {
            Ok(p) => Ok(Some(p)),
            Err(e) => Err(e),
        },
    }
}

/// The fields of an interpretation, in order.
pub open spec fn interpretation_names() -> Seq<Seq<char>> {
    seq!["category_slug"@, "constraints"@, "proposal"@]
}

/// The interpretation that a JSON object, or a list of its fields, states, or its first fault.
pub open spec fn interpretation_in(v: JsonView) -> Result<LlmInterpretationView, Seq<char>> {
    match placed(v, interpretation_names(), 3, "struct LlmInterpretation"@) {
        Err(e) => Err(e),
        Ok(v) => match (
            optional_text(v, "category_slug"@),
            stated_constraints(v),
            stated_proposal(v),
        ) {
            (Ok(category_slug), Ok(constraints), Ok(proposal)) => Ok(
                LlmInterpretationView { category_slug, constraints, proposal },
            ),
            (Err(e), _, _) => Err(e),
            (_, Err(e), _) => Err(e),
            (_, _, Err(e)) => Err(e),
        },
    }
}

/// The interpretation that a JSON object states, or its first fault.
pub fn interpretation_from(v: &Json) -> (r: Result<LlmInterpretation, String>)
    ensures
        outcome(r) == interpretation_in(v.deep_view()),
{
    let names: Vec<&'static str> = vec!["category_slug", "constraints", "proposal"];
    assert(names_of(names@) =~= interpretation_names());
    let object = match place_fields(v, &names, 3, "struct LlmInterpretation") {
        Ok(object) => object,
        Err(e) => {
            return Err(e);
        },
    };
    let v = match &object {
        Some(o) => o,
        None => v,
    };
    match (
        read_optional_text(v, "category_slug"),
        read_stated_constraints(v),
        read_stated_proposal(v),
    ) {
        (Ok(category_slug), Ok(constraints), Ok(proposal)) => Ok(
            LlmInterpretation { category_slug, constraints, proposal },
        ),
        (Err(e), _, _) => Err(e),
        (_, Err(e), _) => Err(e),
        (_, _, Err(e)) => Err(e),
    }
}

/// The interpretation that an answer's content states, or what is wrong with it.
pub open spec fn interpretation_of_content(content: Seq<char>) -> Result<
    LlmInterpretationView,
    Seq<char>,
> {
    match json_read(outermost_object(after_thoughts(content))) {
        Ok(v) => interpretation_in(v),
        Err(e) => Err(e),
    }
}

/// The interpretation that an answer's content states, or what is wrong with it.
pub fn parse_interpretation(content: &str) -> (r: Result<LlmInterpretation, String>)
    ensures
        outcome(r) == interpretation_of_content(content@),
{
    match parse_json(extract_json(content).as_str()) {
        Ok(v) => interpretation_from(&v),
        Err(e) => Err(e),
    }
}

/// The category draft that an answer's content states, or what is wrong with it.
pub open spec fn proposal_of_content(content: Seq<char>) -> Result<LlmProposalView, Seq<char>> {
    match json_read(outermost_object(after_thoughts(content))) {
        Ok(v) => proposal_in(v),
        Err(e) => Err(e),
    }
}

/// The category draft that an answer's content states, or what is wrong with it.
pub fn parse_proposal(content: &str) -> (r: Result<LlmProposal, String>)
    ensures
        outcome(r) == proposal_of_content(content@),
{
    match parse_json(extract_json(content).as_str()) {
        Ok(v) => proposal_from(&v),
        Err(e) => Err(e),
    }
}

// ---- what answers mean ----

/// The filter that a constraint means: none where its operation is not known or its value
/// is of another kind.
pub open spec fn filter_of(c: LlmConstraintView) -> Option<SpecFilterView> {
    if c.op == "min"@ {
        match c.value.number() {
            Some(n) => Some(SpecFilterView::Min { key: c.key, value: ReadingView::Finite(n) }),
            None => None,
        }
    } else if c.op == "max"@ {
        match c.value.number() {
            Some(n) => Some(SpecFilterView::Max { key: c.key, value: ReadingView::Finite(n) }),
            None => None,
        }
    } else if c.op == "eq"@ {
        match c.value.text() {
            Some(value) => Some(SpecFilterView::Eq { key: c.key, value }),
            None => None,
        }
    } else {
        None
    }
}

/// The filter that a constraint means.
pub fn to_filter(c: &LlmConstraint) -> (r: Option<SpecFilter>)
    ensures
        r.deep_view() == filter_of(c.deep_view()),
{
    if same(c.op.as_str(), "min") {
        match c.value.as_number() {
            Some(n) => Some(SpecFilter::Min { key: c.key.clone(), value: Reading::Finite(n) }),
            None => None,
        }
    } else if same(c.op.as_str(), "max") {
        match c.value.as_number() {
            Some(n) => Some(SpecFilter::Max { key: c.key.clone(), value: Reading::Finite(n) }),
            None => None,
        }
    } else if same(c.op.as_str(), "eq") {
        match c.value.as_str() {
            Some(value) => Some(SpecFilter::Eq { key: c.key.clone(), value: value.to_owned() }),
            None => None,
        }
    } else {
        None
    }
}

/// The filters that constraints mean, without those that mean none.
pub open spec fn filters_of(constraints: Seq<LlmConstraintView>) -> Seq<SpecFilterView>
    decreases constraints.len(),
{
    if constraints.len() == 0 {
        Seq::empty()
    } else {
        let before = filters_of(constraints.drop_last());
        match filter_of(constraints.last()) {
            Some(f) => before.push(f),
            None => before,
        }
    }
}

fn to_filters(constraints: &Vec<LlmConstraint>) -> (r: Vec<SpecFilter>)
    ensures
        r.deep_view() == filters_of(constraints.deep_view()),
{
    let ghost all = constraints.deep_view();
    let mut out: Vec<SpecFilter> = Vec::new();
    let mut i: usize = 0;
    assert(out.deep_view() =~= Seq::empty());
    while i < constraints.len()
        invariant
            i <= constraints@.len(),
            all == constraints.deep_view(),
            out.deep_view() == filters_of(all.take(i as int)),
        decreases constraints@.len() - i,
    {
        let ghost before = out.deep_view();
        assert(all.take(i + 1).drop_last() =~= all.take(i as int));
        assert(all.take(i + 1).last() == constraints@[i as int].deep_view());
        if let Some(f) = to_filter(&constraints[i]) {
            out.push(f);
            assert(out.deep_view() =~= before.push(f.deep_view()));
        }
        i = i + 1;
    }
    assert(all.take(all.len() as int) =~= all);
    out
}

/// The spec that a draft means; none where its kind is not known.
pub open spec fn spec_of(s: LlmProposalSpecView) -> Option<CategorySpecView> {
    match kind_named(s.kind) {
        Some(kind) => Some(
            CategorySpecView {
                key: s.key,
                label: s.label,
                kind,
                unit: s.unit,
                allowed_values: s.allowed_values,
                extraction_hint: s.extraction_hint,
            },
        ),
        None => None,
    }
}

/// The spec that a draft means.
pub fn to_spec(s: &LlmProposalSpec) -> (r: Option<CategorySpec>)
    ensures
        r.deep_view() == spec_of(s.deep_view()),
{
    match kind_from_str(s.kind.as_str()) {
        Ok(kind) => {
            let allowed_values = s.allowed_values.clone();
            assert(allowed_values.deep_view() =~= s.allowed_values.deep_view());
            Some(
                CategorySpec {
                    key: s.key.clone(),
                    label: s.label.clone(),
                    kind,
                    unit: s.unit.clone(),
                    allowed_values,
                    extraction_hint: s.extraction_hint.clone(),
                },
            )
        },
        Err(_) => None,
    }
}

/// The specs that drafts mean, without those that mean none.
pub open spec fn drafted_specs(specs: Seq<LlmProposalSpecView>) -> Seq<CategorySpecView>
    decreases specs.len(),
{
    if specs.len() == 0 {
        Seq::empty()
    } else {
        let before = drafted_specs(specs.drop_last());
        match spec_of(specs.last()) {
            Some(s) => before.push(s),
            None => before,
        }
    }
}

fn to_specs(specs: &Vec<LlmProposalSpec>) -> (r: Vec<CategorySpec>)
    ensures
        r.deep_view() == drafted_specs(specs.deep_view()),
{
    let ghost all = specs.deep_view();
    let mut out: Vec<CategorySpec> = Vec::new();
    let mut i: usize = 0;
    assert(out.deep_view() =~= Seq::empty());
    while i < specs.len()
        invariant
            i <= specs@.len(),
            all == specs.deep_view(),
            out.deep_view() == drafted_specs(all.take(i as int)),
        decreases specs@.len() - i,
    {
        let ghost before = out.deep_view();
        assert(all.take(i + 1).drop_last() =~= all.take(i as int));
        assert(all.take(i + 1).last() == specs@[i as int].deep_view());
        if let Some(s) = to_spec(&specs[i]) {
            out.push(s);
            assert(out.deep_view() =~= before.push(s.deep_view()));
        }
        i = i + 1;
    }
    assert(all.take(all.len() as int) =~= all);
    out
}

/// The queries that a text and the label of its category, in lowercase, make.
pub open spec fn queries_from(text: Seq<char>, label: Option<Seq<char>>) -> Seq<Seq<char>> {
    match label {
        Some(l) => if l == text {
            seq![text]
        } else {
            seq![text, l]
        },
        None => seq![text],
    }
}

/// The search queries of a text and the label of its category.
pub open spec fn queries_of(text: Seq<char>, label: Option<Seq<char>>) -> Seq<Seq<char>> {
    queries_from(
        lowercased(trimmed(text)),
        match label {
            Some(l) => Some(lowercased(l)),
            None => None,
        },
    )
}

/// The queries that a text and the label of its category, in lowercase, make.
pub fn make_queries(text: String, label: Option<String>) -> (r: Vec<String>)
    ensures
        r.deep_view() == queries_from(text@, label.deep_view()),
{
    let ghost t = text@;
    let mut out: Vec<String> = Vec::new();
    match label {
        Some(l) => {
            if l == text {
                out.push(text);
                assert(out.deep_view() =~= seq![t]);
            } else {
                out.push(text);
                out.push(l);
                assert(out.deep_view() =~= seq![t, l@]);
            }
        },
        None => {
            out.push(text);
            assert(out.deep_view() =~= seq![t]);
        },
    }
    out
}

/// The search queries of a text and the label of its category.
pub fn queries_for(text: &str, label: Option<&str>) -> (r: Vec<String>)
    ensures
        r.deep_view() == queries_of(
            text@,
            match label {
                Some(l) => Some(l@),
                None => None,
            },
        ),
{
    let lower = trim(text).to_lowercase();
    let label = match label {
        Some(l) => Some(l.to_lowercase()),
        None => None,
    };
    make_queries(lower, label)
}

/// The place of the active category with `slug`, the first where several have it, or
/// their number.
pub open spec fn active_place(categories: Seq<CategoryView>, slug: Seq<char>) -> int
    decreases categories.len(),
{
    if categories.len() == 0 || (categories[0].slug == slug && categories[0].status
        == CategoryStatus::Active) {
        0
    } else {
        1 + active_place(categories.drop_first(), slug)
    }
}

/// The active category with `slug`.
pub open spec fn active_with(categories: Seq<CategoryView>, slug: Seq<char>) -> Option<CategoryView> {
    let i = active_place(categories, slug);
    if i < categories.len() {
        Some(categories[i])
    } else {
        None
    }
}

fn find_active(categories: &[Category], slug: &str) -> (r: Option<Category>)
    ensures
        r.deep_view() == active_with(categories.deep_view(), slug@),
{
    let ghost all = categories.deep_view();
    let mut i: usize = 0;
    assert(all.skip(0) =~= all);
    while i < categories.len()
        invariant
            i <= categories@.len(),
            all == categories.deep_view(),
            active_place(all, slug@) == i + active_place(all.skip(i as int), slug@),
        decreases categories@.len() - i,
    {
        assert(all.skip(i as int)[0] == all[i as int]);
        if same(categories[i].slug.as_str(), slug) && categories[i].status
            == CategoryStatus::Active {
            return Some(categories[i].clone());
        }
        assert(all.skip(i as int).drop_first() =~= all.skip(i + 1));
        i = i + 1;
    }
    None
}

/// What came of asking the model.
#[derive(Debug, PartialEq)]
pub enum LlmOutcome {
    /// No model is configured.
    Off,
    Answered(LlmInterpretation),
    /// The error's message.
    Failed(String),
}

/// What `LlmOutcome` holds.
pub enum LlmOutcomeView {
    Off,
    Answered(LlmInterpretationView),
    Failed(Seq<char>),
}

impl DeepView for LlmOutcome {
    type V = LlmOutcomeView;

    open spec fn deep_view(&self) -> LlmOutcomeView {
        match self {
            LlmOutcome::Off => LlmOutcomeView::Off,
            LlmOutcome::Answered(i) => LlmOutcomeView::Answered(i.deep_view()),
            LlmOutcome::Failed(e) => LlmOutcomeView::Failed(e@),
        }
    }
}

/// The interpretation that the heuristics give.
pub open spec fn heuristic_answer(text: Seq<char>, categories: Seq<CategoryView>, llm_active: bool) -> Option<
    InterpretationView,
> {
    match categorized(text, categories) {
        Some(i) => Some(
            InterpretationView {
                category: Some(categories[i]),
                constraints: asked_of(specs_of(text, categories[i].specs)),
                queries: queries_of(text, Some(categories[i].label)),
                proposal: None,
                via: "heuristic"@,
                llm_active,
                llm_error: None,
            },
        ),
        None => None,
    }
}

/// The interpretation that a model's answer gives: a known active category wins over a
/// drafted one, and a drafted one is only proposed.
pub open spec fn llm_answer(
    text: Seq<char>,
    categories: Seq<CategoryView>,
    answer: LlmInterpretationView,
    now: Timestamp,
) -> InterpretationView {
    let category = match answer.category_slug {
        Some(slug) => active_with(categories, slug),
        None => None,
    };
    let proposal = match (category, answer.proposal) {
        (None, Some(draft)) => Some(
            CategoryView {
                slug: draft.slug,
                label: draft.label,
                aliases: draft.aliases,
                origin: CategoryOrigin::Llm,
                status: CategoryStatus::Proposed,
                specs: drafted_specs(draft.specs),
                created_at: now,
            },
        ),
        _ => None,
    };
    InterpretationView {
        category,
        constraints: filters_of(answer.constraints),
        queries: queries_of(
            text,
            match category {
                Some(c) => Some(c.label),
                None => None,
            },
        ),
        proposal,
        via: if category is Some || proposal is Some {
            "llm"@
        } else {
            "none"@
        },
        llm_active: true,
        llm_error: None,
    }
}

/// The interpretation that says nothing was found.
pub open spec fn no_answer(text: Seq<char>, llm_active: bool, llm_error: Option<Seq<char>>) -> InterpretationView {
    InterpretationView {
        category: None,
        constraints: Seq::empty(),
        queries: queries_of(text, None),
        proposal: None,
        via: "none"@,
        llm_active,
        llm_error,
    }
}

/// The whole ladder: the heuristics, then the model, then nothing.
pub open spec fn interpreted(
    text: Seq<char>,
    categories: Seq<CategoryView>,
    outcome: LlmOutcomeView,
    now: Timestamp,
) -> InterpretationView {
    match heuristic_answer(text, categories, outcome !is Off) {
        Some(i) => i,
        None => match outcome {
            LlmOutcomeView::Off => no_answer(text, false, None),
            LlmOutcomeView::Answered(answer) => llm_answer(text, categories, answer, now),
            LlmOutcomeView::Failed(e) => no_answer(text, true, Some(e)),
        },
    }
}

/// The interpretation that the heuristics give at once; none where the model is to be
/// asked.
pub fn heuristic(text: &str, categories: &[Category], llm_active: bool) -> (r: Option<
    Interpretation,
>)
    ensures
        r.deep_view() == heuristic_answer(text@, categories.deep_view(), llm_active),
{
    match interpret_heuristic(text, categories) {
        Some((category, constraints)) => Some(
            Interpretation {
                queries: queries_for(text, Some(category.label.as_str())),
                category: Some(category.clone()),
                constraints,
                proposal: None,
                via: "heuristic".to_owned(),
                llm_active,
                llm_error: None,
            },
        ),
        None => None,
    }
}

/// The interpretation that a model's answer gives.
pub fn from_llm(text: &str, categories: &[Category], answer: LlmInterpretation, now: Timestamp) -> (r:
    Interpretation)
    ensures
        r.deep_view() == llm_answer(text@, categories.deep_view(), answer.deep_view(), now),
{
    let category = match &answer.category_slug {
        Some(slug) => find_active(categories, slug.as_str()),
        None => None,
    };
    let constraints = to_filters(&answer.constraints);
    let known = category.is_some();
    let queries = match &category {
        Some(c) => queries_for(text, Some(c.label.as_str())),
        None => queries_for(text, None),
    };
    let proposal = match answer.proposal {
        Some(draft) => {
            if known {
                None
            } else {
                let specs = to_specs(&draft.specs);
                Some(
                    Category {
                        slug: draft.slug,
                        label: draft.label,
                        aliases: draft.aliases,
                        origin: CategoryOrigin::Llm,
                        status: CategoryStatus::Proposed,
                        specs,
                        created_at: now,
                    },
                )
            }
        },
        None => None,
    };
    let via = if known || proposal.is_some() {
        "llm".to_owned()
    } else {
        "none".to_owned()
    };
    Interpretation {
        category,
        constraints,
        queries,
        proposal,
        via,
        llm_active: true,
        llm_error: None,
    }
}

/// The interpretation that says nothing was found.
fn nothing_found(text: &str, llm_active: bool, llm_error: Option<String>) -> (r: Interpretation)
    ensures
        r.deep_view() == no_answer(text@, llm_active, llm_error.deep_view()),
{
    let constraints: Vec<SpecFilter> = Vec::new();
    assert(constraints.deep_view() =~= Seq::empty());
    Interpretation {
        category: None,
        constraints,
        queries: queries_for(text, None),
        proposal: None,
        via: "none".to_owned(),
        llm_active,
        llm_error,
    }
}

/// The whole ladder: the heuristics, then what came of asking the model, then nothing.
pub fn interpret(text: &str, categories: &[Category], outcome: LlmOutcome, now: Timestamp) -> (r:
    Interpretation)
    ensures
        r.deep_view() == interpreted(text@, categories.deep_view(), outcome.deep_view(), now),
{
    let llm_active = match &outcome {
        LlmOutcome::Off => false,
        _ => true,
    };
    if let Some(i) = heuristic(text, categories, llm_active) {
        return i;
    }
    match outcome {
        LlmOutcome::Off => nothing_found(text, false, None),
        LlmOutcome::Answered(answer) => from_llm(text, categories, answer, now),
        LlmOutcome::Failed(e) => nothing_found(text, true, Some(e)),
    }
}

/// How far a text gets without the model.
#[derive(Debug, PartialEq)]
pub enum Rung {
    /// The text is interpreted.
    Done(Interpretation),
    /// The web is to be searched for the text, and then the model is to be asked.
    Search,
}

/// What `Rung` holds.
#[verifier::ext_equal]
pub enum RungView {
    Done(InterpretationView),
    Search,
}

impl DeepView for Rung {
    type V = RungView;

    open spec fn deep_view(&self) -> RungView {
        match self {
            Rung::Done(i) => RungView::Done(i.deep_view()),
            Rung::Search => RungView::Search,
        }
    }
}

/// The first rung of the ladder: what the heuristics know needs no more; else the web is
/// searched and the model asked, where there is one.
pub open spec fn first_rung_of(
    text: Seq<char>,
    categories: Seq<CategoryView>,
    llm_active: bool,
) -> RungView {
    match heuristic_answer(text, categories, llm_active) {
        Some(i) => RungView::Done(i),
        None => if llm_active {
            RungView::Search
        } else {
            RungView::Done(no_answer(text, false, None))
        },
    }
}

/// The first rung of the ladder. After a search, the model is asked with what was found,
/// and `interpret` ends the ladder.
pub fn first_rung(text: &str, categories: &[Category], llm_active: bool) -> (r: Rung)
    ensures
        r.deep_view() == first_rung_of(text@, categories.deep_view(), llm_active),
{
    match heuristic(text, categories, llm_active) {
        Some(i) => Rung::Done(i),
        None => {
            if llm_active {
                Rung::Search
            } else {
                Rung::Done(nothing_found(text, false, None))
            }
        },
    }
}

/// The ladder stops at the first rung that answers: what is done without the model is what
/// the whole ladder gives, whatever the model would say; and the web is searched only where
/// there is a model to ask and the heuristics know nothing.
pub proof fn the_ladder_stops_early(
    text: Seq<char>,
    categories: Seq<CategoryView>,
    outcome: LlmOutcomeView,
    now: Timestamp,
)
    ensures
        match first_rung_of(text, categories, outcome !is Off) {
            RungView::Done(i) => i == interpreted(text, categories, outcome, now),
            RungView::Search => outcome !is Off && categorized(text, categories) is None,
        },
{
}

/// A category with a model's revision: its slug, origin, status and age are not the
/// model's to change, and a blank label keeps the old one.
pub open spec fn revised(category: CategoryView, draft: LlmProposalView) -> CategoryView {
    CategoryView {
        label: if trimmed(draft.label).len() == 0 {
            category.label
        } else {
            draft.label
        },
        aliases: draft.aliases,
        specs: drafted_specs(draft.specs),
        ..category
    }
}

/// A category with a model's revision.
pub fn revise_category(category: Category, draft: LlmProposal) -> (r: Category)
    ensures
        r.deep_view() == revised(category.deep_view(), draft.deep_view()),
{
    let label = if blank(draft.label.as_str()) {
        category.label
    } else {
        draft.label
    };
    Category {
        slug: category.slug,
        label,
        aliases: draft.aliases,
        origin: category.origin,
        status: category.status,
        specs: to_specs(&draft.specs),
        created_at: category.created_at,
    }
}

/// A revision never changes the slug, the origin, the status or the age of a category.
pub proof fn revision_keeps_identity(category: CategoryView, draft: LlmProposalView)
    ensures
        revised(category, draft).slug == category.slug,
        revised(category, draft).origin == category.origin,
        revised(category, draft).status == category.status,
        revised(category, draft).created_at == category.created_at,
{
}

/// What a model drafts is only ever proposed, and only where no known category fits.
pub proof fn drafts_are_only_proposed(
    text: Seq<char>,
    categories: Seq<CategoryView>,
    outcome: LlmOutcomeView,
    now: Timestamp,
)
    ensures
        interpreted(text, categories, outcome, now).proposal matches Some(p) ==> p.status
            == CategoryStatus::Proposed && p.origin == CategoryOrigin::Llm && interpreted(
            text,
            categories,
            outcome,
            now,
        ).category is None,
{
}

/// A failing model never hides what the heuristics know, and its error is shown where they
/// know nothing.
pub proof fn failures_fall_open(
    text: Seq<char>,
    categories: Seq<CategoryView>,
    e: Seq<char>,
    now: Timestamp,
)
    ensures
        ({
            let failed = interpreted(text, categories, LlmOutcomeView::Failed(e), now);
            let off = interpreted(text, categories, LlmOutcomeView::Off, now);
            &&& failed.category == off.category
            &&& failed.constraints == off.constraints
            &&& failed.queries == off.queries
            &&& failed.via == off.via
            &&& failed.category is None ==> failed.llm_error == Some(e)
        }),
{
}

/// A list of drafted specs reads exactly where each does, as theirs in order.
pub proof fn each_spec_is_read(items: Seq<JsonView>)
    ensures
        proposal_specs_in(items) is Ok <==> forall|i: int|
            0 <= i < items.len() ==> proposal_spec_in(#[trigger] items[i]) is Ok,
        proposal_specs_in(items) matches Ok(specs) ==> specs.len() == items.len() && forall|i: int|
            0 <= i < items.len() ==> proposal_spec_in(#[trigger] items[i]) == Ok::<
                LlmProposalSpecView,
                Seq<char>,
            >(specs[i]),
    decreases items.len(),
{
    if items.len() > 0 {
        let rest = items.drop_last();
        each_spec_is_read(rest);
        let n = items.len() - 1;
        assert(items[n] == items.last());
        if let Ok(all) = proposal_specs_in(items) {
            assert forall|i: int| 0 <= i < items.len() implies proposal_spec_in(#[trigger] items[i]) == Ok::<
                LlmProposalSpecView,
                Seq<char>,
            >(all[i]) by {
                if i < n {
                    assert(rest[i] == items[i]);
                }
            }
        }
        if forall|i: int| 0 <= i < items.len() ==> proposal_spec_in(#[trigger] items[i]) is Ok {
            assert forall|i: int| 0 <= i < rest.len() implies proposal_spec_in(
                #[trigger] rest[i],
            ) is Ok by {
                assert(rest[i] == items[i]);
            }
        }
    }
}

/// A list of constraints reads exactly where each does, as theirs in order.
pub proof fn each_constraint_is_read(items: Seq<JsonView>)
    ensures
        constraints_in(items) is Ok <==> forall|i: int|
            0 <= i < items.len() ==> constraint_in(#[trigger] items[i]) is Ok,
        constraints_in(items) matches Ok(all) ==> all.len() == items.len() && forall|i: int|
            0 <= i < items.len() ==> constraint_in(#[trigger] items[i]) == Ok::<
                LlmConstraintView,
                Seq<char>,
            >(all[i]),
    decreases items.len(),
{
    if items.len() > 0 {
        let rest = items.drop_last();
        each_constraint_is_read(rest);
        let n = items.len() - 1;
        assert(items[n] == items.last());
        if let Ok(all) = constraints_in(items) {
            assert forall|i: int| 0 <= i < items.len() implies constraint_in(#[trigger] items[i]) == Ok::<
                LlmConstraintView,
                Seq<char>,
            >(all[i]) by {
                if i < n {
                    assert(rest[i] == items[i]);
                }
            }
        }
        if forall|i: int| 0 <= i < items.len() ==> constraint_in(#[trigger] items[i]) is Ok {
            assert forall|i: int| 0 <= i < rest.len() implies constraint_in(
                #[trigger] rest[i],
            ) is Ok by {
                assert(rest[i] == items[i]);
            }
        }
    }
}

/// A drafted spec says what its fields say: key, label and kind have to be there, the rest
/// may be missing.
pub proof fn drafted_specs_say_what_they_state(v: JsonView)
    requires
        v is Object,
    ensures
        proposal_spec_in(v) matches Ok(s) ==> {
            &&& v.get("key"@) == Some(JsonView::Text(s.key))
            &&& v.get("label"@) == Some(JsonView::Text(s.label))
            &&& v.get("kind"@) == Some(JsonView::Text(s.kind))
            &&& s.unit is None ==> v.field("unit"@) is Null
            &&& s.unit matches Some(u) ==> v.get("unit"@) == Some(JsonView::Text(u))
            &&& default_texts(v, "allowed_values"@) == Ok::<Seq<Seq<char>>, Seq<char>>(
                s.allowed_values,
            )
            &&& s.extraction_hint is None ==> v.field("extraction_hint"@) is Null
            &&& s.extraction_hint matches Some(h) ==> v.get("extraction_hint"@) == Some(
                JsonView::Text(h),
            )
        },
        proposal_spec_in(v) is Ok <==> required_text(v, "key"@) is Ok && required_text(
            v,
            "label"@,
        ) is Ok && required_text(v, "kind"@) is Ok && optional_text(v, "unit"@) is Ok
            && default_texts(v, "allowed_values"@) is Ok && optional_text(
            v,
            "extraction_hint"@,
        ) is Ok,
{
}

/// A drafted category, a constraint and an interpretation say what their fields say.
pub proof fn answers_say_what_they_state(v: JsonView)
    requires
        v is Object,
    ensures
        proposal_in(v) matches Ok(p) ==> {
            &&& v.get("slug"@) == Some(JsonView::Text(p.slug))
            &&& v.get("label"@) == Some(JsonView::Text(p.label))
            &&& default_texts(v, "aliases"@) == Ok::<Seq<Seq<char>>, Seq<char>>(p.aliases)
            &&& stated_specs(v) == Ok::<Seq<LlmProposalSpecView>, Seq<char>>(p.specs)
        },
        proposal_in(v) is Ok <==> required_text(v, "slug"@) is Ok && required_text(v, "label"@)
            is Ok && default_texts(v, "aliases"@) is Ok && stated_specs(v) is Ok,
        constraint_in(v) matches Ok(c) ==> {
            &&& v.get("op"@) == Some(JsonView::Text(c.op))
            &&& v.get("key"@) == Some(JsonView::Text(c.key))
            &&& v.get("value"@) == Some(c.value)
        },
        constraint_in(v) is Ok <==> required_text(v, "op"@) is Ok && required_text(v, "key"@) is Ok
            && v.get("value"@) is Some,
        interpretation_in(v) matches Ok(i) ==> {
            &&& optional_text(v, "category_slug"@) == Ok::<Option<Seq<char>>, Seq<char>>(
                i.category_slug,
            )
            &&& stated_constraints(v) == Ok::<Seq<LlmConstraintView>, Seq<char>>(i.constraints)
            &&& i.proposal is None ==> v.field("proposal"@) is Null
            &&& i.proposal matches Some(p) ==> v.get("proposal"@) is Some && proposal_in(
                v.get("proposal"@)->0,
            ) == Ok::<LlmProposalView, Seq<char>>(p)
        },
        interpretation_in(v) is Ok <==> optional_text(v, "category_slug"@) is Ok
            && stated_constraints(v) is Ok && stated_proposal(v) is Ok,
        v.get("specs"@) is None ==> stated_specs(v) == Ok::<Seq<LlmProposalSpecView>, Seq<char>>(
            Seq::empty(),
        ),
        v.get("specs"@) matches Some(JsonView::List(items)) ==> stated_specs(v)
            == proposal_specs_in(items),
        v.get("constraints"@) is None ==> stated_constraints(v) == Ok::<
            Seq<LlmConstraintView>,
            Seq<char>,
        >(Seq::empty()),
        v.get("constraints"@) matches Some(JsonView::List(items)) ==> stated_constraints(v)
            == constraints_in(items),
{
}

/// A constraint means a floor, a ceiling or a text, by its operation, where its value is
/// of the kind for it; else it means nothing.
pub proof fn constraints_mean_filters(c: LlmConstraintView)
    ensures
        c.op == "min"@ && c.value.number() is Some ==> filter_of(c) == Some(
            SpecFilterView::Min { key: c.key, value: ReadingView::Finite(c.value.number()->0) },
        ),
        c.op == "max"@ && c.value.number() is Some ==> filter_of(c) == Some(
            SpecFilterView::Max { key: c.key, value: ReadingView::Finite(c.value.number()->0) },
        ),
        c.op == "eq"@ && c.value.text() is Some ==> filter_of(c) == Some(
            SpecFilterView::Eq { key: c.key, value: c.value.text()->0 },
        ),
        filter_of(c) is Some <==> ((c.op == "min"@ || c.op == "max"@) && c.value.number() is Some)
            || (c.op == "eq"@ && c.value.text() is Some),
{
    reveal_strlit("min");
    reveal_strlit("max");
    reveal_strlit("eq");
    assert("min"@[1] == 'i' && "max"@[1] == 'a' && "eq"@.len() == 2 && "min"@.len() == 3
        && "max"@.len() == 3);
}

/// A draft means a spec with all that it says, where its kind is known; else nothing.
pub proof fn drafts_mean_specs(s: LlmProposalSpecView)
    ensures
        spec_of(s) is Some <==> s.kind == "number"@ || s.kind == "enum"@ || s.kind == "boolean"@,
        spec_of(s) matches Some(spec) ==> spec == (CategorySpecView {
            key: s.key,
            label: s.label,
            kind: spec.kind,
            unit: s.unit,
            allowed_values: s.allowed_values,
            extraction_hint: s.extraction_hint,
        }) && (s.kind == "number"@ ==> spec.kind == SpecKind::Number) && (s.kind == "enum"@
            ==> spec.kind == SpecKind::Enum) && (s.kind == "boolean"@ ==> spec.kind
            == SpecKind::Boolean),
{
    reveal_strlit("number");
    reveal_strlit("enum");
    reveal_strlit("boolean");
    assert("number"@.len() == 6 && "enum"@.len() == 4 && "boolean"@.len() == 7);
}

/// Every constraint that means a filter is kept, in order, and nothing else is.
pub proof fn every_known_constraint_filters(
    constraints: Seq<LlmConstraintView>,
)
    ensures
        filters_of(constraints).map_values(|l: SpecFilterView| Some(l)) == constraints.map_values(
            |x: LlmConstraintView| filter_of(x),
        ).filter(|l: Option<SpecFilterView>| l is Some),
    decreases constraints.len(),
{
    reveal(Seq::filter);
    let f = |x: LlmConstraintView| filter_of(x);
    let p = |l: Option<SpecFilterView>| l is Some;
    let g = |l: SpecFilterView| Some(l);
    if constraints.len() > 0 {
        let rest = constraints.drop_last();
        every_known_constraint_filters(rest);
        assert(constraints.map_values(f).drop_last() =~= rest.map_values(f));
        assert(constraints.map_values(f).last() == f(constraints.last()));
        if let Some(l) = f(constraints.last()) {
            let before = filters_of(rest);
            assert(before.push(l).map_values(g) =~= before.map_values(g).push(Some(l)));
        }
    }
    assert(filters_of(constraints).map_values(g) =~= constraints.map_values(f).filter(p));
}

/// Every draft that means a spec is kept, in order, and nothing else is.
pub proof fn every_known_spec_is_drafted(
    specs: Seq<LlmProposalSpecView>,
)
    ensures
        drafted_specs(specs).map_values(|l: CategorySpecView| Some(l)) == specs.map_values(
            |x: LlmProposalSpecView| spec_of(x),
        ).filter(|l: Option<CategorySpecView>| l is Some),
    decreases specs.len(),
{
    reveal(Seq::filter);
    let f = |x: LlmProposalSpecView| spec_of(x);
    let p = |l: Option<CategorySpecView>| l is Some;
    let g = |l: CategorySpecView| Some(l);
    if specs.len() > 0 {
        let rest = specs.drop_last();
        every_known_spec_is_drafted(rest);
        assert(specs.map_values(f).drop_last() =~= rest.map_values(f));
        assert(specs.map_values(f).last() == f(specs.last()));
        if let Some(l) = f(specs.last()) {
            let before = drafted_specs(rest);
            assert(before.push(l).map_values(g) =~= before.map_values(g).push(Some(l)));
        }
    }
    assert(drafted_specs(specs).map_values(g) =~= specs.map_values(f).filter(p));
}

/// A text is searched for in lowercase, without the white space around it; the label of
/// its category, in lowercase, is a second search where it says something else.
pub proof fn labels_are_searched_too(text: Seq<char>, label: Seq<char>)
    ensures
        queries_of(text, None) == seq![lowercased(trimmed(text))],
        lowercased(label) == lowercased(trimmed(text)) ==> queries_of(text, Some(label)) == seq![
            lowercased(trimmed(text)),
        ],
        lowercased(label) != lowercased(trimmed(text)) ==> queries_of(text, Some(label)) == seq![
            lowercased(trimmed(text)),
            lowercased(label),
        ],
{
}

proof fn active_place_is_first(categories: Seq<CategoryView>, slug: Seq<char>)
    ensures
        0 <= active_place(categories, slug) <= categories.len(),
        active_place(categories, slug) < categories.len() ==> categories[active_place(
            categories,
            slug,
        )].slug == slug && categories[active_place(categories, slug)].status
            == CategoryStatus::Active,
        forall|j: int|
            0 <= j < active_place(categories, slug) ==> !((#[trigger] categories[j]).slug == slug
                && categories[j].status == CategoryStatus::Active),
    decreases categories.len(),
{
    if categories.len() > 0 && !(categories[0].slug == slug && categories[0].status
        == CategoryStatus::Active) {
        let rest = categories.drop_first();
        active_place_is_first(rest, slug);
        assert forall|j: int| 0 <= j < active_place(categories, slug) implies !((
        #[trigger] categories[j]).slug == slug && categories[j].status
            == CategoryStatus::Active) by {
            if j > 0 {
                assert(rest[j - 1] == categories[j]);
            }
        }
    }
}

/// The category of a slug is the first active one that has it; there is none exactly where
/// no active one does.
pub proof fn slugs_name_active_categories(categories: Seq<CategoryView>, slug: Seq<char>)
    ensures
        match active_with(categories, slug) {
            Some(c) => exists|i: int|
                0 <= i < categories.len() && #[trigger] categories[i] == c && c.slug == slug
                    && c.status == CategoryStatus::Active && forall|j: int|
                    0 <= j < i ==> !((#[trigger] categories[j]).slug == slug
                        && categories[j].status == CategoryStatus::Active),
            None => forall|j: int|
                0 <= j < categories.len() ==> !((#[trigger] categories[j]).slug == slug
                    && categories[j].status == CategoryStatus::Active),
        },
{
    active_place_is_first(categories, slug);
    let i = active_place(categories, slug);
    if i < categories.len() {
        assert(categories[i] == active_with(categories, slug)->0);
    }
}

/// What the heuristics answer: the best category of the text, the demands that its values
/// make, and the searches of the text and the label; they answer exactly where the text
/// has a category.
pub proof fn heuristics_answer_for_their_category(
    text: Seq<char>,
    categories: Seq<CategoryView>,
    llm_active: bool,
)
    ensures
        match categorized(text, categories) {
            Some(i) => heuristic_answer(text, categories, llm_active) == Some(
                InterpretationView {
                    category: Some(categories[i]),
                    constraints: asked_of(specs_of(text, categories[i].specs)),
                    queries: queries_of(text, Some(categories[i].label)),
                    proposal: None,
                    via: "heuristic"@,
                    llm_active,
                    llm_error: None,
                },
            ),
            None => heuristic_answer(text, categories, llm_active) is None,
        },
{
}

/// What a model's answer comes to: its category where that is known and active, else its
/// draft as a proposal, with all that it says; its constraints, and the searches of the
/// text and the label.
pub proof fn models_answer_with_a_category_or_a_draft(
    text: Seq<char>,
    categories: Seq<CategoryView>,
    answer: LlmInterpretationView,
    now: Timestamp,
)
    ensures
        ({
            let given = llm_answer(text, categories, answer, now);
            let known = match answer.category_slug {
                Some(slug) => active_with(categories, slug),
                None => None,
            };
            &&& given.category == known
            &&& given.constraints == filters_of(answer.constraints)
            &&& known matches Some(c) ==> given.queries == queries_of(text, Some(c.label))
                && given.proposal is None && given.via == "llm"@
            &&& known is None ==> given.queries == queries_of(text, None)
            &&& known is None && answer.proposal is None ==> given.proposal is None && given.via
                == "none"@
            &&& known is None && answer.proposal is Some ==> given.via == "llm"@ && given.proposal
                == Some(
                CategoryView {
                    slug: (answer.proposal->0).slug,
                    label: (answer.proposal->0).label,
                    aliases: (answer.proposal->0).aliases,
                    origin: CategoryOrigin::Llm,
                    status: CategoryStatus::Proposed,
                    specs: drafted_specs((answer.proposal->0).specs),
                    created_at: now,
                },
            )
            &&& given.llm_active
            &&& given.llm_error is None
        }),
{
}

/// The ladder: the heuristics where they answer, then the model where it does, and else an
/// answer that finds nothing but the search itself, with the model's error.
pub proof fn the_ladder_is_climbed(
    text: Seq<char>,
    categories: Seq<CategoryView>,
    outcome: LlmOutcomeView,
    now: Timestamp,
)
    ensures
        categorized(text, categories) is Some ==> heuristic_answer(text, categories, outcome !is Off)
            == Some(interpreted(text, categories, outcome, now)),
        categorized(text, categories) is None ==> match outcome {
            LlmOutcomeView::Answered(answer) => interpreted(text, categories, outcome, now)
                == llm_answer(text, categories, answer, now),
            LlmOutcomeView::Off => interpreted(text, categories, outcome, now) == (
            InterpretationView {
                category: None,
                constraints: Seq::empty(),
                queries: queries_of(text, None),
                proposal: None,
                via: "none"@,
                llm_active: false,
                llm_error: None,
            }),
            LlmOutcomeView::Failed(e) => interpreted(text, categories, outcome, now) == (
            InterpretationView {
                category: None,
                constraints: Seq::empty(),
                queries: queries_of(text, None),
                proposal: None,
                via: "none"@,
                llm_active: true,
                llm_error: Some(e),
            }),
        },
        categorized(text, categories) is None ==> first_rung_of(text, categories, true)
            == RungView::Search,
        categorized(text, categories) is None ==> first_rung_of(text, categories, false)
            == RungView::Done(no_answer(text, false, None)),
{
}

/// A revision changes the label, where it gives one, the aliases and the specs, and
/// nothing else.
pub proof fn revisions_change_what_they_may(category: CategoryView, draft: LlmProposalView)
    ensures
        revised(category, draft) == (CategoryView {
            slug: category.slug,
            label: if trimmed(draft.label).len() == 0 {
                category.label
            } else {
                draft.label
            },
            aliases: draft.aliases,
            origin: category.origin,
            status: category.status,
            specs: drafted_specs(draft.specs),
            created_at: category.created_at,
        }),
{
}

/// The fields of each part of an answer, in the order in which a list gives them, and how
/// many of them a list has to give.
pub proof fn fields_come_in_order(items: Seq<JsonView>)
    ensures
        proposal_spec_names() == seq![
            "key"@,
            "label"@,
            "kind"@,
            "unit"@,
            "allowed_values"@,
            "extraction_hint"@,
        ],
        proposal_names() == seq!["slug"@, "label"@, "aliases"@, "specs"@],
        constraint_names() == seq!["op"@, "key"@, "value"@],
        interpretation_names() == seq!["category_slug"@, "constraints"@, "proposal"@],
        items.len() < 3 ==> proposal_spec_in(JsonView::List(items)) is Err && constraint_in(
            JsonView::List(items),
        ) is Err && interpretation_in(JsonView::List(items)) is Err,
        items.len() < 2 ==> proposal_in(JsonView::List(items)) is Err,
        items.len() > 6 ==> proposal_spec_in(JsonView::List(items)) is Err,
        items.len() > 4 ==> proposal_in(JsonView::List(items)) is Err,
        items.len() > 3 ==> constraint_in(JsonView::List(items)) is Err && interpretation_in(
            JsonView::List(items),
        ) is Err,
{
}

} // verus!
