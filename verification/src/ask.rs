//! What is asked of the model: request bodies of an OpenAI-compatible chat API, with the
//! JSON schemas that the answers must fit.

use vstd::prelude::*;
use crate::interpret::{constraint_names, interpretation_names, proposal_names, proposal_spec_names};
use crate::category::{Category, CategorySpec, CategorySpecView, CategoryView};
use crate::db_category::{kind_name, kind_to_str};
use crate::json::{
    add_field, json_written, list, nullable, number, object, text, text_list, text_or_null, texts,
    write_json, Json, JsonView,
};
use crate::llm::{refinement_names, RefineInput, RefineInputView};
use crate::money::{cents_text, money_text};
use crate::pipeline::{flag_tags, tags_from};
use crate::settings::{ChatTurn, ChatTurnView};
use crate::text::{nat_text, push_text, same};

verus! {

/// The schema of one type.
pub open spec fn typed(t: Seq<char>) -> JsonView {
    JsonView::Object(seq![("type"@, JsonView::Text(t))])
}

/// The schema of one type or null.
pub open spec fn typed_or_null(t: Seq<char>) -> JsonView {
    JsonView::Object(seq![("type"@, text_list(seq![t, "null"@]))])
}

/// The schema of one of several texts.
pub open spec fn one_of_texts(values: Seq<Seq<char>>) -> JsonView {
    JsonView::Object(seq![("type"@, JsonView::Text("string"@)), ("enum"@, text_list(values))])
}

/// The schema of a list.
pub open spec fn list_of(item: JsonView) -> JsonView {
    JsonView::Object(seq![("type"@, JsonView::Text("array"@)), ("items"@, item)])
}

/// The schema of an object that has exactly these properties. `kind` is its type.
pub open spec fn exact_object(
    kind: JsonView,
    properties: Seq<(Seq<char>, JsonView)>,
    required: Seq<Seq<char>>,
) -> JsonView {
    JsonView::Object(
        seq![
            ("type"@, kind),
            ("properties"@, JsonView::Object(properties)),
            ("required"@, text_list(required)),
            ("additionalProperties"@, JsonView::Bool(false)),
        ],
    )
}

fn strings(a: &str, b: &str, c: Option<&str>) -> (r: Vec<String>)
    ensures
        r.deep_view() == match c {
            Some(c) => seq![a@, b@, c@],
            None => seq![a@, b@],
        },
{
    let mut out: Vec<String> = Vec::new();
    out.push(a.to_owned());
    out.push(b.to_owned());
    if let Some(c) = c {
        out.push(c.to_owned());
        assert(out.deep_view() =~= seq![a@, b@, c@]);
    } else {
        assert(out.deep_view() =~= seq![a@, b@]);
    }
    out
}

fn type_schema(t: &str) -> (r: Json)
    ensures
        r.deep_view() == typed(t@),
{
    let mut f: Vec<(String, Json)> = Vec::new();
    add_field(&mut f, "type", text(t));
    assert(f.deep_view() =~= seq![("type"@, JsonView::Text(t@))]);
    object(f)
}

fn null_schema(t: &str) -> (r: Json)
    ensures
        r.deep_view() == typed_or_null(t@),
{
    let mut f: Vec<(String, Json)> = Vec::new();
    add_field(&mut f, "type", texts(&strings(t, "null", None)));
    assert(f.deep_view() =~= seq![("type"@, text_list(seq![t@, "null"@]))]);
    object(f)
}

fn enum_schema(values: &Vec<String>) -> (r: Json)
    ensures
        r.deep_view() == one_of_texts(values.deep_view()),
{
    let mut f: Vec<(String, Json)> = Vec::new();
    add_field(&mut f, "type", text("string"));
    add_field(&mut f, "enum", texts(values));
    assert(f.deep_view() =~= seq![
        ("type"@, JsonView::Text("string"@)),
        ("enum"@, text_list(values.deep_view())),
    ]);
    object(f)
}

fn list_schema(item: Json) -> (r: Json)
    ensures
        r.deep_view() == list_of(item.deep_view()),
{
    let mut f: Vec<(String, Json)> = Vec::new();
    add_field(&mut f, "type", text("array"));
    add_field(&mut f, "items", item);
    assert(f.deep_view() =~= seq![
        ("type"@, JsonView::Text("array"@)),
        ("items"@, item.deep_view()),
    ]);
    object(f)
}

fn object_schema(kind: Json, properties: Vec<(String, Json)>, required: &Vec<String>) -> (r: Json)
    ensures
        r.deep_view() == exact_object(
            kind.deep_view(),
            properties.deep_view(),
            required.deep_view(),
        ),
{
    let mut f: Vec<(String, Json)> = Vec::new();
    add_field(&mut f, "type", kind);
    add_field(&mut f, "properties", object(properties));
    add_field(&mut f, "required", texts(required));
    add_field(&mut f, "additionalProperties", Json::Bool(false));
    assert(f.deep_view() =~= seq![
        ("type"@, kind.deep_view()),
        ("properties"@, JsonView::Object(properties.deep_view())),
        ("required"@, text_list(required.deep_view())),
        ("additionalProperties"@, JsonView::Bool(false)),
    ]);
    object(f)
}

/// The schema of a refinement.
pub open spec fn refinement_schema() -> JsonView {
    exact_object(
        JsonView::Text("object"@),
        seq![
            ("verdict"@, one_of_texts(seq!["genuine"@, "stuffed-title"@, "scam"@])),
            ("reason"@, typed("string"@)),
            ("capacity_gb"@, typed_or_null("integer"@)),
            (
                "condition"@,
                JsonView::Object(
                    seq![
                        ("type"@, text_list(seq!["string"@, "null"@])),
                        (
                            "enum"@,
                            JsonView::List(
                                seq![
                                    JsonView::Text("new"@),
                                    JsonView::Text("used"@),
                                    JsonView::Text("refurbished"@),
                                    JsonView::Null,
                                ],
                            ),
                        ),
                    ],
                ),
            ),
        ],
        seq!["verdict"@, "reason"@, "capacity_gb"@, "condition"@],
    )
}

/// The schema of a refinement.
pub fn response_schema() -> (r: Json)
    ensures
        r.deep_view() == refinement_schema(),
{
    let mut conditions: Vec<Json> = Vec::new();
    conditions.push(text("new"));
    conditions.push(text("used"));
    conditions.push(text("refurbished"));
    conditions.push(Json::Null);
    assert(conditions.deep_view() =~= seq![
        JsonView::Text("new"@),
        JsonView::Text("used"@),
        JsonView::Text("refurbished"@),
        JsonView::Null,
    ]);
    let mut condition: Vec<(String, Json)> = Vec::new();
    add_field(&mut condition, "type", texts(&strings("string", "null", None)));
    add_field(&mut condition, "enum", list(conditions));
    let ghost conditions_view = condition.deep_view();
    assert(conditions_view =~= seq![
        ("type"@, text_list(seq!["string"@, "null"@])),
        (
            "enum"@,
            JsonView::List(
                seq![
                    JsonView::Text("new"@),
                    JsonView::Text("used"@),
                    JsonView::Text("refurbished"@),
                    JsonView::Null,
                ],
            ),
        ),
    ]);
    let mut p: Vec<(String, Json)> = Vec::new();
    add_field(
        &mut p,
        "verdict",
        enum_schema(&strings("genuine", "stuffed-title", Some("scam"))),
    );
    add_field(&mut p, "reason", type_schema("string"));
    add_field(&mut p, "capacity_gb", null_schema("integer"));
    add_field(&mut p, "condition", object(condition));
    assert(p.deep_view() =~= seq![
        ("verdict"@, one_of_texts(seq!["genuine"@, "stuffed-title"@, "scam"@])),
        ("reason"@, typed("string"@)),
        ("capacity_gb"@, typed_or_null("integer"@)),
        ("condition"@, JsonView::Object(conditions_view)),
    ]);
    let mut required = strings("verdict", "reason", Some("capacity_gb"));
    push_text(&mut required, "condition");
    assert(required.deep_view() =~= seq!["verdict"@, "reason"@, "capacity_gb"@, "condition"@]);
    object_schema(text("object"), p, &required)
}

/// One message of a conversation.
pub open spec fn message(role: Seq<char>, content: Seq<char>) -> JsonView {
    JsonView::Object(
        seq![("role"@, JsonView::Text(role)), ("content"@, JsonView::Text(content))],
    )
}

/// A structured chat request. The token budget is explicit, with room for a reasoning
/// model's thoughts, which count against it.
pub open spec fn chat_request(
    model: Seq<char>,
    max_tokens: nat,
    messages: Seq<JsonView>,
    name: Seq<char>,
    schema: JsonView,
) -> JsonView {
    JsonView::Object(
        seq![
            ("model"@, JsonView::Text(model)),
            ("temperature"@, JsonView::Number(nat_text(0))),
            ("max_tokens"@, JsonView::Number(nat_text(max_tokens))),
            ("messages"@, JsonView::List(messages)),
            (
                "response_format"@,
                JsonView::Object(
                    seq![
                        ("type"@, JsonView::Text("json_schema"@)),
                        (
                            "json_schema"@,
                            JsonView::Object(
                                seq![
                                    ("name"@, JsonView::Text(name)),
                                    ("strict"@, JsonView::Bool(true)),
                                    ("schema"@, schema),
                                ],
                            ),
                        ),
                    ],
                ),
            ),
        ],
    )
}

fn message_json(role: &str, content: &str) -> (r: Json)
    ensures
        r.deep_view() == message(role@, content@),
{
    let mut f: Vec<(String, Json)> = Vec::new();
    add_field(&mut f, "role", text(role));
    add_field(&mut f, "content", text(content));
    assert(f.deep_view() =~= seq![
        ("role"@, JsonView::Text(role@)),
        ("content"@, JsonView::Text(content@)),
    ]);
    object(f)
}

fn chat_json(model: &str, max_tokens: u64, messages: Vec<Json>, name: &str, schema: Json) -> (r: Json)
    ensures
        r.deep_view() == chat_request(
            model@,
            max_tokens as nat,
            messages.deep_view(),
            name@,
            schema.deep_view(),
        ),
{
    let mut inner: Vec<(String, Json)> = Vec::new();
    add_field(&mut inner, "name", text(name));
    add_field(&mut inner, "strict", Json::Bool(true));
    add_field(&mut inner, "schema", schema);
    let ghost inner_view = inner.deep_view();
    assert(inner_view =~= seq![
        ("name"@, JsonView::Text(name@)),
        ("strict"@, JsonView::Bool(true)),
        ("schema"@, schema.deep_view()),
    ]);
    let mut format: Vec<(String, Json)> = Vec::new();
    add_field(&mut format, "type", text("json_schema"));
    add_field(&mut format, "json_schema", object(inner));
    let ghost format_view = format.deep_view();
    assert(format_view =~= seq![
        ("type"@, JsonView::Text("json_schema"@)),
        ("json_schema"@, JsonView::Object(inner_view)),
    ]);
    let mut f: Vec<(String, Json)> = Vec::new();
    add_field(&mut f, "model", text(model));
    add_field(&mut f, "temperature", number(0));
    add_field(&mut f, "max_tokens", number(max_tokens));
    add_field(&mut f, "messages", list(messages));
    add_field(&mut f, "response_format", object(format));
    assert(f.deep_view() =~= seq![
        ("model"@, JsonView::Text(model@)),
        ("temperature"@, JsonView::Number(nat_text(0))),
        ("max_tokens"@, JsonView::Number(nat_text(max_tokens as nat))),
        ("messages"@, JsonView::List(messages.deep_view())),
        ("response_format"@, JsonView::Object(format_view)),
    ]);
    object(f)
}

/// A listing as the model is shown it.
pub open spec fn listing_shown(input: RefineInputView) -> JsonView {
    JsonView::Object(
        seq![
            ("title"@, JsonView::Text(input.title)),
            (
                "price"@,
                JsonView::Text(money_text(input.price_cents as int) + " "@ + input.currency),
            ),
            ("product_family"@, JsonView::Text(input.family)),
            ("models_mentioned"@, text_list(input.models)),
            ("heuristic_flags"@, text_list(flag_tags(input.flags))),
        ],
    )
}

/// The request to refine a listing.
pub open spec fn refine_request(model: Seq<char>, input: RefineInputView, system: Seq<char>) -> JsonView {
    chat_request(
        model,
        4000,
        seq![
            message("system"@, system),
            message("user"@, json_written(listing_shown(input))),
        ],
        "refinement"@,
        refinement_schema(),
    )
}

/// A listing as the model is shown it.
fn listing_json(input: &RefineInput) -> (r: Json)
    ensures
        r.deep_view() == listing_shown(input.deep_view()),
{
    let mut price = cents_text(input.price_cents);
    price.append(" ");
    price.append(input.currency.as_str());
    let mut f: Vec<(String, Json)> = Vec::new();
    add_field(&mut f, "title", text(input.title.as_str()));
    add_field(&mut f, "price", text(price.as_str()));
    add_field(&mut f, "product_family", text(input.family.as_str()));
    add_field(&mut f, "models_mentioned", texts(&input.models));
    add_field(&mut f, "heuristic_flags", texts(&tags_from(&input.flags)));
    assert(f.deep_view() =~= listing_shown(input.deep_view())->Object_0);
    object(f)
}

fn two_messages(a: Json, b: Json) -> (r: Vec<Json>)
    ensures
        r.deep_view() == seq![a.deep_view(), b.deep_view()],
{
    let mut out: Vec<Json> = Vec::new();
    out.push(a);
    out.push(b);
    assert(out.deep_view() =~= seq![a.deep_view(), b.deep_view()]);
    out
}

/// The request to refine a listing.
pub fn request_body(model: &str, input: &RefineInput, system: &str) -> (r: Json)
    ensures
        r.deep_view() == refine_request(model@, input.deep_view(), system@),
{
    let listing = write_json(&listing_json(input));
    let messages = two_messages(
        message_json("system", system),
        message_json("user", listing.as_str()),
    );
    chat_json(model, 4000, messages, "refinement", response_schema())
}

/// The properties of one spec of a category draft.
pub open spec fn spec_properties() -> Seq<(Seq<char>, JsonView)> {
    seq![
        ("key"@, typed("string"@)),
        ("label"@, typed("string"@)),
        ("kind"@, one_of_texts(seq!["number"@, "enum"@, "boolean"@])),
        ("unit"@, typed_or_null("string"@)),
        ("allowed_values"@, list_of(typed("string"@))),
        ("extraction_hint"@, typed_or_null("string"@)),
    ]
}

/// The schema of a category draft. `kind` is its type.
pub open spec fn draft_schema(kind: JsonView) -> JsonView {
    exact_object(
        kind,
        seq![
            ("slug"@, typed("string"@)),
            ("label"@, typed("string"@)),
            ("aliases"@, list_of(typed("string"@))),
            (
                "specs"@,
                list_of(
                    exact_object(
                        JsonView::Text("object"@),
                        spec_properties(),
                        seq![
                            "key"@,
                            "label"@,
                            "kind"@,
                            "unit"@,
                            "allowed_values"@,
                            "extraction_hint"@,
                        ],
                    ),
                ),
            ),
        ],
        seq!["slug"@, "label"@, "aliases"@, "specs"@],
    )
}

fn draft_schema_json(kind: Json) -> (r: Json)
    ensures
        r.deep_view() == draft_schema(kind.deep_view()),
{
    let mut s: Vec<(String, Json)> = Vec::new();
    add_field(&mut s, "key", type_schema("string"));
    add_field(&mut s, "label", type_schema("string"));
    add_field(&mut s, "kind", enum_schema(&strings("number", "enum", Some("boolean"))));
    add_field(&mut s, "unit", null_schema("string"));
    add_field(&mut s, "allowed_values", list_schema(type_schema("string")));
    add_field(&mut s, "extraction_hint", null_schema("string"));
    assert(s.deep_view() =~= spec_properties());
    let mut keys = strings("key", "label", Some("kind"));
    push_text(&mut keys, "unit");
    push_text(&mut keys, "allowed_values");
    push_text(&mut keys, "extraction_hint");
    let ghost key_names = seq![
        "key"@,
        "label"@,
        "kind"@,
        "unit"@,
        "allowed_values"@,
        "extraction_hint"@,
    ];
    assert(keys.deep_view() =~= key_names);
    let spec_schema = object_schema(text("object"), s, &keys);
    let mut p: Vec<(String, Json)> = Vec::new();
    add_field(&mut p, "slug", type_schema("string"));
    add_field(&mut p, "label", type_schema("string"));
    add_field(&mut p, "aliases", list_schema(type_schema("string")));
    add_field(&mut p, "specs", list_schema(spec_schema));
    assert(p.deep_view() =~= seq![
        ("slug"@, typed("string"@)),
        ("label"@, typed("string"@)),
        ("aliases"@, list_of(typed("string"@))),
        (
            "specs"@,
            list_of(exact_object(JsonView::Text("object"@), spec_properties(), key_names)),
        ),
    ]);
    let mut required = strings("slug", "label", Some("aliases"));
    push_text(&mut required, "specs");
    assert(required.deep_view() =~= seq!["slug"@, "label"@, "aliases"@, "specs"@]);
    object_schema(kind, p, &required)
}

/// The schema of a category draft: the shape shared by proposals and revisions.
pub fn proposal_schema() -> (r: Json)
    ensures
        r.deep_view() == draft_schema(JsonView::Text("object"@)),
{
    draft_schema_json(text("object"))
}

/// The properties of one constraint.
pub open spec fn constraint_properties() -> Seq<(Seq<char>, JsonView)> {
    seq![
        ("op"@, one_of_texts(seq!["min"@, "max"@, "eq"@])),
        ("key"@, typed("string"@)),
        ("value"@, JsonView::Object(Seq::empty())),
    ]
}

/// The schema of an interpretation: a category draft may be null in it.
pub open spec fn interpretation_schema() -> JsonView {
    exact_object(
        JsonView::Text("object"@),
        seq![
            ("category_slug"@, typed_or_null("string"@)),
            (
                "constraints"@,
                list_of(
                    exact_object(
                        JsonView::Text("object"@),
                        constraint_properties(),
                        seq!["op"@, "key"@, "value"@],
                    ),
                ),
            ),
            ("proposal"@, draft_schema(text_list(seq!["object"@, "null"@]))),
        ],
        seq!["category_slug"@, "constraints"@, "proposal"@],
    )
}

/// The schema of an interpretation.
pub fn interpret_schema() -> (r: Json)
    ensures
        r.deep_view() == interpretation_schema(),
{
    let nothing: Vec<(String, Json)> = Vec::new();
    assert(nothing.deep_view() =~= Seq::empty());
    let mut c: Vec<(String, Json)> = Vec::new();
    add_field(&mut c, "op", enum_schema(&strings("min", "max", Some("eq"))));
    add_field(&mut c, "key", type_schema("string"));
    add_field(&mut c, "value", object(nothing));
    assert(c.deep_view() =~= constraint_properties());
    let constraint = object_schema(text("object"), c, &strings("op", "key", Some("value")));
    let mut p: Vec<(String, Json)> = Vec::new();
    add_field(&mut p, "category_slug", null_schema("string"));
    add_field(&mut p, "constraints", list_schema(constraint));
    add_field(
        &mut p,
        "proposal",
        draft_schema_json(texts(&strings("object", "null", None))),
    );
    assert(p.deep_view() =~= seq![
        ("category_slug"@, typed_or_null("string"@)),
        (
            "constraints"@,
            list_of(
                exact_object(
                    JsonView::Text("object"@),
                    constraint_properties(),
                    seq!["op"@, "key"@, "value"@],
                ),
            ),
        ),
        ("proposal"@, draft_schema(text_list(seq!["object"@, "null"@]))),
    ]);
    object_schema(
        text("object"),
        p,
        &strings("category_slug", "constraints", Some("proposal")),
    )
}

/// A spec as the model is shown it: all of it, or only what a search can constrain.
pub open spec fn spec_shown(spec: CategorySpecView, full: bool) -> JsonView {
    JsonView::Object(
        if full {
            seq![
                ("key"@, JsonView::Text(spec.key)),
                ("label"@, JsonView::Text(spec.label)),
                ("kind"@, JsonView::Text(kind_name(spec.kind))),
                ("unit"@, nullable(spec.unit)),
                ("allowed_values"@, text_list(spec.allowed_values)),
                ("extraction_hint"@, nullable(spec.extraction_hint)),
            ]
        } else {
            seq![
                ("key"@, JsonView::Text(spec.key)),
                ("kind"@, JsonView::Text(kind_name(spec.kind))),
                ("unit"@, nullable(spec.unit)),
                ("allowed_values"@, text_list(spec.allowed_values)),
            ]
        },
    )
}

/// Specs as the model is shown them.
pub open spec fn specs_shown(specs: Seq<CategorySpecView>, full: bool) -> JsonView {
    JsonView::List(Seq::new(specs.len(), |i: int| spec_shown(specs[i], full)))
}

/// A category as the model is shown it: all of it, or only what a search can map to.
pub open spec fn category_shown(category: CategoryView, full: bool) -> JsonView {
    JsonView::Object(
        if full {
            seq![
                ("slug"@, JsonView::Text(category.slug)),
                ("label"@, JsonView::Text(category.label)),
                ("aliases"@, text_list(category.aliases)),
                ("specs"@, specs_shown(category.specs, true)),
            ]
        } else {
            seq![
                ("slug"@, JsonView::Text(category.slug)),
                ("label"@, JsonView::Text(category.label)),
                ("specs"@, specs_shown(category.specs, false)),
            ]
        },
    )
}

fn spec_json(spec: &CategorySpec, full: bool) -> (r: Json)
    ensures
        r.deep_view() == spec_shown(spec.deep_view(), full),
{
    let mut f: Vec<(String, Json)> = Vec::new();
    add_field(&mut f, "key", text(spec.key.as_str()));
    if full {
        add_field(&mut f, "label", text(spec.label.as_str()));
    }
    add_field(&mut f, "kind", text(kind_to_str(spec.kind)));
    add_field(&mut f, "unit", text_or_null(&spec.unit));
    add_field(&mut f, "allowed_values", texts(&spec.allowed_values));
    if full {
        add_field(&mut f, "extraction_hint", text_or_null(&spec.extraction_hint));
    }
    assert(f.deep_view() =~= spec_shown(spec.deep_view(), full)->Object_0);
    object(f)
}

fn specs_json(specs: &Vec<CategorySpec>, full: bool) -> (r: Json)
    ensures
        r.deep_view() == specs_shown(specs.deep_view(), full),
{
    let ghost all = specs_shown(specs.deep_view(), full)->List_0;
    let mut out: Vec<Json> = Vec::new();
    let mut i: usize = 0;
    assert(out.deep_view() =~= all.take(0));
    while i < specs.len()
        invariant
            i <= specs@.len(),
            all == specs_shown(specs.deep_view(), full)->List_0,
            out.deep_view() == all.take(i as int),
        decreases specs@.len() - i,
    {
        let ghost before = out.deep_view();
        let item = spec_json(&specs[i], full);
        out.push(item);
        i = i + 1;
        assert(out.deep_view() =~= before.push(item.deep_view()));
        assert(out.deep_view() =~= all.take(i as int));
    }
    assert(all.take(all.len() as int) =~= all);
    list(out)
}

fn shown_json(category: &Category, full: bool) -> (r: Json)
    ensures
        r.deep_view() == category_shown(category.deep_view(), full),
{
    let mut f: Vec<(String, Json)> = Vec::new();
    add_field(&mut f, "slug", text(category.slug.as_str()));
    add_field(&mut f, "label", text(category.label.as_str()));
    if full {
        add_field(&mut f, "aliases", texts(&category.aliases));
    }
    add_field(&mut f, "specs", specs_json(&category.specs, full));
    assert(f.deep_view() =~= category_shown(category.deep_view(), full)->Object_0);
    object(f)
}

/// A category the way revision prompts want to see it.
pub fn category_json(category: &Category) -> (r: Json)
    ensures
        r.deep_view() == category_shown(category.deep_view(), true),
{
    shown_json(category, true)
}

/// A search as the model is shown it.
pub open spec fn search_shown(
    search: Seq<char>,
    categories: Seq<CategoryView>,
    web: Seq<Seq<char>>,
) -> JsonView {
    JsonView::Object(
        seq![
            ("search"@, JsonView::Text(search)),
            (
                "known_categories"@,
                JsonView::List(
                    Seq::new(categories.len(), |i: int| category_shown(categories[i], false)),
                ),
            ),
            ("web_search_results"@, text_list(web)),
        ],
    )
}

fn known_json(categories: &[Category]) -> (r: Json)
    ensures
        r.deep_view() == JsonView::List(
            Seq::new(
                categories.deep_view().len(),
                |i: int| category_shown(categories.deep_view()[i], false),
            ),
        ),
{
    let ghost all = Seq::new(
        categories.deep_view().len(),
        |i: int| category_shown(categories.deep_view()[i], false),
    );
    let mut out: Vec<Json> = Vec::new();
    let mut i: usize = 0;
    assert(out.deep_view() =~= all.take(0));
    while i < categories.len()
        invariant
            i <= categories@.len(),
            all == Seq::new(
                categories.deep_view().len(),
                |i: int| category_shown(categories.deep_view()[i], false),
            ),
            out.deep_view() == all.take(i as int),
        decreases categories@.len() - i,
    {
        let ghost before = out.deep_view();
        let item = shown_json(&categories[i], false);
        out.push(item);
        i = i + 1;
        assert(out.deep_view() =~= before.push(item.deep_view()));
        assert(out.deep_view() =~= all.take(i as int));
    }
    assert(all.take(all.len() as int) =~= all);
    list(out)
}

/// The request to interpret a search.
pub open spec fn interpret_request(
    model: Seq<char>,
    search: Seq<char>,
    categories: Seq<CategoryView>,
    web: Seq<Seq<char>>,
    system: Seq<char>,
) -> JsonView {
    chat_request(
        model,
        8000,
        seq![
            message("system"@, system),
            message("user"@, json_written(search_shown(search, categories, web))),
        ],
        "interpretation"@,
        interpretation_schema(),
    )
}

/// The request to interpret a search, with what the web says of it.
pub fn interpret_request_body(
    model: &str,
    search: &str,
    categories: &[Category],
    web: &Vec<String>,
    system: &str,
) -> (r: Json)
    ensures
        r.deep_view() == interpret_request(
            model@,
            search@,
            categories.deep_view(),
            web.deep_view(),
            system@,
        ),
{
    let mut f: Vec<(String, Json)> = Vec::new();
    add_field(&mut f, "search", text(search));
    add_field(&mut f, "known_categories", known_json(categories));
    add_field(&mut f, "web_search_results", texts(web));
    assert(f.deep_view() =~= search_shown(
        search@,
        categories.deep_view(),
        web.deep_view(),
    )->Object_0);
    let user = write_json(&object(f));
    let messages = two_messages(
        message_json("system", system),
        message_json("user", user.as_str()),
    );
    chat_json(model, 8000, messages, "interpretation", interpret_schema())
}

/// The role of a turn: the assistant's, or else the user's.
pub open spec fn role_of(role: Seq<char>) -> Seq<char> {
    if role == "assistant"@ {
        "assistant"@
    } else {
        "user"@
    }
}

/// A revision conversation: the prompt, the earlier turns, and the category with the new
/// instruction last.
pub open spec fn conversation(
    system: Seq<char>,
    history: Seq<ChatTurnView>,
    category: CategoryView,
    instruction: Seq<char>,
) -> Seq<JsonView> {
    seq![message("system"@, system)] + Seq::new(
        history.len(),
        |i: int| message(role_of(history[i].role), history[i].content),
    ) + seq![
        message(
            "user"@,
            json_written(
                JsonView::Object(
                    seq![
                        ("category"@, category_shown(category, true)),
                        ("instruction"@, JsonView::Text(instruction)),
                    ],
                ),
            ),
        ),
    ]
}

/// The request to revise a category.
pub open spec fn revise_request(
    model: Seq<char>,
    category: CategoryView,
    instruction: Seq<char>,
    history: Seq<ChatTurnView>,
    system: Seq<char>,
) -> JsonView {
    chat_request(
        model,
        8000,
        conversation(system, history, category, instruction),
        "category"@,
        draft_schema(JsonView::Text("object"@)),
    )
}

/// The request to revise a category.
pub fn revise_request_body(
    model: &str,
    category: &Category,
    instruction: &str,
    history: &Vec<ChatTurn>,
    system: &str,
) -> (r: Json)
    ensures
        r.deep_view() == revise_request(
            model@,
            category.deep_view(),
            instruction@,
            history.deep_view(),
            system@,
        ),
{
    let ghost turns = history.deep_view();
    let ghost shown = Seq::new(
        turns.len(),
        |i: int| message(role_of(turns[i].role), turns[i].content),
    );
    let ghost head = seq![message("system"@, system@)];
    let mut messages: Vec<Json> = Vec::new();
    messages.push(message_json("system", system));
    assert(messages.deep_view() =~= head + shown.take(0));
    let mut i: usize = 0;
    while i < history.len()
        invariant
            i <= history@.len(),
            turns == history.deep_view(),
            shown == Seq::new(
                turns.len(),
                |i: int| message(role_of(turns[i].role), turns[i].content),
            ),
            messages.deep_view() == head + shown.take(i as int),
        decreases history@.len() - i,
    {
        let ghost before = messages.deep_view();
        let role = if same(history[i].role.as_str(), "assistant") {
            "assistant"
        } else {
            "user"
        };
        let turn = message_json(role, history[i].content.as_str());
        messages.push(turn);
        assert(turns[i as int] == history@[i as int].deep_view());
        i = i + 1;
        assert(messages.deep_view() =~= before.push(turn.deep_view()));
        assert(messages.deep_view() =~= head + shown.take(i as int));
    }
    let mut f: Vec<(String, Json)> = Vec::new();
    add_field(&mut f, "category", category_json(category));
    add_field(&mut f, "instruction", text(instruction));
    assert(f.deep_view() =~= seq![
        ("category"@, category_shown(category.deep_view(), true)),
        ("instruction"@, JsonView::Text(instruction@)),
    ]);
    let user = write_json(&object(f));
    let ghost before = messages.deep_view();
    let last = message_json("user", user.as_str());
    messages.push(last);
    assert(shown.take(shown.len() as int) =~= shown);
    assert(messages.deep_view() =~= before.push(last.deep_view()));
    assert(messages.deep_view() =~= conversation(
        system@,
        turns,
        category.deep_view(),
        instruction@,
    ));
    chat_json(model, 8000, messages, "category", proposal_schema())
}

/// The request of one tiny completion, to test an endpoint; a reasoning model may think
/// before its one word.
pub open spec fn probe_request(model: Seq<char>) -> JsonView {
    JsonView::Object(
        seq![
            ("model"@, JsonView::Text(model)),
            ("max_tokens"@, JsonView::Number(nat_text(2048))),
            (
                "messages"@,
                JsonView::List(seq![message("user"@, "Reply with the single word: ok"@)]),
            ),
        ],
    )
}

/// The request of one tiny completion, to test an endpoint.
pub fn probe_body(model: &str) -> (r: Json)
    ensures
        r.deep_view() == probe_request(model@),
{
    let mut messages: Vec<Json> = Vec::new();
    messages.push(message_json("user", "Reply with the single word: ok"));
    assert(messages.deep_view() =~= seq![message("user"@, "Reply with the single word: ok"@)]);
    let mut f: Vec<(String, Json)> = Vec::new();
    add_field(&mut f, "model", text(model));
    add_field(&mut f, "max_tokens", number(2048));
    add_field(&mut f, "messages", list(messages));
    assert(f.deep_view() =~= probe_request(model@)->Object_0);
    object(f)
}

/// A chat request names its model, its token budget, its messages and the schema that the
/// answer has to follow, under its name, and leaves nothing to chance.
pub proof fn requests_state_their_terms(
    model: Seq<char>,
    max_tokens: nat,
    messages: Seq<JsonView>,
    name: Seq<char>,
    schema: JsonView,
)
    ensures
        chat_request(model, max_tokens, messages, name, schema) matches JsonView::Object(fields)
            && fields.len() == 5 && fields[0] == ("model"@, JsonView::Text(model)) && fields[1] == (
            "temperature"@,
            JsonView::Number(seq!['0']),
        ) && fields[2] == ("max_tokens"@, JsonView::Number(nat_text(max_tokens))) && fields[3] == (
            "messages"@,
            JsonView::List(messages),
        ) && fields[4].0 == "response_format"@ && (fields[4].1 matches JsonView::Object(format)
            && format.len() == 2 && format[0] == ("type"@, JsonView::Text("json_schema"@))
            && format[1].0 == "json_schema"@ && (format[1].1 matches JsonView::Object(inner)
            && inner.len() == 3 && inner[0] == ("name"@, JsonView::Text(name)) && inner[1] == (
            "strict"@,
            JsonView::Bool(true),
        ) && inner[2] == ("schema"@, schema))),
{
    assert(nat_text(0) =~= seq!['0']);
}

/// What each request asks for: its prompt first, then what it is about, in its own budget
/// and under its own schema.
pub proof fn requests_say_what_they_ask(
    model: Seq<char>,
    system: Seq<char>,
    input: RefineInputView,
    search: Seq<char>,
    categories: Seq<CategoryView>,
    web: Seq<Seq<char>>,
    category: CategoryView,
    instruction: Seq<char>,
    history: Seq<ChatTurnView>,
)
    ensures
        refine_request(model, input, system) == chat_request(
            model,
            4000,
            seq![
                message("system"@, system),
                message("user"@, json_written(listing_shown(input))),
            ],
            "refinement"@,
            refinement_schema(),
        ),
        interpret_request(model, search, categories, web, system) == chat_request(
            model,
            8000,
            seq![
                message("system"@, system),
                message("user"@, json_written(search_shown(search, categories, web))),
            ],
            "interpretation"@,
            interpretation_schema(),
        ),
        revise_request(model, category, instruction, history, system) == chat_request(
            model,
            8000,
            conversation(system, history, category, instruction),
            "category"@,
            draft_schema(JsonView::Text("object"@)),
        ),
        probe_request(model) == JsonView::Object(
            seq![
                ("model"@, JsonView::Text(model)),
                ("max_tokens"@, JsonView::Number(nat_text(2048))),
                (
                    "messages"@,
                    JsonView::List(seq![message("user"@, "Reply with the single word: ok"@)]),
                ),
            ],
        ),
{
}

/// A listing is shown with its title, its price, its family, its models and its flags.
pub proof fn listings_are_shown(input: RefineInputView)
    ensures
        listing_shown(input) matches JsonView::Object(fields) && fields.len() == 5 && fields[0] == (
            "title"@,
            JsonView::Text(input.title),
        ) && fields[1] == (
            "price"@,
            JsonView::Text(money_text(input.price_cents as int) + " "@ + input.currency),
        ) && fields[2] == ("product_family"@, JsonView::Text(input.family)) && fields[3] == (
            "models_mentioned"@,
            text_list(input.models),
        ) && fields[4] == ("heuristic_flags"@, text_list(flag_tags(input.flags))),
{
}

/// A search is shown with every known category and every web result, in order; a category
/// with every spec.
pub proof fn everything_known_is_shown(
    search: Seq<char>,
    categories: Seq<CategoryView>,
    web: Seq<Seq<char>>,
    category: CategoryView,
    full: bool,
    i: int,
)
    ensures
        search_shown(search, categories, web) matches JsonView::Object(fields) && fields.len() == 3
            && fields[0] == ("search"@, JsonView::Text(search)) && fields[1].0
            == "known_categories"@ && (fields[1].1 matches JsonView::List(shown) && shown.len()
            == categories.len() && (0 <= i < categories.len() ==> shown[i] == category_shown(
            categories[i],
            false,
        ))) && fields[2] == ("web_search_results"@, text_list(web)),
        specs_shown(category.specs, full) matches JsonView::List(shown) && shown.len()
            == category.specs.len() && (0 <= i < category.specs.len() ==> shown[i] == spec_shown(
            category.specs[i],
            full,
        )),
        category_shown(category, true) == JsonView::Object(
            seq![
                ("slug"@, JsonView::Text(category.slug)),
                ("label"@, JsonView::Text(category.label)),
                ("aliases"@, text_list(category.aliases)),
                ("specs"@, specs_shown(category.specs, true)),
            ],
        ),
        category_shown(category, false) == JsonView::Object(
            seq![
                ("slug"@, JsonView::Text(category.slug)),
                ("label"@, JsonView::Text(category.label)),
                ("specs"@, specs_shown(category.specs, false)),
            ],
        ),
{
}

/// A conversation holds the prompt, every earlier turn in its role, and last the category
/// with the instruction.
pub proof fn every_turn_is_told(
    system: Seq<char>,
    history: Seq<ChatTurnView>,
    category: CategoryView,
    instruction: Seq<char>,
    i: int,
)
    ensures
        ({
            let told = conversation(system, history, category, instruction);
            &&& told.len() == history.len() + 2
            &&& told[0] == message("system"@, system)
            &&& 0 <= i < history.len() ==> told[i + 1] == message(
                if history[i].role == "assistant"@ {
                    "assistant"@
                } else {
                    "user"@
                },
                history[i].content,
            )
            &&& told.last() == message(
                "user"@,
                json_written(
                    JsonView::Object(
                        seq![
                            ("category"@, category_shown(category, true)),
                            ("instruction"@, JsonView::Text(instruction)),
                        ],
                    ),
                ),
            )
        }),
        message(system, instruction) == JsonView::Object(
            seq![("role"@, JsonView::Text(system)), ("content"@, JsonView::Text(instruction))],
        ),
{
}

/// The schema of each answer demands the fields that the answer is read by, all of them.
pub proof fn schemas_demand_what_is_read()
    ensures
        refinement_schema() matches JsonView::Object(fields) && fields[2] == (
            "required"@,
            text_list(refinement_names()),
        ) && fields[3] == ("additionalProperties"@, JsonView::Bool(false)),
        interpretation_schema() matches JsonView::Object(fields) && fields[2] == (
            "required"@,
            text_list(interpretation_names()),
        ) && fields[3] == ("additionalProperties"@, JsonView::Bool(false)),
        draft_schema(JsonView::Text("object"@)) matches JsonView::Object(fields) && fields[2] == (
            "required"@,
            text_list(proposal_names()),
        ) && fields[3] == ("additionalProperties"@, JsonView::Bool(false)),
{
}

/// The schema of a refinement: a verdict of three, a reason, a whole capacity or none, and
/// a condition of three or none.
pub proof fn refinements_follow_their_schema()
    ensures
        refinement_schema() matches JsonView::Object(fields) && fields.len() == 4 && fields[0] == (
            "type"@,
            JsonView::Text("object"@),
        ) && fields[1].0 == "properties"@ && (fields[1].1 matches JsonView::Object(props)
            && props.len() == 4 && props[0] == (
            "verdict"@,
            JsonView::Object(
                seq![
                    ("type"@, JsonView::Text("string"@)),
                    ("enum"@, text_list(seq!["genuine"@, "stuffed-title"@, "scam"@])),
                ],
            ),
        ) && props[1] == (
            "reason"@,
            JsonView::Object(seq![("type"@, JsonView::Text("string"@))]),
        ) && props[2] == (
            "capacity_gb"@,
            JsonView::Object(seq![("type"@, text_list(seq!["integer"@, "null"@]))]),
        ) && props[3] == (
            "condition"@,
            JsonView::Object(
                seq![
                    ("type"@, text_list(seq!["string"@, "null"@])),
                    (
                        "enum"@,
                        JsonView::List(
                            seq![
                                JsonView::Text("new"@),
                                JsonView::Text("used"@),
                                JsonView::Text("refurbished"@),
                                JsonView::Null,
                            ],
                        ),
                    ),
                ],
            ),
        )),
{
}

/// The schema of a category draft: a slug, a label, aliases, and specs with a key, a label,
/// one of three kinds, a unit or none, values, and a hint or none.
pub proof fn drafts_follow_their_schema(kind: JsonView)
    ensures
        ({
            let text = JsonView::Object(seq![("type"@, JsonView::Text("string"@))]);
            let texts = JsonView::Object(
                seq![("type"@, JsonView::Text("array"@)), ("items"@, text)],
            );
            let maybe = JsonView::Object(
                seq![("type"@, text_list(seq!["string"@, "null"@]))],
            );
            draft_schema(kind) matches JsonView::Object(fields) && fields.len() == 4 && fields[0]
                == ("type"@, kind) && fields[1].0 == "properties"@ && (fields[1].1
                matches JsonView::Object(props) && props.len() == 4 && props[0] == ("slug"@, text)
                && props[1] == ("label"@, text) && props[2] == ("aliases"@, texts) && props[3].0
                == "specs"@ && (props[3].1 matches JsonView::Object(list) && list.len() == 2
                && list[0] == ("type"@, JsonView::Text("array"@)) && list[1].0 == "items"@ && (
            list[1].1 matches JsonView::Object(spec) && spec.len() == 4 && spec[0] == (
                "type"@,
                JsonView::Text("object"@),
            ) && spec[1] == (
                "properties"@,
                JsonView::Object(
                    seq![
                        ("key"@, text),
                        ("label"@, text),
                        (
                            "kind"@,
                            JsonView::Object(
                                seq![
                                    ("type"@, JsonView::Text("string"@)),
                                    ("enum"@, text_list(seq!["number"@, "enum"@, "boolean"@])),
                                ],
                            ),
                        ),
                        ("unit"@, maybe),
                        ("allowed_values"@, texts),
                        ("extraction_hint"@, maybe),
                    ],
                ),
            ) && spec[2] == ("required"@, text_list(proposal_spec_names())) && spec[3] == (
                "additionalProperties"@,
                JsonView::Bool(false),
            ))))
        }),
{
}

/// The schema of an interpretation: a slug or none, constraints with an operation of three,
/// a key and any value, and a draft or none.
pub proof fn interpretations_follow_their_schema()
    ensures
        ({
            let text = JsonView::Object(seq![("type"@, JsonView::Text("string"@))]);
            let maybe = JsonView::Object(
                seq![("type"@, text_list(seq!["string"@, "null"@]))],
            );
            interpretation_schema() matches JsonView::Object(fields) && fields.len() == 4
                && fields[0] == ("type"@, JsonView::Text("object"@)) && fields[1].0
                == "properties"@ && (fields[1].1 matches JsonView::Object(props) && props.len() == 3
                && props[0] == ("category_slug"@, maybe) && props[1].0 == "constraints"@ && (
            props[1].1 matches JsonView::Object(list) && list.len() == 2 && list[0] == (
                "type"@,
                JsonView::Text("array"@),
            ) && list[1].0 == "items"@ && (list[1].1 matches JsonView::Object(one) && one.len() == 4
                && one[1] == (
                "properties"@,
                JsonView::Object(
                    seq![
                        (
                            "op"@,
                            JsonView::Object(
                                seq![
                                    ("type"@, JsonView::Text("string"@)),
                                    ("enum"@, text_list(seq!["min"@, "max"@, "eq"@])),
                                ],
                            ),
                        ),
                        ("key"@, text),
                        ("value"@, JsonView::Object(Seq::empty())),
                    ],
                ),
            ) && one[2] == ("required"@, text_list(constraint_names())))) && props[2] == (
                "proposal"@,
                draft_schema(text_list(seq!["object"@, "null"@])),
            ))
        }),
{
}

/// A spec is shown with all that it holds, or with what a search can constrain.
pub proof fn specs_are_shown_in_full_or_in_brief(spec: CategorySpecView)
    ensures
        spec_shown(spec, true) == JsonView::Object(
            seq![
                ("key"@, JsonView::Text(spec.key)),
                ("label"@, JsonView::Text(spec.label)),
                ("kind"@, JsonView::Text(kind_name(spec.kind))),
                ("unit"@, nullable(spec.unit)),
                ("allowed_values"@, text_list(spec.allowed_values)),
                ("extraction_hint"@, nullable(spec.extraction_hint)),
            ],
        ),
        spec_shown(spec, false) == JsonView::Object(
            seq![
                ("key"@, JsonView::Text(spec.key)),
                ("kind"@, JsonView::Text(kind_name(spec.kind))),
                ("unit"@, nullable(spec.unit)),
                ("allowed_values"@, text_list(spec.allowed_values)),
            ],
        ),
{
}

} // verus!
