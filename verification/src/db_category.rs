//! Stored categories: how their columns are written and read back, and which curated
//! seeds are still to be stored.

use vstd::prelude::*;
use crate::category::{
    Category, CategoryOrigin, CategorySpec, CategorySpecView, CategoryStatus, CategoryView, SpecKind,
};
use crate::db::{
    bad, bad_value, parse_ts, rfc3339_written, ts_read, ts_text, DbError, DbErrorView,
};
use crate::json::{
    json_read, json_written, parse_texts, strings_view, text_list, texts_of, texts_read,
    write_json, Json, JsonView,
};
use crate::pipeline::holds_text;
use crate::text::same;
use crate::time::Timestamp;

verus! {

/// The stored name of a spec kind.
pub open spec fn kind_name(kind: SpecKind) -> Seq<char> {
    match kind {
        SpecKind::Number => "number"@,
        SpecKind::Enum => "enum"@,
        SpecKind::Boolean => "boolean"@,
    }
}

/// The spec kind of a stored name.
pub open spec fn kind_named(s: Seq<char>) -> Option<SpecKind> {
    if s == "number"@ {
        Some(SpecKind::Number)
    } else if s == "enum"@ {
        Some(SpecKind::Enum)
    } else if s == "boolean"@ {
        Some(SpecKind::Boolean)
    } else {
        None
    }
}

/// The stored name of a spec kind.
pub fn kind_to_str(kind: SpecKind) -> (r: &'static str)
    ensures
        r@ == kind_name(kind),
{
    match kind {
        SpecKind::Number => "number",
        SpecKind::Enum => "enum",
        SpecKind::Boolean => "boolean",
    }
}

/// The spec kind of a stored name.
pub fn kind_from_str(s: &str) -> (r: Result<SpecKind, DbError>)
    ensures
        match r {
            Ok(k) => kind_named(s@) == Some(k),
            Err(e) => kind_named(s@) is None && e.deep_view() == bad("spec kind"@, s@),
        },
{
    if same(s, "number") {
        Ok(SpecKind::Number)
    } else if same(s, "enum") {
        Ok(SpecKind::Enum)
    } else if same(s, "boolean") {
        Ok(SpecKind::Boolean)
    } else {
        Err(bad_value("spec kind", s))
    }
}

/// The stored name of an origin.
pub open spec fn origin_name(origin: CategoryOrigin) -> Seq<char> {
    match origin {
        CategoryOrigin::Curated => "curated"@,
        CategoryOrigin::Llm => "llm"@,
        CategoryOrigin::User => "user"@,
    }
}

/// The origin of a stored name; a name that is not known is the model's.
pub open spec fn origin_named(s: Seq<char>) -> CategoryOrigin {
    if s == "curated"@ {
        CategoryOrigin::Curated
    } else if s == "user"@ {
        CategoryOrigin::User
    } else {
        CategoryOrigin::Llm
    }
}

/// The stored name of an origin.
pub fn origin_to_str(origin: CategoryOrigin) -> (r: &'static str)
    ensures
        r@ == origin_name(origin),
{
    match origin {
        CategoryOrigin::Curated => "curated",
        CategoryOrigin::Llm => "llm",
        CategoryOrigin::User => "user",
    }
}

/// The origin of a stored name.
pub fn origin_from_str(s: &str) -> (r: CategoryOrigin)
    ensures
        r == origin_named(s@),
{
    if same(s, "curated") {
        CategoryOrigin::Curated
    } else if same(s, "user") {
        CategoryOrigin::User
    } else {
        CategoryOrigin::Llm
    }
}

/// The stored name of a status.
pub open spec fn category_status_name(status: CategoryStatus) -> Seq<char> {
    match status {
        CategoryStatus::Active => "active"@,
        CategoryStatus::Proposed => "proposed"@,
    }
}

/// The status of a stored name; a name that is not known is active.
pub open spec fn category_status_named(s: Seq<char>) -> CategoryStatus {
    if s == "proposed"@ {
        CategoryStatus::Proposed
    } else {
        CategoryStatus::Active
    }
}

/// The stored name of a status.
pub fn category_status_to_str(status: CategoryStatus) -> (r: &'static str)
    ensures
        r@ == category_status_name(status),
{
    match status {
        CategoryStatus::Active => "active",
        CategoryStatus::Proposed => "proposed",
    }
}

/// The status of a stored name.
pub fn category_status_from_str(s: &str) -> (r: CategoryStatus)
    ensures
        r == category_status_named(s@),
{
    if same(s, "proposed") {
        CategoryStatus::Proposed
    } else {
        CategoryStatus::Active
    }
}

/// Kinds, origins and statuses are read back from their stored names.
pub proof fn category_names_round_trip(
    kind: SpecKind,
    origin: CategoryOrigin,
    status: CategoryStatus,
)
    ensures
        kind_named(kind_name(kind)) == Some(kind),
        origin_named(origin_name(origin)) == origin,
        category_status_named(category_status_name(status)) == status,
{
    reveal_strlit("number");
    reveal_strlit("enum");
    reveal_strlit("boolean");
    reveal_strlit("curated");
    reveal_strlit("user");
    reveal_strlit("llm");
    reveal_strlit("proposed");
    reveal_strlit("active");
    assert("number"@.len() == 6 && "enum"@.len() == 4 && "boolean"@.len() == 7);
    assert("curated"@.len() == 7 && "user"@.len() == 4 && "llm"@.len() == 3);
    assert("proposed"@.len() == 8 && "active"@.len() == 6);
}

/// The texts of a list of strings.
pub fn texts_from(v: &Json) -> (r: Option<Vec<String>>)
    ensures
        r.deep_view() == texts_of(v.deep_view()),
{
    let items = match v.as_list() {
        Some(items) => items,
        None => {
            return None;
        },
    };
    let ghost all = items.deep_view();
    let mut out: Vec<String> = Vec::new();
    let mut i: usize = 0;
    while i < items.len()
        invariant
            i <= items@.len(),
            all == items.deep_view(),
            v.deep_view() == JsonView::List(all),
            forall|j: int| 0 <= j < i ==> (#[trigger] all[j]) is Text,
            out@.len() == i,
            forall|j: int| 0 <= j < i ==> (#[trigger] out@[j])@ == all[j]->Text_0,
        decreases items@.len() - i,
    {
        assert(all[i as int] == items@[i as int].deep_view());
        match items[i].as_str() {
            Some(t) => {
                out.push(t.to_owned());
            },
            None => {
                return None;
            },
        }
        i = i + 1;
    }
    assert(out.deep_view() =~= texts_of(v.deep_view())->0) by {
        assert forall|j: int| 0 <= j < all.len() implies out.deep_view()[j] == all[j]->Text_0 by {
            assert(out@[j]@ == all[j]->Text_0);
        }
    }
    Some(out)
}

/// What a column of texts holds, or what is wrong with it. `what` names it.
pub open spec fn text_column(
    read: Result<Seq<Seq<char>>, Seq<char>>,
    what: Seq<char>,
) -> Result<Seq<Seq<char>>, DbErrorView> {
    match read {
        Ok(t) => Ok(t),
        Err(e) => Err(DbErrorView::Corrupt("bad "@ + what + ": "@ + e)),
    }
}

/// What a reading of texts holds.
pub open spec fn texts_result(r: Result<Vec<String>, DbError>) -> Result<
    Seq<Seq<char>>,
    DbErrorView,
> {
    match r {
        Ok(t) => Ok(t.deep_view()),
        Err(e) => Err(e.deep_view()),
    }
}

/// What a column of texts, read as JSON, holds.
pub fn text_column_from(read: Result<Vec<String>, String>, what: &str) -> (r: Result<
    Vec<String>,
    DbError,
>)
    ensures
        texts_result(r) == text_column(strings_view(read), what@),
{
    match read {
        Ok(t) => Ok(t),
        Err(e) => {
            let mut m = "bad ".to_owned();
            m.append(what);
            m.append(": ");
            m.append(e.as_str());
            Err(DbError::Corrupt(m))
        },
    }
}

/// What a column of texts holds.
pub fn read_text_column(column: &str, what: &str) -> (r: Result<Vec<String>, DbError>)
    ensures
        texts_result(r) == text_column(texts_read(column@), what@),
{
    text_column_from(parse_texts(column), what)
}

/// A stored spec.
#[derive(Debug, PartialEq)]
pub struct SpecRow {
    pub key: String,
    pub label: String,
    pub kind: String,
    pub unit: Option<String>,
    /// A JSON list of strings.
    pub allowed_values: String,
    pub extraction_hint: Option<String>,
}

/// What `SpecRow` holds.
#[verifier::ext_equal]
pub struct SpecRowView {
    pub key: Seq<char>,
    pub label: Seq<char>,
    pub kind: Seq<char>,
    pub unit: Option<Seq<char>>,
    pub allowed_values: Seq<char>,
    pub extraction_hint: Option<Seq<char>>,
}

impl DeepView for SpecRow {
    type V = SpecRowView;

    open spec fn deep_view(&self) -> SpecRowView {
        SpecRowView {
            key: self.key@,
            label: self.label@,
            kind: self.kind@,
            unit: self.unit.deep_view(),
            allowed_values: self.allowed_values@,
            extraction_hint: self.extraction_hint.deep_view(),
        }
    }
}

/// The spec that a row holds, or what is wrong with it.
pub open spec fn spec_in_row(row: SpecRowView) -> Result<CategorySpecView, DbErrorView> {
    match kind_named(row.kind) {
        None => Err(bad("spec kind"@, row.kind)),
        Some(kind) => match text_column(texts_read(row.allowed_values), "allowed_values"@) {
            Err(e) => Err(e),
            Ok(allowed_values) => Ok(
                CategorySpecView {
                    key: row.key,
                    label: row.label,
                    kind,
                    unit: row.unit,
                    allowed_values,
                    extraction_hint: row.extraction_hint,
                },
            ),
        },
    }
}

/// The spec that a row holds.
pub fn spec_from_row(row: SpecRow) -> (r: Result<CategorySpec, DbError>)
    ensures
        match (r, spec_in_row(row.deep_view())) {
            (Ok(spec), Ok(s)) => spec.deep_view() == s,
            (Err(e), Err(m)) => e.deep_view() == m,
            _ => false,
        },
{
    let kind = match kind_from_str(row.kind.as_str()) {
        Ok(k) => k,
        Err(e) => {
            return Err(e);
        },
    };
    match read_text_column(row.allowed_values.as_str(), "allowed_values") {
        Ok(allowed_values) => Ok(
            CategorySpec {
                key: row.key,
                label: row.label,
                kind,
                unit: row.unit,
                allowed_values,
                extraction_hint: row.extraction_hint,
            },
        ),
        Err(e) => Err(e),
    }
}

/// A stored category, without its specs.
#[derive(Debug, PartialEq)]
pub struct CategoryRow {
    pub slug: String,
    pub label: String,
    /// A JSON list of strings.
    pub aliases: String,
    pub origin: String,
    pub status: String,
    pub created_at: String,
}

/// What `CategoryRow` holds.
#[verifier::ext_equal]
pub struct CategoryRowView {
    pub slug: Seq<char>,
    pub label: Seq<char>,
    pub aliases: Seq<char>,
    pub origin: Seq<char>,
    pub status: Seq<char>,
    pub created_at: Seq<char>,
}

impl DeepView for CategoryRow {
    type V = CategoryRowView;

    open spec fn deep_view(&self) -> CategoryRowView {
        CategoryRowView {
            slug: self.slug@,
            label: self.label@,
            aliases: self.aliases@,
            origin: self.origin@,
            status: self.status@,
            created_at: self.created_at@,
        }
    }
}

/// The category that a row and its specs make, or what is wrong with the row.
pub open spec fn category_in_row(row: CategoryRowView, specs: Seq<CategorySpecView>) -> Result<
    CategoryView,
    DbErrorView,
> {
    match text_column(texts_read(row.aliases), "aliases"@) {
        Err(e) => Err(e),
        Ok(aliases) => match ts_read(row.created_at) {
            Err(e) => Err(e),
            Ok(created_at) => Ok(
                CategoryView {
                    slug: row.slug,
                    label: row.label,
                    aliases,
                    origin: origin_named(row.origin),
                    status: category_status_named(row.status),
                    specs,
                    created_at,
                },
            ),
        },
    }
}

/// The category that a row and its specs make.
pub fn category_from_row(row: CategoryRow, specs: Vec<CategorySpec>) -> (r: Result<
    Category,
    DbError,
>)
    ensures
        match (r, category_in_row(row.deep_view(), specs.deep_view())) {
            (Ok(c), Ok(v)) => c.deep_view() == v,
            (Err(e), Err(m)) => e.deep_view() == m,
            _ => false,
        },
{
    let aliases = match read_text_column(row.aliases.as_str(), "aliases") {
        Ok(a) => a,
        Err(e) => {
            return Err(e);
        },
    };
    match parse_ts(row.created_at.as_str()) {
        Ok(created_at) => Ok(
            Category {
                slug: row.slug,
                label: row.label,
                aliases,
                origin: origin_from_str(row.origin.as_str()),
                status: category_status_from_str(row.status.as_str()),
                specs,
                created_at,
            },
        ),
        Err(e) => Err(e),
    }
}

/// A list of texts as a column holds it; it reads back as the same texts, and as a list of
/// them.
pub fn write_text_column(texts: &Vec<String>, what: &str) -> (r: String)
    ensures
        r@ == json_written(text_list(texts.deep_view())),
        text_column(texts_read(r@), what@) == Ok::<Seq<Seq<char>>, DbErrorView>(texts.deep_view()),
        json_read(r@) == Ok::<JsonView, Seq<char>>(text_list(texts.deep_view())),
{
    let value = crate::json::texts(texts);
    proof {
        texts_of_text_list(texts.deep_view());
    }
    write_json(&value)
}

/// The texts of a list of texts.
pub proof fn texts_of_text_list(texts: Seq<Seq<char>>)
    ensures
        texts_of(text_list(texts)) == Some(texts),
{
    let items = text_list(texts)->List_0;
    assert(forall|i: int| 0 <= i < items.len() ==> (#[trigger] items[i]) is Text);
    assert(Seq::new(items.len(), |i: int| items[i]->Text_0) =~= texts);
}

/// The row of a spec.
pub open spec fn spec_row(spec: CategorySpecView) -> SpecRowView {
    SpecRowView {
        key: spec.key,
        label: spec.label,
        kind: kind_name(spec.kind),
        unit: spec.unit,
        allowed_values: json_written(text_list(spec.allowed_values)),
        extraction_hint: spec.extraction_hint,
    }
}

/// The row of a spec; it reads back as the same spec.
pub fn spec_to_row(spec: &CategorySpec) -> (r: SpecRow)
    ensures
        r.deep_view() == spec_row(spec.deep_view()),
        spec_in_row(r.deep_view()) == Ok::<CategorySpecView, DbErrorView>(spec.deep_view()),
{
    proof {
        category_names_round_trip(spec.kind, CategoryOrigin::User, CategoryStatus::Active);
    }
    SpecRow {
        key: spec.key.clone(),
        label: spec.label.clone(),
        kind: kind_to_str(spec.kind).to_owned(),
        unit: spec.unit.clone(),
        allowed_values: write_text_column(&spec.allowed_values, "allowed_values"),
        extraction_hint: spec.extraction_hint.clone(),
    }
}

/// The rows of the specs of a category, in order; each reads back as its spec.
pub fn specs_to_rows(specs: &Vec<CategorySpec>) -> (r: Vec<SpecRow>)
    ensures
        r.deep_view() == Seq::new(specs@.len(), |i: int| spec_row(specs.deep_view()[i])),
        forall|i: int|
            0 <= i < specs@.len() ==> spec_in_row(#[trigger] r.deep_view()[i]) == Ok::<
                CategorySpecView,
                DbErrorView,
            >(specs.deep_view()[i]),
{
    let ghost all = Seq::new(specs@.len(), |i: int| spec_row(specs.deep_view()[i]));
    let mut out: Vec<SpecRow> = Vec::new();
    let mut i: usize = 0;
    assert(out.deep_view() =~= all.take(0));
    while i < specs.len()
        invariant
            i <= specs@.len(),
            all == Seq::new(specs@.len(), |i: int| spec_row(specs.deep_view()[i])),
            out.deep_view() == all.take(i as int),
            forall|j: int|
                0 <= j < i ==> spec_in_row(#[trigger] all[j]) == Ok::<
                    CategorySpecView,
                    DbErrorView,
                >(specs.deep_view()[j]),
        decreases specs@.len() - i,
    {
        let ghost before = out.deep_view();
        let row = spec_to_row(&specs[i]);
        out.push(row);
        assert(out.deep_view() =~= before.push(row.deep_view()));
        i = i + 1;
        assert(out.deep_view() =~= all.take(i as int));
    }
    assert(all.take(all.len() as int) =~= all);
    out
}

/// The row of a category that is stored at `now`, without its specs; none where the date
/// cannot be written. With the same specs it reads back as the category made at `now`, in
/// the years 0 to 9999.
pub fn category_to_row(category: &Category, now: Timestamp) -> (r: Option<CategoryRow>)
    ensures
        match rfc3339_written(now) {
            Some(created_at) => r.deep_view() == Some(
                CategoryRowView {
                    slug: category.deep_view().slug,
                    label: category.deep_view().label,
                    aliases: json_written(text_list(category.deep_view().aliases)),
                    origin: origin_name(category.deep_view().origin),
                    status: category_status_name(category.deep_view().status),
                    created_at,
                },
            ),
            None => r is None,
        },
        now.common() ==> r is Some && category_in_row(
            r.deep_view()->0,
            category.deep_view().specs,
        ) == Ok::<CategoryView, DbErrorView>(
            CategoryView { created_at: now, ..category.deep_view() },
        ),
{
    let created_at = match ts_text(now) {
        Some(t) => t,
        None => {
            return None;
        },
    };
    proof {
        category_names_round_trip(SpecKind::Number, category.origin, category.status);
    }
    Some(
        CategoryRow {
            slug: category.slug.clone(),
            label: category.label.clone(),
            aliases: write_text_column(&category.aliases, "aliases"),
            origin: origin_to_str(category.origin).to_owned(),
            status: category_status_to_str(category.status).to_owned(),
            created_at,
        },
    )
}

/// The seeds whose slug is not stored yet, nor among the earlier ones.
pub open spec fn missing_seeds(stored: Seq<Seq<char>>, seeds: Seq<CategoryView>) -> Seq<CategoryView>
    decreases seeds.len(),
{
    if seeds.len() == 0 {
        Seq::empty()
    } else {
        let before = missing_seeds(stored, seeds.drop_last());
        if stored.contains(seeds.last().slug) || has_slug(before, seeds.last().slug) {
            before
        } else {
            before.push(seeds.last())
        }
    }
}

/// Whether a category of `all` has `slug`.
pub open spec fn has_slug(all: Seq<CategoryView>, slug: Seq<char>) -> bool {
    exists|i: int| 0 <= i < all.len() && (#[trigger] all[i]).slug == slug
}

/// Whether a category of `all` has `slug`.
fn slug_among(all: &Vec<Category>, slug: &str) -> (r: bool)
    ensures
        r == has_slug(all.deep_view(), slug@),
{
    let mut i: usize = 0;
    while i < all.len()
        invariant
            i <= all@.len(),
            forall|j: int| 0 <= j < i ==> (#[trigger] all.deep_view()[j]).slug != slug@,
        decreases all@.len() - i,
    {
        if same(all[i].slug.as_str(), slug) {
            assert(all.deep_view()[i as int].slug == slug@);
            return true;
        }
        i = i + 1;
    }
    false
}

/// The seeds that are to be stored: those whose slug is not there yet, so that user edits
/// survive restarts.
pub fn seeds_to_store(stored: &Vec<String>, seeds: &Vec<Category>) -> (r: Vec<Category>)
    ensures
        r.deep_view() == missing_seeds(stored.deep_view(), seeds.deep_view()),
{
    let ghost all = seeds.deep_view();
    let mut out: Vec<Category> = Vec::new();
    let mut i: usize = 0;
    assert(out.deep_view() =~= Seq::empty());
    while i < seeds.len()
        invariant
            i <= seeds@.len(),
            all == seeds.deep_view(),
            out.deep_view() == missing_seeds(stored.deep_view(), all.take(i as int)),
        decreases seeds@.len() - i,
    {
        let ghost before = out.deep_view();
        assert(all.take(i + 1).drop_last() =~= all.take(i as int));
        assert(all.take(i + 1).last() == seeds@[i as int].deep_view());
        if !holds_text(stored, seeds[i].slug.as_str()) && !slug_among(&out, seeds[i].slug.as_str()) {
            out.push(seeds[i].clone());
            assert(out.deep_view() =~= before.push(all[i as int]));
        }
        i = i + 1;
    }
    assert(all.take(all.len() as int) =~= all);
    out
}

/// Seeding never stores a category over one that is there.
pub proof fn seeding_never_overwrites(stored: Seq<Seq<char>>, seeds: Seq<CategoryView>)
    ensures
        forall|i: int|
            0 <= i < missing_seeds(stored, seeds).len() ==> !stored.contains(
                (#[trigger] missing_seeds(stored, seeds)[i]).slug,
            ),
    decreases seeds.len(),
{
    if seeds.len() > 0 {
        seeding_never_overwrites(stored, seeds.drop_last());
    }
}

/// The stored names of categories, and what an unknown one stands for.
pub proof fn stored_category_names(s: Seq<char>)
    ensures
        kind_name(SpecKind::Number) == "number"@,
        kind_name(SpecKind::Enum) == "enum"@,
        kind_name(SpecKind::Boolean) == "boolean"@,
        kind_named(s) is Some <==> s == "number"@ || s == "enum"@ || s == "boolean"@,
        origin_name(CategoryOrigin::Curated) == "curated"@,
        origin_name(CategoryOrigin::Llm) == "llm"@,
        origin_name(CategoryOrigin::User) == "user"@,
        s != "curated"@ && s != "user"@ ==> origin_named(s) == CategoryOrigin::Llm,
        category_status_name(CategoryStatus::Active) == "active"@,
        category_status_name(CategoryStatus::Proposed) == "proposed"@,
        s != "proposed"@ ==> category_status_named(s) == CategoryStatus::Active,
{
}

/// Each column of a spec's row holds the part of the spec of its name, and a row that can
/// be read gives it back.
pub proof fn spec_columns(spec: CategorySpecView, row: SpecRowView)
    ensures
        spec_row(spec).key == spec.key,
        spec_row(spec).label == spec.label,
        spec_row(spec).kind == kind_name(spec.kind),
        spec_row(spec).unit == spec.unit,
        spec_row(spec).allowed_values == json_written(text_list(spec.allowed_values)),
        spec_row(spec).extraction_hint == spec.extraction_hint,
        spec_in_row(row) is Ok <==> kind_named(row.kind) is Some && texts_read(row.allowed_values)
            is Ok,
        spec_in_row(row) matches Ok(read) ==> {
            &&& read.key == row.key
            &&& read.label == row.label
            &&& kind_named(row.kind) == Some(read.kind)
            &&& read.unit == row.unit
            &&& texts_read(row.allowed_values) == Ok::<Seq<Seq<char>>, Seq<char>>(
                read.allowed_values,
            )
            &&& read.extraction_hint == row.extraction_hint
        },
{
}

/// A category is made of the columns of its row and of its specs.
pub proof fn categories_are_read_by_column(row: CategoryRowView, specs: Seq<CategorySpecView>)
    ensures
        category_in_row(row, specs) is Ok <==> texts_read(row.aliases) is Ok && ts_read(
            row.created_at,
        ) is Ok,
        category_in_row(row, specs) matches Ok(c) ==> {
            &&& c.slug == row.slug
            &&& c.label == row.label
            &&& texts_read(row.aliases) == Ok::<Seq<Seq<char>>, Seq<char>>(c.aliases)
            &&& c.origin == origin_named(row.origin)
            &&& c.status == category_status_named(row.status)
            &&& c.specs == specs
            &&& ts_read(row.created_at) == Ok::<Timestamp, DbErrorView>(c.created_at)
        },
{
}

/// Every seed whose slug is new is stored: it comes behind the others exactly where its
/// slug is neither stored nor theirs.
pub proof fn missing_seeds_are_stored(
    stored: Seq<Seq<char>>,
    seeds: Seq<CategoryView>,
    seed: CategoryView,
)
    ensures
        missing_seeds(stored, Seq::empty()).len() == 0,
        missing_seeds(stored, seeds.push(seed)) == if stored.contains(seed.slug) || exists|i: int|
            0 <= i < missing_seeds(stored, seeds).len() && (#[trigger] missing_seeds(
                stored,
                seeds,
            )[i]).slug == seed.slug {
            missing_seeds(stored, seeds)
        } else {
            missing_seeds(stored, seeds).push(seed)
        },
{
    assert(seeds.push(seed).drop_last() =~= seeds);
}

/// After seeding no seed is missing: its slug is stored, or that of a seed that was added.
pub proof fn no_seed_stays_missing(stored: Seq<Seq<char>>, seeds: Seq<CategoryView>, i: int)
    requires
        0 <= i < seeds.len(),
    ensures
        stored.contains(seeds[i].slug) || has_slug(missing_seeds(stored, seeds), seeds[i].slug),
    decreases seeds.len(),
{
    let rest = seeds.drop_last();
    let before = missing_seeds(stored, rest);
    let all = missing_seeds(stored, seeds);
    if i < rest.len() {
        assert(rest[i] == seeds[i]);
        no_seed_stays_missing(stored, rest, i);
        if has_slug(before, seeds[i].slug) {
            let k = choose|k: int| 0 <= k < before.len() && (#[trigger] before[k]).slug
                == seeds[i].slug;
            assert(all[k].slug == seeds[i].slug);
        }
    } else if !stored.contains(seeds[i].slug) && !has_slug(before, seeds[i].slug) {
        assert(all[before.len() as int].slug == seeds[i].slug);
    }
}

} // verus!
