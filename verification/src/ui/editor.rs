//! Category management: the editor of a category's aliases and spec table, the review of
//! drafted categories, and the texts of the list.

use vstd::prelude::*;
use crate::category::{
    listable, listed_words, shown_words_read_back, split_list, Category, CategoryOrigin,
    CategorySpec, CategorySpecView, CategoryStatus, CategoryView, SpecKind,
};
use crate::text::{
    join, joined, lowercased, nat_text, push_text, replace, same, trim, trim_or_none, trimmed,
    trimmed_or_none, u64_text, with_replaced,
};
use crate::time::Timestamp;

verus! {

/// One editable spec line.
#[derive(Debug, PartialEq)]
pub struct SpecRow {
    pub id: u32,
    pub key: String,
    pub label: String,
    /// "number", "enum" or "boolean".
    pub kind: String,
    pub unit: String,
    pub values: String,
    pub hint: String,
}

/// What `SpecRow` holds.
#[verifier::ext_equal]
pub struct SpecRowView {
    pub id: u32,
    pub key: Seq<char>,
    pub label: Seq<char>,
    pub kind: Seq<char>,
    pub unit: Seq<char>,
    pub values: Seq<char>,
    pub hint: Seq<char>,
}

impl DeepView for SpecRow {
    type V = SpecRowView;

    open spec fn deep_view(&self) -> SpecRowView {
        SpecRowView {
            id: self.id,
            key: self.key@,
            label: self.label@,
            kind: self.kind@,
            unit: self.unit@,
            values: self.values@,
            hint: self.hint@,
        }
    }
}

impl Clone for SpecRow {
    fn clone(&self) -> (r: Self)
        ensures
            r.deep_view() == self.deep_view(),
    {
        SpecRow {
            id: self.id,
            key: self.key.clone(),
            label: self.label.clone(),
            kind: self.kind.clone(),
            unit: self.unit.clone(),
            values: self.values.clone(),
            hint: self.hint.clone(),
        }
    }
}

/// A text, or nothing.
pub open spec fn or_empty(t: Option<Seq<char>>) -> Seq<char> {
    match t {
        Some(s) => s,
        None => Seq::empty(),
    }
}

/// A kind as the editor names it.
pub open spec fn kind_option(kind: SpecKind) -> Seq<char> {
    match kind {
        SpecKind::Enum => "enum"@,
        SpecKind::Boolean => "boolean"@,
        SpecKind::Number => "number"@,
    }
}

/// The kind that the editor's name stands for; anything else is a number.
pub open spec fn option_kind(name: Seq<char>) -> SpecKind {
    if name == "enum"@ {
        SpecKind::Enum
    } else if name == "boolean"@ {
        SpecKind::Boolean
    } else {
        SpecKind::Number
    }
}

/// The line that shows a spec.
pub open spec fn row_shown(id: u32, spec: CategorySpecView) -> SpecRowView {
    SpecRowView {
        id,
        key: spec.key,
        label: spec.label,
        kind: kind_option(spec.kind),
        unit: or_empty(spec.unit),
        values: joined(spec.allowed_values, ", "@),
        hint: or_empty(spec.extraction_hint),
    }
}

/// An empty line.
pub open spec fn row_blank(id: u32) -> SpecRowView {
    SpecRowView {
        id,
        key: Seq::empty(),
        label: Seq::empty(),
        kind: "number"@,
        unit: Seq::empty(),
        values: Seq::empty(),
        hint: Seq::empty(),
    }
}

/// The spec that a line describes; none where it has no key.
pub open spec fn row_spec(row: SpecRowView) -> Option<CategorySpecView> {
    let key = lowercased(trimmed(row.key));
    if key.len() == 0 {
        None
    } else {
        Some(
            CategorySpecView {
                key,
                label: if trimmed(row.label).len() == 0 {
                    key
                } else {
                    trimmed(row.label)
                },
                kind: option_kind(row.kind),
                unit: trimmed_or_none(row.unit),
                allowed_values: listed_words(row.values),
                extraction_hint: trimmed_or_none(row.hint),
            },
        )
    }
}

/// The specs that the lines describe.
pub open spec fn row_specs(rows: Seq<SpecRowView>) -> Seq<CategorySpecView>
    decreases rows.len(),
{
    if rows.len() == 0 {
        Seq::empty()
    } else {
        let before = row_specs(rows.drop_last());
        match row_spec(rows.last()) {
            Some(spec) => before.push(spec),
            None => before,
        }
    }
}

fn text_or_empty(t: &Option<String>) -> (r: String)
    ensures
        r@ == or_empty(t.deep_view()),
{
    match t {
        Some(s) => s.clone(),
        None => String::new(),
    }
}

impl SpecRow {
    /// The line that shows a spec, or an empty one.
    pub fn new(id: u32, spec: Option<&CategorySpec>) -> (r: SpecRow)
        ensures
            r.deep_view() == match spec {
                Some(s) => row_shown(id, s.deep_view()),
                None => row_blank(id),
            },
    {
        match spec {
            Some(s) => SpecRow {
                id,
                key: s.key.clone(),
                label: s.label.clone(),
                kind: match s.kind {
                    SpecKind::Enum => "enum".to_owned(),
                    SpecKind::Boolean => "boolean".to_owned(),
                    SpecKind::Number => "number".to_owned(),
                },
                unit: text_or_empty(&s.unit),
                values: join(&s.allowed_values, ", "),
                hint: text_or_empty(&s.extraction_hint),
            },
            None => SpecRow {
                id,
                key: String::new(),
                label: String::new(),
                kind: "number".to_owned(),
                unit: String::new(),
                values: String::new(),
                hint: String::new(),
            },
        }
    }

    /// The spec that the line describes; none where it has no key.
    pub fn to_spec(&self) -> (r: Option<CategorySpec>)
        ensures
            r.deep_view() == row_spec(self.deep_view()),
    {
        let key = trim(self.key.as_str()).as_str().to_lowercase();
        if key.as_str().is_empty() {
            return None;
        }
        let label = trim(self.label.as_str());
        let label = if label.as_str().is_empty() {
            key.clone()
        } else {
            label
        };
        let kind = if same(self.kind.as_str(), "enum") {
            SpecKind::Enum
        } else if same(self.kind.as_str(), "boolean") {
            SpecKind::Boolean
        } else {
            SpecKind::Number
        };
        Some(
            CategorySpec {
                key,
                label,
                kind,
                unit: trim_or_none(self.unit.as_str()),
                allowed_values: split_list(self.values.as_str()),
                extraction_hint: trim_or_none(self.hint.as_str()),
            },
        )
    }
}

/// The open editor: the head fields, the spec lines, and the category that it edits.
#[derive(Debug, PartialEq)]
pub struct Editor {
    pub original: Option<Category>,
    pub slug: String,
    pub label: String,
    pub aliases: String,
    pub rows: Vec<SpecRow>,
    pub next_id: u32,
}

/// What `Editor` holds.
#[verifier::ext_equal]
pub struct EditorView {
    pub original: Option<CategoryView>,
    pub slug: Seq<char>,
    pub label: Seq<char>,
    pub aliases: Seq<char>,
    pub rows: Seq<SpecRowView>,
    pub next_id: u32,
}

impl DeepView for Editor {
    type V = EditorView;

    open spec fn deep_view(&self) -> EditorView {
        EditorView {
            original: self.original.deep_view(),
            slug: self.slug@,
            label: self.label@,
            aliases: self.aliases@,
            rows: self.rows.deep_view(),
            next_id: self.next_id,
        }
    }
}

impl EditorView {
    /// Every line has an id of its own, which no line to come will take.
    pub open spec fn wf(self) -> bool {
        &&& forall|i: int|
            0 <= i < self.rows.len() ==> (#[trigger] self.rows[i]).id < self.next_id
        &&& forall|i: int, j: int|
            0 <= i < j < self.rows.len() ==> (#[trigger] self.rows[i]).id != (
            #[trigger] self.rows[j]).id
    }
}

/// The lines that show specs, numbered from `base`.
pub open spec fn rows_shown(base: nat, specs: Seq<CategorySpecView>) -> Seq<SpecRowView> {
    Seq::new(specs.len(), |i: int| row_shown((base + i) as u32, specs[i]))
}

/// The editor that shows a category.
pub open spec fn opened(category: CategoryView) -> EditorView {
    EditorView {
        original: Some(category),
        slug: category.slug,
        label: category.label,
        aliases: joined(category.aliases, ", "@),
        rows: rows_shown(0, category.specs),
        next_id: category.specs.len() as u32,
    }
}

/// The editor of a new category.
pub open spec fn opened_blank() -> EditorView {
    EditorView {
        original: None,
        slug: Seq::empty(),
        label: Seq::empty(),
        aliases: Seq::empty(),
        rows: Seq::empty(),
        next_id: 0,
    }
}

/// The slug that the editor's field stands for.
pub open spec fn slug_of(field: Seq<char>) -> Seq<char> {
    with_replaced(lowercased(trimmed(field)), ' ', "-"@)
}

/// The category that the editor describes; a new one is the user's own and active, made
/// at `now`.
pub open spec fn described(editor: EditorView, now: Timestamp) -> Result<CategoryView, Seq<char>> {
    let slug = slug_of(editor.slug);
    if slug.len() == 0 {
        Err("the category needs a slug"@)
    } else {
        Ok(
            CategoryView {
                slug,
                label: if trimmed(editor.label).len() == 0 {
                    slug
                } else {
                    trimmed(editor.label)
                },
                aliases: listed_words(editor.aliases),
                origin: match editor.original {
                    Some(c) => c.origin,
                    None => CategoryOrigin::User,
                },
                status: match editor.original {
                    Some(c) => c.status,
                    None => CategoryStatus::Active,
                },
                specs: row_specs(editor.rows),
                created_at: match editor.original {
                    Some(c) => c.created_at,
                    None => now,
                },
            },
        )
    }
}

/// What the editor's answer holds.
pub open spec fn described_view(r: Result<Category, String>) -> Result<CategoryView, Seq<char>> {
    match r {
        Ok(c) => Ok(c.deep_view()),
        Err(e) => Err(e@),
    }
}

/// The lines without the one with an id.
pub open spec fn without_row(rows: Seq<SpecRowView>, id: u32) -> Seq<SpecRowView>
    decreases rows.len(),
{
    if rows.len() == 0 {
        Seq::empty()
    } else {
        let before = without_row(rows.drop_last(), id);
        if rows.last().id == id {
            before
        } else {
            before.push(rows.last())
        }
    }
}

fn show_rows(base: u32, specs: &Vec<CategorySpec>) -> (r: Vec<SpecRow>)
    requires
        base + specs@.len() <= u32::MAX,
    ensures
        r.deep_view() == rows_shown(base as nat, specs.deep_view()),
{
    let ghost all = rows_shown(base as nat, specs.deep_view());
    let mut out: Vec<SpecRow> = Vec::new();
    let mut i: usize = 0;
    assert(out.deep_view() =~= all.take(0));
    while i < specs.len()
        invariant
            i <= specs@.len(),
            base + specs@.len() <= u32::MAX,
            all == rows_shown(base as nat, specs.deep_view()),
            out.deep_view() == all.take(i as int),
        decreases specs@.len() - i,
    {
        let ghost before = out.deep_view();
        let row = SpecRow::new(base + i as u32, Some(&specs[i]));
        out.push(row);
        assert(out.deep_view() =~= before.push(row.deep_view()));
        i = i + 1;
        assert(out.deep_view() =~= all.take(i as int));
    }
    assert(all.take(all.len() as int) =~= all);
    out
}

fn specs_of_rows(rows: &Vec<SpecRow>) -> (r: Vec<CategorySpec>)
    ensures
        r.deep_view() == row_specs(rows.deep_view()),
{
    let ghost all = rows.deep_view();
    let mut out: Vec<CategorySpec> = Vec::new();
    let mut i: usize = 0;
    assert(out.deep_view() =~= Seq::empty());
    while i < rows.len()
        invariant
            i <= rows@.len(),
            all == rows.deep_view(),
            out.deep_view() == row_specs(all.take(i as int)),
        decreases rows@.len() - i,
    {
        let ghost before = out.deep_view();
        assert(all.take(i + 1).drop_last() =~= all.take(i as int));
        assert(all.take(i + 1).last() == rows@[i as int].deep_view());
        if let Some(spec) = rows[i].to_spec() {
            out.push(spec);
            assert(out.deep_view() =~= before.push(spec.deep_view()));
        }
        i = i + 1;
    }
    assert(all.take(all.len() as int) =~= all);
    out
}

impl Editor {
    /// The editor of a category, or of a new one.
    pub fn open(category: Option<Category>) -> (r: Editor)
        requires
            category matches Some(c) ==> c.specs@.len() <= u32::MAX,
        ensures
            r.deep_view() == match category {
                Some(c) => opened(c.deep_view()),
                None => opened_blank(),
            },
            r.deep_view().wf(),
    {
        match category {
            Some(c) => {
                let rows = show_rows(0, &c.specs);
                assert(rows.deep_view().len() == rows@.len());
                Editor {
                    slug: c.slug.clone(),
                    label: c.label.clone(),
                    aliases: join(&c.aliases, ", "),
                    next_id: rows.len() as u32,
                    rows,
                    original: Some(c),
                }
            },
            None => {
                let rows: Vec<SpecRow> = Vec::new();
                assert(rows.deep_view() =~= Seq::empty());
                Editor {
                    original: None,
                    slug: String::new(),
                    label: String::new(),
                    aliases: String::new(),
                    rows,
                    next_id: 0,
                }
            },
        }
    }

    /// The editor with a reworked category loaded; the slug stays what it was.
    pub fn load_revision(self, category: &Category) -> (r: Editor)
        requires
            self.deep_view().next_id + category.deep_view().specs.len() <= u32::MAX,
        ensures
            r.deep_view() == (EditorView {
                label: category.deep_view().label,
                aliases: joined(category.deep_view().aliases, ", "@),
                rows: rows_shown(self.deep_view().next_id as nat, category.deep_view().specs),
                next_id: (self.deep_view().next_id + category.deep_view().specs.len()) as u32,
                ..self.deep_view()
            }),
            r.deep_view().wf(),
    {
        assert(category.specs.deep_view().len() == category.specs@.len());
        let mut e = self;
        e.label = category.label.clone();
        e.aliases = join(&category.aliases, ", ");
        e.rows = show_rows(e.next_id, &category.specs);
        e.next_id = e.next_id + category.specs.len() as u32;
        e
    }

    /// The editor with an empty line more.
    pub fn add_row(self) -> (r: Editor)
        requires
            self.deep_view().next_id < u32::MAX,
        ensures
            r.deep_view() == (EditorView {
                rows: self.deep_view().rows.push(row_blank(self.deep_view().next_id)),
                next_id: (self.deep_view().next_id + 1) as u32,
                ..self.deep_view()
            }),
            self.deep_view().wf() ==> r.deep_view().wf(),
    {
        let ghost before = self.deep_view();
        let mut e = self;
        let row = SpecRow::new(e.next_id, None);
        e.rows.push(row);
        assert(e.rows.deep_view() =~= before.rows.push(row.deep_view()));
        e.next_id = e.next_id + 1;
        e
    }

    /// The editor without the line with an id.
    pub fn remove_row(self, id: u32) -> (r: Editor)
        ensures
            r.deep_view() == (EditorView {
                rows: without_row(self.deep_view().rows, id),
                ..self.deep_view()
            }),
            self.deep_view().wf() ==> r.deep_view().wf(),
    {
        let ghost all = self.rows.deep_view();
        let mut rows: Vec<SpecRow> = Vec::new();
        let mut i: usize = 0;
        assert(rows.deep_view() =~= Seq::empty());
        while i < self.rows.len()
            invariant
                i <= self.rows@.len(),
                all == self.rows.deep_view(),
                rows.deep_view() == without_row(all.take(i as int), id),
            decreases self.rows@.len() - i,
        {
            let ghost before = rows.deep_view();
            assert(all.take(i + 1).drop_last() =~= all.take(i as int));
            assert(all.take(i + 1).last() == self.rows@[i as int].deep_view());
            if self.rows[i].id != id {
                let row = self.rows[i].clone();
                rows.push(row);
                assert(rows.deep_view() =~= before.push(row.deep_view()));
            }
            i = i + 1;
        }
        assert(all.take(all.len() as int) =~= all);
        proof {
            removing_keeps_ids(all, id, self.next_id);
        }
        let mut e = self;
        e.rows = rows;
        e
    }

    /// The category that the editor describes.
    pub fn to_category(&self, now: Timestamp) -> (r: Result<Category, String>)
        ensures
            described_view(r) == described(self.deep_view(), now),
    {
        let slug = replace(trim(self.slug.as_str()).as_str().to_lowercase().as_str(), ' ', "-");
        if slug.as_str().is_empty() {
            return Err("the category needs a slug".to_owned());
        }
        let label = trim(self.label.as_str());
        let label = if label.as_str().is_empty() {
            slug.clone()
        } else {
            label
        };
        let (origin, status, created_at) = match &self.original {
            Some(c) => (c.origin, c.status, c.created_at),
            None => (CategoryOrigin::User, CategoryStatus::Active, now),
        };
        Ok(
            Category {
                slug,
                label,
                aliases: split_list(self.aliases.as_str()),
                origin,
                status,
                specs: specs_of_rows(&self.rows),
                created_at,
            },
        )
    }
}

proof fn removing_keeps_ids(rows: Seq<SpecRowView>, id: u32, next_id: u32)
    ensures
        forall|i: int|
            0 <= i < without_row(rows, id).len() ==> rows.contains(
                #[trigger] without_row(rows, id)[i],
            ),
        (forall|i: int| 0 <= i < rows.len() ==> (#[trigger] rows[i]).id < next_id) ==> forall|
            i: int,
        |
            0 <= i < without_row(rows, id).len() ==> (#[trigger] without_row(rows, id)[i]).id
                < next_id,
        (forall|i: int, j: int|
            0 <= i < j < rows.len() ==> (#[trigger] rows[i]).id != (#[trigger] rows[j]).id)
            ==> forall|i: int, j: int|
            0 <= i < j < without_row(rows, id).len() ==> (#[trigger] without_row(rows, id)[i]).id
                != (#[trigger] without_row(rows, id)[j]).id,
    decreases rows.len(),
{
    if rows.len() > 0 {
        let rest = rows.drop_last();
        removing_keeps_ids(rest, id, next_id);
        let before = without_row(rest, id);
        let after = without_row(rows, id);
        let n = rows.len() - 1;
        assert(forall|i: int| 0 <= i < rest.len() ==> #[trigger] rest[i] == rows[i]);
        assert forall|i: int| 0 <= i < after.len() implies rows.contains(#[trigger] after[i]) by {
            if i < before.len() {
                assert(after[i] == before[i]);
                assert(rest.contains(before[i]));
                let k = choose|k: int| 0 <= k < rest.len() && rest[k] == before[i];
                assert(rows[k] == after[i]);
            } else {
                assert(rows[n] == after[i]);
            }
        }
        if forall|i: int| 0 <= i < rows.len() ==> (#[trigger] rows[i]).id < next_id {
            assert forall|i: int| 0 <= i < after.len() implies (#[trigger] after[i]).id
                < next_id by {
                let k = choose|k: int| 0 <= k < rows.len() && rows[k] == after[i];
                assert(rows[k].id < next_id);
            }
        }
        if forall|i: int, j: int|
            0 <= i < j < rows.len() ==> (#[trigger] rows[i]).id != (#[trigger] rows[j]).id {
            assert(forall|i: int, j: int|
                0 <= i < j < rest.len() ==> (#[trigger] rest[i]).id != (#[trigger] rest[j]).id);
            assert forall|i: int, j: int| 0 <= i < j < after.len() implies (#[trigger] after[i]).id
                != (#[trigger] after[j]).id by {
                assert(after[i] == before[i]);
                if j < before.len() {
                    assert(after[j] == before[j]);
                } else {
                    assert(rest.contains(before[i]));
                    let k = choose|k: int| 0 <= k < rest.len() && rest[k] == before[i];
                    assert(rows[k].id != rows[n].id);
                }
            }
        }
    }
}

// ---- shared specs ----

/// The spec with the key and the kind of another, if there is one.
pub open spec fn counterpart(specs: Seq<CategorySpecView>, like: CategorySpecView) -> Option<
    CategorySpecView,
>
    decreases specs.len(),
{
    if specs.len() == 0 {
        None
    } else if specs[0].key == like.key && specs[0].kind == like.kind {
        Some(specs[0])
    } else {
        counterpart(specs.drop_first(), like)
    }
}

/// A spec with the label, the unit and the hint of its counterpart; the values stay its
/// own.
pub open spec fn mirrored(spec: CategorySpecView, saved: Seq<CategorySpecView>) -> CategorySpecView {
    match counterpart(saved, spec) {
        Some(edited) => CategorySpecView {
            label: edited.label,
            unit: edited.unit,
            extraction_hint: edited.extraction_hint,
            ..spec
        },
        None => spec,
    }
}

/// A category whose specs mirror those of a saved one.
pub open spec fn category_mirrored(other: CategoryView, saved: CategoryView) -> CategoryView {
    CategoryView {
        specs: Seq::new(other.specs.len(), |i: int| mirrored(other.specs[i], saved.specs)),
        ..other
    }
}

/// The categories to store again after a save: each other one that changes when it
/// mirrors the saved one.
pub open spec fn to_resave(all: Seq<CategoryView>, saved: CategoryView) -> Seq<CategoryView>
    decreases all.len(),
{
    if all.len() == 0 {
        Seq::empty()
    } else {
        let before = to_resave(all.drop_last(), saved);
        let other = all.last();
        if other.slug != saved.slug && category_mirrored(other, saved) != other {
            before.push(category_mirrored(other, saved))
        } else {
            before
        }
    }
}

fn same_option(a: &Option<String>, b: &Option<String>) -> (r: bool)
    ensures
        r == (a.deep_view() == b.deep_view()),
{
    match (a, b) {
        (Some(x), Some(y)) => same(x.as_str(), y.as_str()),
        (None, None) => true,
        _ => false,
    }
}

fn find_counterpart<'a>(specs: &'a Vec<CategorySpec>, like: &CategorySpec) -> (r: Option<
    &'a CategorySpec,
>)
    ensures
        match r {
            Some(s) => counterpart(specs.deep_view(), like.deep_view()) == Some(s.deep_view()),
            None => counterpart(specs.deep_view(), like.deep_view()) is None,
        },
{
    let ghost all = specs.deep_view();
    let mut i: usize = 0;
    assert(all.skip(0) =~= all);
    while i < specs.len()
        invariant
            i <= specs@.len(),
            all == specs.deep_view(),
            counterpart(all, like.deep_view()) == counterpart(all.skip(i as int), like.deep_view()),
        decreases specs@.len() - i,
    {
        assert(all.skip(i as int)[0] == specs@[i as int].deep_view());
        assert(all.skip(i as int).drop_first() =~= all.skip(i + 1));
        if same(specs[i].key.as_str(), like.key.as_str()) && specs[i].kind == like.kind {
            return Some(&specs[i]);
        }
        i = i + 1;
    }
    None
}

/// A category whose specs mirror those of a saved one, and whether anything changed.
fn mirror(other: &Category, saved: &Category) -> (r: (Category, bool))
    ensures
        r.0.deep_view() == category_mirrored(other.deep_view(), saved.deep_view()),
        r.1 == (r.0.deep_view() != other.deep_view()),
{
    let ghost all = category_mirrored(other.deep_view(), saved.deep_view()).specs;
    let ghost old_specs = other.specs.deep_view();
    let mut specs: Vec<CategorySpec> = Vec::new();
    let mut changed = false;
    let mut i: usize = 0;
    assert(specs.deep_view() =~= all.take(0));
    while i < other.specs.len()
        invariant
            i <= other.specs@.len(),
            old_specs == other.specs.deep_view(),
            all == category_mirrored(other.deep_view(), saved.deep_view()).specs,
            specs.deep_view() == all.take(i as int),
            changed <==> exists|j: int| 0 <= j < i && #[trigger] all[j] != old_specs[j],
        decreases other.specs@.len() - i,
    {
        let ghost before = specs.deep_view();
        let ghost was = changed;
        let mut spec = other.specs[i].clone();
        assert(old_specs[i as int] == other.specs@[i as int].deep_view());
        if let Some(edited) = find_counterpart(&saved.specs, &other.specs[i]) {
            if !same(spec.label.as_str(), edited.label.as_str()) || !same_option(
                &spec.unit,
                &edited.unit,
            ) || !same_option(&spec.extraction_hint, &edited.extraction_hint) {
                changed = true;
            }
            spec.label = edited.label.clone();
            spec.unit = edited.unit.clone();
            spec.extraction_hint = edited.extraction_hint.clone();
        }
        assert(all[i as int] == mirrored(old_specs[i as int], saved.specs.deep_view()));
        assert(spec.deep_view() == all[i as int]);
        specs.push(spec);
        assert(specs.deep_view() =~= before.push(spec.deep_view()));
        assert(changed <==> was || all[i as int] != old_specs[i as int]);
        i = i + 1;
        assert(specs.deep_view() =~= all.take(i as int));
        assert(changed <==> exists|j: int| 0 <= j < i && #[trigger] all[j] != old_specs[j]) by {
            if changed && !was {
                assert(all[i - 1] != old_specs[i - 1]);
            }
        }
    }
    assert(all.take(all.len() as int) =~= all);
    let mut r = other.clone();
    r.specs = specs;
    proof {
        if !changed {
            assert(all =~= old_specs);
        }
    }
    (r, changed)
}

/// The categories to store again after a save: one "capacity" lives in several of them,
/// and a rename in one is a rename in all.
pub fn sync_shared_specs(all: &Vec<Category>, saved: &Category) -> (r: Vec<Category>)
    ensures
        r.deep_view() == to_resave(all.deep_view(), saved.deep_view()),
{
    let ghost others = all.deep_view();
    let mut out: Vec<Category> = Vec::new();
    let mut i: usize = 0;
    assert(out.deep_view() =~= Seq::empty());
    while i < all.len()
        invariant
            i <= all@.len(),
            others == all.deep_view(),
            out.deep_view() == to_resave(others.take(i as int), saved.deep_view()),
        decreases all@.len() - i,
    {
        let ghost before = out.deep_view();
        assert(others.take(i + 1).drop_last() =~= others.take(i as int));
        assert(others.take(i + 1).last() == all@[i as int].deep_view());
        if !same(all[i].slug.as_str(), saved.slug.as_str()) {
            let (category, changed) = mirror(&all[i], saved);
            if changed {
                out.push(category);
                assert(out.deep_view() =~= before.push(category.deep_view()));
            }
        }
        i = i + 1;
    }
    assert(others.take(others.len() as int) =~= others);
    out
}

// ---- texts ----

/// What a line says of a spec: its unit, its values (or how many), or yes/no.
pub open spec fn spec_detail(spec: CategorySpecView, listed: bool) -> Seq<char> {
    match spec.kind {
        SpecKind::Number => match spec.unit {
            Some(unit) => unit,
            None => "number"@,
        },
        SpecKind::Enum => if listed {
            joined(spec.allowed_values, "/"@)
        } else {
            nat_text(spec.allowed_values.len()) + " values"@
        },
        SpecKind::Boolean => "yes/no"@,
    }
}

/// A spec as a line names it.
pub open spec fn spec_named(spec: CategorySpecView, listed: bool) -> Seq<char> {
    spec.label + " ("@ + spec_detail(spec, listed) + ")"@
}

/// The specs of a category as a line names them.
pub open spec fn specs_named(specs: Seq<CategorySpecView>, listed: bool) -> Seq<Seq<char>> {
    Seq::new(specs.len(), |i: int| spec_named(specs[i], listed))
}

/// What stands for an empty list.
pub open spec fn or_dash(line: Seq<char>, empty: bool) -> Seq<char> {
    if empty {
        "—"@
    } else {
        line
    }
}

/// What the list says of a category.
pub open spec fn category_line(category: CategoryView) -> Seq<char> {
    "aliases: "@ + or_dash(joined(category.aliases, ", "@), category.aliases.len() == 0)
        + " · filters: "@ + or_dash(
        joined(specs_named(category.specs, false), " · "@),
        category.specs.len() == 0,
    )
}

fn name_spec(spec: &CategorySpec, listed: bool) -> (r: String)
    ensures
        r@ == spec_named(spec.deep_view(), listed),
{
    let mut line = spec.label.clone();
    line.append(" (");
    match spec.kind {
        SpecKind::Number => match &spec.unit {
            Some(unit) => {
                line.append(unit.as_str());
            },
            None => {
                line.append("number");
            },
        },
        SpecKind::Enum => {
            if listed {
                line.append(join(&spec.allowed_values, "/").as_str());
            } else {
                assert(spec.allowed_values.deep_view().len() == spec.allowed_values@.len());
                let mut count = u64_text(spec.allowed_values.len() as u64);
                count.append(" values");
                line.append(count.as_str());
            }
        },
        SpecKind::Boolean => {
            line.append("yes/no");
        },
    }
    line.append(")");
    line
}

fn name_specs(specs: &Vec<CategorySpec>, listed: bool) -> (r: Vec<String>)
    ensures
        r.deep_view() == specs_named(specs.deep_view(), listed),
{
    let ghost all = specs_named(specs.deep_view(), listed);
    let mut out: Vec<String> = Vec::new();
    let mut i: usize = 0;
    assert(out.deep_view() =~= all.take(0));
    while i < specs.len()
        invariant
            i <= specs@.len(),
            all == specs_named(specs.deep_view(), listed),
            out.deep_view() == all.take(i as int),
        decreases specs@.len() - i,
    {
        push_text(&mut out, name_spec(&specs[i], listed).as_str());
        i = i + 1;
        assert(out.deep_view() =~= all.take(i as int));
    }
    assert(all.take(all.len() as int) =~= all);
    out
}

/// What the list says of a category.
pub fn category_summary(category: &Category) -> (r: String)
    ensures
        r@ == category_line(category.deep_view()),
{
    assert(category.aliases.deep_view().len() == category.aliases@.len());
    assert(category.specs.deep_view().len() == category.specs@.len());
    let mut line = "aliases: ".to_owned();
    if category.aliases.len() == 0 {
        line.append("—");
    } else {
        line.append(join(&category.aliases, ", ").as_str());
    }
    line.append(" · filters: ");
    if category.specs.len() == 0 {
        line.append("—");
    } else {
        line.append(join(&name_specs(&category.specs, false), " · ").as_str());
    }
    line
}

/// What the review card says of a draft: its aliases, and its filters.
pub fn proposal_lines(proposal: &Category) -> (r: (String, String))
    ensures
        r.0@ == "aliases: "@ + joined(proposal.deep_view().aliases, ", "@),
        r.1@ == "filters: "@ + joined(specs_named(proposal.deep_view().specs, true), " · "@),
{
    let mut aliases = "aliases: ".to_owned();
    aliases.append(join(&proposal.aliases, ", ").as_str());
    let mut filters = "filters: ".to_owned();
    filters.append(join(&name_specs(&proposal.specs, true), " · ").as_str());
    (aliases, filters)
}

/// A category once it is approved.
pub fn approve(category: &Category) -> (r: Category)
    ensures
        r.deep_view() == (CategoryView {
            status: CategoryStatus::Active,
            ..category.deep_view()
        }),
{
    let mut c = category.clone();
    c.status = CategoryStatus::Active;
    c
}

// ---- laws ----

/// A text that is none or trimmed and not empty.
pub open spec fn tidy_option(t: Option<Seq<char>>) -> bool {
    t matches Some(s) ==> s.len() > 0 && trimmed(s) == s
}

/// A spec as the editor saves it.
pub open spec fn tidy_spec(spec: CategorySpecView) -> bool {
    &&& spec.key.len() > 0
    &&& lowercased(trimmed(spec.key)) == spec.key
    &&& spec.label.len() > 0
    &&& trimmed(spec.label) == spec.label
    &&& tidy_option(spec.unit)
    &&& tidy_option(spec.extraction_hint)
    &&& forall|i: int|
        0 <= i < spec.allowed_values.len() ==> listable(#[trigger] spec.allowed_values[i])
}

/// A category as the editor saves it.
pub open spec fn tidy(category: CategoryView) -> bool {
    &&& category.slug.len() > 0
    &&& slug_of(category.slug) == category.slug
    &&& category.label.len() > 0
    &&& trimmed(category.label) == category.label
    &&& forall|i: int|
        0 <= i < category.aliases.len() ==> listable(#[trigger] category.aliases[i])
    &&& forall|i: int| 0 <= i < category.specs.len() ==> tidy_spec(#[trigger] category.specs[i])
}

proof fn shown_row_reads_back(id: u32, spec: CategorySpecView)
    requires
        tidy_spec(spec),
    ensures
        row_spec(row_shown(id, spec)) == Some(spec),
{
    reveal_strlit("enum");
    reveal_strlit("boolean");
    reveal_strlit("number");
    assert("enum"@.len() == 4 && "boolean"@.len() == 7 && "number"@.len() == 6);
    shown_words_read_back(spec.allowed_values);
    assert(trimmed(Seq::<char>::empty()) =~= Seq::empty());
    assert(row_spec(row_shown(id, spec)) =~= Some(spec));
}

proof fn shown_rows_read_back(base: nat, specs: Seq<CategorySpecView>)
    requires
        forall|i: int| 0 <= i < specs.len() ==> tidy_spec(#[trigger] specs[i]),
    ensures
        row_specs(rows_shown(base, specs)) == specs,
    decreases specs.len(),
{
    let rows = rows_shown(base, specs);
    if specs.len() > 0 {
        let rest = specs.drop_last();
        assert(forall|i: int| 0 <= i < rest.len() ==> rest[i] == specs[i]);
        shown_rows_read_back(base, rest);
        assert(rows.drop_last() =~= rows_shown(base, rest));
        assert(tidy_spec(specs[specs.len() - 1]));
        shown_row_reads_back((base + (specs.len() - 1)) as u32, specs.last());
        assert(rest.push(specs.last()) =~= specs);
    } else {
        assert(rows =~= Seq::empty());
        assert(row_specs(rows) =~= specs);
    }
}

/// Opening a category and saving it as it is saves the same category, where it is as the
/// editor saves it.
pub proof fn opened_category_reads_back(category: CategoryView, now: Timestamp)
    ensures
        tidy(category) ==> described(opened(category), now) == Ok::<CategoryView, Seq<char>>(
            category,
        ),
{
    if tidy(category) {
        shown_words_read_back(category.aliases);
        shown_rows_read_back(0, category.specs);
    }
}

proof fn counterpart_goes_by_key(
    specs: Seq<CategorySpecView>,
    a: CategorySpecView,
    b: CategorySpecView,
)
    requires
        a.key == b.key,
        a.kind == b.kind,
    ensures
        counterpart(specs, a) == counterpart(specs, b),
    decreases specs.len(),
{
    if specs.len() > 0 {
        counterpart_goes_by_key(specs.drop_first(), a, b);
    }
}

/// Mirroring a saved category once is enough, and it touches neither keys, kinds nor
/// values.
pub proof fn mirroring_is_idempotent(other: CategoryView, saved: CategoryView)
    ensures
        category_mirrored(category_mirrored(other, saved), saved) == category_mirrored(
            other,
            saved,
        ),
        category_mirrored(other, saved).slug == other.slug,
        forall|i: int|
            0 <= i < other.specs.len() ==> {
                let spec = #[trigger] category_mirrored(other, saved).specs[i];
                &&& spec.key == other.specs[i].key
                &&& spec.kind == other.specs[i].kind
                &&& spec.allowed_values == other.specs[i].allowed_values
            },
{
    let once = category_mirrored(other, saved);
    let twice = category_mirrored(once, saved);
    assert forall|i: int| 0 <= i < other.specs.len() implies #[trigger] twice.specs[i]
        == once.specs[i] by {
        counterpart_goes_by_key(saved.specs, other.specs[i], once.specs[i]);
    }
    assert(twice.specs =~= once.specs);
}

/// The specs are those of exactly the lines that have a key, in order.
pub proof fn every_line_with_a_key_is_a_spec(
    rows: Seq<SpecRowView>,
)
    ensures
        row_specs(rows).map_values(|l: CategorySpecView| Some(l)) == rows.map_values(
            |x: SpecRowView| row_spec(x),
        ).filter(|l: Option<CategorySpecView>| l is Some),
    decreases rows.len(),
{
    reveal(Seq::filter);
    let f = |x: SpecRowView| row_spec(x);
    let p = |l: Option<CategorySpecView>| l is Some;
    let g = |l: CategorySpecView| Some(l);
    if rows.len() > 0 {
        let rest = rows.drop_last();
        every_line_with_a_key_is_a_spec(rest);
        assert(rows.map_values(f).drop_last() =~= rest.map_values(f));
        assert(rows.map_values(f).last() == f(rows.last()));
        if let Some(l) = f(rows.last()) {
            let before = row_specs(rest);
            assert(before.push(l).map_values(g) =~= before.map_values(g).push(Some(l)));
        }
    }
    assert(row_specs(rows).map_values(g) =~= rows.map_values(f).filter(p));
}

/// A line describes a spec exactly where it has a key; the spec has the key in lowercase,
/// the label or else the key, and the rest without the white space around it.
pub proof fn lines_describe_specs(row: SpecRowView)
    ensures
        row_spec(row) is Some <==> lowercased(trimmed(row.key)).len() > 0,
        row_spec(row) matches Some(spec) ==> {
            &&& spec.key == lowercased(trimmed(row.key))
            &&& trimmed(row.label).len() > 0 ==> spec.label == trimmed(row.label)
            &&& trimmed(row.label).len() == 0 ==> spec.label == spec.key
            &&& row.kind == "enum"@ ==> spec.kind == SpecKind::Enum
            &&& row.kind == "boolean"@ ==> spec.kind == SpecKind::Boolean
            &&& row.kind != "enum"@ && row.kind != "boolean"@ ==> spec.kind == SpecKind::Number
            &&& spec.unit == if trimmed(row.unit).len() == 0 {
                None
            } else {
                Some(trimmed(row.unit))
            }
            &&& spec.allowed_values == listed_words(row.values)
            &&& spec.extraction_hint == if trimmed(row.hint).len() == 0 {
                None
            } else {
                Some(trimmed(row.hint))
            }
        },
{
    reveal_strlit("enum");
    reveal_strlit("boolean");
    assert("enum"@.len() == 4 && "boolean"@.len() == 7);
}

/// A line shows its spec, a blank one nothing but a number.
pub proof fn lines_show_specs(id: u32, spec: CategorySpecView)
    ensures
        row_shown(id, spec).id == id,
        row_shown(id, spec).key == spec.key,
        row_shown(id, spec).label == spec.label,
        spec.kind == SpecKind::Number ==> row_shown(id, spec).kind == "number"@,
        spec.kind == SpecKind::Enum ==> row_shown(id, spec).kind == "enum"@,
        spec.kind == SpecKind::Boolean ==> row_shown(id, spec).kind == "boolean"@,
        spec.unit is None ==> row_shown(id, spec).unit.len() == 0,
        spec.unit is Some ==> row_shown(id, spec).unit == spec.unit->0,
        row_shown(id, spec).values == joined(spec.allowed_values, ", "@),
        spec.extraction_hint is None ==> row_shown(id, spec).hint.len() == 0,
        spec.extraction_hint is Some ==> row_shown(id, spec).hint == spec.extraction_hint->0,
        row_blank(id) == (SpecRowView {
            id,
            key: Seq::empty(),
            label: Seq::empty(),
            kind: "number"@,
            unit: Seq::empty(),
            values: Seq::empty(),
            hint: Seq::empty(),
        }),
{
}

/// The editor shows every spec of a category, in order, on a line with a number of its own.
pub proof fn the_editor_shows_every_spec(category: CategoryView, i: int)
    requires
        0 <= i < category.specs.len() <= u32::MAX,
    ensures
        opened(category).rows.len() == category.specs.len(),
        opened(category).rows[i] == row_shown(i as u32, category.specs[i]),
        opened(category).next_id == category.specs.len(),
        opened(category).original == Some(category),
        opened(category).slug == category.slug,
        opened(category).label == category.label,
        opened(category).aliases == joined(category.aliases, ", "@),
        opened_blank().original is None && opened_blank().rows.len() == 0 && opened_blank().next_id
            == 0 && opened_blank().slug.len() == 0 && opened_blank().label.len() == 0
            && opened_blank().aliases.len() == 0,
{
}

/// What the editor saves: the slug of its field, the label or else the slug, the aliases
/// and the specs; origin, status and age stay those of a category under edit, and a new
/// one is the user's, active, made now. Without a slug nothing is saved.
pub proof fn the_editor_saves_what_it_shows(editor: EditorView, now: Timestamp)
    ensures
        slug_of(editor.slug) == with_replaced(lowercased(trimmed(editor.slug)), ' ', seq!['-']),
        slug_of(editor.slug).len() == 0 ==> described(editor, now) == Err::<CategoryView, Seq<char>>(
            "the category needs a slug"@,
        ),
        slug_of(editor.slug).len() > 0 ==> (described(editor, now) matches Ok(c) && c.slug == slug_of(
            editor.slug,
        ) && (trimmed(editor.label).len() > 0 ==> c.label == trimmed(editor.label)) && (trimmed(
            editor.label,
        ).len() == 0 ==> c.label == c.slug) && c.aliases == listed_words(editor.aliases) && c.specs
            == row_specs(editor.rows) && (editor.original matches Some(o) ==> c.origin == o.origin
            && c.status == o.status && c.created_at == o.created_at) && (editor.original is None
            ==> c.origin == CategoryOrigin::User && c.status == CategoryStatus::Active
            && c.created_at == now)),
{
    reveal_strlit("-");
    assert("-"@ =~= seq!['-']);
}

/// Removing a line leaves every other, in order.
pub proof fn removing_a_line_leaves_the_others(
    id: u32,
    rows: Seq<SpecRowView>,
)
    ensures
        without_row(rows, id) == rows.filter(|x: SpecRowView| x.id != id),
    decreases rows.len(),
{
    reveal(Seq::filter);
    if rows.len() > 0 {
        removing_a_line_leaves_the_others(id, rows.drop_last());
    }
    assert(without_row(rows, id) =~= rows.filter(|x: SpecRowView| x.id != id));
}

/// The counterpart of a spec is the first with its key and kind.
pub proof fn the_first_counterpart(specs: Seq<CategorySpecView>, like: CategorySpecView)
    ensures
        match counterpart(specs, like) {
            Some(c) => specs.contains(c) && c.key == like.key && c.kind == like.kind,
            None => forall|i: int|
                0 <= i < specs.len() ==> !((#[trigger] specs[i]).key == like.key && specs[i].kind
                    == like.kind),
        },
        specs.len() > 0 && specs[0].key == like.key && specs[0].kind == like.kind ==> counterpart(
            specs,
            like,
        ) == Some(specs[0]),
    decreases specs.len(),
{
    if specs.len() > 0 {
        let rest = specs.drop_first();
        the_first_counterpart(rest, like);
        assert(specs.contains(specs[0]));
        if let Some(c) = counterpart(rest, like) {
            let i = choose|i: int| 0 <= i < rest.len() && rest[i] == c;
            assert(specs[i + 1] == c);
        } else {
            assert forall|i: int| 0 <= i < specs.len() && i > 0 implies !((
            #[trigger] specs[i]).key == like.key && specs[i].kind == like.kind) by {
                assert(rest[i - 1] == specs[i]);
            }
        }
    }
}

/// A spec takes over the label, the unit and the hint of its counterpart and nothing else;
/// one without a counterpart stays as it is.
pub proof fn what_is_mirrored(spec: CategorySpecView, saved: Seq<CategorySpecView>)
    ensures
        counterpart(saved, spec) is None ==> mirrored(spec, saved) == spec,
        counterpart(saved, spec) matches Some(edited) ==> mirrored(spec, saved) == (
        CategorySpecView {
            key: spec.key,
            label: edited.label,
            kind: spec.kind,
            unit: edited.unit,
            allowed_values: spec.allowed_values,
            extraction_hint: edited.extraction_hint,
        }),
{
}

/// A category mirrors a saved one spec by spec, and keeps everything else.
pub proof fn categories_mirror_spec_by_spec(other: CategoryView, saved: CategoryView, i: int)
    requires
        0 <= i < other.specs.len(),
    ensures
        category_mirrored(other, saved).specs.len() == other.specs.len(),
        category_mirrored(other, saved).specs[i] == mirrored(other.specs[i], saved.specs),
        category_mirrored(other, saved).slug == other.slug,
        category_mirrored(other, saved).label == other.label,
        category_mirrored(other, saved).aliases == other.aliases,
        category_mirrored(other, saved).origin == other.origin,
        category_mirrored(other, saved).status == other.status,
        category_mirrored(other, saved).created_at == other.created_at,
{
}

/// The categories stored again are exactly the others that change when they mirror the saved
/// one, in order.
pub proof fn every_changed_category_is_stored(
    saved: CategoryView,
    all: Seq<CategoryView>,
)
    ensures
        to_resave(all, saved).map_values(|l: CategoryView| Some(l)) == all.map_values(
            |x: CategoryView|
                (if x.slug != saved.slug && category_mirrored(x, saved) != x {
                    Some(category_mirrored(x, saved))
                } else {
                    None
                }),
        ).filter(|l: Option<CategoryView>| l is Some),
    decreases all.len(),
{
    reveal(Seq::filter);
    let f = |x: CategoryView|
        (if x.slug != saved.slug && category_mirrored(x, saved) != x {
            Some(category_mirrored(x, saved))
        } else {
            None
        });
    let p = |l: Option<CategoryView>| l is Some;
    let g = |l: CategoryView| Some(l);
    if all.len() > 0 {
        let rest = all.drop_last();
        every_changed_category_is_stored(saved, rest);
        assert(all.map_values(f).drop_last() =~= rest.map_values(f));
        assert(all.map_values(f).last() == f(all.last()));
        if let Some(l) = f(all.last()) {
            let before = to_resave(rest, saved);
            assert(before.push(l).map_values(g) =~= before.map_values(g).push(Some(l)));
        }
    }
    assert(to_resave(all, saved).map_values(g) =~= all.map_values(f).filter(p));
}

/// What a line says of a spec and of a category.
pub proof fn lines_name_their_specs(category: CategoryView, spec: CategorySpecView, i: int)
    ensures
        spec.kind == SpecKind::Boolean ==> spec_named(spec, true) == spec.label + " ("@ + "yes/no"@
            + ")"@,
        spec.kind == SpecKind::Number && spec.unit is None ==> spec_named(spec, true) == spec.label
            + " ("@ + "number"@ + ")"@,
        spec.kind == SpecKind::Number && spec.unit is Some ==> spec_named(spec, true) == spec.label
            + " ("@ + spec.unit->0 + ")"@,
        spec.kind == SpecKind::Enum ==> spec_named(spec, true) == spec.label + " ("@ + joined(
            spec.allowed_values,
            "/"@,
        ) + ")"@ && spec_named(spec, false) == spec.label + " ("@ + (nat_text(
            spec.allowed_values.len(),
        ) + " values"@) + ")"@,
        spec.kind != SpecKind::Enum ==> spec_named(spec, false) == spec_named(spec, true),
        specs_named(category.specs, false).len() == category.specs.len(),
        0 <= i < category.specs.len() ==> specs_named(category.specs, false)[i] == spec_named(
            category.specs[i],
            false,
        ),
        category_line(category) == "aliases: "@ + (if category.aliases.len() == 0 {
            "—"@
        } else {
            joined(category.aliases, ", "@)
        }) + " · filters: "@ + (if category.specs.len() == 0 {
            "—"@
        } else {
            joined(specs_named(category.specs, false), " · "@)
        }),
{
}

} // verus!
