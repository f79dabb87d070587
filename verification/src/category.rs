//! Product categories and their typed spec dimensions. A category (HDD, GPU…) declares
//! which characteristics exist (capacity, rpm, model…), each with a kind; deals get spec
//! values read from their titles, watches carry spec filters held against them.

use vstd::prelude::*;
use crate::attributes::{attributes_of, capacity_of, extract};
use crate::decimal::{canonical, decimal_of, Decimal};
use crate::pattern::{
    bounded_in, captures, escape, escaped, group, group_of, hits_of, regex_captures, word_hits,
};
use crate::text::{
    contains, eq_ignore_ascii_case, joined, lowercased, occurs, one_piece, pieces_join,
    pieces_make_the_text, replace, same, same_ignoring_ascii_case, split, split_on, trim, trimmed,
    with_replaced,
};
use crate::reading::{bounded_by, bounds_chain, Reading, ReadingView};
use crate::table::{keys_differ, lookup, place, put, put_then_lookup};
use crate::time::Timestamp;

verus! {

/// What values a spec takes.
#[derive(Debug, Clone, Copy, PartialEq, Eq, Structural)]
pub enum SpecKind {
    Number,
    Enum,
    Boolean,
}

/// Who made a category.
#[derive(Debug, Clone, Copy, PartialEq, Eq, Structural)]
pub enum CategoryOrigin {
    Curated,
    Llm,
    /// Created or hand-edited from the UI.
    User,
}

/// Whether a category is in use.
#[derive(Debug, Clone, Copy, PartialEq, Eq, Structural)]
pub enum CategoryStatus {
    Active,
    /// Drafted by the LLM, awaiting user review: never used for categorization until
    /// approved.
    Proposed,
}

/// One characteristic a category's products have.
#[derive(Debug, PartialEq)]
pub struct CategorySpec {
    /// Stable key, e.g. "capacity", "rpm", "model".
    pub key: String,
    pub label: String,
    pub kind: SpecKind,
    /// Number kind: the unit values are expressed in ("GB", "rpm"…). "GB" gets the full
    /// capacity treatment (TB/To/Go variants, ×1000).
    pub unit: Option<String>,
    /// Enum kind: the allowed values, matched word-bounded in titles.
    pub allowed_values: Vec<String>,
    /// Boolean kind: comma-separated keywords whose presence means true.
    pub extraction_hint: Option<String>,
}

/// What `CategorySpec` holds.
#[verifier::ext_equal]
pub struct CategorySpecView {
    pub key: Seq<char>,
    pub label: Seq<char>,
    pub kind: SpecKind,
    pub unit: Option<Seq<char>>,
    pub allowed_values: Seq<Seq<char>>,
    pub extraction_hint: Option<Seq<char>>,
}

impl DeepView for CategorySpec {
    type V = CategorySpecView;

    open spec fn deep_view(&self) -> CategorySpecView {
        CategorySpecView {
            key: self.key@,
            label: self.label@,
            kind: self.kind,
            unit: self.unit.deep_view(),
            allowed_values: self.allowed_values.deep_view(),
            extraction_hint: self.extraction_hint.deep_view(),
        }
    }
}

impl Clone for CategorySpec {
    fn clone(&self) -> (r: Self)
        ensures
            r.deep_view() == self.deep_view(),
    {
        let r = CategorySpec {
            key: self.key.clone(),
            label: self.label.clone(),
            kind: self.kind,
            unit: self.unit.clone(),
            allowed_values: self.allowed_values.clone(),
            extraction_hint: self.extraction_hint.clone(),
        };
        assert(r.allowed_values.deep_view() =~= self.allowed_values.deep_view());
        r
    }
}

/// A kind of product, and what tells its members apart.
#[derive(Debug, PartialEq)]
pub struct Category {
    /// Stable id, e.g. "hdd".
    pub slug: String,
    pub label: String,
    /// Words/phrases that identify the category in titles and searches.
    pub aliases: Vec<String>,
    pub origin: CategoryOrigin,
    pub status: CategoryStatus,
    pub specs: Vec<CategorySpec>,
    pub created_at: Timestamp,
}

/// What `Category` holds.
#[verifier::ext_equal]
pub struct CategoryView {
    pub slug: Seq<char>,
    pub label: Seq<char>,
    pub aliases: Seq<Seq<char>>,
    pub origin: CategoryOrigin,
    pub status: CategoryStatus,
    pub specs: Seq<CategorySpecView>,
    pub created_at: Timestamp,
}

impl DeepView for Category {
    type V = CategoryView;

    open spec fn deep_view(&self) -> CategoryView {
        CategoryView {
            slug: self.slug@,
            label: self.label@,
            aliases: self.aliases.deep_view(),
            origin: self.origin,
            status: self.status,
            specs: self.specs.deep_view(),
            created_at: self.created_at,
        }
    }
}

impl Clone for Category {
    fn clone(&self) -> (r: Self)
        ensures
            r.deep_view() == self.deep_view(),
    {
        let r = Category {
            slug: self.slug.clone(),
            label: self.label.clone(),
            aliases: self.aliases.clone(),
            origin: self.origin,
            status: self.status,
            specs: self.specs.clone(),
            created_at: self.created_at,
        };
        assert(r.aliases.deep_view() =~= self.aliases.deep_view());
        assert(r.specs.deep_view() =~= self.specs.deep_view());
        r
    }
}

/// An extracted spec value on a deal.
#[derive(Debug, PartialEq)]
pub enum SpecValue {
    Number(Decimal),
    Bool(bool),
    Text(String),
}

/// What `SpecValue` holds.
#[verifier::ext_equal]
pub enum SpecValueView {
    Number((int, int)),
    Bool(bool),
    Text(Seq<char>),
}

impl DeepView for SpecValue {
    type V = SpecValueView;

    open spec fn deep_view(&self) -> SpecValueView {
        match self {
            SpecValue::Number(n) => SpecValueView::Number(n.deep_view()),
            SpecValue::Bool(b) => SpecValueView::Bool(*b),
            SpecValue::Text(t) => SpecValueView::Text(t@),
        }
    }
}

impl Clone for SpecValue {
    fn clone(&self) -> (r: Self)
        ensures
            r.deep_view() == self.deep_view(),
    {
        match self {
            SpecValue::Number(n) => SpecValue::Number(n.clone()),
            SpecValue::Bool(b) => SpecValue::Bool(*b),
            SpecValue::Text(t) => SpecValue::Text(t.clone()),
        }
    }
}

/// A watch's constraint on one spec.
#[derive(Debug, PartialEq)]
#[allow(inconsistent_fields)]
pub enum SpecFilter {
    Min { key: String, value: Reading },
    Max { key: String, value: Reading },
    Eq { key: String, value: String },
    AnyOf { key: String, values: Vec<String> },
    Is { key: String, value: bool },
}

/// What `SpecFilter` holds.
#[verifier::ext_equal]
#[allow(inconsistent_fields)]
pub enum SpecFilterView {
    Min { key: Seq<char>, value: ReadingView },
    Max { key: Seq<char>, value: ReadingView },
    Eq { key: Seq<char>, value: Seq<char> },
    AnyOf { key: Seq<char>, values: Seq<Seq<char>> },
    Is { key: Seq<char>, value: bool },
}

impl DeepView for SpecFilter {
    type V = SpecFilterView;

    open spec fn deep_view(&self) -> SpecFilterView {
        match self {
            SpecFilter::Min { key, value } => SpecFilterView::Min {
                key: key@,
                value: value.deep_view(),
            },
            SpecFilter::Max { key, value } => SpecFilterView::Max {
                key: key@,
                value: value.deep_view(),
            },
            SpecFilter::Eq { key, value } => SpecFilterView::Eq { key: key@, value: value@ },
            SpecFilter::AnyOf { key, values } => SpecFilterView::AnyOf {
                key: key@,
                values: values.deep_view(),
            },
            SpecFilter::Is { key, value } => SpecFilterView::Is { key: key@, value: *value },
        }
    }
}

impl Clone for SpecFilter {
    fn clone(&self) -> (r: Self)
        ensures
            r.deep_view() == self.deep_view(),
    {
        match self {
            SpecFilter::Min { key, value } => SpecFilter::Min {
                key: key.clone(),
                value: value.clone(),
            },
            SpecFilter::Max { key, value } => SpecFilter::Max {
                key: key.clone(),
                value: value.clone(),
            },
            SpecFilter::Eq { key, value } => SpecFilter::Eq {
                key: key.clone(),
                value: value.clone(),
            },
            SpecFilter::AnyOf { key, values } => {
                let copy = values.clone();
                assert(copy.deep_view() =~= values.deep_view());
                SpecFilter::AnyOf { key: key.clone(), values: copy }
            },
            SpecFilter::Is { key, value } => SpecFilter::Is { key: key.clone(), value: *value },
        }
    }
}

/// Whether `t` is one of `values`, but for the case of ASCII letters.
pub open spec fn one_of(t: Seq<char>, values: Seq<Seq<char>>) -> bool {
    exists|i: int| 0 <= i < values.len() && same_ignoring_ascii_case(t, #[trigger] values[i])
}

/// Whether `t` is one of `values`, but for the case of ASCII letters.
fn is_one_of(t: &str, values: &Vec<String>) -> (r: bool)
    ensures
        r == one_of(t@, values.deep_view()),
{
    let mut i: usize = 0;
    while i < values.len()
        invariant
            i <= values@.len(),
            forall|j: int|
                0 <= j < i ==> !same_ignoring_ascii_case(t@, #[trigger] values.deep_view()[j]),
        decreases values@.len() - i,
    {
        if eq_ignore_ascii_case(t, values[i].as_str()) {
            assert(same_ignoring_ascii_case(t@, values.deep_view()[i as int]));
            return true;
        }
        i = i + 1;
    }
    false
}

impl SpecFilterView {
    /// The spec that the filter constrains.
    pub open spec fn key(self) -> Seq<char> {
        match self {
            SpecFilterView::Min { key, .. } => key,
            SpecFilterView::Max { key, .. } => key,
            SpecFilterView::Eq { key, .. } => key,
            SpecFilterView::AnyOf { key, .. } => key,
            SpecFilterView::Is { key, .. } => key,
        }
    }

    /// Whether `value` is what the filter asks for: of the filter's own kind, and
    /// within it.
    pub open spec fn accepts(self, value: SpecValueView) -> bool {
        match (self, value) {
            (SpecFilterView::Min { value: min, .. }, SpecValueView::Number(n)) => bounded_by(
                min,
                ReadingView::Finite(n),
            ),
            (SpecFilterView::Max { value: max, .. }, SpecValueView::Number(n)) => bounded_by(
                ReadingView::Finite(n),
                max,
            ),
            (SpecFilterView::Eq { value: wanted, .. }, SpecValueView::Text(t)) =>
                same_ignoring_ascii_case(t, wanted),
            (SpecFilterView::AnyOf { values, .. }, SpecValueView::Text(t)) => one_of(t, values),
            (SpecFilterView::Is { value: wanted, .. }, SpecValueView::Bool(b)) => b == wanted,
            _ => false,
        }
    }
}

impl SpecFilter {
    /// The spec that the filter constrains.
    pub fn key(&self) -> (r: &str)
        ensures
            r@ == self.deep_view().key(),
    {
        match self {
            SpecFilter::Min { key, .. } => key.as_str(),
            SpecFilter::Max { key, .. } => key.as_str(),
            SpecFilter::Eq { key, .. } => key.as_str(),
            SpecFilter::AnyOf { key, .. } => key.as_str(),
            SpecFilter::Is { key, .. } => key.as_str(),
        }
    }

    /// Whether `value` is what the filter asks for.
    pub fn accepts(&self, value: &SpecValue) -> (r: bool)
        ensures
            r == self.deep_view().accepts(value.deep_view()),
    {
        match (self, value) {
            (SpecFilter::Min { value: min, .. }, SpecValue::Number(n)) => min.is_at_most(
                &Reading::Finite(n.clone()),
            ),
            (SpecFilter::Max { value: max, .. }, SpecValue::Number(n)) => Reading::Finite(
                n.clone(),
            ).is_at_most(max),
            (SpecFilter::Eq { value: wanted, .. }, SpecValue::Text(t)) => eq_ignore_ascii_case(
                t.as_str(),
                wanted.as_str(),
            ),
            (SpecFilter::AnyOf { values, .. }, SpecValue::Text(t)) => is_one_of(t.as_str(), values),
            (SpecFilter::Is { value: wanted, .. }, SpecValue::Bool(b)) => *b == *wanted,
            _ => false,
        }
    }
}

/// The spec values of a deal, each under its own key.
#[derive(Debug, PartialEq)]
pub struct Specs {
    entries: Vec<(String, SpecValue)>,
}

impl DeepView for Specs {
    type V = Seq<(Seq<char>, SpecValueView)>;

    closed spec fn deep_view(&self) -> Seq<(Seq<char>, SpecValueView)> {
        self.entries.deep_view()
    }
}

impl Clone for Specs {
    fn clone(&self) -> (r: Self)
        ensures
            r.deep_view() == self.deep_view(),
    {
        proof {
            use_type_invariant(self);
        }
        let mut entries: Vec<(String, SpecValue)> = Vec::new();
        let mut i: usize = 0;
        while i < self.entries.len()
            invariant
                i <= self.entries@.len(),
                entries.deep_view() == self.entries.deep_view().take(i as int),
            decreases self.entries@.len() - i,
        {
            let ghost before = entries.deep_view();
            entries.push((self.entries[i].0.clone(), self.entries[i].1.clone()));
            i = i + 1;
            assert(entries.deep_view() =~= before.push(self.entries.deep_view()[i - 1]));
            assert(entries.deep_view() =~= self.entries.deep_view().take(i as int));
        }
        assert(entries.deep_view() =~= self.entries.deep_view());
        Specs { entries }
    }
}

impl Default for Specs {
    fn default() -> (r: Self)
        ensures
            r.deep_view() == Seq::<(Seq<char>, SpecValueView)>::empty(),
    {
        Specs::new()
    }
}

impl Specs {
    #[verifier::type_invariant]
    spec fn wf(self) -> bool {
        keys_differ(self.entries.deep_view())
    }

    /// No values.
    pub fn new() -> (r: Specs)
        ensures
            r.deep_view() == Seq::<(Seq<char>, SpecValueView)>::empty(),
    {
        let entries: Vec<(String, SpecValue)> = Vec::new();
        assert(entries.deep_view() =~= Seq::empty());
        Specs { entries }
    }

    /// How many values there are.
    pub fn len(&self) -> (r: usize)
        ensures
            r == self.deep_view().len(),
            keys_differ(self.deep_view()),
    {
        proof {
            use_type_invariant(self);
        }
        self.entries.len()
    }

    /// The key and the value in place `i`, in the order in which the keys came.
    pub fn entry(&self, i: usize) -> (r: (&str, &SpecValue))
        requires
            i < self.deep_view().len(),
        ensures
            (r.0@, r.1.deep_view()) == self.deep_view()[i as int],
    {
        (self.entries[i].0.as_str(), &self.entries[i].1)
    }

    /// What stands under `key`.
    pub fn get(&self, key: &str) -> (r: Option<&SpecValue>)
        ensures
            match r {
                Some(v) => lookup(self.deep_view(), key@) == Some(v.deep_view()),
                None => lookup(self.deep_view(), key@) is None,
            },
    {
        let i: usize = place(&self.entries, key);
        if i < self.entries.len() {
            assert(self.deep_view()[i as int].1 == self.entries@[i as int].1.deep_view());
            Some(&self.entries[i].1)
        } else {
            None
        }
    }

    /// These values with `value` under `key`, in the place of what stood there or at the
    /// end.
    pub fn insert(self, key: String, value: SpecValue) -> (r: Specs)
        ensures
            r.deep_view() == put(self.deep_view(), key@, value.deep_view()),
    {
        proof {
            use_type_invariant(&self);
            put_then_lookup(self.deep_view(), key@, value.deep_view(), key@);
        }
        let i: usize = place(&self.entries, key.as_str());
        let ghost before = self.deep_view();
        let ghost k = key@;
        let ghost v = value.deep_view();
        let mut entries = self.entries;
        if i < entries.len() {
            entries.set(i, (key, value));
            assert(entries.deep_view() =~= before.update(i as int, (k, v)));
        } else {
            entries.push((key, value));
            assert(entries.deep_view() =~= before.push((k, v)));
        }
        Specs { entries }
    }
}

/// Whether the values under their keys meet every filter. A filter whose key was never
/// extracted is not met.
pub open spec fn all_met(
    filters: Seq<SpecFilterView>,
    specs: Seq<(Seq<char>, SpecValueView)>,
) -> bool {
    forall|i: int|
        0 <= i < filters.len() ==> match lookup(specs, (#[trigger] filters[i]).key()) {
            Some(v) => filters[i].accepts(v),
            None => false,
        }
}

/// Do the extracted values meet every filter? A filter whose key was never extracted is
/// not met: a watch that demands 4 TB does not match a listing of unknown capacity.
pub fn filters_match(filters: &[SpecFilter], specs: &Specs) -> (r: bool)
    ensures
        r == all_met(filters.deep_view(), specs.deep_view()),
{
    let ghost all = filters.deep_view();
    let mut i: usize = 0;
    while i < filters.len()
        invariant
            i <= filters@.len(),
            all == filters.deep_view(),
            forall|j: int|
                0 <= j < i ==> match lookup(specs.deep_view(), (#[trigger] all[j]).key()) {
                    Some(v) => all[j].accepts(v),
                    None => false,
                },
        decreases filters@.len() - i,
    {
        assert(all[i as int] == filters@[i as int].deep_view());
        let met = match specs.get(filters[i].key()) {
            Some(v) => filters[i].accepts(v),
            None => false,
        };
        if !met {
            return false;
        }
        i = i + 1;
    }
    true
}

/// The place of the first hit, or the number of `hits`.
pub open spec fn first_true(hits: Seq<bool>) -> int
    decreases hits.len(),
{
    if hits.len() == 0 || hits[0] {
        0
    } else {
        1 + first_true(hits.drop_first())
    }
}

/// How many of `hits` are true.
pub open spec fn count_true(hits: Seq<bool>) -> nat
    decreases hits.len(),
{
    if hits.len() == 0 {
        0
    } else {
        count_true(hits.drop_last()) + if hits.last() {
            1nat
        } else {
            0
        }
    }
}

/// How many of `hits` are true.
pub fn count_hits(hits: &Vec<bool>) -> (r: usize)
    ensures
        r == count_true(hits@),
        r <= hits@.len(),
{
    let mut n: usize = 0;
    let mut i: usize = 0;
    while i < hits.len()
        invariant
            i <= hits@.len(),
            n <= i,
            n == count_true(hits@.take(i as int)),
        decreases hits@.len() - i,
    {
        assert(hits@.take(i + 1).drop_last() =~= hits@.take(i as int));
        if hits[i] {
            n = n + 1;
        }
        i = i + 1;
    }
    assert(hits@.take(hits@.len() as int) =~= hits@);
    n
}

/// The first of `values` that was hit.
pub open spec fn first_hit(values: Seq<Seq<char>>, hits: Seq<bool>) -> Option<Seq<char>> {
    let i = first_true(hits);
    if i < hits.len() {
        Some(values[i])
    } else {
        None
    }
}

/// The first of `values` that was hit.
pub fn first_value_hit(values: &Vec<String>, hits: &Vec<bool>) -> (r: Option<String>)
    requires
        hits@.len() == values@.len(),
    ensures
        r.deep_view() == first_hit(values.deep_view(), hits@),
{
    let mut i: usize = 0;
    assert(hits@.skip(0) =~= hits@);
    while i < hits.len()
        invariant
            i <= hits@.len() == values@.len(),
            first_true(hits@) == i + first_true(hits@.skip(i as int)),
        decreases hits@.len() - i,
    {
        if hits[i] {
            assert(values.deep_view()[i as int] == values@[i as int]@);
            return Some(values[i].clone());
        }
        assert(hits@.skip(i as int).drop_first() =~= hits@.skip(i + 1));
        i = i + 1;
    }
    None
}

/// `pieces`, each trimmed, without the empty ones.
pub open spec fn kept_words(pieces: Seq<Seq<char>>) -> Seq<Seq<char>>
    decreases pieces.len(),
{
    if pieces.len() == 0 {
        Seq::empty()
    } else {
        let before = kept_words(pieces.drop_last());
        let word = trimmed(pieces.last());
        if word.len() > 0 {
            before.push(word)
        } else {
            before
        }
    }
}

/// The comma-separated words of `list`, trimmed, without the empty ones.
pub open spec fn listed_words(list: Seq<char>) -> Seq<Seq<char>> {
    kept_words(split_on(list, ','))
}

/// The comma-separated words of `list`, trimmed, without the empty ones.
pub fn split_list(list: &str) -> (r: Vec<String>)
    ensures
        r.deep_view() == listed_words(list@),
{
    let pieces = split(list, ',');
    let ghost all = pieces.deep_view();
    let mut out: Vec<String> = Vec::new();
    let mut i: usize = 0;
    assert(all.take(0) =~= Seq::empty());
    assert(out.deep_view() =~= Seq::empty());
    while i < pieces.len()
        invariant
            i <= pieces@.len(),
            all == pieces.deep_view(),
            out.deep_view() == kept_words(all.take(i as int)),
        decreases pieces@.len() - i,
    {
        let ghost before = out.deep_view();
        let word = trim(pieces[i].as_str());
        assert(all.take(i + 1).drop_last() =~= all.take(i as int));
        assert(all.take(i + 1).last() == pieces@[i as int]@);
        if !word.as_str().is_empty() {
            out.push(word);
            assert(out.deep_view() =~= before.push(word@));
        }
        i = i + 1;
    }
    assert(all.take(all.len() as int) =~= all);
    out
}

/// A word that a comma-separated list keeps as it is.
pub open spec fn listable(word: Seq<char>) -> bool {
    word.len() > 0 && trimmed(word) == word && !word.contains(',')
}

/// A comma-separated field that shows words reads back as the same words.
pub proof fn shown_words_read_back(words: Seq<Seq<char>>)
    requires
        forall|i: int| 0 <= i < words.len() ==> listable(#[trigger] words[i]),
    ensures
        listed_words(joined(words, ", "@)) == words,
    decreases words.len(),
{
    reveal_strlit(", ");
    if words.len() == 0 {
        let pieces = split_on(joined(words, ", "@), ',');
        assert(pieces =~= seq![Seq::empty()]);
        assert(pieces.drop_last() =~= Seq::empty());
        assert(pieces.last() =~= Seq::empty());
        assert(trimmed(Seq::<char>::empty()) =~= Seq::empty());
        assert(kept_words(pieces.drop_last()) =~= Seq::empty());
    } else {
        let w = words.last();
        assert(listable(words[words.len() - 1]));
        if words.len() == 1 {
            one_piece(w);
            let pieces = seq![w];
            assert(pieces.drop_last() =~= Seq::empty());
            assert(kept_words(pieces.drop_last()) =~= Seq::empty());
            assert(kept_words(pieces) =~= words);
        } else {
            let rest = words.drop_last();
            assert(forall|i: int| 0 <= i < rest.len() ==> rest[i] == words[i]);
            shown_words_read_back(rest);
            let head = joined(rest, ", "@);
            let spaced = seq![' '] + w;
            assert(head + ", "@ + w =~= head + seq![','] + spaced);
            assert(!spaced.contains(',')) by {
                if spaced.contains(',') {
                    let i = choose|i: int| 0 <= i < spaced.len() && spaced[i] == ',';
                    assert(w[i - 1] == ',');
                }
            }
            pieces_join(head, spaced);
            let pieces = split_on(head, ',').push(spaced);
            assert(pieces.drop_last() =~= split_on(head, ','));
            assert(spaced.drop_first() =~= w);
            assert(trimmed(spaced) == trimmed(w));
            assert(kept_words(pieces) =~= words);
        }
    }
}

/// `words`, each in lowercase.
pub open spec fn lowered(words: Seq<Seq<char>>) -> Seq<Seq<char>> {
    Seq::new(words.len(), |i: int| lowercased(words[i]))
}

/// `words`, each in lowercase.
fn lower_all(words: &Vec<String>) -> (r: Vec<String>)
    ensures
        r.deep_view() == lowered(words.deep_view()),
{
    let mut out: Vec<String> = Vec::new();
    let mut i: usize = 0;
    assert(out.deep_view() =~= lowered(words.deep_view()).take(0));
    while i < words.len()
        invariant
            i <= words@.len(),
            out.deep_view() == lowered(words.deep_view()).take(i as int),
        decreases words@.len() - i,
    {
        let ghost before = out.deep_view();
        let word = words[i].to_lowercase();
        out.push(word);
        i = i + 1;
        assert(out.deep_view() =~= before.push(word@));
        assert(out.deep_view() =~= lowered(words.deep_view()).take(i as int));
    }
    assert(out.deep_view() =~= lowered(words.deep_view()));
    out
}

/// Whether any of `words` stands in `text`.
pub open spec fn any_in(text: Seq<char>, words: Seq<Seq<char>>) -> bool {
    exists|i: int| 0 <= i < words.len() && occurs(text, #[trigger] words[i])
}

/// Whether any of `words` stands in `text`.
pub fn contains_any(text: &str, words: &Vec<String>) -> (r: bool)
    ensures
        r == any_in(text@, words.deep_view()),
{
    let mut i: usize = 0;
    while i < words.len()
        invariant
            i <= words@.len(),
            forall|j: int| 0 <= j < i ==> !occurs(text@, #[trigger] words.deep_view()[j]),
        decreases words@.len() - i,
    {
        if contains(text, words[i].as_str()) {
            assert(occurs(text@, words.deep_view()[i as int]));
            return true;
        }
        i = i + 1;
    }
    false
}

/// The pattern of a number with `unit` behind it.
pub open spec fn unit_pattern(unit: Seq<char>) -> Seq<char> {
    "(?i)(\\d+(?:[.,]\\d+)?)\\s*"@ + escaped(unit) + "\\b"@
}

/// The number that a title gives in `unit`.
pub open spec fn number_in(title: Seq<char>, unit: Option<Seq<char>>) -> Option<(int, int)> {
    match unit {
        Some(u) => if u == "GB"@ {
            match capacity_of(title) {
                Some(n) => Some(canonical(n as int, 0)),
                None => None,
            }
        } else {
            match group_of(regex_captures(unit_pattern(u), title), 1) {
                Some(number) => decimal_of(with_replaced(number, ',', "."@)),
                None => None,
            }
        },
        None => None,
    }
}

/// The value that a title gives one spec.
pub open spec fn value_in(title: Seq<char>, spec: CategorySpecView) -> Option<SpecValueView> {
    match spec.kind {
        SpecKind::Number => match number_in(title, spec.unit) {
            Some(n) => Some(SpecValueView::Number(n)),
            None => None,
        },
        SpecKind::Enum => match first_hit(
            spec.allowed_values,
            hits_of(title, spec.allowed_values),
        ) {
            Some(t) => Some(SpecValueView::Text(t)),
            None => None,
        },
        SpecKind::Boolean => match spec.extraction_hint {
            Some(hints) => if any_in(lowercased(title), lowered(listed_words(hints))) {
                Some(SpecValueView::Bool(true))
            } else {
                None
            },
            None => None,
        },
    }
}

/// The number that a title gives in `unit`.
fn find_number(title: &str, unit: &Option<String>) -> (r: Option<Decimal>)
    ensures
        r.deep_view() == number_in(title@, unit.deep_view()),
{
    match unit {
        Some(u) => {
            if same(u.as_str(), "GB") {
                match extract(title).capacity_gb {
                    Some(n) => Some(Decimal::from_i64(n)),
                    None => None,
                }
            } else {
                let mut pattern = "(?i)(\\d+(?:[.,]\\d+)?)\\s*".to_owned();
                pattern.append(escape(u.as_str()).as_str());
                pattern.append("\\b");
                let caps = captures(pattern.as_str(), title);
                match group(&caps, 1) {
                    Some(number) => Decimal::parse(replace(number.as_str(), ',', ".").as_str()),
                    None => None,
                }
            }
        },
        None => None,
    }
}

/// The value that a title gives one spec.
pub fn find_value(title: &str, spec: &CategorySpec) -> (r: Option<SpecValue>)
    ensures
        r.deep_view() == value_in(title@, spec.deep_view()),
{
    match spec.kind {
        SpecKind::Number => match find_number(title, &spec.unit) {
            Some(n) => Some(SpecValue::Number(n)),
            None => None,
        },
        SpecKind::Enum => {
            let hits = word_hits(title, &spec.allowed_values);
            match first_value_hit(&spec.allowed_values, &hits) {
                Some(t) => Some(SpecValue::Text(t)),
                None => None,
            }
        },
        SpecKind::Boolean => match &spec.extraction_hint {
            Some(hints) => {
                let words = lower_all(&split_list(hints.as_str()));
                let lower = title.to_lowercase();
                if contains_any(lower.as_str(), &words) {
                    Some(SpecValue::Bool(true))
                } else {
                    None
                }
            },
            None => None,
        },
    }
}

/// `found` under the keys of `specs`, in their order; a later value under a key takes the
/// place of an earlier one.
pub open spec fn gathered(
    specs: Seq<CategorySpecView>,
    found: Seq<Option<SpecValueView>>,
) -> Seq<(Seq<char>, SpecValueView)>
    decreases specs.len(),
{
    if specs.len() == 0 {
        Seq::empty()
    } else {
        let before = gathered(specs.drop_last(), found.drop_last());
        match found.last() {
            Some(v) => put(before, specs.last().key, v),
            None => before,
        }
    }
}

/// The values found, and the condition under "condition" where no spec of that key was
/// found.
pub open spec fn with_condition(
    values: Seq<(Seq<char>, SpecValueView)>,
    condition: Option<Seq<char>>,
) -> Seq<(Seq<char>, SpecValueView)> {
    match condition {
        Some(c) => if lookup(values, "condition"@) is None {
            put(values, "condition"@, SpecValueView::Text(c))
        } else {
            values
        },
        None => values,
    }
}

/// The values found under the keys of `specs`, and the condition.
pub fn gather(
    specs: &Vec<CategorySpec>,
    found: Vec<Option<SpecValue>>,
    condition: Option<String>,
) -> (r: Specs)
    requires
        found@.len() == specs@.len(),
    ensures
        r.deep_view() == with_condition(
            gathered(specs.deep_view(), found.deep_view()),
            condition.deep_view(),
        ),
{
    let ghost all = specs.deep_view();
    let ghost values = found.deep_view();
    let mut out = Specs::new();
    let mut i: usize = 0;
    while i < specs.len()
        invariant
            i <= specs@.len() == found@.len(),
            all == specs.deep_view(),
            values == found.deep_view(),
            out.deep_view() == gathered(all.take(i as int), values.take(i as int)),
        decreases specs@.len() - i,
    {
        assert(all.take(i + 1).drop_last() =~= all.take(i as int));
        assert(values.take(i + 1).drop_last() =~= values.take(i as int));
        assert(values[i as int] == found@[i as int].deep_view());
        match &found[i] {
            Some(v) => {
                out = out.insert(specs[i].key.clone(), v.clone());
            },
            None => {},
        }
        i = i + 1;
    }
    assert(all.take(all.len() as int) =~= all);
    assert(values.take(values.len() as int) =~= values);
    match condition {
        Some(c) => {
            if out.get("condition").is_none() {
                out = out.insert("condition".to_owned(), SpecValue::Text(c));
            }
        },
        None => {},
    }
    out
}

/// The value that a title gives each of `specs`.
pub open spec fn values_in(title: Seq<char>, specs: Seq<CategorySpecView>) -> Seq<
    Option<SpecValueView>,
> {
    Seq::new(specs.len(), |i: int| value_in(title, specs[i]))
}

/// The spec values of a title in a category.
pub open spec fn specs_of(title: Seq<char>, specs: Seq<CategorySpecView>) -> Seq<
    (Seq<char>, SpecValueView),
> {
    with_condition(gathered(specs, values_in(title, specs)), attributes_of(title).condition)
}

/// Reads this category's spec values from a (cleaned) title. The condition rides along
/// for every category.
pub fn extract_specs(title: &str, category: &Category) -> (r: Specs)
    ensures
        r.deep_view() == specs_of(title@, category.specs.deep_view()),
{
    let mut found: Vec<Option<SpecValue>> = Vec::new();
    let ghost all = values_in(title@, category.specs.deep_view());
    let mut i: usize = 0;
    assert(found.deep_view() =~= all.take(0));
    while i < category.specs.len()
        invariant
            i <= category.specs@.len(),
            found@.len() == i,
            all == values_in(title@, category.specs.deep_view()),
            found.deep_view() == all.take(i as int),
        decreases category.specs@.len() - i,
    {
        let ghost before = found.deep_view();
        let value = find_value(title, &category.specs[i]);
        found.push(value);
        i = i + 1;
        assert(found.deep_view() =~= before.push(value.deep_view()));
        assert(found.deep_view() =~= all.take(i as int));
    }
    assert(found.deep_view() =~= all);
    gather(&category.specs, found, extract(title).condition)
}

/// How many values of the enum specs were hit.
pub open spec fn value_hits(title: Seq<char>, specs: Seq<CategorySpecView>) -> nat
    decreases specs.len(),
{
    if specs.len() == 0 {
        0
    } else {
        value_hits(title, specs.drop_last()) + if specs.last().kind == SpecKind::Enum {
            count_true(hits_of(title, specs.last().allowed_values))
        } else {
            0
        }
    }
}

/// How well a title fits a category: an alias found counts 2, a value of an enum spec
/// (such as a model number) counts 1.
pub open spec fn score_of(title: Seq<char>, category: CategoryView) -> nat {
    2 * count_true(hits_of(title, category.aliases)) + value_hits(title, category.specs)
}

/// How well a title fits a category.
pub fn category_score(title: &str, category: &Category) -> (r: u128)
    ensures
        r == score_of(title@, category.deep_view()),
{
    let hits = word_hits(title, &category.aliases);
    let aliases: u128 = count_hits(&hits) as u128 * 2;
    let ghost all = category.specs.deep_view();
    let mut values: u128 = 0;
    let mut i: usize = 0;
    while i < category.specs.len()
        invariant
            i <= category.specs.len(),
            all == category.specs.deep_view(),
            values == value_hits(title@, all.take(i as int)),
            values <= i * 0xffff_ffff_ffff_ffff,
        decreases category.specs@.len() - i,
    {
        assert(all.take(i + 1).drop_last() =~= all.take(i as int));
        assert(all.take(i + 1).last() == category.specs@[i as int].deep_view());
        assert(i * 0xffff_ffff_ffff_ffff + 0xffff_ffff_ffff_ffff == (i + 1) * 0xffff_ffff_ffff_ffff)
            by (nonlinear_arith);
        assert((i + 1) * 0xffff_ffff_ffff_ffff <= 0xffff_ffff_ffff_ffff * 0xffff_ffff_ffff_ffff)
            by (nonlinear_arith)
            requires
                i + 1 <= 0xffff_ffff_ffff_ffff,
        ;
        if category.specs[i].kind == SpecKind::Enum {
            let hits = word_hits(title, &category.specs[i].allowed_values);
            values = values + count_hits(&hits) as u128;
        }
        i = i + 1;
    }
    assert(all.take(all.len() as int) =~= all);
    assert(i * 0xffff_ffff_ffff_ffff <= 0xffff_ffff_ffff_ffff * 0xffff_ffff_ffff_ffff)
        by (nonlinear_arith)
        requires
            i <= 0xffff_ffff_ffff_ffff,
    ;
    aliases + values
}

/// Among the first `n` categories, the place of the active one with the highest nonzero
/// score; the last of those that share it.
pub open spec fn best_of(active: Seq<bool>, scores: Seq<nat>, n: int) -> Option<int>
    decreases n,
{
    if n <= 0 {
        None
    } else {
        let before = best_of(active, scores, n - 1);
        if active[n - 1] && scores[n - 1] > 0 && (before matches Some(b) ==> scores[n - 1]
            >= scores[b]) {
            Some(n - 1)
        } else {
            before
        }
    }
}

/// Which categories are in use.
pub open spec fn active_of(categories: Seq<CategoryView>) -> Seq<bool> {
    Seq::new(categories.len(), |i: int| categories[i].status == CategoryStatus::Active)
}

/// The score of each category.
pub open spec fn scores_of(title: Seq<char>, categories: Seq<CategoryView>) -> Seq<nat> {
    Seq::new(categories.len(), |i: int| score_of(title, categories[i]))
}

/// The place of the category that a title belongs to.
pub open spec fn categorized(title: Seq<char>, categories: Seq<CategoryView>) -> Option<int> {
    best_of(active_of(categories), scores_of(title, categories), categories.len() as int)
}

/// `scores` as mathematical numbers.
pub open spec fn as_nats(scores: Seq<u128>) -> Seq<nat> {
    Seq::new(scores.len(), |i: int| scores[i] as nat)
}

/// The place of the active category with the highest nonzero score; the last of those
/// that share it.
pub fn best_category(categories: &[Category], scores: &Vec<u128>) -> (r: Option<usize>)
    requires
        scores@.len() == categories@.len(),
    ensures
        match r {
            Some(i) => best_of(
                active_of(categories.deep_view()),
                as_nats(scores@),
                categories@.len() as int,
            ) == Some(i as int) && i < categories@.len(),
            None => best_of(
                active_of(categories.deep_view()),
                as_nats(scores@),
                categories@.len() as int,
            ) is None,
        },
{
    let ghost active = active_of(categories.deep_view());
    let ghost nats = as_nats(scores@);
    let mut best: Option<usize> = None;
    let mut i: usize = 0;
    while i < categories.len()
        invariant
            i <= categories@.len() == scores@.len(),
            active == active_of(categories.deep_view()),
            nats == as_nats(scores@),
            match best {
                Some(b) => b < i && best_of(active, nats, i as int) == Some(b as int),
                None => best_of(active, nats, i as int) is None,
            },
        decreases categories@.len() - i,
    {
        assert(active[i as int] == (categories@[i as int].status == CategoryStatus::Active));
        if categories[i].status == CategoryStatus::Active && scores[i] > 0 {
            match best {
                Some(b) => {
                    if scores[i] >= scores[b] {
                        best = Some(i);
                    }
                },
                None => {
                    best = Some(i);
                },
            }
        }
        i = i + 1;
    }
    best
}

/// Which active category does this title belong to? The one with the best nonzero score.
pub fn categorize<'a>(title: &str, categories: &'a [Category]) -> (r: Option<&'a Category>)
    ensures
        match (r, categorized(title@, categories.deep_view())) {
            (Some(c), Some(i)) => 0 <= i < categories@.len() && *c == categories@[i],
            (None, None) => true,
            _ => false,
        },
{
    let mut scores: Vec<u128> = Vec::new();
    let mut i: usize = 0;
    let ghost all = scores_of(title@, categories.deep_view());
    while i < categories.len()
        invariant
            i <= categories@.len(),
            scores@.len() == i,
            all == scores_of(title@, categories.deep_view()),
            as_nats(scores@) == all.take(i as int),
        decreases categories@.len() - i,
    {
        let ghost before = scores@;
        scores.push(category_score(title, &categories[i]));
        i = i + 1;
        assert(as_nats(scores@) =~= all.take(i as int)) by {
            assert forall|j: int| 0 <= j < i implies as_nats(scores@)[j] == all[j] by {
                if j < i - 1 {
                    assert(as_nats(before)[j] == all.take(i - 1)[j]);
                }
            }
        }
    }
    assert(as_nats(scores@) =~= all);
    match best_category(categories, &scores) {
        Some(best) => Some(&categories[best]),
        None => None,
    }
}

/// Result of interpreting a free-text product search ("4TB HDD").
#[derive(Debug, PartialEq)]
pub struct Interpretation {
    /// The known category the text mapped to, when one did.
    pub category: Option<Category>,
    /// Constraints pre-derived from the text ("4TB" → capacity ≥ 4000).
    pub constraints: Vec<SpecFilter>,
    /// Search queries the future watch should feed the scrape rotation.
    pub queries: Vec<String>,
    /// LLM-drafted new category (status=proposed) when nothing known matched; persisted
    /// only after user review.
    pub proposal: Option<Category>,
    /// "heuristic" | "llm" | "none": how the answer was produced.
    pub via: String,
    /// Whether an LLM was available, which lets the UI explain a "none" honestly (unknown
    /// product or no LLM configured).
    pub llm_active: bool,
    /// Set when the LLM step was attempted and failed; shown to the user instead of
    /// silently pretending nothing matched.
    pub llm_error: Option<String>,
}

/// What `Interpretation` holds.
#[verifier::ext_equal]
pub struct InterpretationView {
    pub category: Option<CategoryView>,
    pub constraints: Seq<SpecFilterView>,
    pub queries: Seq<Seq<char>>,
    pub proposal: Option<CategoryView>,
    pub via: Seq<char>,
    pub llm_active: bool,
    pub llm_error: Option<Seq<char>>,
}

impl DeepView for Interpretation {
    type V = InterpretationView;

    open spec fn deep_view(&self) -> InterpretationView {
        InterpretationView {
            category: self.category.deep_view(),
            constraints: self.constraints.deep_view(),
            queries: self.queries.deep_view(),
            proposal: self.proposal.deep_view(),
            via: self.via@,
            llm_active: self.llm_active,
            llm_error: self.llm_error.deep_view(),
        }
    }
}

impl Clone for Interpretation {
    fn clone(&self) -> (r: Self)
        ensures
            r.deep_view() == self.deep_view(),
    {
        let constraints = self.constraints.clone();
        assert(constraints.deep_view() =~= self.constraints.deep_view());
        let queries = self.queries.clone();
        assert(queries.deep_view() =~= self.queries.deep_view());
        Interpretation {
            category: self.category.clone(),
            constraints,
            queries,
            proposal: self.proposal.clone(),
            via: self.via.clone(),
            llm_active: self.llm_active,
            llm_error: self.llm_error.clone(),
        }
    }
}

/// The filter that a typed value asks for: a number is a floor, a text or a yes exact.
pub open spec fn asked(key: Seq<char>, value: SpecValueView) -> SpecFilterView {
    match value {
        SpecValueView::Number(n) => SpecFilterView::Min { key, value: ReadingView::Finite(n) },
        SpecValueView::Text(t) => SpecFilterView::Eq { key, value: t },
        SpecValueView::Bool(b) => SpecFilterView::Is { key, value: b },
    }
}

/// The filters that typed values ask for; the condition asks for none.
pub open spec fn asked_of(values: Seq<(Seq<char>, SpecValueView)>) -> Seq<SpecFilterView>
    decreases values.len(),
{
    if values.len() == 0 {
        Seq::empty()
    } else {
        let before = asked_of(values.drop_last());
        if values.last().0 == "condition"@ {
            before
        } else {
            before.push(asked(values.last().0, values.last().1))
        }
    }
}

/// The filters that typed values ask for: typing "hdd occasion" does not lock the
/// condition.
pub fn constraints_of(values: &Specs) -> (r: Vec<SpecFilter>)
    ensures
        r.deep_view() == asked_of(values.deep_view()),
{
    let ghost all = values.deep_view();
    let mut out: Vec<SpecFilter> = Vec::new();
    let mut i: usize = 0;
    assert(out.deep_view() =~= Seq::empty());
    while i < values.len()
        invariant
            i <= all.len(),
            all == values.deep_view(),
            out.deep_view() == asked_of(all.take(i as int)),
        decreases all.len() - i,
    {
        let ghost before = out.deep_view();
        let (key, value) = values.entry(i);
        assert(all.take(i + 1).drop_last() =~= all.take(i as int));
        assert(all.take(i + 1).last() == all[i as int]);
        if !same(key, "condition") {
            let filter = match value {
                SpecValue::Number(n) => SpecFilter::Min {
                    key: key.to_owned(),
                    value: Reading::Finite(n.clone()),
                },
                SpecValue::Text(t) => SpecFilter::Eq { key: key.to_owned(), value: t.clone() },
                SpecValue::Bool(b) => SpecFilter::Is { key: key.to_owned(), value: *b },
            };
            out.push(filter);
            assert(out.deep_view() =~= before.push(filter.deep_view()));
        }
        i = i + 1;
    }
    assert(all.take(all.len() as int) =~= all);
    out
}

/// Instant interpretation: categorize the text itself, then turn the values it carries
/// into filters ("4TB HDD" means at least 4 TB).
pub fn interpret_heuristic<'a>(text: &str, categories: &'a [Category]) -> (r: Option<
    (&'a Category, Vec<SpecFilter>),
>)
    ensures
        match (r, categorized(text@, categories.deep_view())) {
            (Some(found), Some(i)) => 0 <= i < categories@.len() && *found.0 == categories@[i]
                && found.1.deep_view() == asked_of(
                specs_of(text@, categories.deep_view()[i].specs),
            ),
            (None, None) => true,
            _ => false,
        },
{
    match categorize(text, categories) {
        Some(category) => {
            let values = extract_specs(text, category);
            Some((category, constraints_of(&values)))
        },
        None => None,
    }
}

/// No filters are met by any values.
pub proof fn no_filters_always_match(specs: Seq<(Seq<char>, SpecValueView)>)
    ensures
        all_met(Seq::empty(), specs),
{
}

/// A filter on a key that was never extracted is never met.
pub proof fn missing_key_never_matches(
    filters: Seq<SpecFilterView>,
    specs: Seq<(Seq<char>, SpecValueView)>,
    i: int,
)
    requires
        0 <= i < filters.len(),
        lookup(specs, filters[i].key()) is None,
    ensures
        !all_met(filters, specs),
{
}

/// A higher floor and a lower ceiling let no more through.
pub proof fn tighter_bounds_let_no_more_through(
    key: Seq<char>,
    low: ReadingView,
    high: ReadingView,
    value: SpecValueView,
)
    requires
        bounded_by(low, high),
    ensures
        (SpecFilterView::Min { key, value: high }).accepts(value) ==> (SpecFilterView::Min {
            key,
            value: low,
        }).accepts(value),
        (SpecFilterView::Max { key, value: low }).accepts(value) ==> (SpecFilterView::Max {
            key,
            value: high,
        }).accepts(value),
{
    if let SpecValueView::Number(n) = value {
        let n = ReadingView::Finite(n);
        if bounded_by(high, n) {
            bounds_chain(low, high, n);
        }
        if bounded_by(n, low) {
            bounds_chain(n, low, high);
        }
    }
}

/// Filters hold together exactly when each part of them holds: adding a filter never
/// lets more through.
pub proof fn filters_compose(
    a: Seq<SpecFilterView>,
    b: Seq<SpecFilterView>,
    specs: Seq<(Seq<char>, SpecValueView)>,
)
    ensures
        all_met(a + b, specs) == (all_met(a, specs) && all_met(b, specs)),
{
    let both = a + b;
    if all_met(both, specs) {
        assert forall|i: int| 0 <= i < a.len() implies match lookup(
            specs,
            (#[trigger] a[i]).key(),
        ) {
            Some(v) => a[i].accepts(v),
            None => false,
        } by {
            assert(both[i] == a[i]);
        }
        assert forall|i: int| 0 <= i < b.len() implies match lookup(
            specs,
            (#[trigger] b[i]).key(),
        ) {
            Some(v) => b[i].accepts(v),
            None => false,
        } by {
            assert(both[a.len() + i] == b[i]);
        }
    }
}

/// What the search for the best category returns is active, has a nonzero score, and
/// none of the active categories scores more, nor any that comes later as much; it
/// returns none only where no active category scores.
pub proof fn best_is_best(active: Seq<bool>, scores: Seq<nat>, n: int)
    requires
        0 <= n <= active.len(),
        active.len() == scores.len(),
    ensures
        match best_of(active, scores, n) {
            Some(i) => {
                &&& 0 <= i < n
                &&& active[i]
                &&& scores[i] > 0
                &&& forall|j: int| 0 <= j < n && active[j] ==> #[trigger] scores[j] <= scores[i]
                &&& forall|j: int| i < j < n && active[j] ==> #[trigger] scores[j] < scores[i]
            },
            None => forall|j: int| 0 <= j < n && active[j] ==> #[trigger] scores[j] == 0,
        },
    decreases n,
{
    if n > 0 {
        best_is_best(active, scores, n - 1);
    }
}

/// A category that is only proposed never takes a title.
pub proof fn proposed_never_categorize(title: Seq<char>, categories: Seq<CategoryView>)
    ensures
        categorized(title, categories) matches Some(i) ==> 0 <= i < categories.len()
            && categories[i].status == CategoryStatus::Active && score_of(title, categories[i]) > 0,
{
    best_is_best(
        active_of(categories),
        scores_of(title, categories),
        categories.len() as int,
    );
}

/// A value that the text itself gives meets the filter that it asks for.
pub proof fn typed_values_meet_their_filters(key: Seq<char>, value: SpecValueView)
    ensures
        asked(key, value).key() == key,
        asked(key, value).accepts(value),
{
    match value {
        SpecValueView::Number(n) => {},
        SpecValueView::Text(t) => {},
        SpecValueView::Bool(b) => {},
    }
}

/// Hits are counted one by one.
pub proof fn hits_add_up(a: Seq<bool>, b: Seq<bool>)
    ensures
        count_true(a + b) == count_true(a) + count_true(b),
        a.len() == 0 ==> count_true(a) == 0,
        a.len() == 1 ==> count_true(a) == if a[0] {
            1nat
        } else {
            0
        },
    decreases b.len(),
{
    if b.len() == 0 {
        assert(a + b =~= a);
    } else {
        hits_add_up(a, b.drop_last());
        assert((a + b).drop_last() =~= a + b.drop_last());
    }
    if a.len() == 1 {
        assert(count_true(a.drop_last()) == 0);
    }
}

/// Some hit is counted exactly where there is one.
pub proof fn some_hit(hits: Seq<bool>)
    ensures
        count_true(hits) > 0 <==> hits.contains(true),
    decreases hits.len(),
{
    if hits.len() > 0 {
        let rest = hits.drop_last();
        some_hit(rest);
        if rest.contains(true) {
            let i = choose|i: int| 0 <= i < rest.len() && rest[i] == true;
            assert(hits[i] == true);
        }
        if hits.last() {
            assert(hits[hits.len() - 1] == true);
        } else if hits.contains(true) {
            let i = choose|i: int| 0 <= i < hits.len() && hits[i] == true;
            assert(rest[i] == true);
        }
    }
}

proof fn first_true_is_first(hits: Seq<bool>)
    ensures
        0 <= first_true(hits) <= hits.len(),
        first_true(hits) < hits.len() ==> hits[first_true(hits)],
        forall|j: int| 0 <= j < first_true(hits) ==> !#[trigger] hits[j],
    decreases hits.len(),
{
    if hits.len() > 0 && !hits[0] {
        let rest = hits.drop_first();
        first_true_is_first(rest);
        assert forall|j: int| 0 <= j < first_true(hits) implies !#[trigger] hits[j] by {
            if j > 0 {
                assert(rest[j - 1] == hits[j]);
            }
        }
    }
}

/// The first value that was hit is taken; none is taken exactly where none was hit.
pub proof fn the_first_hit_is_taken(values: Seq<Seq<char>>, hits: Seq<bool>)
    requires
        hits.len() == values.len(),
    ensures
        match first_hit(values, hits) {
            Some(v) => exists|i: int|
                0 <= i < hits.len() && #[trigger] hits[i] && values[i] == v && forall|j: int|
                    0 <= j < i ==> !#[trigger] hits[j],
            None => !hits.contains(true),
        },
{
    first_true_is_first(hits);
    let i = first_true(hits);
    if i < hits.len() {
        assert(hits[i] && values[i] == first_hit(values, hits)->0);
    }
}

/// The words kept are the pieces without the white space around them, but for those of
/// which nothing is left.
pub proof fn kept_words_are_trimmed(pieces: Seq<Seq<char>>)
    ensures
        kept_words(pieces) == pieces.map_values(|p: Seq<char>| trimmed(p)).filter(
            |w: Seq<char>| w.len() > 0,
        ),
    decreases pieces.len(),
{
    reveal(Seq::filter);
    let f = |p: Seq<char>| trimmed(p);
    if pieces.len() > 0 {
        kept_words_are_trimmed(pieces.drop_last());
        assert(pieces.map_values(f).drop_last() =~= pieces.drop_last().map_values(f));
        assert(pieces.map_values(f).last() == trimmed(pieces.last()));
    }
    assert(kept_words(pieces) =~= pieces.map_values(f).filter(|w: Seq<char>| w.len() > 0));
}

/// A list is split at its commas, and only there.
pub proof fn lists_are_split_at_commas(list: Seq<char>)
    ensures
        split_on(list, ',').len() > 0,
        joined(split_on(list, ','), seq![',']) == list,
        forall|i: int|
            0 <= i < split_on(list, ',').len() ==> !(#[trigger] split_on(list, ',')[i]).contains(
                ',',
            ),
        listed_words(list) == split_on(list, ',').map_values(|p: Seq<char>| trimmed(p)).filter(
            |w: Seq<char>| w.len() > 0,
        ),
{
    pieces_make_the_text(list, ',');
    kept_words_are_trimmed(split_on(list, ','));
}

/// A number spec takes its unit's number from the title: in gigabytes the capacity, in any
/// other unit the number, with a decimal point or comma, that the unit follows. A spec
/// without a unit takes none.
pub proof fn numbers_come_with_their_unit(title: Seq<char>, unit: Seq<char>)
    ensures
        number_in(title, None) is None,
        number_in(title, Some("GB"@)) is Some <==> capacity_of(title) is Some,
        capacity_of(title) matches Some(n) ==> number_in(title, Some("GB"@)) == Some(
            canonical(n as int, 0),
        ),
        unit != "GB"@ ==> number_in(title, Some(unit)) == match group_of(
            regex_captures("(?i)(\\d+(?:[.,]\\d+)?)\\s*"@ + escaped(unit) + "\\b"@, title),
            1,
        ) {
            Some(number) => decimal_of(with_replaced(number, ',', seq!['.'])),
            None => None,
        },
{
    reveal_strlit(".");
    assert("."@ =~= seq!['.']);
}

/// A spec takes a value of its own kind: a number spec the number in its unit, an enum spec
/// the first of its values that stands in the title, a boolean spec a yes where one of the
/// words of its hint occurs in the title in any case, and never a no.
pub proof fn specs_take_their_kind(title: Seq<char>, spec: CategorySpecView)
    ensures
        spec.kind == SpecKind::Number ==> match number_in(title, spec.unit) {
            Some(n) => value_in(title, spec) == Some(SpecValueView::Number(n)),
            None => value_in(title, spec) is None,
        },
        spec.kind == SpecKind::Enum ==> match value_in(title, spec) {
            Some(v) => exists|i: int|
                0 <= i < spec.allowed_values.len() && bounded_in(
                    title,
                    #[trigger] spec.allowed_values[i],
                ) && v == SpecValueView::Text(spec.allowed_values[i]) && forall|j: int|
                    0 <= j < i ==> !bounded_in(title, #[trigger] spec.allowed_values[j]),
            None => forall|i: int|
                0 <= i < spec.allowed_values.len() ==> !bounded_in(
                    title,
                    #[trigger] spec.allowed_values[i],
                ),
        },
        spec.kind == SpecKind::Boolean ==> match value_in(title, spec) {
            Some(v) => v == SpecValueView::Bool(true) && spec.extraction_hint is Some && exists|
                i: int,
            |
                0 <= i < listed_words(spec.extraction_hint->0).len() && occurs(
                    lowercased(title),
                    lowercased(#[trigger] listed_words(spec.extraction_hint->0)[i]),
                ),
            None => spec.extraction_hint is Some ==> forall|i: int|
                0 <= i < listed_words(spec.extraction_hint->0).len() ==> !occurs(
                    lowercased(title),
                    lowercased(#[trigger] listed_words(spec.extraction_hint->0)[i]),
                ),
        },
{
    if spec.kind == SpecKind::Enum {
        let hits = hits_of(title, spec.allowed_values);
        first_true_is_first(hits);
        let i = first_true(hits);
        if i < hits.len() {
            assert(bounded_in(title, spec.allowed_values[i]));
            assert forall|j: int| 0 <= j < i implies !bounded_in(
                title,
                #[trigger] spec.allowed_values[j],
            ) by {
                assert(!hits[j]);
            }
        } else {
            assert forall|j: int| 0 <= j < spec.allowed_values.len() implies !bounded_in(
                title,
                #[trigger] spec.allowed_values[j],
            ) by {
                assert(!hits[j]);
            }
        }
    }
    if spec.kind == SpecKind::Boolean && spec.extraction_hint is Some {
        let words = listed_words(spec.extraction_hint->0);
        let small = lowered(words);
        if any_in(lowercased(title), small) {
            let i = choose|i: int|
                0 <= i < small.len() && occurs(lowercased(title), #[trigger] small[i]);
            assert(small[i] == lowercased(words[i]));
        } else {
            assert forall|i: int| 0 <= i < words.len() implies !occurs(
                lowercased(title),
                lowercased(#[trigger] words[i]),
            ) by {
                assert(small[i] == lowercased(words[i]));
            }
        }
    }
}

/// Where no two specs share a key, what was found for each stands under its key, and
/// nothing stands under any other key.
pub proof fn values_stand_under_their_keys(
    specs: Seq<CategorySpecView>,
    found: Seq<Option<SpecValueView>>,
    key: Seq<char>,
)
    requires
        found.len() == specs.len(),
        forall|i: int, j: int|
            0 <= i < j < specs.len() ==> (#[trigger] specs[i]).key != (#[trigger] specs[j]).key,
    ensures
        forall|i: int|
            0 <= i < specs.len() && (#[trigger] specs[i]).key == key ==> lookup(
                gathered(specs, found),
                key,
            ) == found[i],
        (forall|i: int| 0 <= i < specs.len() ==> (#[trigger] specs[i]).key != key) ==> lookup(
            gathered(specs, found),
            key,
        ) is None,
        keys_differ(gathered(specs, found)),
    decreases specs.len(),
{
    if specs.len() > 0 {
        let rest = specs.drop_last();
        let seen = found.drop_last();
        assert forall|i: int, j: int| 0 <= i < j < rest.len() implies (#[trigger] rest[i]).key != (
        #[trigger] rest[j]).key by {
            assert(rest[i] == specs[i] && rest[j] == specs[j]);
        }
        values_stand_under_their_keys(rest, seen, key);
        let n = specs.len() - 1;
        if let Some(v) = found.last() {
            put_then_lookup(gathered(rest, seen), specs.last().key, v, key);
        }
        assert forall|i: int| 0 <= i < specs.len() && (#[trigger] specs[i]).key == key implies lookup(
            gathered(specs, found),
            key,
        ) == found[i] by {
            if i < n {
                assert(rest[i] == specs[i] && seen[i] == found[i]);
                assert(specs[n].key != key);
            } else {
                assert forall|j: int| 0 <= j < rest.len() implies (#[trigger] rest[j]).key != key by {
                    assert(rest[j] == specs[j]);
                    assert(specs[j].key != specs[n].key);
                }
                assert(lookup(gathered(rest, seen), key) is None);
            }
        }
        if forall|i: int| 0 <= i < specs.len() ==> (#[trigger] specs[i]).key != key {
            assert forall|j: int| 0 <= j < rest.len() implies (#[trigger] rest[j]).key != key by {
                assert(rest[j] == specs[j]);
            }
            assert(specs[n].key != key);
        }
    }
}

/// The condition of a title stands under "condition", unless a spec found a value there;
/// no other key is touched.
pub proof fn the_condition_fills_a_gap(
    values: Seq<(Seq<char>, SpecValueView)>,
    condition: Option<Seq<char>>,
    key: Seq<char>,
)
    ensures
        key != "condition"@ ==> lookup(with_condition(values, condition), key) == lookup(values, key),
        lookup(with_condition(values, condition), "condition"@) == match (
            lookup(values, "condition"@),
            condition,
        ) {
            (Some(v), _) => Some(v),
            (None, Some(c)) => Some(SpecValueView::Text(c)),
            (None, None) => None,
        },
{
    if let Some(c) = condition {
        put_then_lookup(values, "condition"@, SpecValueView::Text(c), key);
        put_then_lookup(values, "condition"@, SpecValueView::Text(c), "condition"@);
    }
}

/// The values of a title: what each spec finds in it, under its key, and its condition.
pub proof fn titles_give_their_values(title: Seq<char>, specs: Seq<CategorySpecView>, i: int)
    requires
        0 <= i < specs.len(),
        specs[i].key != "condition"@,
        forall|a: int, b: int|
            0 <= a < b < specs.len() ==> (#[trigger] specs[a]).key != (#[trigger] specs[b]).key,
    ensures
        lookup(specs_of(title, specs), specs[i].key) == value_in(title, specs[i]),
        (forall|j: int| 0 <= j < specs.len() ==> (#[trigger] specs[j]).key != "condition"@)
            ==> lookup(specs_of(title, specs), "condition"@) == match attributes_of(
            title,
        ).condition {
            Some(c) => Some(SpecValueView::Text(c)),
            None => None,
        },
{
    let found = values_in(title, specs);
    values_stand_under_their_keys(specs, found, specs[i].key);
    values_stand_under_their_keys(specs, found, "condition"@);
    the_condition_fills_a_gap(
        gathered(specs, found),
        attributes_of(title).condition,
        specs[i].key,
    );
}

/// A further alias adds two to a category's score where it stands in the title, a further
/// enum spec one for each of its values that does, and a spec of another kind nothing.
pub proof fn scores_add_up(
    title: Seq<char>,
    category: CategoryView,
    alias: Seq<char>,
    spec: CategorySpecView,
)
    ensures
        score_of(title, CategoryView { aliases: category.aliases.push(alias), ..category })
            == score_of(title, category) + if bounded_in(title, alias) {
            2nat
        } else {
            0
        },
        score_of(title, CategoryView { specs: category.specs.push(spec), ..category }) == score_of(
            title,
            category,
        ) + if spec.kind == SpecKind::Enum {
            count_true(hits_of(title, spec.allowed_values))
        } else {
            0
        },
        category.aliases.len() == 0 && category.specs.len() == 0 ==> score_of(title, category) == 0,
{
    let more = hits_of(title, category.aliases.push(alias));
    assert(more =~= hits_of(title, category.aliases).push(bounded_in(title, alias)));
    assert(more.drop_last() =~= hits_of(title, category.aliases));
    assert(category.specs.push(spec).drop_last() =~= category.specs);
}

/// A title goes to the active category with the highest score, the last of those that
/// share it; it goes to none exactly where no active category scores.
pub proof fn titles_go_to_the_best(title: Seq<char>, categories: Seq<CategoryView>)
    ensures
        match categorized(title, categories) {
            Some(i) => {
                &&& 0 <= i < categories.len()
                &&& categories[i].status == CategoryStatus::Active
                &&& score_of(title, categories[i]) > 0
                &&& forall|j: int|
                    0 <= j < categories.len() && (#[trigger] categories[j]).status
                        == CategoryStatus::Active ==> score_of(title, categories[j]) <= score_of(
                        title,
                        categories[i],
                    )
                &&& forall|j: int|
                    i < j < categories.len() && (#[trigger] categories[j]).status
                        == CategoryStatus::Active ==> score_of(title, categories[j]) < score_of(
                        title,
                        categories[i],
                    )
            },
            None => forall|j: int|
                0 <= j < categories.len() && (#[trigger] categories[j]).status
                    == CategoryStatus::Active ==> score_of(title, categories[j]) == 0,
        },
{
    let active = active_of(categories);
    let scores = scores_of(title, categories);
    best_is_best(active, scores, categories.len() as int);
    assert forall|j: int| 0 <= j < categories.len() implies active[j] == (
    #[trigger] categories[j].status == CategoryStatus::Active) && scores[j] == score_of(
        title,
        categories[j],
    ) by {}
}

/// What each filter lets through, and that it lets nothing of another kind through.
pub proof fn filters_go_by_kind(key: Seq<char>, bound: ReadingView, text: Seq<char>, values: Seq<
    Seq<char>,
>, yes: bool, value: SpecValueView)
    ensures
        (SpecFilterView::Min { key, value: bound }).accepts(value) == (value is Number
            && bounded_by(bound, ReadingView::Finite(value->Number_0))),
        (SpecFilterView::Max { key, value: bound }).accepts(value) == (value is Number
            && bounded_by(ReadingView::Finite(value->Number_0), bound)),
        (SpecFilterView::Eq { key, value: text }).accepts(value) == (value is Text
            && same_ignoring_ascii_case(value->Text_0, text)),
        (SpecFilterView::AnyOf { key, values }).accepts(value) == (value is Text && exists|i: int|
            0 <= i < values.len() && same_ignoring_ascii_case(value->Text_0, #[trigger] values[i])),
        (SpecFilterView::Is { key, value: yes }).accepts(value) == (value == SpecValueView::Bool(
            yes,
        )),
{
}

/// A further filter lets values through exactly where the others do and one stands under
/// its key that it accepts.
pub proof fn each_filter_counts(
    filters: Seq<SpecFilterView>,
    filter: SpecFilterView,
    specs: Seq<(Seq<char>, SpecValueView)>,
)
    ensures
        all_met(filters.push(filter), specs) == (all_met(filters, specs) && lookup(
            specs,
            filter.key(),
        ) is Some && filter.accepts(lookup(specs, filter.key())->0)),
{
    let more = filters.push(filter);
    if all_met(more, specs) {
        assert forall|i: int| 0 <= i < filters.len() implies match lookup(
            specs,
            (#[trigger] filters[i]).key(),
        ) {
            Some(v) => filters[i].accepts(v),
            None => false,
        } by {
            assert(more[i] == filters[i]);
        }
        assert(more[filters.len() as int] == filter);
    }
}

/// A typed number is a floor, a typed text or yes an exact demand.
pub proof fn typed_values_become_demands(key: Seq<char>, value: SpecValueView)
    ensures
        value matches SpecValueView::Number(n) ==> asked(key, value) == (SpecFilterView::Min {
            key,
            value: ReadingView::Finite(n),
        }),
        value matches SpecValueView::Text(t) ==> asked(key, value) == (SpecFilterView::Eq {
            key,
            value: t,
        }),
        value matches SpecValueView::Bool(b) ==> asked(key, value) == (SpecFilterView::Is {
            key,
            value: b,
        }),
{
}

/// Every typed value but the condition becomes a demand, in order.
pub proof fn all_but_the_condition_is_asked(values: Seq<(Seq<char>, SpecValueView)>)
    ensures
        asked_of(values) == values.filter(
            |v: (Seq<char>, SpecValueView)| v.0 != "condition"@,
        ).map_values(|v: (Seq<char>, SpecValueView)| asked(v.0, v.1)),
    decreases values.len(),
{
    reveal(Seq::filter);
    let p = |v: (Seq<char>, SpecValueView)| v.0 != "condition"@;
    let f = |v: (Seq<char>, SpecValueView)| asked(v.0, v.1);
    if values.len() > 0 {
        let rest = values.drop_last();
        all_but_the_condition_is_asked(rest);
        if p(values.last()) {
            assert(rest.filter(p).push(values.last()).map_values(f) =~= rest.filter(p).map_values(
                f,
            ).push(asked(values.last().0, values.last().1)));
        }
    }
    assert(asked_of(values) =~= values.filter(p).map_values(f));
}

} // verus!
