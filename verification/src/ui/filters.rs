//! The controls of the spec filters: what is typed and checked, and the filters it means.

use vstd::prelude::*;
use crate::attributes::{number_of, read_number};
use crate::category::{SpecFilter, SpecFilterView};
use crate::decimal::{
    canonical, canonical_is_short, canonical_keeps_value, plain_text, pow10_of_19, rounded,
    whole_number_text, Decimal,
};
use crate::pipeline::holds_text;
use crate::reading::{
    reading_text, told_as_itself, units_of, word_text, writable, written_reading_reads_back,
    Reading, ReadingView,
};
use crate::table::{find, lookup, put, put_then_lookup, with_entry};
use crate::text::{
    i64_text, int_text, is_space, nat_text, push_text, same, trim, trimmed, with_replaced,
};

verus! {

/// A number as a form field shows it: a whole one as an integer.
pub open spec fn number_text(n: ReadingView) -> Seq<char> {
    match n {
        ReadingView::Finite(d) => if d.1 >= 0 {
            int_text(units_of(n, 0) as int)
        } else {
            plain_text(d)
        },
        _ => word_text(n),
    }
}

/// A number as a form field shows it: a whole one as an integer.
pub fn trim_number(n: &Reading) -> (r: String)
    ensures
        r@ == number_text(n.deep_view()),
{
    match n {
        Reading::Finite(d) => if d.is_whole() {
            i64_text(n.round_shifted(0))
        } else {
            d.to_text()
        },
        _ => n.to_text(),
    }
}

/// The amount in cents that a typed price means; none where nothing readable is typed.
pub open spec fn typed_cents(input: Seq<char>) -> Option<i64> {
    let t = trimmed(input);
    match number_of(t) {
        Some(n) => if t.len() > 0 {
            Some(units_of(n, 2))
        } else {
            None
        },
        None => None,
    }
}

/// The amount in cents that a typed price means; none where nothing readable is typed.
pub fn parse_euros(input: &str) -> (r: Option<i64>)
    ensures
        r == typed_cents(input@),
{
    let t = trim(input);
    if t.as_str().is_empty() {
        return None;
    }
    match read_number(t.as_str()) {
        Some(n) => Some(n.round_shifted(2)),
        None => None,
    }
}

/// An amount of cents as a form field shows it.
pub open spec fn price_field(cents: Option<i64>) -> Seq<char> {
    match cents {
        Some(c) => number_text(ReadingView::Finite(canonical(c as int, -2))),
        None => Seq::empty(),
    }
}

/// An amount of cents as a form field shows it.
pub fn price_input(cents: Option<i64>) -> (r: String)
    ensures
        r@ == price_field(cents),
{
    match cents {
        Some(c) => trim_number(&Reading::Finite(Decimal::from_scaled(c, -2))),
        None => String::new(),
    }
}

/// The state of the controls: by the key of the spec, what is typed as a bound, which
/// values are checked (none means any), and which switches are on.
#[derive(Debug, PartialEq)]
pub struct FilterState {
    pub num_min: Vec<(String, String)>,
    pub num_max: Vec<(String, String)>,
    pub enums: Vec<(String, Vec<String>)>,
    pub bools: Vec<(String, bool)>,
}

/// What `FilterState` holds.
#[verifier::ext_equal]
pub struct FilterStateView {
    pub num_min: Seq<(Seq<char>, Seq<char>)>,
    pub num_max: Seq<(Seq<char>, Seq<char>)>,
    pub enums: Seq<(Seq<char>, Seq<Seq<char>>)>,
    pub bools: Seq<(Seq<char>, bool)>,
}

impl DeepView for FilterState {
    type V = FilterStateView;

    open spec fn deep_view(&self) -> FilterStateView {
        FilterStateView {
            num_min: self.num_min.deep_view(),
            num_max: self.num_max.deep_view(),
            enums: self.enums.deep_view(),
            bools: self.bools.deep_view(),
        }
    }
}

/// Controls with nothing typed or checked.
pub open spec fn untouched() -> FilterStateView {
    FilterStateView {
        num_min: Seq::empty(),
        num_max: Seq::empty(),
        enums: Seq::empty(),
        bools: Seq::empty(),
    }
}

/// The controls that show one filter more.
pub open spec fn with_filter(state: FilterStateView, filter: SpecFilterView) -> FilterStateView {
    match filter {
        SpecFilterView::Min { key, value } => FilterStateView {
            num_min: put(state.num_min, key, number_text(value)),
            ..state
        },
        SpecFilterView::Max { key, value } => FilterStateView {
            num_max: put(state.num_max, key, number_text(value)),
            ..state
        },
        SpecFilterView::Eq { key, value } => FilterStateView {
            enums: put(state.enums, key, seq![value]),
            ..state
        },
        SpecFilterView::AnyOf { key, values } => FilterStateView {
            enums: put(state.enums, key, values),
            ..state
        },
        SpecFilterView::Is { key, value } => FilterStateView {
            bools: put(state.bools, key, value),
            ..state
        },
    }
}

/// The controls that show `filters`.
pub open spec fn shown(filters: Seq<SpecFilterView>) -> FilterStateView
    decreases filters.len(),
{
    if filters.len() == 0 {
        untouched()
    } else {
        with_filter(shown(filters.drop_last()), filters.last())
    }
}

/// The floors that are typed, without those that are no number.
pub open spec fn typed_floors(fields: Seq<(Seq<char>, Seq<char>)>) -> Seq<SpecFilterView>
    decreases fields.len(),
{
    if fields.len() == 0 {
        Seq::empty()
    } else {
        let before = typed_floors(fields.drop_last());
        match number_of(trimmed(fields.last().1)) {
            Some(value) => before.push(SpecFilterView::Min { key: fields.last().0, value }),
            None => before,
        }
    }
}

/// The ceilings that are typed, without those that are no number.
pub open spec fn typed_ceilings(fields: Seq<(Seq<char>, Seq<char>)>) -> Seq<SpecFilterView>
    decreases fields.len(),
{
    if fields.len() == 0 {
        Seq::empty()
    } else {
        let before = typed_ceilings(fields.drop_last());
        match number_of(trimmed(fields.last().1)) {
            Some(value) => before.push(SpecFilterView::Max { key: fields.last().0, value }),
            None => before,
        }
    }
}

/// The filters that the checked values of each spec mean: one value asks for it, several
/// for any of them, none for nothing.
pub open spec fn checked_values(boxes: Seq<(Seq<char>, Seq<Seq<char>>)>) -> Seq<SpecFilterView>
    decreases boxes.len(),
{
    if boxes.len() == 0 {
        Seq::empty()
    } else {
        let before = checked_values(boxes.drop_last());
        let (key, values) = boxes.last();
        if values.len() == 0 {
            before
        } else if values.len() == 1 {
            before.push(SpecFilterView::Eq { key, value: values[0] })
        } else {
            before.push(SpecFilterView::AnyOf { key, values })
        }
    }
}

/// The filters that the switches mean: one that is off asks for nothing.
pub open spec fn switched_on(switches: Seq<(Seq<char>, bool)>) -> Seq<SpecFilterView>
    decreases switches.len(),
{
    if switches.len() == 0 {
        Seq::empty()
    } else {
        let before = switched_on(switches.drop_last());
        if switches.last().1 {
            before.push(SpecFilterView::Is { key: switches.last().0, value: true })
        } else {
            before
        }
    }
}

/// The filters that the controls mean.
pub open spec fn meant(state: FilterStateView) -> Seq<SpecFilterView> {
    typed_floors(state.num_min) + typed_ceilings(state.num_max) + checked_values(state.enums)
        + switched_on(state.bools)
}

/// `values` without `value`.
pub open spec fn without(values: Seq<Seq<char>>, value: Seq<char>) -> Seq<Seq<char>>
    decreases values.len(),
{
    if values.len() == 0 {
        Seq::empty()
    } else {
        let before = without(values.drop_last(), value);
        if values.last() == value {
            before
        } else {
            before.push(values.last())
        }
    }
}

/// The values checked for a spec.
pub open spec fn checked_for(state: FilterStateView, key: Seq<char>) -> Seq<Seq<char>> {
    match lookup(state.enums, key) {
        Some(values) => values,
        None => Seq::empty(),
    }
}

/// The values checked for a spec once one of them was checked or unchecked.
pub open spec fn toggled(values: Seq<Seq<char>>, value: Seq<char>, on: bool) -> Seq<Seq<char>> {
    if on {
        if values.contains(value) {
            values
        } else {
            values.push(value)
        }
    } else {
        without(values, value)
    }
}

fn floors_of(fields: &Vec<(String, String)>) -> (r: Vec<SpecFilter>)
    ensures
        r.deep_view() == typed_floors(fields.deep_view()),
{
    let ghost all = fields.deep_view();
    let mut out: Vec<SpecFilter> = Vec::new();
    let mut i: usize = 0;
    assert(out.deep_view() =~= Seq::empty());
    while i < fields.len()
        invariant
            i <= fields@.len(),
            all == fields.deep_view(),
            out.deep_view() == typed_floors(all.take(i as int)),
        decreases fields@.len() - i,
    {
        let ghost before = out.deep_view();
        assert(all.take(i + 1).drop_last() =~= all.take(i as int));
        assert(all.take(i + 1).last() == fields@[i as int].deep_view());
        if let Some(value) = read_number(trim(fields[i].1.as_str()).as_str()) {
            let filter = SpecFilter::Min { key: fields[i].0.clone(), value };
            out.push(filter);
            assert(out.deep_view() =~= before.push(filter.deep_view()));
        }
        i = i + 1;
    }
    assert(all.take(all.len() as int) =~= all);
    out
}

fn ceilings_of(fields: &Vec<(String, String)>) -> (r: Vec<SpecFilter>)
    ensures
        r.deep_view() == typed_ceilings(fields.deep_view()),
{
    let ghost all = fields.deep_view();
    let mut out: Vec<SpecFilter> = Vec::new();
    let mut i: usize = 0;
    assert(out.deep_view() =~= Seq::empty());
    while i < fields.len()
        invariant
            i <= fields@.len(),
            all == fields.deep_view(),
            out.deep_view() == typed_ceilings(all.take(i as int)),
        decreases fields@.len() - i,
    {
        let ghost before = out.deep_view();
        assert(all.take(i + 1).drop_last() =~= all.take(i as int));
        assert(all.take(i + 1).last() == fields@[i as int].deep_view());
        if let Some(value) = read_number(trim(fields[i].1.as_str()).as_str()) {
            let filter = SpecFilter::Max { key: fields[i].0.clone(), value };
            out.push(filter);
            assert(out.deep_view() =~= before.push(filter.deep_view()));
        }
        i = i + 1;
    }
    assert(all.take(all.len() as int) =~= all);
    out
}

fn values_of(boxes: &Vec<(String, Vec<String>)>) -> (r: Vec<SpecFilter>)
    ensures
        r.deep_view() == checked_values(boxes.deep_view()),
{
    let ghost all = boxes.deep_view();
    let mut out: Vec<SpecFilter> = Vec::new();
    let mut i: usize = 0;
    assert(out.deep_view() =~= Seq::empty());
    while i < boxes.len()
        invariant
            i <= boxes@.len(),
            all == boxes.deep_view(),
            out.deep_view() == checked_values(all.take(i as int)),
        decreases boxes@.len() - i,
    {
        let ghost before = out.deep_view();
        assert(all.take(i + 1).drop_last() =~= all.take(i as int));
        assert(all.take(i + 1).last() == boxes@[i as int].deep_view());
        let values = &boxes[i].1;
        assert(values.deep_view().len() == values@.len());
        if values.len() == 1 {
            let filter = SpecFilter::Eq { key: boxes[i].0.clone(), value: values[0].clone() };
            out.push(filter);
            assert(out.deep_view() =~= before.push(filter.deep_view()));
        } else if values.len() > 1 {
            let copy = values.clone();
            assert(copy.deep_view() =~= values.deep_view());
            let filter = SpecFilter::AnyOf { key: boxes[i].0.clone(), values: copy };
            out.push(filter);
            assert(out.deep_view() =~= before.push(filter.deep_view()));
        }
        i = i + 1;
    }
    assert(all.take(all.len() as int) =~= all);
    out
}

fn switches_of(switches: &Vec<(String, bool)>) -> (r: Vec<SpecFilter>)
    ensures
        r.deep_view() == switched_on(switches.deep_view()),
{
    let ghost all = switches.deep_view();
    let mut out: Vec<SpecFilter> = Vec::new();
    let mut i: usize = 0;
    assert(out.deep_view() =~= Seq::empty());
    while i < switches.len()
        invariant
            i <= switches@.len(),
            all == switches.deep_view(),
            out.deep_view() == switched_on(all.take(i as int)),
        decreases switches@.len() - i,
    {
        let ghost before = out.deep_view();
        assert(all.take(i + 1).drop_last() =~= all.take(i as int));
        assert(all.take(i + 1).last() == switches@[i as int].deep_view());
        if switches[i].1 {
            let filter = SpecFilter::Is { key: switches[i].0.clone(), value: true };
            out.push(filter);
            assert(out.deep_view() =~= before.push(filter.deep_view()));
        }
        i = i + 1;
    }
    assert(all.take(all.len() as int) =~= all);
    out
}

/// Appends `more` to `out`.
fn append_all(out: Vec<SpecFilter>, more: &Vec<SpecFilter>) -> (r: Vec<SpecFilter>)
    ensures
        r.deep_view() == out.deep_view() + more.deep_view(),
{
    let ghost start = out.deep_view();
    let ghost added = more.deep_view();
    let mut r = out;
    let mut i: usize = 0;
    assert(r.deep_view() =~= start + added.take(0));
    while i < more.len()
        invariant
            i <= more@.len(),
            added == more.deep_view(),
            r.deep_view() == start + added.take(i as int),
        decreases more@.len() - i,
    {
        let ghost before = r.deep_view();
        let filter = more[i].clone();
        r.push(filter);
        assert(r.deep_view() =~= before.push(filter.deep_view()));
        i = i + 1;
        assert(r.deep_view() =~= start + added.take(i as int));
    }
    assert(added.take(added.len() as int) =~= added);
    r
}

/// The values of `values` other than `value`.
fn retain_others(values: &Vec<String>, value: &str) -> (r: Vec<String>)
    ensures
        r.deep_view() == without(values.deep_view(), value@),
{
    let ghost all = values.deep_view();
    let mut out: Vec<String> = Vec::new();
    let mut i: usize = 0;
    assert(out.deep_view() =~= Seq::empty());
    while i < values.len()
        invariant
            i <= values@.len(),
            all == values.deep_view(),
            out.deep_view() == without(all.take(i as int), value@),
        decreases values@.len() - i,
    {
        assert(all.take(i + 1).drop_last() =~= all.take(i as int));
        assert(all.take(i + 1).last() == values@[i as int]@);
        if !same(values[i].as_str(), value) {
            push_text(&mut out, values[i].as_str());
        }
        i = i + 1;
    }
    assert(all.take(all.len() as int) =~= all);
    out
}

impl Default for FilterState {
    fn default() -> (r: Self)
        ensures
            r.deep_view() == untouched(),
    {
        let r = FilterState {
            num_min: Vec::new(),
            num_max: Vec::new(),
            enums: Vec::new(),
            bools: Vec::new(),
        };
        assert(r.deep_view() =~= untouched());
        r
    }
}

impl FilterState {
    /// The controls that show `filters`.
    pub fn from_filters(filters: &Vec<SpecFilter>) -> (r: FilterState)
        ensures
            r.deep_view() == shown(filters.deep_view()),
    {
        let ghost all = filters.deep_view();
        let mut state = FilterState::default();
        let mut i: usize = 0;
        while i < filters.len()
            invariant
                i <= filters@.len(),
                all == filters.deep_view(),
                state.deep_view() == shown(all.take(i as int)),
            decreases filters@.len() - i,
        {
            assert(all.take(i + 1).drop_last() =~= all.take(i as int));
            assert(all.take(i + 1).last() == filters@[i as int].deep_view());
            state = state.add_filter(&filters[i]);
            i = i + 1;
        }
        assert(all.take(all.len() as int) =~= all);
        state
    }

    /// The controls that show one filter more.
    fn add_filter(self, filter: &SpecFilter) -> (r: FilterState)
        ensures
            r.deep_view() == with_filter(self.deep_view(), filter.deep_view()),
    {
        let mut state = self;
        match filter {
            SpecFilter::Min { key, value } => {
                state.num_min = with_entry(state.num_min, key.as_str(), trim_number(value));
            },
            SpecFilter::Max { key, value } => {
                state.num_max = with_entry(state.num_max, key.as_str(), trim_number(value));
            },
            SpecFilter::Eq { key, value } => {
                let mut values: Vec<String> = Vec::new();
                values.push(value.clone());
                assert(values.deep_view() =~= seq![value@]);
                state.enums = with_entry(state.enums, key.as_str(), values);
            },
            SpecFilter::AnyOf { key, values } => {
                let copy = values.clone();
                assert(copy.deep_view() =~= values.deep_view());
                state.enums = with_entry(state.enums, key.as_str(), copy);
            },
            SpecFilter::Is { key, value } => {
                state.bools = with_entry(state.bools, key.as_str(), *value);
            },
        }
        state
    }

    /// The filters that the controls mean.
    pub fn to_filters(&self) -> (r: Vec<SpecFilter>)
        ensures
            r.deep_view() == meant(self.deep_view()),
    {
        let floors = floors_of(&self.num_min);
        let bounds = append_all(floors, &ceilings_of(&self.num_max));
        let values = append_all(bounds, &values_of(&self.enums));
        append_all(values, &switches_of(&self.bools))
    }

    /// The controls once a value was checked or unchecked.
    pub fn toggle_enum(self, key: &str, value: &str, on: bool) -> (r: FilterState)
        ensures
            r.deep_view() == (FilterStateView {
                enums: put(
                    self.deep_view().enums,
                    key@,
                    toggled(checked_for(self.deep_view(), key@), value@, on),
                ),
                ..self.deep_view()
            }),
    {
        let mut state = self;
        let mut values: Vec<String> = Vec::new();
        assert(values.deep_view() =~= Seq::empty());
        if let Some(checked) = find(&state.enums, key) {
            values = checked.clone();
            assert(values.deep_view() =~= checked.deep_view());
        }
        if on {
            if !holds_text(&values, value) {
                push_text(&mut values, value);
            }
        } else {
            values = retain_others(&values, value);
        }
        state.enums = with_entry(state.enums, key, values);
        state
    }

    /// The controls once a floor was typed.
    pub fn type_floor(self, key: &str, input: &str) -> (r: FilterState)
        ensures
            r.deep_view() == (FilterStateView {
                num_min: put(self.deep_view().num_min, key@, input@),
                ..self.deep_view()
            }),
    {
        let mut state = self;
        state.num_min = with_entry(state.num_min, key, input.to_owned());
        state
    }

    /// The controls once a ceiling was typed.
    pub fn type_ceiling(self, key: &str, input: &str) -> (r: FilterState)
        ensures
            r.deep_view() == (FilterStateView {
                num_max: put(self.deep_view().num_max, key@, input@),
                ..self.deep_view()
            }),
    {
        let mut state = self;
        state.num_max = with_entry(state.num_max, key, input.to_owned());
        state
    }

    /// The controls once a switch was set.
    pub fn switch(self, key: &str, on: bool) -> (r: FilterState)
        ensures
            r.deep_view() == (FilterStateView {
                bools: put(self.deep_view().bools, key@, on),
                ..self.deep_view()
            }),
    {
        let mut state = self;
        state.bools = with_entry(state.bools, key, on);
        state
    }
}

// ---- what is shown means what was saved ----

/// A number that a form field can show without loss.
pub open spec fn showable(n: ReadingView) -> bool {
    &&& writable(n)
    &&& n matches ReadingView::Finite(d) ==> d.1 >= 0 ==> i64::MIN <= rounded(d.0, d.1) <= i64::MAX
}

/// Whether `s` holds neither white space nor commas.
spec fn unspaced(s: Seq<char>) -> bool {
    forall|i: int| 0 <= i < s.len() ==> !is_space(#[trigger] s[i]) && s[i] != ','
}

proof fn nothing_to_trim(s: Seq<char>)
    requires
        unspaced(s),
    ensures
        trimmed(s) == s,
{
    if s.len() > 0 {
        assert(!is_space(s[0]));
        assert(!is_space(s[s.len() - 1]));
    }
}

proof fn nothing_to_replace(s: Seq<char>)
    requires
        unspaced(s),
    ensures
        with_replaced(s, ',', "."@) == s,
    decreases s.len(),
{
    if s.len() > 0 {
        nothing_to_replace(s.drop_last());
        assert(s[s.len() - 1] != ',');
        assert(s.drop_last() + seq![s.last()] =~= s);
    }
}

proof fn plain_is_unspaced(d: (int, int))
    ensures
        unspaced(plain_text(d)),
{
    let n = (if d.0 < 0 { -d.0 } else { d.0 }) as nat;
    crate::decimal::digits_of(n);
    let digits = nat_text(n);
    let s = plain_text(d);
    assert forall|i: int| 0 <= i < s.len() implies !is_space(#[trigger] s[i]) && s[i] != ',' by {
        assert(s[i] == '-' || s[i] == '.' || s[i] == '0' || exists|j: int|
            0 <= j < digits.len() && s[i] == #[trigger] digits[j]);
    }
}

/// A number that a field shows reads back as the same number.
pub proof fn shown_number_reads_back(n: ReadingView)
    requires
        showable(n),
    ensures
        number_of(trimmed(number_text(n))) == Some(n),
{
    let t = reading_text(n);
    match n {
        ReadingView::Finite(d) => {
            if d.1 >= 0 {
                whole_number_text(d);
            }
            plain_is_unspaced(d);
        },
        _ => {
            reveal_strlit("inf");
            reveal_strlit("-inf");
            reveal_strlit("NaN");
        },
    }
    assert(number_text(n) == t);
    assert(unspaced(t));
    nothing_to_trim(t);
    nothing_to_replace(t);
    written_reading_reads_back(n);
}

/// A price bound that a field shows reads back as the same amount: editing a watch keeps
/// its bounds.
pub proof fn shown_price_reads_back(cents: i64)
    ensures
        typed_cents(price_field(Some(cents))) == Some(cents),
{
    let d = canonical(cents as int, -2);
    canonical_keeps_value(cents as int, -2, 2);
    reveal_with_fuel(crate::decimal::pow10, 2);
    assert(rounded(d.0, d.1 + 2) == cents) by {
        if cents == 0 {
            assert(0int * crate::decimal::pow10(2) == 0);
        } else {
            assert(cents as int * 1 == cents);
        }
    }
    if d.1 >= 0 {
        let p = crate::decimal::pow10(d.1 as nat);
        assert(crate::decimal::pow10((d.1 + 2) as nat) == 100 * p);
        assert(d.0 * (100 * p) == 100 * (d.0 * p)) by (nonlinear_arith);
        assert(rounded(d.0, d.1) * 100 == cents);
    }
    pow10_of_19();
    if cents != 0 {
        canonical_is_short(cents as int, -2, 19);
    }
    told_as_itself(d);
    shown_number_reads_back(ReadingView::Finite(d));
    let t = number_text(ReadingView::Finite(d));
    plain_is_unspaced(d);
    if d.1 >= 0 {
        whole_number_text(d);
    }
    nothing_to_trim(t);
    crate::decimal::digits_of((if d.0 < 0 { -d.0 } else { d.0 }) as nat);
    assert(t.len() > 0);
}

/// The control that a filter shows in: floors, ceilings, values and switches are kept
/// apart.
pub open spec fn control_of(filter: SpecFilterView) -> (int, Seq<char>) {
    match filter {
        SpecFilterView::Min { key, .. } => (0, key),
        SpecFilterView::Max { key, .. } => (1, key),
        SpecFilterView::Eq { key, .. } => (2, key),
        SpecFilterView::AnyOf { key, .. } => (2, key),
        SpecFilterView::Is { key, .. } => (3, key),
    }
}

/// A filter that the controls can show: a number without loss, several values where it
/// asks for any of them, a switch that is on.
pub open spec fn has_control(filter: SpecFilterView) -> bool {
    match filter {
        SpecFilterView::Min { value, .. } => showable(value),
        SpecFilterView::Max { value, .. } => showable(value),
        SpecFilterView::Eq { .. } => true,
        SpecFilterView::AnyOf { values, .. } => values.len() > 1,
        SpecFilterView::Is { value, .. } => value,
    }
}

/// Filters that the controls can show, each in a control of its own.
pub open spec fn controls_suffice(filters: Seq<SpecFilterView>) -> bool {
    &&& forall|i: int| 0 <= i < filters.len() ==> has_control(#[trigger] filters[i])
    &&& forall|i: int, j: int|
        0 <= i < j < filters.len() ==> control_of(#[trigger] filters[i]) != control_of(
            #[trigger] filters[j],
        )
}

/// The filters that show in a kind of control, in order.
pub open spec fn in_control(filters: Seq<SpecFilterView>, kind: int) -> Seq<SpecFilterView>
    decreases filters.len(),
{
    if filters.len() == 0 {
        Seq::empty()
    } else {
        let before = in_control(filters.drop_last(), kind);
        if control_of(filters.last()).0 == kind {
            before.push(filters.last())
        } else {
            before
        }
    }
}

/// What stands under `key` came from a filter with that key.
spec fn from_filters<T>(
    entries: Seq<(Seq<char>, T)>,
    filters: Seq<SpecFilterView>,
    kind: int,
    key: Seq<char>,
) -> bool {
    lookup(entries, key) is Some ==> exists|i: int|
        0 <= i < filters.len() && control_of(#[trigger] filters[i]) == (kind, key)
}

proof fn put_at_the_end<T>(entries: Seq<(Seq<char>, T)>, key: Seq<char>, value: T)
    requires
        lookup(entries, key) is None,
    ensures
        put(entries, key, value) == entries.push((key, value)),
{
    crate::table::place_is_first(entries, key);
}

proof fn shown_in_order(filters: Seq<SpecFilterView>)
    requires
        controls_suffice(filters),
    ensures
        typed_floors(shown(filters).num_min) == in_control(filters, 0),
        typed_ceilings(shown(filters).num_max) == in_control(filters, 1),
        checked_values(shown(filters).enums) == in_control(filters, 2),
        switched_on(shown(filters).bools) == in_control(filters, 3),
        forall|key: Seq<char>| #[trigger] from_filters(shown(filters).num_min, filters, 0, key),
        forall|key: Seq<char>| #[trigger] from_filters(shown(filters).num_max, filters, 1, key),
        forall|key: Seq<char>| #[trigger] from_filters(shown(filters).enums, filters, 2, key),
        forall|key: Seq<char>| #[trigger] from_filters(shown(filters).bools, filters, 3, key),
    decreases filters.len(),
{
    if filters.len() > 0 {
        let rest = filters.drop_last();
        let last = filters.last();
        let n = filters.len() - 1;
        let before = shown(rest);
        let after = shown(filters);
        assert(controls_suffice(rest)) by {
            assert forall|i: int| 0 <= i < rest.len() implies has_control(#[trigger] rest[i]) by {
                assert(has_control(filters[i]));
            }
            assert forall|i: int, j: int| 0 <= i < j < rest.len() implies control_of(
                #[trigger] rest[i],
            ) != control_of(#[trigger] rest[j]) by {
                assert(control_of(filters[i]) != control_of(filters[j]));
            }
        }
        shown_in_order(rest);
        assert(has_control(filters[n]));
        assert forall|i: int| 0 <= i < rest.len() implies control_of(#[trigger] rest[i])
            != control_of(last) by {
            assert(control_of(filters[i]) != control_of(filters[n]));
        }
        assert(forall|i: int| 0 <= i < rest.len() ==> #[trigger] rest[i] == filters[i]);
        let key = control_of(last).1;
        match last {
            SpecFilterView::Min { key: k, value } => {
                assert(from_filters(before.num_min, rest, 0, k));
                put_at_the_end(before.num_min, k, number_text(value));
                assert(after.num_min.drop_last() =~= before.num_min);
                shown_number_reads_back(value);
            },
            SpecFilterView::Max { key: k, value } => {
                assert(from_filters(before.num_max, rest, 1, k));
                put_at_the_end(before.num_max, k, number_text(value));
                assert(after.num_max.drop_last() =~= before.num_max);
                shown_number_reads_back(value);
            },
            SpecFilterView::Eq { key: k, value } => {
                assert(from_filters(before.enums, rest, 2, k));
                put_at_the_end(before.enums, k, seq![value]);
                assert(after.enums.drop_last() =~= before.enums);
            },
            SpecFilterView::AnyOf { key: k, values } => {
                assert(from_filters(before.enums, rest, 2, k));
                put_at_the_end(before.enums, k, values);
                assert(after.enums.drop_last() =~= before.enums);
            },
            SpecFilterView::Is { key: k, value } => {
                assert(from_filters(before.bools, rest, 3, k));
                put_at_the_end(before.bools, k, value);
                assert(after.bools.drop_last() =~= before.bools);
            },
        }
        shown_from(filters, key);
    }
}

/// The step of `from_filters` for one filter more.
proof fn shown_from(filters: Seq<SpecFilterView>, key: Seq<char>)
    requires
        filters.len() > 0,
        key == control_of(filters.last()).1,
        forall|k: Seq<char>|
            #[trigger] from_filters(shown(filters.drop_last()).num_min, filters.drop_last(), 0, k),
        forall|k: Seq<char>|
            #[trigger] from_filters(shown(filters.drop_last()).num_max, filters.drop_last(), 1, k),
        forall|k: Seq<char>|
            #[trigger] from_filters(shown(filters.drop_last()).enums, filters.drop_last(), 2, k),
        forall|k: Seq<char>|
            #[trigger] from_filters(shown(filters.drop_last()).bools, filters.drop_last(), 3, k),
    ensures
        forall|k: Seq<char>| #[trigger] from_filters(shown(filters).num_min, filters, 0, k),
        forall|k: Seq<char>| #[trigger] from_filters(shown(filters).num_max, filters, 1, k),
        forall|k: Seq<char>| #[trigger] from_filters(shown(filters).enums, filters, 2, k),
        forall|k: Seq<char>| #[trigger] from_filters(shown(filters).bools, filters, 3, k),
{
    let rest = filters.drop_last();
    let before = shown(rest);
    let after = shown(filters);
    let n = filters.len() - 1;
    assert(filters[n] == filters.last());
    assert forall|k: Seq<char>| #[trigger] from_filters(after.num_min, filters, 0, k) by {
        assert(from_filters(before.num_min, rest, 0, k));
        if let SpecFilterView::Min { key: _, value } = filters.last() {
            put_then_lookup(before.num_min, key, number_text(value), k);
        }
        carried(before.num_min, after.num_min, filters, 0, k);
    }
    assert forall|k: Seq<char>| #[trigger] from_filters(after.num_max, filters, 1, k) by {
        assert(from_filters(before.num_max, rest, 1, k));
        if let SpecFilterView::Max { key: _, value } = filters.last() {
            put_then_lookup(before.num_max, key, number_text(value), k);
        }
        carried(before.num_max, after.num_max, filters, 1, k);
    }
    assert forall|k: Seq<char>| #[trigger] from_filters(after.enums, filters, 2, k) by {
        assert(from_filters(before.enums, rest, 2, k));
        if let SpecFilterView::Eq { key: _, value } = filters.last() {
            put_then_lookup(before.enums, key, seq![value], k);
        }
        if let SpecFilterView::AnyOf { key: _, values } = filters.last() {
            put_then_lookup(before.enums, key, values, k);
        }
        carried(before.enums, after.enums, filters, 2, k);
    }
    assert forall|k: Seq<char>| #[trigger] from_filters(after.bools, filters, 3, k) by {
        assert(from_filters(before.bools, rest, 3, k));
        if let SpecFilterView::Is { key: _, value } = filters.last() {
            put_then_lookup(before.bools, key, value, k);
        }
        carried(before.bools, after.bools, filters, 3, k);
    }
}

proof fn carried<T>(
    before: Seq<(Seq<char>, T)>,
    after: Seq<(Seq<char>, T)>,
    filters: Seq<SpecFilterView>,
    kind: int,
    key: Seq<char>,
)
    requires
        filters.len() > 0,
        from_filters(before, filters.drop_last(), kind, key),
        control_of(filters.last()) == (kind, key) || lookup(after, key) == lookup(before, key),
    ensures
        from_filters(after, filters, kind, key),
{
    let rest = filters.drop_last();
    let n = filters.len() - 1;
    if control_of(filters.last()) == (kind, key) {
        assert(control_of(filters[n]) == (kind, key));
    } else if lookup(after, key) is Some {
        let i = choose|i: int|
            0 <= i < rest.len() && control_of(#[trigger] rest[i]) == (kind, key);
        assert(rest[i] == filters[i]);
        assert(control_of(filters[i]) == (kind, key));
    }
}

/// Every filter shows in one kind of control.
proof fn controls_share_out(filters: Seq<SpecFilterView>)
    ensures
        (in_control(filters, 0).to_multiset().add(in_control(filters, 1).to_multiset()).add(
            in_control(filters, 2).to_multiset(),
        ).add(in_control(filters, 3).to_multiset())) == filters.to_multiset(),
    decreases filters.len(),
{
    broadcast use vstd::multiset::group_multiset_axioms;

    if filters.len() == 0 {
        assert(filters =~= Seq::empty());
        let none = Seq::<SpecFilterView>::empty().to_multiset();
        Seq::<SpecFilterView>::empty().to_multiset_ensures();
        assert(none =~= none.add(none).add(none).add(none));
    } else {
        let rest = filters.drop_last();
        let last = filters.last();
        controls_share_out(rest);
        assert(filters =~= rest.push(last));
        rest.to_multiset_ensures();
        let a = in_control(rest, 0);
        let b = in_control(rest, 1);
        let c = in_control(rest, 2);
        let d = in_control(rest, 3);
        a.to_multiset_ensures();
        b.to_multiset_ensures();
        c.to_multiset_ensures();
        d.to_multiset_ensures();
        let all = in_control(filters, 0).to_multiset().add(
            in_control(filters, 1).to_multiset(),
        ).add(in_control(filters, 2).to_multiset()).add(in_control(filters, 3).to_multiset());
        assert(all =~= rest.to_multiset().insert(last));
    }
}

/// Showing filters and reading the controls back gives the same filters, each as often,
/// in the order of the controls: editing a watch keeps what it asks for.
pub proof fn shown_filters_read_back(filters: Seq<SpecFilterView>)
    requires
        controls_suffice(filters),
    ensures
        meant(shown(filters)) == in_control(filters, 0) + in_control(filters, 1) + in_control(
            filters,
            2,
        ) + in_control(filters, 3),
        meant(shown(filters)).to_multiset() == filters.to_multiset(),
{
    shown_in_order(filters);
    controls_share_out(filters);
    let a = in_control(filters, 0);
    let b = in_control(filters, 1);
    let c = in_control(filters, 2);
    let d = in_control(filters, 3);
    vstd::seq_lib::lemma_multiset_commutative(a, b);
    vstd::seq_lib::lemma_multiset_commutative(a + b, c);
    vstd::seq_lib::lemma_multiset_commutative(a + b + c, d);
}

/// Checking a value checks it, unchecking unchecks it, and the other values stay as they
/// are.
pub proof fn toggling_moves_one_value(
    values: Seq<Seq<char>>,
    value: Seq<char>,
    on: bool,
    other: Seq<char>,
)
    ensures
        toggled(values, value, on).contains(value) == on,
        other != value ==> toggled(values, value, on).contains(other) == values.contains(other),
{
    if on {
        if !values.contains(value) {
            let longer = values.push(value);
            assert(longer[values.len() as int] == value);
            if values.contains(other) {
                let i = choose|i: int| 0 <= i < values.len() && values[i] == other;
                assert(longer[i] == other);
            }
        }
    } else {
        without_members(values, value, value);
        without_members(values, value, other);
    }
}

proof fn without_members(values: Seq<Seq<char>>, value: Seq<char>, other: Seq<char>)
    ensures
        without(values, value).contains(other) <==> values.contains(other) && other != value,
    decreases values.len(),
{
    if values.len() > 0 {
        let rest = values.drop_last();
        without_members(rest, value, other);
        let before = without(rest, value);
        let after = without(values, value);
        if values.contains(other) {
            let i = choose|i: int| 0 <= i < values.len() && values[i] == other;
            if i < rest.len() {
                assert(rest[i] == other);
            }
        }
        if rest.contains(other) {
            let i = choose|i: int| 0 <= i < rest.len() && rest[i] == other;
            assert(values[i] == other);
        }
        if values.last() == other {
            assert(values[values.len() - 1] == other);
        }
        if values.last() != value {
            assert(after[before.len() as int] == values.last());
            if before.contains(other) {
                let i = choose|i: int| 0 <= i < before.len() && before[i] == other;
                assert(after[i] == other);
            }
        }
    }
}

/// The floors are those of exactly the fields in which a number is typed, in order.
pub proof fn every_typed_floor_counts(
    fields: Seq<(Seq<char>, Seq<char>)>,
)
    ensures
        typed_floors(fields).map_values(|l: SpecFilterView| Some(l)) == fields.map_values(
            |x: (Seq<char>, Seq<char>)|
                (match number_of(trimmed(x.1)) {
                    Some(value) => Some(SpecFilterView::Min { key: x.0, value }),
                    None => None,
                }),
        ).filter(|l: Option<SpecFilterView>| l is Some),
    decreases fields.len(),
{
    reveal(Seq::filter);
    let f = |x: (Seq<char>, Seq<char>)|
        (match number_of(trimmed(x.1)) {
            Some(value) => Some(SpecFilterView::Min { key: x.0, value }),
            None => None,
        });
    let p = |l: Option<SpecFilterView>| l is Some;
    let g = |l: SpecFilterView| Some(l);
    if fields.len() > 0 {
        let rest = fields.drop_last();
        every_typed_floor_counts(rest);
        assert(fields.map_values(f).drop_last() =~= rest.map_values(f));
        assert(fields.map_values(f).last() == f(fields.last()));
        if let Some(l) = f(fields.last()) {
            let before = typed_floors(rest);
            assert(before.push(l).map_values(g) =~= before.map_values(g).push(Some(l)));
        }
    }
    assert(typed_floors(fields).map_values(g) =~= fields.map_values(f).filter(p));
}

/// The ceilings are those of exactly the fields in which a number is typed, in order.
pub proof fn every_typed_ceiling_counts(
    fields: Seq<(Seq<char>, Seq<char>)>,
)
    ensures
        typed_ceilings(fields).map_values(|l: SpecFilterView| Some(l)) == fields.map_values(
            |x: (Seq<char>, Seq<char>)|
                (match number_of(trimmed(x.1)) {
                    Some(value) => Some(SpecFilterView::Max { key: x.0, value }),
                    None => None,
                }),
        ).filter(|l: Option<SpecFilterView>| l is Some),
    decreases fields.len(),
{
    reveal(Seq::filter);
    let f = |x: (Seq<char>, Seq<char>)|
        (match number_of(trimmed(x.1)) {
            Some(value) => Some(SpecFilterView::Max { key: x.0, value }),
            None => None,
        });
    let p = |l: Option<SpecFilterView>| l is Some;
    let g = |l: SpecFilterView| Some(l);
    if fields.len() > 0 {
        let rest = fields.drop_last();
        every_typed_ceiling_counts(rest);
        assert(fields.map_values(f).drop_last() =~= rest.map_values(f));
        assert(fields.map_values(f).last() == f(fields.last()));
        if let Some(l) = f(fields.last()) {
            let before = typed_ceilings(rest);
            assert(before.push(l).map_values(g) =~= before.map_values(g).push(Some(l)));
        }
    }
    assert(typed_ceilings(fields).map_values(g) =~= fields.map_values(f).filter(p));
}

/// The specs with a checked value make a filter each, in order: one value asks for it,
/// several for any of them.
pub proof fn every_checked_value_counts(
    boxes: Seq<(Seq<char>, Seq<Seq<char>>)>,
)
    ensures
        checked_values(boxes).map_values(|l: SpecFilterView| Some(l)) == boxes.map_values(
            |x: (Seq<char>, Seq<Seq<char>>)|
                (if x.1.len() == 0 {
                    None
                } else if x.1.len() == 1 {
                    Some(SpecFilterView::Eq { key: x.0, value: x.1[0] })
                } else {
                    Some(SpecFilterView::AnyOf { key: x.0, values: x.1 })
                }),
        ).filter(|l: Option<SpecFilterView>| l is Some),
    decreases boxes.len(),
{
    reveal(Seq::filter);
    let f = |x: (Seq<char>, Seq<Seq<char>>)|
        (if x.1.len() == 0 {
            None
        } else if x.1.len() == 1 {
            Some(SpecFilterView::Eq { key: x.0, value: x.1[0] })
        } else {
            Some(SpecFilterView::AnyOf { key: x.0, values: x.1 })
        });
    let p = |l: Option<SpecFilterView>| l is Some;
    let g = |l: SpecFilterView| Some(l);
    if boxes.len() > 0 {
        let rest = boxes.drop_last();
        every_checked_value_counts(rest);
        assert(boxes.map_values(f).drop_last() =~= rest.map_values(f));
        assert(boxes.map_values(f).last() == f(boxes.last()));
        if let Some(l) = f(boxes.last()) {
            let before = checked_values(rest);
            assert(before.push(l).map_values(g) =~= before.map_values(g).push(Some(l)));
        }
    }
    assert(checked_values(boxes).map_values(g) =~= boxes.map_values(f).filter(p));
}

/// The switches that are on make a filter each, in order; those that are off make none.
pub proof fn every_switch_that_is_on_counts(
    switches: Seq<(Seq<char>, bool)>,
)
    ensures
        switched_on(switches).map_values(|l: SpecFilterView| Some(l)) == switches.map_values(
            |x: (Seq<char>, bool)|
                (if x.1 {
                    Some(SpecFilterView::Is { key: x.0, value: true })
                } else {
                    None
                }),
        ).filter(|l: Option<SpecFilterView>| l is Some),
    decreases switches.len(),
{
    reveal(Seq::filter);
    let f = |x: (Seq<char>, bool)|
        (if x.1 {
            Some(SpecFilterView::Is { key: x.0, value: true })
        } else {
            None
        });
    let p = |l: Option<SpecFilterView>| l is Some;
    let g = |l: SpecFilterView| Some(l);
    if switches.len() > 0 {
        let rest = switches.drop_last();
        every_switch_that_is_on_counts(rest);
        assert(switches.map_values(f).drop_last() =~= rest.map_values(f));
        assert(switches.map_values(f).last() == f(switches.last()));
        if let Some(l) = f(switches.last()) {
            let before = switched_on(rest);
            assert(before.push(l).map_values(g) =~= before.map_values(g).push(Some(l)));
        }
    }
    assert(switched_on(switches).map_values(g) =~= switches.map_values(f).filter(p));
}

/// Unchecking a value takes it away, and leaves the others in order.
pub proof fn unchecking_takes_the_value_away(
    value: Seq<char>,
    values: Seq<Seq<char>>,
)
    ensures
        without(values, value) == values.filter(|x: Seq<char>| x != value),
    decreases values.len(),
{
    reveal(Seq::filter);
    if values.len() > 0 {
        unchecking_takes_the_value_away(value, values.drop_last());
    }
    assert(without(values, value) =~= values.filter(|x: Seq<char>| x != value));
}

/// Checking a value adds it behind the others, once; unchecking takes it away.
pub proof fn checking_a_value(values: Seq<Seq<char>>, value: Seq<char>)
    ensures
        values.contains(value) ==> toggled(values, value, true) == values,
        !values.contains(value) ==> toggled(values, value, true) == values.push(value),
        toggled(values, value, false) == values.filter(|x: Seq<char>| x != value),
{
    unchecking_takes_the_value_away(value, values);
}

/// The filters of the controls are the floors, the ceilings, the values and the switches,
/// in that order.
pub proof fn controls_are_read_in_order(state: FilterStateView)
    ensures
        meant(state) == typed_floors(state.num_min) + typed_ceilings(state.num_max)
            + checked_values(state.enums) + switched_on(state.bools),
        meant(untouched()).len() == 0,
{
}

/// A typed price counts cents, rounded; what is no number is no price.
pub proof fn typed_prices_count_cents(input: Seq<char>)
    ensures
        trimmed(input).len() == 0 ==> typed_cents(input) is None,
        number_of(trimmed(input)) is None ==> typed_cents(input) is None,
        trimmed(input).len() > 0 ==> (number_of(trimmed(input)) matches Some(n) ==> typed_cents(input)
            == Some(units_of(n, 2))),
{
}

/// Each filter shows in the control of its kind and key, and changes no other.
pub proof fn filters_show_in_their_control(
    state: FilterStateView,
    key: Seq<char>,
    bound: ReadingView,
    text: Seq<char>,
    values: Seq<Seq<char>>,
    yes: bool,
)
    ensures
        with_filter(state, SpecFilterView::Min { key, value: bound }) == (FilterStateView {
            num_min: put(state.num_min, key, number_text(bound)),
            ..state
        }),
        with_filter(state, SpecFilterView::Max { key, value: bound }) == (FilterStateView {
            num_max: put(state.num_max, key, number_text(bound)),
            ..state
        }),
        with_filter(state, SpecFilterView::Eq { key, value: text }) == (FilterStateView {
            enums: put(state.enums, key, seq![text]),
            ..state
        }),
        with_filter(state, SpecFilterView::AnyOf { key, values }) == (FilterStateView {
            enums: put(state.enums, key, values),
            ..state
        }),
        with_filter(state, SpecFilterView::Is { key, value: yes }) == (FilterStateView {
            bools: put(state.bools, key, yes),
            ..state
        }),
{
}

/// The values checked for a spec are those under its key; there are none under a key that
/// was never touched.
pub proof fn checked_values_stand_under_their_key(state: FilterStateView, key: Seq<char>)
    ensures
        lookup(state.enums, key) matches Some(values) ==> checked_for(state, key) == values,
        lookup(state.enums, key) is None ==> checked_for(state, key).len() == 0,
{
}

/// A number shows without decimals where it has none, in plain notation where it has some,
/// and by its word where it is none.
pub proof fn numbers_are_shown_plainly(d: (int, int), negative: bool)
    ensures
        d.1 >= 0 ==> number_text(ReadingView::Finite(d)) == int_text(
            units_of(ReadingView::Finite(d), 0) as int,
        ),
        d.1 < 0 ==> number_text(ReadingView::Finite(d)) == plain_text(d),
        number_text(ReadingView::NotANumber) == word_text(ReadingView::NotANumber),
        number_text(ReadingView::Infinite { negative }) == word_text(
            ReadingView::Infinite { negative },
        ),
        price_field(None).len() == 0,
{
}

} // verus!
