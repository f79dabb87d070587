//! JSON values, and what the `serde_json` crate reads and writes.

use vstd::prelude::*;
use crate::table::{lookup, place_is_first, place_of};
use crate::decimal::{decimal_of, Decimal};
use crate::text::{
    all_digits, chars_of, digits_read_back, digits_value, i64_of_digits, int_text, is_digit,
    nat_text, parse_digits, same, text_of,
};

verus! {

/// A JSON value.
#[derive(Debug, PartialEq)]
pub enum Json {
    Null,
    Bool(bool),
    /// The number as text.
    Number(String),
    Text(String),
    List(Vec<Json>),
    Object(Vec<(String, Json)>),
}

/// What `Json` holds.
pub enum JsonView {
    Null,
    Bool(bool),
    Number(Seq<char>),
    Text(Seq<char>),
    List(Seq<JsonView>),
    Object(Seq<(Seq<char>, JsonView)>),
}

/// What a JSON value holds.
pub open spec fn json_view(j: Json) -> JsonView
    decreases j,
{
    match j {
        Json::Null => JsonView::Null,
        Json::Bool(b) => JsonView::Bool(b),
        Json::Number(n) => JsonView::Number(n@),
        Json::Text(t) => JsonView::Text(t@),
        Json::List(items) => JsonView::List(
            Seq::new(
                items@.len(),
                |i: int|
                    if 0 <= i < items@.len() {
                        json_view(items@[i])
                    } else {
                        JsonView::Null
                    },
            ),
        ),
        Json::Object(fields) => JsonView::Object(
            Seq::new(
                fields@.len(),
                |i: int|
                    if 0 <= i < fields@.len() {
                        (fields@[i].0@, json_view(fields@[i].1))
                    } else {
                        (Seq::empty(), JsonView::Null)
                    },
            ),
        ),
    }
}

impl DeepView for Json {
    type V = JsonView;

    open spec fn deep_view(&self) -> JsonView {
        json_view(*self)
    }
}

/// The value of the `serde_json` crate.
#[verifier::external_type_specification]
#[verifier::external_body]
pub struct ExValue(serde_json::Value);

/// What `serde_json::from_str` reads from a text: the value, or the error's message.
pub uninterp spec fn json_read(text: Seq<char>) -> Result<JsonView, Seq<char>>;

/// What `serde_json::Value`'s `to_string` writes for a value.
pub uninterp spec fn json_written(value: JsonView) -> Seq<char>;

/// What a result of reading JSON holds.
pub open spec fn read_view(r: Result<Json, String>) -> Result<JsonView, Seq<char>> {
    match r {
        Ok(value) => Ok(value.deep_view()),
        Err(e) => Err(e@),
    }
}

/// A `serde_json::Value` in plain values: each variant becomes its counterpart, a number
/// the text that the crate displays it as, an object's fields in the order of its map.
#[verifier::external_body]
fn from_value(value: serde_json::Value) -> Json {
    match value {
        serde_json::Value::Null => Json::Null,
        serde_json::Value::Bool(b) => Json::Bool(b),
        serde_json::Value::Number(n) => Json::Number(n.to_string()),
        serde_json::Value::String(s) => Json::Text(s),
        serde_json::Value::Array(a) => Json::List(a.into_iter().map(from_value).collect()),
        serde_json::Value::Object(m) => {
            Json::Object(m.into_iter().map(|(k, v)| (k, from_value(v))).collect())
        },
    }
}

/// A JSON value as a `serde_json::Value`: each variant becomes its counterpart; a number
/// that the crate cannot read becomes null.
#[verifier::external_body]
fn to_value(value: &Json) -> serde_json::Value {
    match value {
        Json::Null => serde_json::Value::Null,
        Json::Bool(b) => serde_json::Value::Bool(*b),
        Json::Number(n) => n.parse().map_or(serde_json::Value::Null, serde_json::Value::Number),
        Json::Text(s) => serde_json::Value::String(s.clone()),
        Json::List(a) => serde_json::Value::Array(a.iter().map(to_value).collect()),
        Json::Object(m) => {
            serde_json::Value::Object(m.iter().map(|(k, v)| (k.clone(), to_value(v))).collect())
        },
    }
}

/// `serde_json::from_str` into a `serde_json::Value`: the value or the error's message
/// depends on the text alone.
#[verifier::external_body]
pub(crate) fn parse_json(text: &str) -> (r: Result<Json, String>)
    ensures
        read_view(r) == json_read(text@),
{
    match serde_json::from_str::<serde_json::Value>(text) {
        Ok(value) => Ok(from_value(value)),
        Err(e) => Err(e.to_string()),
    }
}

/// A copy of a JSON value.
pub(crate) fn copy_json(v: &Json) -> (r: Json)
    ensures
        r.deep_view() == v.deep_view(),
    decreases *v,
{
    match v {
        Json::Null => Json::Null,
        Json::Bool(b) => Json::Bool(*b),
        Json::Number(n) => Json::Number(n.clone()),
        Json::Text(t) => Json::Text(t.clone()),
        Json::List(items) => {
            let mut out: Vec<Json> = Vec::new();
            let mut i: usize = 0;
            while i < items.len()
                invariant
                    i <= items@.len(),
                    *v == Json::List(*items),
                    out@.len() == i,
                    forall|j: int|
                        0 <= j < i ==> json_view(#[trigger] out@[j])
                            == json_view(items@[j]),
                decreases items@.len() - i,
            {
                assert(decreases_to!(*v => v->List_0));
                assert(decreases_to!(*items => items@));
                assert(decreases_to!(items@ => items@[i as int]));
                let item = copy_json(&items[i]);
                out.push(item);
                i = i + 1;
            }
            let r = Json::List(out);
            assert(r.deep_view()->List_0 =~= v.deep_view()->List_0);
            r
        },
        Json::Object(fields) => {
            let mut out: Vec<(String, Json)> = Vec::new();
            let mut i: usize = 0;
            while i < fields.len()
                invariant
                    i <= fields@.len(),
                    *v == Json::Object(*fields),
                    out@.len() == i,
                    forall|j: int|
                        0 <= j < i ==> (#[trigger] out@[j]).0@ == fields@[j].0@
                            && json_view(out@[j].1) == json_view(
                            fields@[j].1,
                        ),
                decreases fields@.len() - i,
            {
                assert(decreases_to!(*v => v->Object_0));
                assert(decreases_to!(*fields => fields@));
                assert(decreases_to!(fields@ => fields@[i as int]));
                assert(decreases_to!(fields@[i as int] => fields@[i as int].1));
                let value = copy_json(&fields[i].1);
                out.push((fields[i].0.clone(), value));
                i = i + 1;
            }
            let r = Json::Object(out);
            assert(r.deep_view()->Object_0 =~= v.deep_view()->Object_0);
            r
        },
    }
}

/// The texts of a list of strings; none where it is something else.
pub open spec fn texts_of(v: JsonView) -> Option<Seq<Seq<char>>> {
    match v {
        JsonView::List(items) => if forall|i: int|
            0 <= i < items.len() ==> (#[trigger] items[i]) is Text {
            Some(Seq::new(items.len(), |i: int| items[i]->Text_0))
        } else {
            None
        },
        _ => None,
    }
}

/// What `serde_json::from_str` reads from a text as a list of strings: the strings, or the
/// error's message.
pub uninterp spec fn texts_read(text: Seq<char>) -> Result<Seq<Seq<char>>, Seq<char>>;

/// What a reading of strings holds.
pub open spec fn strings_view(r: Result<Vec<String>, String>) -> Result<Seq<Seq<char>>, Seq<char>> {
    match r {
        Ok(strings) => Ok(strings.deep_view()),
        Err(e) => Err(e@),
    }
}

/// `serde_json::from_str` into a list of strings: the strings, or the error's message,
/// depend on the text alone.
#[verifier::external_body]
pub(crate) fn parse_texts(text: &str) -> (r: Result<Vec<String>, String>)
    ensures
        strings_view(r) == texts_read(text@),
{
    serde_json::from_str::<Vec<String>>(text).map_err(|e| e.to_string())
}

/// Whether a text is read as `value`, and as its strings where it is a list of them.
pub open spec fn json_reads_as(text: Seq<char>, value: JsonView) -> bool {
    &&& json_read(text) == Ok::<JsonView, Seq<char>>(value)
    &&& texts_of(value) matches Some(strings) ==> texts_read(text) == Ok::<
        Seq<Seq<char>>,
        Seq<char>,
    >(strings)
}

/// `to_string` of a `serde_json::Value`: the compact text depends on the value alone, and
/// where the value is a list of strings, `from_str` reads it back, as a value and as
/// strings.
#[verifier::external_body]
pub(crate) fn write_json(value: &Json) -> (r: String)
    ensures
        r@ == json_written(value.deep_view()),
        texts_of(value.deep_view()) is Some ==> json_reads_as(r@, value.deep_view()),
{
    to_value(value).to_string()
}

impl JsonView {
    /// The field `key` of an object.
    pub open spec fn get(self, key: Seq<char>) -> Option<JsonView> {
        match self {
            JsonView::Object(fields) => lookup(fields, key),
            _ => None,
        }
    }

    /// The field `key` of an object, or null.
    pub open spec fn field(self, key: Seq<char>) -> JsonView {
        match self.get(key) {
            Some(v) => v,
            None => JsonView::Null,
        }
    }

    /// The item in place `i` of a list, or null.
    pub open spec fn item(self, i: int) -> JsonView {
        match self {
            JsonView::List(items) => if 0 <= i < items.len() {
                items[i]
            } else {
                JsonView::Null
            },
            _ => JsonView::Null,
        }
    }

    /// The text of a string.
    pub open spec fn text(self) -> Option<Seq<char>> {
        match self {
            JsonView::Text(t) => Some(t),
            _ => None,
        }
    }

    /// The truth of a boolean.
    pub open spec fn truth(self) -> Option<bool> {
        match self {
            JsonView::Bool(b) => Some(b),
            _ => None,
        }
    }

    /// The value of a number that is written as an integer and fits.
    pub open spec fn integer(self) -> Option<i64> {
        match self {
            JsonView::Number(n) => i64_of_text(n),
            _ => None,
        }
    }

    /// The value of a number.
    pub open spec fn number(self) -> Option<(int, int)> {
        match self {
            JsonView::Number(n) => decimal_of(n),
            _ => None,
        }
    }

    /// The items of a list.
    pub open spec fn items(self) -> Option<Seq<JsonView>> {
        match self {
            JsonView::List(items) => Some(items),
            _ => None,
        }
    }
}

/// The integer that `s` writes in ASCII digits, with an optional `-`, where it fits.
pub open spec fn i64_of_text(s: Seq<char>) -> Option<i64> {
    if s.len() > 0 && s[0] == '-' {
        let d = s.drop_first();
        if d.len() > 0 && all_digits(d) && digits_value(d) <= 0x8000_0000_0000_0000 {
            Some((-(digits_value(d) as int)) as i64)
        } else {
            None
        }
    } else {
        i64_of_digits(s)
    }
}

/// The integer that `s` writes in ASCII digits, with an optional `-`, where it fits.
pub fn parse_i64(s: &str) -> (r: Option<i64>)
    ensures
        r == i64_of_text(s@),
{
    let v = chars_of(s);
    if v.len() == 0 || v[0] != '-' {
        return parse_digits(s);
    }
    let d = text_of(&v, 1, v.len());
    assert(d@ =~= s@.drop_first());
    match parse_digits(d.as_str()) {
        Some(n) => Some(-n),
        None => {
            if is_min(&v) {
                Some(i64::MIN)
            } else {
                None
            }
        },
    }
}

/// Whether `v`, behind its first character, writes the distance of `i64::MIN` from zero.
fn is_min(v: &Vec<char>) -> (r: bool)
    requires
        v@.len() > 0,
    ensures
        r == (all_digits(v@.drop_first()) && digits_value(v@.drop_first())
            == 0x8000_0000_0000_0000),
{
    let ghost d = v@.drop_first();
    let mut n: u64 = 0;
    let mut i: usize = 1;
    while i < v.len()
        invariant
            1 <= i <= v@.len(),
            d == v@.drop_first(),
            all_digits(d.take(i - 1)),
            n <= 0x8000_0000_0000_0001,
            n <= 0x8000_0000_0000_0000 ==> n == digits_value(d.take(i - 1)),
            n > 0x8000_0000_0000_0000 ==> digits_value(d.take(i - 1)) > 0x8000_0000_0000_0000,
        decreases v@.len() - i,
    {
        let c = v[i];
        if !('0' <= c && c <= '9') {
            assert(!crate::text::is_digit(d[i - 1]));
            return false;
        }
        assert(d.take(i as int).drop_last() =~= d.take(i - 1));
        assert(all_digits(d.take(i as int))) by {
            assert forall|j: int| 0 <= j < i implies crate::text::is_digit(
                #[trigger] d.take(i as int)[j],
            ) by {
                if j < i - 1 {
                    assert(d.take(i - 1)[j] == d[j]);
                }
            }
        }
        let x: u64 = (c as u8 - 48) as u64;
        if n <= 0x8000_0000_0000_0000 {
            if n > (0x8000_0000_0000_0000 - x) / 10 {
                n = 0x8000_0000_0000_0001;
            } else {
                n = n * 10 + x;
            }
        }
        i = i + 1;
    }
    assert(d.take(v@.len() - 1) =~= d);
    n == 0x8000_0000_0000_0000
}

impl Json {
    /// The compact text of the value.
    pub fn to_text(&self) -> (r: String)
        ensures
            r@ == json_written(self.deep_view()),
    {
        write_json(self)
    }

    /// The field `key` of an object.
    pub fn get(&self, key: &str) -> (r: Option<&Json>)
        ensures
            match r {
                Some(v) => self.deep_view().get(key@) == Some(v.deep_view()),
                None => self.deep_view().get(key@) is None,
            },
    {
        match self {
            Json::Object(fields) => {
                let ghost all = match self.deep_view() {
                    JsonView::Object(f) => f,
                    _ => Seq::empty(),
                };
                let mut i: usize = 0;
                assert(all.skip(0) =~= all);
                while i < fields.len()
                    invariant
                        i <= fields@.len() == all.len(),
                        self.deep_view() == JsonView::Object(all),
                        forall|j: int|
                            0 <= j < all.len() ==> #[trigger] all[j] == (
                                fields@[j].0@,
                                json_view(fields@[j].1),
                            ),
                        place_of(all, key@) == i + place_of(all.skip(i as int), key@),
                    decreases fields@.len() - i,
                {
                    assert(all.skip(i as int)[0] == all[i as int]);
                    if same(fields[i].0.as_str(), key) {
                        return Some(&fields[i].1);
                    }
                    assert(all.skip(i as int).drop_first() =~= all.skip(i + 1));
                    i = i + 1;
                }
                None
            },
            _ => None,
        }
    }

    /// The text of a string.
    pub fn as_str(&self) -> (r: Option<&str>)
        ensures
            match r {
                Some(t) => self.deep_view().text() == Some(t@),
                None => self.deep_view().text() is None,
            },
    {
        match self {
            Json::Text(t) => Some(t.as_str()),
            _ => None,
        }
    }

    /// The truth of a boolean.
    pub fn as_bool(&self) -> (r: Option<bool>)
        ensures
            r == self.deep_view().truth(),
    {
        match self {
            Json::Bool(b) => Some(*b),
            _ => None,
        }
    }

    /// The value of a number that is written as an integer and fits.
    pub fn as_i64(&self) -> (r: Option<i64>)
        ensures
            r == self.deep_view().integer(),
    {
        match self {
            Json::Number(n) => parse_i64(n.as_str()),
            _ => None,
        }
    }

    /// The value of a number.
    pub fn as_number(&self) -> (r: Option<Decimal>)
        ensures
            r.deep_view() == self.deep_view().number(),
    {
        match self {
            Json::Number(n) => Decimal::parse(n.as_str()),
            _ => None,
        }
    }

    /// The items of a list.
    pub fn as_list(&self) -> (r: Option<&Vec<Json>>)
        ensures
            match r {
                Some(items) => self.deep_view().items() == Some(items.deep_view()),
                None => self.deep_view().items() is None,
            },
    {
        match self {
            Json::List(items) => {
                assert(items.deep_view() =~= self.deep_view()->List_0);
                Some(items)
            },
            _ => None,
        }
    }
}

/// The text under `key` of an object.
pub fn text_at<'a>(value: &'a Json, key: &str) -> (r: Option<&'a str>)
    ensures
        match r {
            Some(t) => value.deep_view().field(key@).text() == Some(t@),
            None => value.deep_view().field(key@).text() is None,
        },
{
    match value.get(key) {
        Some(v) => v.as_str(),
        None => None,
    }
}

/// A JSON string.
pub fn text(s: &str) -> (r: Json)
    ensures
        r.deep_view() == JsonView::Text(s@),
{
    Json::Text(s.to_owned())
}

/// A JSON string, or null.
pub fn text_or_null(s: &Option<String>) -> (r: Json)
    ensures
        r.deep_view() == nullable(s.deep_view()),
{
    match s {
        Some(t) => Json::Text(t.clone()),
        None => Json::Null,
    }
}

/// A JSON string, or null.
pub open spec fn nullable(s: Option<Seq<char>>) -> JsonView {
    match s {
        Some(t) => JsonView::Text(t),
        None => JsonView::Null,
    }
}

/// A JSON number.
pub fn number(n: u64) -> (r: Json)
    ensures
        r.deep_view() == JsonView::Number(crate::text::nat_text(n as nat)),
{
    Json::Number(crate::text::u64_text(n))
}

/// A JSON list.
pub fn list(items: Vec<Json>) -> (r: Json)
    ensures
        r.deep_view() == JsonView::List(items.deep_view()),
{
    let r = Json::List(items);
    assert(r.deep_view()->List_0 =~= items.deep_view());
    r
}

/// A JSON object.
pub fn object(fields: Vec<(String, Json)>) -> (r: Json)
    ensures
        r.deep_view() == JsonView::Object(fields.deep_view()),
{
    let r = Json::Object(fields);
    assert(r.deep_view()->Object_0 =~= fields.deep_view());
    r
}

/// Adds a field.
pub fn add_field(fields: &mut Vec<(String, Json)>, key: &str, value: Json)
    ensures
        final(fields).deep_view() == old(fields).deep_view().push((key@, value.deep_view())),
{
    let ghost before = fields.deep_view();
    fields.push((key.to_owned(), value));
    assert(fields.deep_view() =~= before.push((key@, value.deep_view())));
}

/// A list of JSON strings.
pub open spec fn text_list(items: Seq<Seq<char>>) -> JsonView {
    JsonView::List(Seq::new(items.len(), |i: int| JsonView::Text(items[i])))
}

/// A list of JSON strings.
pub fn texts(items: &Vec<String>) -> (r: Json)
    ensures
        r.deep_view() == text_list(items.deep_view()),
{
    let ghost all = text_list(items.deep_view())->List_0;
    let mut out: Vec<Json> = Vec::new();
    let mut i: usize = 0;
    assert(out.deep_view() =~= all.take(0));
    while i < items.len()
        invariant
            i <= items@.len(),
            all == text_list(items.deep_view())->List_0,
            out.deep_view() == all.take(i as int),
        decreases items@.len() - i,
    {
        let ghost before = out.deep_view();
        let item = text(items[i].as_str());
        out.push(item);
        i = i + 1;
        assert(out.deep_view() =~= before.push(item.deep_view()));
        assert(out.deep_view() =~= all.take(i as int));
    }
    assert(all.take(all.len() as int) =~= all);
    list(out)
}

/// `entries` without the first one under `key`.
pub open spec fn dropped_field<T>(entries: Seq<(Seq<char>, T)>, key: Seq<char>) -> Seq<
    (Seq<char>, T),
> {
    let i = place_of(entries, key);
    if i < entries.len() {
        entries.remove(i)
    } else {
        entries
    }
}

/// An object without a field.
pub fn remove_field(fields: Vec<(String, Json)>, key: &str) -> (r: Vec<(String, Json)>)
    ensures
        r.deep_view() == dropped_field(fields.deep_view(), key@),
{
    let ghost all = fields.deep_view();
    let mut i: usize = 0;
    assert(all.skip(0) =~= all);
    while i < fields.len()
        invariant
            i <= fields@.len(),
            all == fields.deep_view(),
            place_of(all, key@) == i + place_of(all.skip(i as int), key@),
        decreases fields@.len() - i,
    {
        assert(all.skip(i as int)[0] == all[i as int]);
        if same(fields[i].0.as_str(), key) {
            let mut fields = fields;
            let gone = fields.remove(i);
            assert(fields.deep_view() =~= all.remove(i as int));
            return fields;
        }
        assert(all.skip(i as int).drop_first() =~= all.skip(i + 1));
        i = i + 1;
    }
    fields
}

/// What each kind of value gives, and that no other kind gives it.
pub proof fn values_give_their_kind(v: JsonView, key: Seq<char>, i: int)
    ensures
        v.text() is Some <==> v is Text,
        v matches JsonView::Text(t) ==> v.text() == Some(t),
        v.truth() is Some <==> v is Bool,
        v matches JsonView::Bool(b) ==> v.truth() == Some(b),
        v.items() is Some <==> v is List,
        v matches JsonView::List(items) ==> v.items() == Some(items) && (0 <= i < items.len()
            ==> v.item(i) == items[i]) && (i < 0 || i >= items.len() ==> v.item(i) is Null),
        !(v is List) ==> v.item(i) is Null,
        v matches JsonView::Object(fields) ==> v.get(key) == lookup(fields, key),
        !(v is Object) ==> v.get(key) is None,
        v.get(key) is Some ==> Some(v.field(key)) == v.get(key),
        v.get(key) is None ==> v.field(key) is Null,
        !(v is Number) ==> v.integer() is None && v.number() is None,
        v matches JsonView::Number(n) ==> v.number() == decimal_of(n),
        nullable(None) is Null,
        nullable(Some(key)) == JsonView::Text(key),
{
}

/// A whole number reads back as itself, with its sign; what is no whole number in 64 bits
/// is not read.
pub proof fn integers_read_back(n: i64, s: Seq<char>)
    ensures
        JsonView::Number(int_text(n as int)).integer() == Some(n),
        i64_of_text(s) matches Some(m) ==> s.len() > 0 && forall|i: int|
            0 < i < s.len() ==> is_digit(#[trigger] s[i]),
        i64_of_text(s) matches Some(m) ==> (m < 0 ==> s[0] == '-') && (s[0] != '-' ==> is_digit(
            s[0],
        )),
{
    let m = (if n < 0 { -n } else { n as int }) as nat;
    digits_read_back(m);
    let t = int_text(n as int);
    if n < 0 {
        assert(t.drop_first() =~= nat_text(m));
    } else {
        assert(is_digit(t[0]));
    }
    if let Some(_) = i64_of_text(s) {
        if s[0] == '-' {
            let d = s.drop_first();
            assert forall|i: int| 0 < i < s.len() implies is_digit(#[trigger] s[i]) by {
                assert(is_digit(d[i - 1]));
            }
        }
    }
}

/// The strings of a list are its items, each of them; a list with anything else has none.
pub proof fn lists_give_their_strings(v: JsonView, i: int)
    ensures
        texts_of(v) matches Some(texts) ==> (v matches JsonView::List(items) && texts.len()
            == items.len() && (0 <= i < items.len() ==> items[i] == JsonView::Text(texts[i]))),
        v matches JsonView::List(items) ==> (texts_of(v) is None ==> exists|k: int|
            0 <= k < items.len() && !(#[trigger] items[k] is Text)),
        !(v is List) ==> texts_of(v) is None,
{
}

/// The strings of a list made of texts are those texts.
pub proof fn text_lists_hold_their_texts(items: Seq<Seq<char>>)
    ensures
        texts_of(text_list(items)) == Some(items),
{
    let v = text_list(items);
    assert(texts_of(v)->0 =~= items);
}

/// A field that is dropped is gone; the entries before it and behind it stay, in order.
pub proof fn dropped_fields_are_gone<T>(
    front: Seq<(Seq<char>, T)>,
    key: Seq<char>,
    value: T,
    back: Seq<(Seq<char>, T)>,
)
    requires
        forall|i: int| 0 <= i < front.len() ==> (#[trigger] front[i]).0 != key,
    ensures
        dropped_field(front + seq![(key, value)] + back, key) == front + back,
        dropped_field(front, key) == front,
{
    let all = front + seq![(key, value)] + back;
    place_is_first(all, key);
    place_is_first(front, key);
    let n = front.len() as int;
    assert(all[n] == (key, value));
    let p = place_of(all, key);
    if p < n {
        assert(all[p] == front[p]);
    }
    assert(p == n);
    assert(all.remove(n) =~= front + back);
    let q = place_of(front, key);
    if q < front.len() {
        assert(front[q].0 == key);
    }
}

} // verus!
