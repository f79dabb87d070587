//! The fields of a JSON object that has to fit a schema: each is read, or its fault named.

use vstd::prelude::*;
use crate::db_category::texts_from;
use crate::json::{copy_json, texts_of, Json, JsonView};
use crate::text::{nat_text, u64_text};

verus! {

/// What a reading that can fail holds.
pub open spec fn outcome<T: DeepView>(r: Result<T, String>) -> Result<T::V, Seq<char>> {
    match r {
        Ok(value) => Ok(value.deep_view()),
        Err(e) => Err(e@),
    }
}

/// What kind of JSON value a value is.
pub open spec fn kind_of(v: JsonView) -> Seq<char> {
    match v {
        JsonView::Null => "null"@,
        JsonView::Bool(_) => "boolean"@,
        JsonView::Number(_) => "number"@,
        JsonView::Text(_) => "string"@,
        JsonView::List(_) => "sequence"@,
        JsonView::Object(_) => "map"@,
    }
}

/// The fault of a field that is not there.
pub open spec fn missing(key: Seq<char>) -> Seq<char> {
    "missing field `"@ + key + "`"@
}

/// The fault of a field that is of another kind than it has to be.
pub open spec fn wrong_kind(key: Seq<char>, v: JsonView, expected: Seq<char>) -> Seq<char> {
    "invalid type for field `"@ + key + "`: "@ + kind_of(v) + ", expected "@ + expected
}

/// The fault of a name that is none of those known.
pub open spec fn unknown_name(key: Seq<char>, name: Seq<char>, expected: Seq<char>) -> Seq<char> {
    "unknown variant `"@ + name + "` for field `"@ + key + "`, expected "@ + expected
}

/// The fault of a value that is of another kind than it has to be.
pub open spec fn wrong_value(v: JsonView, expected: Seq<char>) -> Seq<char> {
    "invalid type: "@ + kind_of(v) + ", expected "@ + expected
}

/// The fault of a name that is none of those known, of a value that is no field.
pub open spec fn unknown_variant(name: Seq<char>, expected: Seq<char>) -> Seq<char> {
    "unknown variant `"@ + name + "`, expected "@ + expected
}

/// The name that a value gives: as a string, or as the one key of an object that holds
/// null.
pub open spec fn variant_name(v: JsonView) -> Option<Seq<char>> {
    match v {
        JsonView::Text(name) => Some(name),
        JsonView::Object(fields) => if fields.len() == 1 && fields[0].1 is Null {
            Some(fields[0].0)
        } else {
            None
        },
        _ => None,
    }
}

/// The fault of a list that holds too few fields.
pub open spec fn too_short(len: nat, what: Seq<char>, all: nat) -> Seq<char> {
    "invalid length "@ + nat_text(len) + ", expected "@ + what + " with "@ + nat_text(all)
        + " elements"@
}

/// The fields of a value by name: those of an object, or those of a list, which gives them
/// in the order of `names`, the first `least` of them at least.
pub open spec fn placed(
    v: JsonView,
    names: Seq<Seq<char>>,
    least: nat,
    what: Seq<char>,
) -> Result<JsonView, Seq<char>> {
    match v {
        JsonView::Object(_) => Ok(v),
        JsonView::List(items) => if items.len() < least {
            Err(too_short(items.len(), what, names.len()))
        } else if items.len() > names.len() {
            Err("trailing characters"@)
        } else {
            Ok(JsonView::Object(Seq::new(items.len(), |i: int| (names[i], items[i]))))
        },
        _ => Err(wrong_value(v, what)),
    }
}

/// What names hold.
pub open spec fn names_of(names: Seq<&'static str>) -> Seq<Seq<char>> {
    Seq::new(names.len(), |i: int| names[i]@)
}

/// A text that has to be there.
pub open spec fn required_text(v: JsonView, key: Seq<char>) -> Result<Seq<char>, Seq<char>> {
    match v.get(key) {
        None => Err(missing(key)),
        Some(JsonView::Text(t)) => Ok(t),
        Some(other) => Err(wrong_kind(key, other, "a string"@)),
    }
}

/// A text that may be missing or null.
pub open spec fn optional_text(v: JsonView, key: Seq<char>) -> Result<
    Option<Seq<char>>,
    Seq<char>,
> {
    match v.get(key) {
        None => Ok(None),
        Some(JsonView::Null) => Ok(None),
        Some(JsonView::Text(t)) => Ok(Some(t)),
        Some(other) => Err(wrong_kind(key, other, "a string"@)),
    }
}

/// An integer that may be missing or null.
pub open spec fn optional_integer(v: JsonView, key: Seq<char>) -> Result<Option<i64>, Seq<char>> {
    match v.get(key) {
        None => Ok(None),
        Some(JsonView::Null) => Ok(None),
        Some(other) => match other.integer() {
            Some(n) => Ok(Some(n)),
            None => Err(wrong_kind(key, other, "an integer"@)),
        },
    }
}

/// Texts that may be missing: then there are none.
pub open spec fn default_texts(v: JsonView, key: Seq<char>) -> Result<Seq<Seq<char>>, Seq<char>> {
    match v.get(key) {
        None => Ok(Seq::empty()),
        Some(list) => match texts_of(list) {
            Some(texts) => Ok(texts),
            None => Err(wrong_kind(key, list, "a sequence of strings"@)),
        },
    }
}

/// A list that may be missing: then it is empty.
pub open spec fn default_list(v: JsonView, key: Seq<char>) -> Result<Seq<JsonView>, Seq<char>> {
    match v.get(key) {
        None => Ok(Seq::empty()),
        Some(JsonView::List(items)) => Ok(items),
        Some(other) => Err(wrong_kind(key, other, "a sequence"@)),
    }
}

fn name_kind(v: &Json) -> (r: &'static str)
    ensures
        r@ == kind_of(v.deep_view()),
{
    match v {
        Json::Null => "null",
        Json::Bool(_) => "boolean",
        Json::Number(_) => "number",
        Json::Text(_) => "string",
        Json::List(_) => "sequence",
        Json::Object(_) => "map",
    }
}

/// The fault of a field that is not there.
pub fn say_missing(key: &str) -> (r: String)
    ensures
        r@ == missing(key@),
{
    let mut out = "missing field `".to_owned();
    out.append(key);
    out.append("`");
    out
}

/// The fault of a field that is of another kind than it has to be.
pub fn say_wrong_kind(key: &str, v: &Json, expected: &str) -> (r: String)
    ensures
        r@ == wrong_kind(key@, v.deep_view(), expected@),
{
    let mut out = "invalid type for field `".to_owned();
    out.append(key);
    out.append("`: ");
    out.append(name_kind(v));
    out.append(", expected ");
    out.append(expected);
    out
}

/// The fault of a name that is none of those known.
pub fn say_unknown_name(key: &str, name: &str, expected: &str) -> (r: String)
    ensures
        r@ == unknown_name(key@, name@, expected@),
{
    let mut out = "unknown variant `".to_owned();
    out.append(name);
    out.append("` for field `");
    out.append(key);
    out.append("`, expected ");
    out.append(expected);
    out
}

/// The fault of a value that is of another kind than it has to be.
pub fn say_wrong_value(v: &Json, expected: &str) -> (r: String)
    ensures
        r@ == wrong_value(v.deep_view(), expected@),
{
    let mut out = "invalid type: ".to_owned();
    out.append(name_kind(v));
    out.append(", expected ");
    out.append(expected);
    out
}

/// The fault of a name that is none of those known, of a value that is no field.
pub fn say_unknown_variant(name: &str, expected: &str) -> (r: String)
    ensures
        r@ == unknown_variant(name@, expected@),
{
    let mut out = "unknown variant `".to_owned();
    out.append(name);
    out.append("`, expected ");
    out.append(expected);
    out
}

/// The name that a value gives: as a string, or as the one key of an object that holds
/// null.
pub fn read_variant_name(v: &Json) -> (r: Option<&str>)
    ensures
        match (r, variant_name(v.deep_view())) {
            (Some(name), Some(n)) => name@ == n,
            (None, None) => true,
            _ => false,
        },
{
    match v {
        Json::Text(name) => Some(name.as_str()),
        Json::Object(fields) => {
            if fields.len() == 1 {
                assert(v.deep_view()->Object_0[0] == (
                    fields@[0].0@,
                    fields@[0].1.deep_view(),
                ));
                if let Json::Null = &fields[0].1 {
                    return Some(fields[0].0.as_str());
                }
            }
            None
        },
        _ => None,
    }
}

/// The fields of a value by name; `None` where it is an object, which has them as it is.
pub fn place_fields(v: &Json, names: &Vec<&'static str>, least: usize, what: &str) -> (r: Result<
    Option<Json>,
    String,
>)
    ensures
        match (r, placed(v.deep_view(), names_of(names@), least as nat, what@)) {
            (Ok(Some(o)), Ok(p)) => o.deep_view() == p,
            (Ok(None), Ok(p)) => v.deep_view() == p,
            (Err(e), Err(fault)) => e@ == fault,
            _ => false,
        },
{
    match v {
        Json::Object(_) => Ok(None),
        Json::List(items) => {
            if items.len() < least {
                let mut out = "invalid length ".to_owned();
                out.append(u64_text(items.len() as u64).as_str());
                out.append(", expected ");
                out.append(what);
                out.append(" with ");
                out.append(u64_text(names.len() as u64).as_str());
                out.append(" elements");
                return Err(out);
            }
            if items.len() > names.len() {
                return Err("trailing characters".to_owned());
            }
            assert(v.deep_view()->List_0 =~= items.deep_view());
            let object = zip_fields(names, items);
            assert(object.deep_view()->Object_0 =~= placed(
                v.deep_view(),
                names_of(names@),
                least as nat,
                what@,
            )->Ok_0->Object_0);
            Ok(Some(object))
        },
        _ => Err(say_wrong_value(v, what)),
    }
}

fn zip_fields(names: &Vec<&'static str>, items: &Vec<Json>) -> (r: Json)
    requires
        items@.len() <= names@.len(),
    ensures
        r.deep_view() == JsonView::Object(
            Seq::new(
                items@.len(),
                |i: int| (names_of(names@)[i], items.deep_view()[i]),
            ),
        ),
{
    let mut fields: Vec<(String, Json)> = Vec::new();
    let mut i: usize = 0;
    while i < items.len()
        invariant
            i <= items@.len() <= names@.len(),
            fields@.len() == i,
            forall|j: int|
                0 <= j < i ==> (#[trigger] fields@[j]).0@ == names@[j]@ && fields@[j].1.deep_view()
                    == items@[j].deep_view(),
        decreases items@.len() - i,
    {
        fields.push((names[i].to_owned(), copy_json(&items[i])));
        i = i + 1;
    }
    let r = Json::Object(fields);
    assert(r.deep_view()->Object_0 =~= Seq::new(
        items@.len(),
        |i: int| (names_of(names@)[i], items.deep_view()[i]),
    ));
    r
}

/// A text that has to be there.
pub fn read_required_text(v: &Json, key: &str) -> (r: Result<String, String>)
    ensures
        outcome(r) == required_text(v.deep_view(), key@),
{
    match v.get(key) {
        None => Err(say_missing(key)),
        Some(Json::Text(t)) => Ok(t.clone()),
        Some(other) => Err(say_wrong_kind(key, other, "a string")),
    }
}

/// A text that may be missing or null.
pub fn read_optional_text(v: &Json, key: &str) -> (r: Result<Option<String>, String>)
    ensures
        outcome(r) == optional_text(v.deep_view(), key@),
{
    match v.get(key) {
        None => Ok(None),
        Some(Json::Null) => Ok(None),
        Some(Json::Text(t)) => Ok(Some(t.clone())),
        Some(other) => Err(say_wrong_kind(key, other, "a string")),
    }
}

/// An integer that may be missing or null.
pub fn read_optional_integer(v: &Json, key: &str) -> (r: Result<Option<i64>, String>)
    ensures
        outcome(r) == optional_integer(v.deep_view(), key@),
{
    match v.get(key) {
        None => Ok(None),
        Some(Json::Null) => Ok(None),
        Some(other) => match other.as_i64() {
            Some(n) => Ok(Some(n)),
            None => Err(say_wrong_kind(key, other, "an integer")),
        },
    }
}

/// Texts that may be missing: then there are none.
pub fn read_default_texts(v: &Json, key: &str) -> (r: Result<Vec<String>, String>)
    ensures
        outcome(r) == default_texts(v.deep_view(), key@),
{
    match v.get(key) {
        None => {
            let nothing: Vec<String> = Vec::new();
            assert(nothing.deep_view() =~= Seq::empty());
            Ok(nothing)
        },
        Some(list) => match texts_from(list) {
            Some(texts) => Ok(texts),
            None => Err(say_wrong_kind(key, list, "a sequence of strings")),
        },
    }
}

/// A text field that has to be there is read where it is a string; one that may be missing
/// is read where it is a string, is null, or is not there. Any other value is a fault that
/// names the field.
pub proof fn text_fields_are_read(v: JsonView, key: Seq<char>)
    ensures
        required_text(v, key) is Ok <==> v.get(key) is Some && v.get(key)->0 is Text,
        required_text(v, key) matches Ok(t) ==> v.get(key) == Some(JsonView::Text(t)),
        v.get(key) is None ==> required_text(v, key) == Err::<Seq<char>, Seq<char>>(
            "missing field `"@ + key + "`"@,
        ),
        optional_text(v, key) is Ok <==> v.get(key) is None || v.get(key)->0 is Null
            || v.get(key)->0 is Text,
        v.get(key) is None || v.get(key)->0 is Null ==> optional_text(v, key) == Ok::<
            Option<Seq<char>>,
            Seq<char>,
        >(None),
        v.get(key) matches Some(JsonView::Text(t)) ==> optional_text(v, key) == Ok::<
            Option<Seq<char>>,
            Seq<char>,
        >(Some(t)),
        v.get(key) matches Some(JsonView::Bool(b)) ==> required_text(v, key) == Err::<
            Seq<char>,
            Seq<char>,
        >("invalid type for field `"@ + key + "`: "@ + "boolean"@ + ", expected "@ + "a string"@),
{
}

/// An integer field that may be missing is read where it is an integer, is null, or is not
/// there; lists that may be missing are then empty.
pub proof fn other_fields_are_read(v: JsonView, key: Seq<char>)
    ensures
        v.get(key) is None || v.get(key)->0 is Null ==> optional_integer(v, key) == Ok::<
            Option<i64>,
            Seq<char>,
        >(None),
        v.get(key) is Some && !(v.get(key)->0 is Null) && (v.get(key)->0).integer() is Some
            ==> optional_integer(v, key) == Ok::<Option<i64>, Seq<char>>(
            (v.get(key)->0).integer(),
        ),
        v.get(key) is Some && !(v.get(key)->0 is Null) && (v.get(key)->0).integer() is None
            ==> optional_integer(v, key) is Err,
        v.get(key) is None ==> default_texts(v, key) == Ok::<Seq<Seq<char>>, Seq<char>>(
            Seq::empty(),
        ),
        v.get(key) is Some ==> match texts_of(v.get(key)->0) {
            Some(texts) => default_texts(v, key) == Ok::<Seq<Seq<char>>, Seq<char>>(texts),
            None => default_texts(v, key) is Err,
        },
        v.get(key) is None ==> default_list(v, key) == Ok::<Seq<JsonView>, Seq<char>>(Seq::empty()),
        v.get(key) matches Some(JsonView::List(items)) ==> default_list(v, key) == Ok::<
            Seq<JsonView>,
            Seq<char>,
        >(items),
        v.get(key) is Some && !(v.get(key)->0 is List) ==> default_list(v, key) is Err,
{
}

/// The fields of an object are its own; those of a list have the names of their places,
/// and there have to be enough of them and not too many. Nothing else has fields.
pub proof fn fields_have_names_or_places(
    v: JsonView,
    names: Seq<Seq<char>>,
    least: nat,
    what: Seq<char>,
    i: int,
)
    ensures
        v is Object ==> placed(v, names, least, what) == Ok::<JsonView, Seq<char>>(v),
        v matches JsonView::List(items) ==> {
            &&& items.len() < least ==> placed(v, names, least, what) is Err
            &&& items.len() > names.len() ==> placed(v, names, least, what) is Err
            &&& least <= items.len() <= names.len() ==> (placed(v, names, least, what) matches Ok(
                JsonView::Object(fields),
            ) && fields.len() == items.len() && (0 <= i < items.len() ==> fields[i] == (
                names[i],
                items[i],
            )))
        },
        !(v is Object) && !(v is List) ==> placed(v, names, least, what) is Err,
{
}

/// A name is given by a string, or by the one key of an object that holds null.
pub proof fn names_are_given(v: JsonView)
    ensures
        v matches JsonView::Text(name) ==> variant_name(v) == Some(name),
        v matches JsonView::Object(fields) ==> (fields.len() == 1 && fields[0].1 is Null
            ==> variant_name(v) == Some(fields[0].0)),
        variant_name(v) is Some ==> v is Text || v is Object,
        v matches JsonView::Object(fields) ==> (variant_name(v) is Some ==> fields.len() == 1
            && fields[0].1 is Null),
{
}

/// What each fault says.
pub proof fn faults_are_worded(key: Seq<char>, v: JsonView, expected: Seq<char>, len: nat, all: nat)
    ensures
        missing(key) == "missing field `"@ + key + "`"@,
        wrong_kind(key, v, expected) == "invalid type for field `"@ + key + "`: "@ + kind_of(v)
            + ", expected "@ + expected,
        wrong_value(v, expected) == "invalid type: "@ + kind_of(v) + ", expected "@ + expected,
        unknown_name(key, expected, expected) == "unknown variant `"@ + expected + "` for field `"@
            + key + "`, expected "@ + expected,
        unknown_variant(key, expected) == "unknown variant `"@ + key + "`, expected "@ + expected,
        too_short(len, expected, all) == "invalid length "@ + nat_text(len) + ", expected "@
            + expected + " with "@ + nat_text(all) + " elements"@,
        v is Null ==> kind_of(v) == "null"@,
        v is Bool ==> kind_of(v) == "boolean"@,
        v is Number ==> kind_of(v) == "number"@,
        v is Text ==> kind_of(v) == "string"@,
        v is List ==> kind_of(v) == "sequence"@,
        v is Object ==> kind_of(v) == "map"@,
{
}

/// The fault that a field or a list is refused with.
pub proof fn refusals_say_why(
    v: JsonView,
    key: Seq<char>,
    other: JsonView,
    items: Seq<JsonView>,
    names: Seq<Seq<char>>,
    least: nat,
    what: Seq<char>,
)
    ensures
        v.get(key) == Some(other) && !(other is Text) ==> required_text(v, key) == Err::<
            Seq<char>,
            Seq<char>,
        >(wrong_kind(key, other, "a string"@)),
        v.get(key) == Some(other) && !(other is Text) && !(other is Null) ==> optional_text(v, key)
            == Err::<Option<Seq<char>>, Seq<char>>(wrong_kind(key, other, "a string"@)),
        v.get(key) == Some(other) && !(other is Null) && other.integer() is None
            ==> optional_integer(v, key) == Err::<Option<i64>, Seq<char>>(
            wrong_kind(key, other, "an integer"@),
        ),
        v.get(key) == Some(other) && texts_of(other) is None ==> default_texts(v, key) == Err::<
            Seq<Seq<char>>,
            Seq<char>,
        >(wrong_kind(key, other, "a sequence of strings"@)),
        v.get(key) == Some(other) && !(other is List) ==> default_list(v, key) == Err::<
            Seq<JsonView>,
            Seq<char>,
        >(wrong_kind(key, other, "a sequence"@)),
        items.len() < least ==> placed(JsonView::List(items), names, least, what) == Err::<
            JsonView,
            Seq<char>,
        >(too_short(items.len(), what, names.len())),
        items.len() >= least && items.len() > names.len() ==> placed(
            JsonView::List(items),
            names,
            least,
            what,
        ) == Err::<JsonView, Seq<char>>("trailing characters"@),
        !(v is Object) && !(v is List) ==> placed(v, names, least, what) == Err::<
            JsonView,
            Seq<char>,
        >(wrong_value(v, what)),
{
}

} // verus!
