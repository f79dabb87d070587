//! Tables: values under text keys, each key once, in the order in which the keys came.

use vstd::prelude::*;
use crate::text::same;

verus! {

/// The place of `key` among `entries`, or their number.
pub open spec fn place_of<T>(entries: Seq<(Seq<char>, T)>, key: Seq<char>) -> int
    decreases entries.len(),
{
    if entries.len() == 0 || entries[0].0 == key {
        0
    } else {
        1 + place_of(entries.drop_first(), key)
    }
}

/// What stands under `key`.
pub open spec fn lookup<T>(entries: Seq<(Seq<char>, T)>, key: Seq<char>) -> Option<T> {
    let i = place_of(entries, key);
    if i < entries.len() {
        Some(entries[i].1)
    } else {
        None
    }
}

/// `entries` with `value` under `key`, in the place of what stood there or at the end.
pub open spec fn put<T>(entries: Seq<(Seq<char>, T)>, key: Seq<char>, value: T) -> Seq<
    (Seq<char>, T),
> {
    let i = place_of(entries, key);
    if i < entries.len() {
        entries.update(i, (key, value))
    } else {
        entries.push((key, value))
    }
}

/// No key stands twice.
pub open spec fn keys_differ<T>(entries: Seq<(Seq<char>, T)>) -> bool {
    forall|i: int, j: int|
        0 <= i < j < entries.len() ==> (#[trigger] entries[i]).0 != (#[trigger] entries[j]).0
}

/// The place is the first entry with that key.
pub proof fn place_is_first<T>(entries: Seq<(Seq<char>, T)>, key: Seq<char>)
    ensures
        0 <= place_of(entries, key) <= entries.len(),
        place_of(entries, key) < entries.len() ==> entries[place_of(entries, key)].0 == key,
        forall|i: int| 0 <= i < place_of(entries, key) ==> (#[trigger] entries[i]).0 != key,
    decreases entries.len(),
{
    if entries.len() > 0 && entries[0].0 != key {
        let rest = entries.drop_first();
        place_is_first(rest, key);
        assert forall|i: int| 0 <= i < place_of(entries, key) implies (
        #[trigger] entries[i]).0 != key by {
            if i > 0 {
                assert(rest[i - 1] == entries[i]);
            }
        }
    }
}

/// Entries come out of a place as they went in: what was put under a key is found there,
/// and nothing else moves.
pub proof fn put_then_lookup<T>(
    entries: Seq<(Seq<char>, T)>,
    key: Seq<char>,
    value: T,
    other: Seq<char>,
)
    ensures
        lookup(put(entries, key, value), other) == if other == key {
            Some(value)
        } else {
            lookup(entries, other)
        },
        keys_differ(entries) ==> keys_differ(put(entries, key, value)),
{
    let after = put(entries, key, value);
    place_is_first(entries, key);
    place_is_first(entries, other);
    place_is_first(after, other);
    let i = place_of(entries, key);
    let j = place_of(entries, other);
    let k = place_of(after, other);
    if other == key {
        if k < i {
            assert(after[k] == entries[k]);
        }
        assert(after[i].0 == key);
        assert(k == i);
    } else {
        assert(i < after.len() ==> after[i].0 == key);
        if j < entries.len() {
            assert(after[j].0 == other);
            if k < j {
                assert(k != i);
                assert(after[k] == entries[k]);
            }
        } else {
            if k < after.len() {
                assert(k != i);
                assert(after[k] == entries[k]);
            }
        }
    }
}

/// The place of `key`, or the number of entries.
pub fn place<T: DeepView>(entries: &Vec<(String, T)>, key: &str) -> (r: usize)
    ensures
        r == place_of(entries.deep_view(), key@),
        r <= entries@.len(),
{
    let ghost all = entries.deep_view();
    let mut i: usize = 0;
    assert(all.skip(0) =~= all);
    while i < entries.len()
        invariant
            i <= entries@.len(),
            all == entries.deep_view(),
            place_of(all, key@) == i + place_of(all.skip(i as int), key@),
        decreases entries@.len() - i,
    {
        assert(all.skip(i as int)[0] == all[i as int]);
        assert(all[i as int] == entries@[i as int].deep_view());
        if same(entries[i].0.as_str(), key) {
            return i;
        }
        assert(all.skip(i as int).drop_first() =~= all.skip(i + 1));
        i = i + 1;
    }
    i
}

/// What stands under `key`.
pub fn find<'a, T: DeepView>(entries: &'a Vec<(String, T)>, key: &str) -> (r: Option<&'a T>)
    ensures
        match r {
            Some(v) => lookup(entries.deep_view(), key@) == Some(v.deep_view()),
            None => lookup(entries.deep_view(), key@) is None,
        },
{
    let i: usize = place(entries, key);
    if i < entries.len() {
        assert(entries.deep_view()[i as int] == entries@[i as int].deep_view());
        Some(&entries[i].1)
    } else {
        None
    }
}

/// The entries with `value` under `key`, in the place of what stood there or at the end.
pub fn with_entry<T: DeepView>(entries: Vec<(String, T)>, key: &str, value: T) -> (r: Vec<
    (String, T),
>)
    ensures
        r.deep_view() == put(entries.deep_view(), key@, value.deep_view()),
{
    let i: usize = place(&entries, key);
    let ghost before = entries.deep_view();
    let ghost v = value.deep_view();
    let mut out = entries;
    if i < out.len() {
        out.set(i, (key.to_owned(), value));
        assert(out.deep_view() =~= before.update(i as int, (key@, v)));
    } else {
        out.push((key.to_owned(), value));
        assert(out.deep_view() =~= before.push((key@, v)));
    }
    out
}

/// What is put under a new key comes last; what is put under a known one takes its place.
/// Every other entry stays where it is.
pub proof fn entries_keep_their_places<T>(
    entries: Seq<(Seq<char>, T)>,
    key: Seq<char>,
    value: T,
    i: int,
)
    requires
        0 <= i < entries.len(),
    ensures
        lookup(entries, key) is None ==> put(entries, key, value) == entries.push((key, value)),
        lookup(entries, key) is Some ==> put(entries, key, value).len() == entries.len(),
        put(entries, key, value)[i].0 == entries[i].0,
        entries[i].0 != key ==> put(entries, key, value)[i] == entries[i],
{
    place_is_first(entries, key);
}

/// What is looked up is the value of the first entry with the key; none is found exactly
/// where no entry has it.
pub proof fn lookup_finds_the_first<T>(entries: Seq<(Seq<char>, T)>, key: Seq<char>)
    ensures
        match lookup(entries, key) {
            Some(v) => exists|i: int|
                0 <= i < entries.len() && #[trigger] entries[i] == (key, v) && forall|j: int|
                    0 <= j < i ==> (#[trigger] entries[j]).0 != key,
            None => forall|i: int| 0 <= i < entries.len() ==> (#[trigger] entries[i]).0 != key,
        },
{
    place_is_first(entries, key);
    let p = place_of(entries, key);
    if p < entries.len() {
        assert(entries[p] == (key, entries[p].1));
    }
}

} // verus!
