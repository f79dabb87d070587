//! The alphabetical order of texts, character by character.

use vstd::prelude::*;
use vstd::relations::{sorted_by, total_ordering};
use vstd::seq_lib::lemma_sorted_unique;
use crate::text::chars_of;

verus! {

/// Whether `a` comes before `b` or is the same.
pub open spec fn at_or_before(a: Seq<char>, b: Seq<char>) -> bool
    decreases a.len(),
{
    if a.len() == 0 {
        true
    } else if b.len() == 0 {
        false
    } else if a[0] != b[0] {
        a[0] < b[0]
    } else {
        at_or_before(a.drop_first(), b.drop_first())
    }
}

/// The order of texts.
pub open spec fn alphabetical() -> spec_fn(Seq<char>, Seq<char>) -> bool {
    |a: Seq<char>, b: Seq<char>| at_or_before(a, b)
}

proof fn order_reflexive(a: Seq<char>)
    ensures
        at_or_before(a, a),
    decreases a.len(),
{
    if a.len() > 0 {
        order_reflexive(a.drop_first());
    }
}

proof fn order_antisymmetric(a: Seq<char>, b: Seq<char>)
    requires
        at_or_before(a, b),
        at_or_before(b, a),
    ensures
        a == b,
    decreases a.len(),
{
    if a.len() == 0 {
        assert(b.len() == 0);
        assert(a =~= b);
    } else {
        order_antisymmetric(a.drop_first(), b.drop_first());
        assert(a =~= seq![a[0]] + a.drop_first());
        assert(b =~= seq![b[0]] + b.drop_first());
    }
}

proof fn order_transitive(a: Seq<char>, b: Seq<char>, c: Seq<char>)
    requires
        at_or_before(a, b),
        at_or_before(b, c),
    ensures
        at_or_before(a, c),
    decreases a.len(),
{
    if a.len() > 0 && c.len() > 0 && a[0] == b[0] && b[0] == c[0] {
        order_transitive(a.drop_first(), b.drop_first(), c.drop_first());
    }
}

proof fn order_connected(a: Seq<char>, b: Seq<char>)
    ensures
        at_or_before(a, b) || at_or_before(b, a),
    decreases a.len(),
{
    if a.len() > 0 && b.len() > 0 && a[0] == b[0] {
        order_connected(a.drop_first(), b.drop_first());
    }
}

/// The order of texts is total.
pub proof fn alphabetical_is_total()
    ensures
        total_ordering(alphabetical()),
{
    let leq = alphabetical();
    assert forall|a: Seq<char>| #[trigger] leq(a, a) by {
        order_reflexive(a);
    }
    assert forall|a: Seq<char>, b: Seq<char>| #[trigger] leq(a, b) && #[trigger] leq(
        b,
        a,
    ) implies a == b by {
        order_antisymmetric(a, b);
    }
    assert forall|a: Seq<char>, b: Seq<char>, c: Seq<char>| #[trigger] leq(a, b) && #[trigger] leq(
        b,
        c,
    ) implies leq(a, c) by {
        order_transitive(a, b, c);
    }
    assert forall|a: Seq<char>, b: Seq<char>| #[trigger] leq(a, b) || #[trigger] leq(b, a) by {
        order_connected(a, b);
    }
}

/// Whether `a` comes before `b` or is the same.
pub fn not_after(a: &str, b: &str) -> (r: bool)
    ensures
        r == at_or_before(a@, b@),
{
    let x = chars_of(a);
    let y = chars_of(b);
    let mut i: usize = 0;
    assert(x@.skip(0) =~= x@);
    assert(y@.skip(0) =~= y@);
    while i < x.len() && i < y.len() && x[i] == y[i]
        invariant
            i <= x@.len(),
            i <= y@.len(),
            at_or_before(x@, y@) == at_or_before(x@.skip(i as int), y@.skip(i as int)),
        decreases x@.len() - i,
    {
        assert(x@.skip(i as int).drop_first() =~= x@.skip(i + 1));
        assert(y@.skip(i as int).drop_first() =~= y@.skip(i + 1));
        i = i + 1;
    }
    if i >= x.len() {
        true
    } else if i >= y.len() {
        false
    } else {
        x[i] < y[i]
    }
}

/// The place of a text among sorted ones: behind those that do not come after it.
fn place_among(sorted: &Vec<String>, x: &str) -> (r: usize)
    requires
        forall|a: int, b: int|
            0 <= a < b < sorted@.len() ==> at_or_before(
                #[trigger] sorted.deep_view()[a],
                #[trigger] sorted.deep_view()[b],
            ),
    ensures
        r <= sorted@.len(),
        forall|a: int| 0 <= a < r ==> at_or_before(#[trigger] sorted.deep_view()[a], x@),
        forall|a: int|
            r <= a < sorted@.len() ==> at_or_before(x@, #[trigger] sorted.deep_view()[a]),
{
    let ghost all = sorted.deep_view();
    let mut at: usize = sorted.len();
    while at > 0 && !not_after(sorted[at - 1].as_str(), x)
        invariant
            at <= sorted@.len(),
            all == sorted.deep_view(),
            forall|a: int| at <= a < sorted@.len() ==> at_or_before(x@, #[trigger] all[a]),
        decreases at,
    {
        proof {
            assert(all[at - 1] == sorted@[at - 1]@);
            order_connected(all[at - 1], x@);
        }
        at = at - 1;
    }
    proof {
        if at > 0 {
            assert(all[at - 1] == sorted@[at - 1]@);
            assert forall|a: int| 0 <= a < at implies at_or_before(#[trigger] all[a], x@) by {
                if a < at - 1 {
                    order_transitive(all[a], all[at - 1], x@);
                }
            }
        }
    }
    at
}

/// Texts in alphabetical order.
pub fn sort_texts(texts: &Vec<String>) -> (r: Vec<String>)
    ensures
        r.deep_view() == texts.deep_view().sort_by(alphabetical()),
{
    broadcast use vstd::seq_lib::group_to_multiset_ensures;

    let ghost all = texts.deep_view();
    let mut out: Vec<String> = Vec::new();
    let mut i: usize = 0;
    proof {
        assert(all.take(0) =~= Seq::empty());
        assert(out.deep_view() =~= Seq::empty());
    }
    while i < texts.len()
        invariant
            i <= texts@.len(),
            all == texts.deep_view(),
            out.deep_view().to_multiset() == all.take(i as int).to_multiset(),
            forall|a: int, b: int|
                0 <= a < b < out@.len() ==> at_or_before(
                    #[trigger] out.deep_view()[a],
                    #[trigger] out.deep_view()[b],
                ),
        decreases texts@.len() - i,
    {
        let x = texts[i].clone();
        let at: usize = place_among(&out, x.as_str());
        let ghost before = out.deep_view();
        let ghost added = x@;
        out.insert(at, x);
        proof {
            let after = out.deep_view();
            assert(after =~= before.insert(at as int, added));
            vstd::seq_lib::to_multiset_insert(before, at as int, added);
            assert(all.take(i + 1) =~= all.take(i as int).push(added));
            vstd::seq_lib::to_multiset_build(all.take(i as int), added);
            assert forall|a: int, b: int| 0 <= a < b < out@.len() implies at_or_before(
                #[trigger] after[a],
                #[trigger] after[b],
            ) by {
                let fa = if a < at { a } else { a - 1 };
                let fb = if b < at { b } else { b - 1 };
                if a != at {
                    assert(after[a] == before[fa]);
                }
                if b != at {
                    assert(after[b] == before[fb]);
                }
            }
        }
        i = i + 1;
    }
    proof {
        assert(all.take(all.len() as int) =~= all);
        let leq = alphabetical();
        alphabetical_is_total();
        let s = all.sort_by(leq);
        all.lemma_sort_by_ensures(leq);
        let o = out.deep_view();
        assert(sorted_by(o, leq)) by {
            assert forall|a: int, b: int| 0 <= a < b < o.len() implies #[trigger] leq(
                o[a],
                o[b],
            ) by {
                assert(at_or_before(o[a], o[b]));
            }
        }
        lemma_sorted_unique(o, s, leq);
    }
    out
}

} // verus!
