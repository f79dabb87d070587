//! Price outliers, held against the median of recent prices of the same family and
//! model. A price too good to be true is a scam signal: flagged, never dropped.

use vstd::prelude::*;
use vstd::seq_lib::lemma_sorted_unique;
use vstd::relations::sorted_by;
use crate::ratio::Ratio;

verus! {

/// Below this many observations the median is noise: never flag.
pub const MIN_HISTORY: usize = 5;

/// The order of prices.
pub open spec fn ascending() -> spec_fn(i64, i64) -> bool {
    |a: i64, b: i64| a <= b
}

/// The lower middle of `prices`, once sorted.
pub open spec fn median_of(prices: Seq<i64>) -> Option<i64> {
    if prices.len() == 0 {
        None
    } else {
        Some(prices.sort_by(ascending())[(prices.len() - 1) / 2])
    }
}

/// Whether `price` is below `ratio` times the median of enough history.
pub open spec fn outlying(price: i64, history: Seq<i64>, ratio: (int, int)) -> bool {
    match median_of(history) {
        Some(m) => history.len() >= MIN_HISTORY && price * ratio.1 < m * ratio.0,
        None => false,
    }
}

/// `prices` in ascending order.
fn sorted(prices: &[i64]) -> (r: Vec<i64>)
    ensures
        r@.to_multiset() == prices@.to_multiset(),
        sorted_by(r@, ascending()),
{
    broadcast use vstd::seq_lib::group_to_multiset_ensures;

    let mut out: Vec<i64> = Vec::new();
    let mut i: usize = 0;
    proof {
        assert(prices@.take(0) =~= Seq::empty());
    }
    while i < prices.len()
        invariant
            i <= prices@.len(),
            out@.len() == i,
            out@.to_multiset() == prices@.take(i as int).to_multiset(),
            forall|a: int, b: int| 0 <= a < b < out@.len() ==> out@[a] <= out@[b],
        decreases prices@.len() - i,
    {
        let x: i64 = prices[i];
        let mut at: usize = out.len();
        while at > 0 && out[at - 1] > x
            invariant
                at <= out@.len(),
                forall|a: int, b: int| 0 <= a < b < out@.len() ==> out@[a] <= out@[b],
                forall|a: int| at <= a < out@.len() ==> out@[a] > x,
            decreases at,
        {
            at = at - 1;
        }
        let ghost before = out@;
        out.insert(at, x);
        proof {
            vstd::seq_lib::to_multiset_insert(before, at as int, x);
            assert(prices@.take(i + 1) =~= prices@.take(i as int).push(x));
            vstd::seq_lib::to_multiset_build(prices@.take(i as int), x);
            assert forall|a: int, b: int| 0 <= a < b < out@.len() implies out@[a] <= out@[b] by {
                let fa = if a < at { a } else { a - 1 };
                let fb = if b < at { b } else { b - 1 };
                if a != at {
                    assert(out@[a] == before[fa]);
                }
                if b != at {
                    assert(out@[b] == before[fb]);
                }
            }
        }
        i = i + 1;
    }
    assert(prices@.take(prices@.len() as int) =~= prices@);
    out
}

/// Median price in cents. Where the count is even, the lower of the two middles.
pub fn median(prices: &[i64]) -> (r: Option<i64>)
    ensures
        r == median_of(prices@),
{
    if prices.len() == 0 {
        return None;
    }
    let sorted = sorted(prices);
    proof {
        broadcast use vstd::seq_lib::group_to_multiset_ensures;

        let leq = ascending();
        let s = prices@.sort_by(leq);
        prices@.lemma_sort_by_ensures(leq);
        lemma_sorted_unique(sorted@, s, leq);
        vstd::seq_lib::to_multiset_len(sorted@);
        vstd::seq_lib::to_multiset_len(prices@);
    }
    Some(sorted[(sorted.len() - 1) / 2])
}

/// True when `price` is below `ratio` times the median of `history` and there is enough
/// history to trust the median.
pub fn is_outlier(price: i64, history: &[i64], ratio: Ratio) -> (r: bool)
    ensures
        r == outlying(price, history@, ratio.deep_view()),
{
    if history.len() < MIN_HISTORY {
        return false;
    }
    let (num, den) = ratio.parts();
    match median(history) {
        Some(m) => {
            proof {
                assert(-0x8000_0000_0000_0000 * 0x1_0000_0000 <= price * den <= 0x8000_0000_0000_0000 * 0x1_0000_0000)
                    by (nonlinear_arith)
                    requires
                        -0x8000_0000_0000_0000 <= price <= 0x8000_0000_0000_0000,
                        0 <= den <= 0x1_0000_0000,
                ;
                assert(-0x8000_0000_0000_0000 * 0x1_0000_0000 <= m * num <= 0x8000_0000_0000_0000 * 0x1_0000_0000)
                    by (nonlinear_arith)
                    requires
                        -0x8000_0000_0000_0000 <= m <= 0x8000_0000_0000_0000,
                        -0x1_0000_0000 <= num <= 0x1_0000_0000,
                ;
            }
            (price as i128) * (den as i128) < (m as i128) * (num as i128)
        },
        None => false,
    }
}

/// The median is one of the prices, at least half of them are no lower, and at least
/// half are no higher.
pub proof fn median_is_middle(prices: Seq<i64>)
    requires
        prices.len() > 0,
    ensures
        median_of(prices) matches Some(m) && prices.contains(m) && ({
            let s = prices.sort_by(ascending());
            let k = (prices.len() - 1) / 2;
            &&& s.to_multiset() == prices.to_multiset()
            &&& s.len() == prices.len()
            &&& forall|i: int| 0 <= i <= k ==> #[trigger] s[i] <= m
            &&& forall|i: int| k <= i < s.len() ==> m <= #[trigger] s[i]
        }),
{
    broadcast use vstd::seq_lib::group_to_multiset_ensures;

    let leq = ascending();
    prices.lemma_sort_by_ensures(leq);
    let s = prices.sort_by(leq);
    vstd::seq_lib::to_multiset_len(s);
    vstd::seq_lib::to_multiset_len(prices);
    let k = (prices.len() - 1) / 2;
    assert(s.contains(s[k]));
    vstd::seq_lib::to_multiset_contains(s, s[k]);
    vstd::seq_lib::to_multiset_contains(prices, s[k]);
    assert forall|i: int| 0 <= i <= k implies #[trigger] s[i] <= s[k] by {
        if i < k {
            assert(leq(s[i], s[k]));
        }
    }
    assert forall|i: int| k <= i < s.len() implies s[k] <= #[trigger] s[i] by {
        if k < i {
            assert(leq(s[k], s[i]));
        }
    }
}

/// Thin history never flags.
pub proof fn thin_history_never_flags(price: i64, history: Seq<i64>, ratio: (int, int))
    requires
        history.len() < MIN_HISTORY,
    ensures
        !outlying(price, history, ratio),
{
}

/// What is flagged at some price is flagged at every lower one.
pub proof fn cheaper_stays_outlying(price: i64, lower: i64, history: Seq<i64>, ratio: (int, int))
    requires
        ratio.1 > 0,
        lower <= price,
        outlying(price, history, ratio),
    ensures
        outlying(lower, history, ratio),
{
    assert(lower * ratio.1 <= price * ratio.1) by (nonlinear_arith)
        requires
            lower <= price,
            ratio.1 > 0,
    ;
}

/// A price is an outlier exactly where there are five prices or more to hold it against
/// and it is below the ratio of their median; and the order of the prices does not matter.
pub proof fn outliers_are_below_the_ratio(
    price: i64,
    history: Seq<i64>,
    other: Seq<i64>,
    ratio: (int, int),
)
    ensures
        history.len() < 5 ==> !outlying(price, history, ratio),
        history.len() >= 5 ==> (median_of(history) matches Some(m) && (outlying(
            price,
            history,
            ratio,
        ) <==> price * ratio.1 < m * ratio.0)),
        history.to_multiset() == other.to_multiset() ==> outlying(price, history, ratio)
            == outlying(price, other, ratio),
{
    if history.to_multiset() == other.to_multiset() {
        median_goes_by_the_prices(history, other);
        vstd::seq_lib::to_multiset_len(history);
        vstd::seq_lib::to_multiset_len(other);
    }
}

/// The median does not depend on the order of the prices.
pub proof fn median_goes_by_the_prices(a: Seq<i64>, b: Seq<i64>)
    requires
        a.to_multiset() == b.to_multiset(),
    ensures
        median_of(a) == median_of(b),
{
    let leq = ascending();
    a.lemma_sort_by_ensures(leq);
    b.lemma_sort_by_ensures(leq);
    vstd::seq_lib::to_multiset_len(a);
    vstd::seq_lib::to_multiset_len(b);
    lemma_sorted_unique(a.sort_by(leq), b.sort_by(leq), leq);
}

} // verus!
