//! Price history: what the prices of a watch's deals come to, day by day.

use vstd::prelude::*;
use crate::deal::{PricePoint, PricePointView, WatchPricePoint, WatchPricePointView};
use crate::order::{alphabetical, alphabetical_is_total, at_or_before, sort_texts};
use crate::pipeline::holds_text;
use crate::price::{median, median_of};
use crate::text::{push_text, same};

verus! {

/// The days of observations, each once, in the order in which they came.
pub open spec fn days_of(points: Seq<PricePointView>) -> Seq<Seq<char>>
    decreases points.len(),
{
    if points.len() == 0 {
        Seq::empty()
    } else {
        let before = days_of(points.drop_last());
        if before.contains(points.last().day) {
            before
        } else {
            before.push(points.last().day)
        }
    }
}

/// The prices observed on a day.
pub open spec fn prices_on(points: Seq<PricePointView>, day: Seq<char>) -> Seq<i64>
    decreases points.len(),
{
    if points.len() == 0 {
        Seq::empty()
    } else {
        let before = prices_on(points.drop_last(), day);
        if points.last().day == day {
            before.push(points.last().price_cents)
        } else {
            before
        }
    }
}

/// The lowest of prices, at most `bound`.
pub open spec fn lowest(prices: Seq<i64>, bound: i64) -> i64
    decreases prices.len(),
{
    if prices.len() == 0 {
        bound
    } else {
        let before = lowest(prices.drop_last(), bound);
        if prices.last() < before {
            prices.last()
        } else {
            before
        }
    }
}

/// What the prices of a day come to.
pub open spec fn day_point(day: Seq<char>, prices: Seq<i64>) -> WatchPricePointView {
    WatchPricePointView {
        day,
        min_cents: lowest(prices, i64::MAX),
        median_cents: median_of(prices)->0,
        count: prices.len() as i64,
    }
}

/// What observations come to, one point per day, oldest first.
pub open spec fn daily(points: Seq<PricePointView>) -> Seq<WatchPricePointView> {
    let days = days_of(points).sort_by(alphabetical());
    Seq::new(days.len(), |i: int| day_point(days[i], prices_on(points, days[i])))
}

fn distinct_days(points: &Vec<PricePoint>) -> (r: Vec<String>)
    ensures
        r.deep_view() == days_of(points.deep_view()),
{
    let ghost all = points.deep_view();
    let mut out: Vec<String> = Vec::new();
    let mut i: usize = 0;
    assert(out.deep_view() =~= Seq::empty());
    while i < points.len()
        invariant
            i <= points@.len(),
            all == points.deep_view(),
            out.deep_view() == days_of(all.take(i as int)),
        decreases points@.len() - i,
    {
        assert(all.take(i + 1).drop_last() =~= all.take(i as int));
        assert(all.take(i + 1).last() == points@[i as int].deep_view());
        if !holds_text(&out, points[i].day.as_str()) {
            push_text(&mut out, points[i].day.as_str());
        }
        i = i + 1;
    }
    assert(all.take(all.len() as int) =~= all);
    out
}

fn day_prices(points: &Vec<PricePoint>, day: &str) -> (r: Vec<i64>)
    ensures
        r@ == prices_on(points.deep_view(), day@),
        r@.len() <= points@.len(),
{
    let ghost all = points.deep_view();
    let mut out: Vec<i64> = Vec::new();
    let mut i: usize = 0;
    assert(out@ =~= Seq::empty());
    while i < points.len()
        invariant
            i <= points@.len(),
            all == points.deep_view(),
            out@ == prices_on(all.take(i as int), day@),
            out@.len() <= i,
        decreases points@.len() - i,
    {
        assert(all.take(i + 1).drop_last() =~= all.take(i as int));
        assert(all.take(i + 1).last() == points@[i as int].deep_view());
        if same(points[i].day.as_str(), day) {
            out.push(points[i].price_cents);
        }
        i = i + 1;
    }
    assert(all.take(all.len() as int) =~= all);
    out
}

fn lowest_price(prices: &Vec<i64>) -> (r: i64)
    ensures
        r == lowest(prices@, i64::MAX),
{
    let mut best: i64 = i64::MAX;
    let mut i: usize = 0;
    while i < prices.len()
        invariant
            i <= prices@.len(),
            best == lowest(prices@.take(i as int), i64::MAX),
        decreases prices@.len() - i,
    {
        assert(prices@.take(i + 1).drop_last() =~= prices@.take(i as int));
        if prices[i] < best {
            best = prices[i];
        }
        i = i + 1;
    }
    assert(prices@.take(prices@.len() as int) =~= prices@);
    best
}

/// A day of the observations has a price.
proof fn days_have_prices(points: Seq<PricePointView>, day: Seq<char>)
    requires
        days_of(points).contains(day),
    ensures
        prices_on(points, day).len() > 0,
    decreases points.len(),
{
    if points.len() > 0 {
        let rest = points.drop_last();
        let before = days_of(rest);
        if points.last().day != day {
            let after = days_of(points);
            let i = choose|i: int| 0 <= i < after.len() && after[i] == day;
            if i < before.len() {
                assert(before[i] == day);
            }
            assert(before.contains(day));
            days_have_prices(rest, day);
        }
    }
}

/// What the prices of a watch's deals come to, one point per day, oldest first: the best
/// price, the median and how many deals were seen.
pub fn watch_prices(points: &Vec<PricePoint>) -> (r: Vec<WatchPricePoint>)
    requires
        points@.len() <= i64::MAX,
    ensures
        r.deep_view() == daily(points.deep_view()),
{
    let ghost all = points.deep_view();
    let days = sort_texts(&distinct_days(points));
    let ghost sorted = days_of(all).sort_by(alphabetical());
    let ghost wanted = daily(all);
    proof {
        alphabetical_is_total();
        days_of(all).lemma_sort_by_ensures(alphabetical());
    }
    let mut out: Vec<WatchPricePoint> = Vec::new();
    let mut i: usize = 0;
    assert(out.deep_view() =~= wanted.take(0));
    while i < days.len()
        invariant
            i <= days@.len(),
            points@.len() <= i64::MAX,
            all == points.deep_view(),
            sorted == days.deep_view(),
            sorted == days_of(all).sort_by(alphabetical()),
            wanted == daily(all),
            forall|x: Seq<char>| !days_of(all).contains(x) ==> !(#[trigger] sorted.contains(x)),
            out.deep_view() == wanted.take(i as int),
        decreases days@.len() - i,
    {
        let ghost before = out.deep_view();
        assert(sorted[i as int] == days@[i as int]@);
        assert(sorted.contains(sorted[i as int]));
        let prices = day_prices(points, days[i].as_str());
        proof {
            days_have_prices(all, sorted[i as int]);
        }
        let middle: i64 = match median(prices.as_slice()) {
            Some(m) => m,
            None => 0,
        };
        let point = WatchPricePoint {
            day: days[i].clone(),
            min_cents: lowest_price(&prices),
            median_cents: middle,
            count: prices.len() as i64,
        };
        assert(point.deep_view() == day_point(sorted[i as int], prices@));
        out.push(point);
        assert(out.deep_view() =~= before.push(point.deep_view()));
        i = i + 1;
        assert(out.deep_view() =~= wanted.take(i as int));
    }
    assert(wanted.take(wanted.len() as int) =~= wanted);
    out
}

/// The best price of a day is one of its prices, and none is lower.
pub proof fn best_is_lowest(prices: Seq<i64>)
    requires
        prices.len() > 0,
    ensures
        prices.contains(lowest(prices, i64::MAX)),
        forall|i: int| 0 <= i < prices.len() ==> lowest(prices, i64::MAX) <= #[trigger] prices[i],
    decreases prices.len(),
{
    let rest = prices.drop_last();
    let n = prices.len() - 1;
    assert(prices[n] == prices.last());
    if rest.len() > 0 {
        best_is_lowest(rest);
        let m = lowest(rest, i64::MAX);
        let k = choose|k: int| 0 <= k < rest.len() && rest[k] == m;
        assert(prices[k] == m);
        assert forall|i: int| 0 <= i < prices.len() implies lowest(prices, i64::MAX)
            <= #[trigger] prices[i] by {
            if i < n {
                assert(rest[i] == prices[i]);
            }
        }
    }
}

/// No day stands twice in the history.
pub proof fn days_differ(points: Seq<PricePointView>)
    ensures
        days_of(points).no_duplicates(),
    decreases points.len(),
{
    if points.len() > 0 {
        days_differ(points.drop_last());
        let before = days_of(points.drop_last());
        let after = days_of(points);
        assert forall|i: int, j: int| 0 <= i < after.len() && 0 <= j < after.len() && i != j implies after[i]
            != after[j] by {
            if i < before.len() && j < before.len() {
                assert(before[i] != before[j]);
            }
        }
    }
}

/// The days are those of the observations, in the order in which they came: more
/// observations only add days behind.
pub proof fn every_day_is_listed(points: Seq<PricePointView>, point: PricePointView)
    ensures
        days_of(Seq::empty()).len() == 0,
        days_of(points.push(point)) == if days_of(points).contains(point.day) {
            days_of(points)
        } else {
            days_of(points).push(point.day)
        },
{
    assert(points.push(point).drop_last() =~= points);
}

/// A day is listed exactly where a price was observed on it.
pub proof fn observed_days_are_listed(points: Seq<PricePointView>, day: Seq<char>)
    ensures
        days_of(points).contains(day) <==> exists|i: int|
            0 <= i < points.len() && (#[trigger] points[i]).day == day,
    decreases points.len(),
{
    if points.len() > 0 {
        let rest = points.drop_last();
        let before = days_of(rest);
        let all = days_of(points);
        observed_days_are_listed(rest, day);
        if exists|i: int| 0 <= i < points.len() && (#[trigger] points[i]).day == day {
            let i = choose|i: int| 0 <= i < points.len() && (#[trigger] points[i]).day == day;
            if i < rest.len() {
                assert(rest[i].day == day);
                let k = choose|k: int| 0 <= k < before.len() && before[k] == day;
                assert(all[k] == day);
            } else if !before.contains(day) {
                assert(all[before.len() as int] == day);
            }
        }
        if all.contains(day) {
            let k = choose|k: int| 0 <= k < all.len() && all[k] == day;
            if k < before.len() {
                assert(before[k] == day);
                let i = choose|i: int| 0 <= i < rest.len() && (#[trigger] rest[i]).day == day;
                assert(points[i].day == day);
            } else {
                assert(points[points.len() - 1].day == day);
            }
        }
    }
}

/// The prices of a day are those of exactly its observations, in order.
pub proof fn days_keep_their_prices(points: Seq<PricePointView>, day: Seq<char>)
    ensures
        prices_on(points, day) == points.filter(|p: PricePointView| p.day == day).map_values(
            |p: PricePointView| p.price_cents,
        ),
    decreases points.len(),
{
    reveal(Seq::filter);
    let p = |p: PricePointView| p.day == day;
    let f = |p: PricePointView| p.price_cents;
    if points.len() > 0 {
        let rest = points.drop_last();
        days_keep_their_prices(rest, day);
        if p(points.last()) {
            assert(rest.filter(p).push(points.last()).map_values(f) =~= rest.filter(p).map_values(
                f,
            ).push(points.last().price_cents));
        }
    }
    assert(prices_on(points, day) =~= points.filter(p).map_values(f));
}

/// A history holds one point for each day of its observations, oldest first, with the
/// lowest and the median of the prices of that day and their number.
pub proof fn one_point_per_day(points: Seq<PricePointView>, i: int)
    requires
        0 <= i < daily(points).len(),
        prices_on(points, daily(points)[i].day).len() <= i64::MAX,
    ensures
        daily(points).map_values(|p: WatchPricePointView| p.day).to_multiset() == days_of(
            points,
        ).to_multiset(),
        forall|j: int|
            0 <= j < i ==> at_or_before(
                (#[trigger] daily(points)[j]).day,
                daily(points)[i].day,
            ),
        ({
            let p = daily(points)[i];
            let prices = points.filter(|o: PricePointView| o.day == p.day).map_values(
                |o: PricePointView| o.price_cents,
            );
            &&& p.count == prices.len()
            &&& Some(p.median_cents) == median_of(prices)
            &&& prices.contains(p.min_cents)
            &&& forall|k: int| 0 <= k < prices.len() ==> p.min_cents <= #[trigger] prices[k]
        }),
{
    let days = days_of(points);
    let sorted = days.sort_by(alphabetical());
    alphabetical_is_total();
    days.lemma_sort_by_ensures(alphabetical());
    assert(daily(points).map_values(|p: WatchPricePointView| p.day) =~= sorted);
    let day = daily(points)[i].day;
    assert(day == sorted[i]);
    let prices = prices_on(points, day);
    assert(sorted.to_multiset().count(day) > 0) by {
        sorted.to_multiset_ensures();
        assert(sorted.contains(day));
    }
    assert(days.contains(day)) by {
        days.to_multiset_ensures();
    }
    observed_days_are_listed(points, day);
    let k = choose|k: int| 0 <= k < points.len() && (#[trigger] points[k]).day == day;
    a_price_is_kept(points, day, k);
    best_is_lowest(prices);
    days_keep_their_prices(points, day);
    let same = points.filter(|o: PricePointView| o.day == daily(points)[i].day).map_values(
        |o: PricePointView| o.price_cents,
    );
    assert(same == prices) by {
        assert((|o: PricePointView| o.day == daily(points)[i].day) =~= (|o: PricePointView|
            o.day == day));
    }
    assert forall|j: int| 0 <= j < i implies at_or_before(
        (#[trigger] daily(points)[j]).day,
        daily(points)[i].day,
    ) by {
        assert(alphabetical()(sorted[j], sorted[i]));
    }
}

proof fn a_price_is_kept(points: Seq<PricePointView>, day: Seq<char>, k: int)
    requires
        0 <= k < points.len(),
        points[k].day == day,
    ensures
        prices_on(points, day).len() > 0,
    decreases points.len(),
{
    if k < points.len() - 1 {
        a_price_is_kept(points.drop_last(), day, k);
    }
}

} // verus!
