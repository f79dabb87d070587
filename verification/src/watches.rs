//! What saving a watch sets off: matching it against the deals that are already there,
//! with a single summary notification, and the queries that the active watches feed into
//! the scrape rotation.

use vstd::prelude::*;
use crate::deal::{Deal, DealStatus, DealView, Moderation};
use crate::matching::{meets, watch_matches};
use crate::money::{cents_text, money_text};
use crate::notify::{Notification, NotificationView};
use crate::pipeline::{dropped, holds_text, same_price_never_renotifies};
use crate::text::{nat_text, push_text, u64_text};
use crate::watch::{Watch, WatchView};

verus! {

/// How many queries the active watches feed into the rotation at most.
pub const MAX_QUERIES: usize = 20;

/// Whether a stored deal counts for a saved watch: one that is there, that the user has not
/// put aside, and that matches.
pub open spec fn counts(watch: WatchView, deal: DealView) -> bool {
    deal.status == DealStatus::Active && deal.moderation == Moderation::Unmoderated && meets(
        watch,
        deal,
    )
}

/// The places of the deals that count for a watch.
pub open spec fn counted(watch: WatchView, deals: Seq<DealView>) -> Seq<int>
    decreases deals.len(),
{
    if deals.len() == 0 {
        Seq::empty()
    } else {
        let before = counted(watch, deals.drop_last());
        if counts(watch, deals.last()) {
            before.push(deals.len() - 1)
        } else {
            before
        }
    }
}

/// The lowest price of the deals that count, with its currency; the first of those that
/// share it.
pub open spec fn best_price(watch: WatchView, deals: Seq<DealView>) -> Option<(i64, Seq<char>)>
    decreases deals.len(),
{
    if deals.len() == 0 {
        None
    } else {
        let before = best_price(watch, deals.drop_last());
        let deal = deals.last();
        if counts(watch, deal) && (before matches Some(b) ==> deal.price_cents < b.0) {
            Some((deal.price_cents, deal.currency))
        } else {
            before
        }
    }
}

/// The summary of a saved watch. `action` is "created" or "updated".
pub open spec fn summary(
    watch: WatchView,
    action: Seq<char>,
    matched: nat,
    best: Option<(i64, Seq<char>)>,
) -> NotificationView {
    NotificationView {
        title: "ferret: watch '"@ + watch.name + "' "@ + action,
        message: match best {
            Some((price, currency)) => nat_text(matched) + " existing deal"@ + (if matched == 1 {
                ""@
            } else {
                "s"@
            }) + " match — best "@ + money_text(price as int) + " "@ + currency
                + ".\nNew finds will be pushed here."@,
            None => if watch.active {
                "No existing deals match yet — sources will pick it up on their next pass."@
            } else {
                "Watch is paused — no notifications until resumed."@
            },
        },
        tags: "mag,ferret"@,
        priority: "default"@,
    }
}

/// What saving a watch comes to.
#[derive(Debug, PartialEq)]
pub struct RetroMatch {
    /// The places of the deals that match. A match that is new counts as notified at the
    /// deal's price, which arms the price-drop push.
    pub matched: Vec<usize>,
    pub best: Option<(i64, String)>,
    /// The one notification to send.
    pub summary: Notification,
}

/// Matches a saved watch against the stored deals.
pub fn retro_match(watch: &Watch, deals: &Vec<Deal>, action: &str) -> (r: RetroMatch)
    ensures
        crate::pipeline::as_ints(r.matched@) == counted(watch.deep_view(), deals.deep_view()),
        r.best.deep_view() == best_price(watch.deep_view(), deals.deep_view()),
        r.summary.deep_view() == summary(
            watch.deep_view(),
            action@,
            counted(watch.deep_view(), deals.deep_view()).len(),
            best_price(watch.deep_view(), deals.deep_view()),
        ),
{
    let ghost all = deals.deep_view();
    let mut matched: Vec<usize> = Vec::new();
    let mut best: Option<(i64, String)> = None;
    let mut i: usize = 0;
    assert(crate::pipeline::as_ints(matched@) =~= Seq::empty());
    while i < deals.len()
        invariant
            i <= deals@.len(),
            all == deals.deep_view(),
            crate::pipeline::as_ints(matched@) == counted(watch.deep_view(), all.take(i as int)),
            best.deep_view() == best_price(watch.deep_view(), all.take(i as int)),
        decreases deals@.len() - i,
    {
        let ghost before = matched@;
        assert(all.take(i + 1).drop_last() =~= all.take(i as int));
        assert(all.take(i + 1).last() == deals@[i as int].deep_view());
        let deal = &deals[i];
        if deal.status == DealStatus::Active && deal.moderation == Moderation::Unmoderated
            && watch_matches(watch, deal) {
            matched.push(i);
            assert(crate::pipeline::as_ints(matched@) =~= crate::pipeline::as_ints(before).push(
                i as int,
            ));
            let better = match &best {
                Some((price, _)) => deal.price_cents < *price,
                None => true,
            };
            if better {
                best = Some((deal.price_cents, deal.currency.clone()));
            }
        }
        i = i + 1;
    }
    assert(all.take(all.len() as int) =~= all);
    let mut title = "ferret: watch '".to_owned();
    title.append(watch.name.as_str());
    title.append("' ");
    title.append(action);
    let message = match &best {
        Some((price, currency)) => {
            let mut m = u64_text(matched.len() as u64);
            m.append(" existing deal");
            if matched.len() == 1 {
                m.append("");
            } else {
                m.append("s");
            }
            m.append(" match — best ");
            m.append(cents_text(*price).as_str());
            m.append(" ");
            m.append(currency.as_str());
            m.append(".\nNew finds will be pushed here.");
            m
        },
        None => {
            if watch.active {
                "No existing deals match yet — sources will pick it up on their next pass.".to_owned()
            } else {
                "Watch is paused — no notifications until resumed.".to_owned()
            }
        },
    };
    RetroMatch {
        matched,
        best,
        summary: Notification {
            title,
            message,
            tags: "mag,ferret".to_owned(),
            priority: "default".to_owned(),
        },
    }
}

/// `queries` with those of `more` that are not among them, as far as there is room.
pub open spec fn fed(queries: Seq<Seq<char>>, more: Seq<Seq<char>>) -> Seq<Seq<char>>
    decreases more.len(),
{
    if more.len() == 0 {
        queries
    } else {
        let before = fed(queries, more.drop_last());
        if before.len() >= MAX_QUERIES || before.contains(more.last()) {
            before
        } else {
            before.push(more.last())
        }
    }
}

/// The queries that watches feed into the rotation: those of the active ones, each once,
/// as far as there is room.
pub open spec fn rotation(watches: Seq<WatchView>) -> Seq<Seq<char>>
    decreases watches.len(),
{
    if watches.len() == 0 {
        Seq::empty()
    } else {
        let before = rotation(watches.drop_last());
        if watches.last().active {
            fed(before, watches.last().queries)
        } else {
            before
        }
    }
}

/// Adds queries, each once, as far as there is room.
fn feed(queries: Vec<String>, more: &Vec<String>) -> (r: Vec<String>)
    ensures
        r.deep_view() == fed(queries.deep_view(), more.deep_view()),
{
    let ghost start = queries.deep_view();
    let ghost added = more.deep_view();
    let mut out = queries;
    let mut i: usize = 0;
    while i < more.len()
        invariant
            i <= more@.len(),
            added == more.deep_view(),
            out.deep_view() == fed(start, added.take(i as int)),
        decreases more@.len() - i,
    {
        assert(added.take(i + 1).drop_last() =~= added.take(i as int));
        assert(added.take(i + 1).last() == more@[i as int]@);
        assert(out.deep_view().len() == out@.len());
        if out.len() < MAX_QUERIES && !holds_text(&out, more[i].as_str()) {
            push_text(&mut out, more[i].as_str());
        }
        i = i + 1;
    }
    assert(added.take(added.len() as int) =~= added);
    out
}

/// The queries that watches feed into the rotation.
pub fn watch_queries(watches: &Vec<Watch>) -> (r: Vec<String>)
    ensures
        r.deep_view() == rotation(watches.deep_view()),
{
    let ghost all = watches.deep_view();
    let mut out: Vec<String> = Vec::new();
    let mut i: usize = 0;
    assert(out.deep_view() =~= Seq::empty());
    while i < watches.len()
        invariant
            i <= watches@.len(),
            all == watches.deep_view(),
            out.deep_view() == rotation(all.take(i as int)),
        decreases watches@.len() - i,
    {
        assert(all.take(i + 1).drop_last() =~= all.take(i as int));
        assert(all.take(i + 1).last() == watches@[i as int].deep_view());
        if watches[i].active {
            out = feed(out, &watches[i].queries);
        }
        i = i + 1;
    }
    assert(all.take(all.len() as int) =~= all);
    out
}

/// The best price is the price of a deal that counts, and none that counts is cheaper;
/// there is none exactly where no deal counts.
pub proof fn best_price_is_lowest(watch: WatchView, deals: Seq<DealView>)
    ensures
        match best_price(watch, deals) {
            Some(b) => {
                &&& exists|i: int|
                    0 <= i < deals.len() && counts(watch, #[trigger] deals[i])
                        && deals[i].price_cents == b.0 && deals[i].currency == b.1
                &&& forall|i: int|
                    0 <= i < deals.len() && counts(watch, #[trigger] deals[i]) ==> b.0
                        <= deals[i].price_cents
            },
            None => forall|i: int| 0 <= i < deals.len() ==> !counts(watch, #[trigger] deals[i]),
        },
        best_price(watch, deals) is Some <==> counted(watch, deals).len() > 0,
    decreases deals.len(),
{
    if deals.len() > 0 {
        let rest = deals.drop_last();
        best_price_is_lowest(watch, rest);
        let n = deals.len() - 1;
        assert(forall|i: int| 0 <= i < n ==> #[trigger] deals[i] == rest[i]);
        match best_price(watch, deals) {
            Some(b) => {
                if counts(watch, deals.last()) && (best_price(watch, rest) matches Some(c)
                    ==> deals.last().price_cents < c.0) {
                    assert(counts(watch, deals[n]) && deals[n].price_cents == b.0
                        && deals[n].currency == b.1);
                } else {
                    let i = choose|i: int|
                        0 <= i < rest.len() && counts(watch, #[trigger] rest[i])
                            && rest[i].price_cents == b.0 && rest[i].currency == b.1;
                    assert(counts(watch, deals[i]));
                }
            },
            None => {},
        }
    }
}

/// The price that a match of a saved watch counts as notified at: that of the deal where
/// the match is new, which arms the price-drop push.
pub open spec fn armed_at(fresh: bool, deal: DealView) -> Option<i64> {
    if fresh {
        Some(deal.price_cents)
    } else {
        None
    }
}

/// The price that a match of a saved watch counts as notified at: that of the deal where
/// the match is new, which arms the price-drop push. A known match keeps what it has.
pub fn armed_price(fresh: bool, deal: &Deal) -> (r: Option<i64>)
    ensures
        r == armed_at(fresh, deal.deep_view()),
{
    if fresh {
        Some(deal.price_cents)
    } else {
        None
    }
}

/// A match that saving a watch armed is pushed only once the price drops: never at the
/// price that it was armed at.
pub proof fn an_armed_match_waits_for_a_drop(deal: DealView, pct: (int, int))
    requires
        deal.price_cents > 0,
        pct.0 > 0,
        pct.1 > 0,
    ensures
        armed_at(true, deal) matches Some(prev) && !dropped(deal.price_cents, prev, pct),
{
    same_price_never_renotifies(deal.price_cents, pct);
}

/// A saved watch counts only deals that the user has not put aside.
pub proof fn moderated_deals_are_not_counted(watch: WatchView, deals: Seq<DealView>, i: int)
    requires
        0 <= i < deals.len(),
        deals[i].moderation != Moderation::Unmoderated,
    ensures
        !counted(watch, deals).contains(i),
    decreases deals.len(),
{
    places_that_count(watch, deals);
    if counted(watch, deals).contains(i) {
        let k = choose|k: int|
            0 <= k < counted(watch, deals).len() && counted(watch, deals)[k] == i;
        assert(counts(watch, deals[counted(watch, deals)[k]]));
    }
}

/// The places counted are those of deals that count.
proof fn places_that_count(watch: WatchView, deals: Seq<DealView>)
    ensures
        forall|k: int|
            0 <= k < counted(watch, deals).len() ==> 0 <= #[trigger] counted(watch, deals)[k]
                < deals.len() && counts(watch, deals[counted(watch, deals)[k]]),
    decreases deals.len(),
{
    if deals.len() > 0 {
        let rest = deals.drop_last();
        places_that_count(watch, rest);
        let before = counted(watch, rest);
        let all = counted(watch, deals);
        assert forall|k: int| 0 <= k < all.len() implies 0 <= #[trigger] all[k] < deals.len()
            && counts(watch, deals[all[k]]) by {
            if k < before.len() {
                assert(all[k] == before[k]);
                assert(rest[before[k]] == deals[before[k]]);
            }
        }
    }
}

/// A paused watch matches none of the stored deals.
pub proof fn paused_matches_nothing(watch: WatchView, deals: Seq<DealView>)
    requires
        !watch.active,
    ensures
        counted(watch, deals) == Seq::<int>::empty(),
        best_price(watch, deals) is None,
    decreases deals.len(),
{
    if deals.len() > 0 {
        paused_matches_nothing(watch, deals.drop_last());
    }
}

/// The rotation holds no query twice and no more than there is room for.
pub proof fn rotation_is_bounded(watches: Seq<WatchView>)
    ensures
        rotation(watches).len() <= MAX_QUERIES,
        rotation(watches).no_duplicates(),
    decreases watches.len(),
{
    if watches.len() > 0 {
        rotation_is_bounded(watches.drop_last());
        feeding_is_bounded(rotation(watches.drop_last()), watches.last().queries);
    }
}

proof fn feeding_is_bounded(queries: Seq<Seq<char>>, more: Seq<Seq<char>>)
    requires
        queries.len() <= MAX_QUERIES,
        queries.no_duplicates(),
    ensures
        fed(queries, more).len() <= MAX_QUERIES,
        fed(queries, more).no_duplicates(),
    decreases more.len(),
{
    if more.len() > 0 {
        feeding_is_bounded(queries, more.drop_last());
        let before = fed(queries, more.drop_last());
        let after = fed(queries, more);
        assert forall|i: int, j: int| 0 <= i < after.len() && 0 <= j < after.len() && i != j implies after[i]
            != after[j] by {
            if i < before.len() && j < before.len() {
                assert(before[i] != before[j]);
            }
        }
    }
}

/// A deal counts for a watch exactly where it is there, where the user has not put it aside
/// and where it matches.
pub proof fn what_counts(watch: WatchView, deal: DealView)
    ensures
        counts(watch, deal) <==> deal.status == DealStatus::Active && deal.moderation
            == Moderation::Unmoderated && meets(watch, deal),
{
}

/// The places counted are those of exactly the deals that count, in order.
pub proof fn every_deal_that_counts_is_counted(watch: WatchView, deals: Seq<DealView>, i: int)
    ensures
        counted(watch, deals).contains(i) <==> 0 <= i < deals.len() && counts(watch, deals[i]),
        forall|a: int, b: int|
            0 <= a < b < counted(watch, deals).len() ==> #[trigger] counted(watch, deals)[a]
                < #[trigger] counted(watch, deals)[b],
        forall|a: int|
            0 <= a < counted(watch, deals).len() ==> #[trigger] counted(watch, deals)[a]
                < deals.len(),
    decreases deals.len(),
{
    if deals.len() > 0 {
        let rest = deals.drop_last();
        let before = counted(watch, rest);
        let all = counted(watch, deals);
        every_deal_that_counts_is_counted(watch, rest, i);
        if before.contains(i) {
            let k = choose|k: int| 0 <= k < before.len() && before[k] == i;
            assert(all[k] == i);
            assert(rest[i] == deals[i]);
        }
        if i == deals.len() - 1 && counts(watch, deals[i]) {
            assert(all[before.len() as int] == i);
        }
        if all.contains(i) {
            let k = choose|k: int| 0 <= k < all.len() && all[k] == i;
            if k < before.len() {
                assert(before[k] == i);
            }
        }
        if 0 <= i < rest.len() {
            assert(rest[i] == deals[i]);
        }
    }
}

/// Of the deals that share the lowest price, the first gives the currency.
pub proof fn the_first_of_the_lowest(watch: WatchView, deals: Seq<DealView>, deal: DealView)
    ensures
        best_price(watch, deals.push(deal)) == match best_price(watch, deals) {
            Some(b) => if counts(watch, deal) && deal.price_cents < b.0 {
                Some((deal.price_cents, deal.currency))
            } else {
                Some(b)
            },
            None => if counts(watch, deal) {
                Some((deal.price_cents, deal.currency))
            } else {
                None
            },
        },
{
    assert(deals.push(deal).drop_last() =~= deals);
}

/// What a saved watch is told: what was done to it, how many deals match and the best of
/// their prices; where none does, that it waits or that it is paused.
pub proof fn summaries_say_what_matches(
    watch: WatchView,
    action: Seq<char>,
    matched: nat,
    best: Option<(i64, Seq<char>)>,
)
    ensures
        summary(watch, action, matched, best).title == "ferret: watch '"@ + watch.name + "' "@
            + action,
        best matches Some(b) ==> summary(watch, action, matched, best).message == nat_text(matched)
            + (if matched == 1 {
            " existing deal"@
        } else {
            " existing deals"@
        }) + " match — best "@ + money_text(b.0 as int) + " "@ + b.1
            + ".\nNew finds will be pushed here."@,
        best is None && watch.active ==> summary(watch, action, matched, best).message
            == "No existing deals match yet — sources will pick it up on their next pass."@,
        best is None && !watch.active ==> summary(watch, action, matched, best).message
            == "Watch is paused — no notifications until resumed."@,
        summary(watch, action, matched, best).tags == "mag,ferret"@,
        summary(watch, action, matched, best).priority == "default"@,
{
    reveal_strlit(" existing deal");
    reveal_strlit(" existing deals");
    reveal_strlit("s");
    reveal_strlit("");
    assert(" existing deal"@ + "s"@ =~= " existing deals"@);
    assert(" existing deal"@ + ""@ =~= " existing deal"@);
    assert(nat_text(matched) + " existing deal"@ + "s"@ =~= nat_text(matched) + " existing deals"@);
    assert(nat_text(matched) + " existing deal"@ + ""@ =~= nat_text(matched) + " existing deal"@);
}

/// A query joins the rotation exactly where it is not in it and there are fewer than
/// twenty; those of two lists join one after the other.
pub proof fn queries_join_one_by_one(
    queries: Seq<Seq<char>>,
    a: Seq<Seq<char>>,
    b: Seq<Seq<char>>,
)
    ensures
        fed(queries, a + b) == fed(fed(queries, a), b),
        a.len() == 0 ==> fed(queries, a) == queries,
        a.len() == 1 ==> fed(queries, a) == if queries.len() < 20 && !queries.contains(a[0]) {
            queries.push(a[0])
        } else {
            queries
        },
    decreases b.len(),
{
    if b.len() == 0 {
        assert(a + b =~= a);
    } else {
        queries_join_one_by_one(queries, a, b.drop_last());
        assert((a + b).drop_last() =~= a + b.drop_last());
    }
    if a.len() == 1 {
        assert(fed(queries, a.drop_last()) == queries);
    }
}

/// Each active watch feeds its queries behind those of the watches before it; a paused one
/// feeds none.
pub proof fn active_watches_feed_the_rotation(watches: Seq<WatchView>, watch: WatchView)
    ensures
        rotation(Seq::empty()).len() == 0,
        watch.active ==> rotation(watches.push(watch)) == fed(rotation(watches), watch.queries),
        !watch.active ==> rotation(watches.push(watch)) == rotation(watches),
{
    assert(watches.push(watch).drop_last() =~= watches);
}

/// While there is room, no query of an active watch is left out of the rotation.
pub proof fn no_query_is_left_out(watches: Seq<WatchView>, i: int, j: int)
    requires
        0 <= i < watches.len(),
        watches[i].active,
        0 <= j < watches[i].queries.len(),
    ensures
        rotation(watches).len() < 20 ==> rotation(watches).contains(watches[i].queries[j]),
    decreases watches.len(),
{
    let rest = watches.drop_last();
    let last = watches.last();
    if last.active {
        feeding_keeps(rotation(rest), last.queries);
    }
    if i < rest.len() {
        assert(rest[i] == watches[i]);
        no_query_is_left_out(rest, i, j);
        if rotation(watches).len() < 20 {
            let q = watches[i].queries[j];
            let k = choose|k: int| 0 <= k < rotation(rest).len() && rotation(rest)[k] == q;
            assert(rotation(watches)[k] == q);
        }
    } else {
        assert(last.queries.contains(last.queries[j]));
    }
}

proof fn feeding_keeps(queries: Seq<Seq<char>>, more: Seq<Seq<char>>)
    ensures
        queries.len() <= fed(queries, more).len(),
        forall|k: int| 0 <= k < queries.len() ==> #[trigger] fed(queries, more)[k] == queries[k],
        forall|q: Seq<char>|
            more.contains(q) && fed(queries, more).len() < 20 ==> #[trigger] fed(
                queries,
                more,
            ).contains(q),
    decreases more.len(),
{
    if more.len() > 0 {
        let rest = more.drop_last();
        feeding_keeps(queries, rest);
        let before = fed(queries, rest);
        let all = fed(queries, more);
        assert forall|q: Seq<char>| more.contains(q) && all.len() < 20 implies #[trigger] all.contains(
            q,
        ) by {
            if q == more.last() {
                if !before.contains(q) {
                    assert(all[before.len() as int] == q);
                }
            } else {
                let m = choose|m: int| 0 <= m < more.len() && more[m] == q;
                assert(rest[m] == q);
                assert(rest.contains(q));
                assert(before.contains(q));
                let k = choose|k: int| 0 <= k < before.len() && before[k] == q;
                assert(all[k] == q);
            }
        }
    }
}

/// A new match is armed at the price of its deal, a known one is not armed again.
pub proof fn new_matches_are_armed(fresh: bool, deal: DealView)
    ensures
        armed_at(fresh, deal) is Some <==> fresh,
        fresh ==> armed_at(fresh, deal) == Some(deal.price_cents),
{
}

} // verus!
