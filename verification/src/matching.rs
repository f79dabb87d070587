//! Matching persisted deals against active watches. Flags (stuffing, outlier) never veto
//! a match, they ride along.

use vstd::prelude::*;
use crate::table::lookup;
use crate::category::{all_met, filters_match, SpecFilterView};
use crate::deal::{Deal, DealView, Flag, LlmVerdict};
use crate::watch::{Watch, WatchView};

verus! {

/// Whether a deal meets everything that a watch sets.
pub open spec fn meets(watch: WatchView, deal: DealView) -> bool {
    &&& watch.active
    &&& watch.family is Some ==> deal.family == watch.family
    &&& watch.model matches Some(model) ==> deal.models.contains(model)
    &&& watch.min_capacity_gb matches Some(min) ==> deal.capacity_gb is Some
        && deal.capacity_gb->0 >= min
    &&& watch.category is Some ==> deal.category == watch.category && all_met(
        watch.spec_filters,
        deal.specs,
    )
    &&& watch.min_price_cents matches Some(min) ==> deal.price_cents >= min
    &&& watch.max_price_cents matches Some(max) ==> deal.price_cents <= max
}

/// Whether both are set to the same text.
fn same_set(wanted: &String, given: &Option<String>) -> (r: bool)
    ensures
        r == (given.deep_view() == Some(wanted@)),
{
    match given {
        Some(g) => *g == *wanted,
        None => false,
    }
}

/// Whether `models` holds `model`.
fn holds(models: &Vec<String>, model: &String) -> (r: bool)
    ensures
        r == models.deep_view().contains(model@),
{
    let mut i: usize = 0;
    while i < models.len()
        invariant
            i <= models@.len(),
            forall|j: int| 0 <= j < i ==> #[trigger] models.deep_view()[j] != model@,
        decreases models@.len() - i,
    {
        if models[i] == *model {
            assert(models.deep_view()[i as int] == model@);
            return true;
        }
        i = i + 1;
    }
    false
}

/// Does this deal satisfy this watch? Every filter the watch sets must hold; filters the
/// watch leaves unset are ignored. Flags are not consulted: a flagged deal matches and
/// surfaces with its badges.
pub fn watch_matches(watch: &Watch, deal: &Deal) -> (r: bool)
    ensures
        r == meets(watch.deep_view(), deal.deep_view()),
{
    if !watch.active {
        return false;
    }
    if let Some(family) = &watch.family {
        if !same_set(family, &deal.family) {
            return false;
        }
    }
    if let Some(model) = &watch.model {
        if !holds(&deal.models, model) {
            return false;
        }
    }
    if let Some(min_gb) = watch.min_capacity_gb {
        match deal.capacity_gb {
            Some(c) => {
                if c < min_gb {
                    return false;
                }
            },
            None => {
                return false;
            },
        }
    }
    if let Some(category) = &watch.category {
        if !same_set(category, &deal.category) {
            return false;
        }
        if !filters_match(watch.spec_filters.as_slice(), &deal.specs) {
            return false;
        }
    }
    if let Some(min) = watch.min_price_cents {
        if deal.price_cents < min {
            return false;
        }
    }
    if let Some(max) = watch.max_price_cents {
        if deal.price_cents > max {
            return false;
        }
    }
    true
}

/// A watch that is switched off matches nothing.
pub proof fn inactive_never_matches(watch: WatchView, deal: DealView)
    requires
        !watch.active,
    ensures
        !meets(watch, deal),
{
}

/// Flags and verdicts never veto a match.
pub proof fn signals_never_veto(
    watch: WatchView,
    deal: DealView,
    flags: Seq<Flag>,
    verdict: Option<LlmVerdict>,
)
    ensures
        meets(watch, DealView { flags, llm_verdict: verdict, ..deal }) == meets(watch, deal),
{
}

/// An active watch that sets nothing matches every deal.
pub proof fn unset_filters_are_ignored(watch: WatchView, deal: DealView)
    requires
        watch.active,
        watch.family is None,
        watch.model is None,
        watch.min_capacity_gb is None,
        watch.category is None,
        watch.min_price_cents is None,
        watch.max_price_cents is None,
    ensures
        meets(watch, deal),
{
}

/// A deal of unknown capacity never matches a watch that demands one.
pub proof fn unknown_capacity_never_matches(watch: WatchView, deal: DealView)
    requires
        watch.min_capacity_gb is Some,
        deal.capacity_gb is None,
    ensures
        !meets(watch, deal),
{
}

/// Spec filters apply only where the watch targets a category, and a deal of another
/// category never matches it.
pub proof fn spec_filters_need_a_category(watch: WatchView, deal: DealView, other: Seq<SpecFilterView>)
    ensures
        watch.category is None ==> meets(WatchView { spec_filters: other, ..watch }, deal)
            == meets(watch, deal),
        watch.category is Some && deal.category != watch.category ==> !meets(watch, deal),
{
}

/// A deal that matches at some price still matches at any lower price at or above the
/// floor.
pub proof fn cheaper_still_matches(watch: WatchView, deal: DealView, price_cents: i64)
    requires
        meets(watch, deal),
        price_cents <= deal.price_cents,
        watch.min_price_cents matches Some(min) ==> min <= price_cents,
    ensures
        meets(watch, DealView { price_cents, ..deal }),
{
}

/// Each thing that a watch can set counts for itself: a deal meets the watch exactly where
/// it meets the watch without that thing, and has what is asked.
pub proof fn every_demand_counts(watch: WatchView, deal: DealView)
    ensures
        meets(watch, deal) <==> watch.active && meets(WatchView { active: true, ..watch }, deal),
        meets(watch, deal) <==> meets(WatchView { family: None, ..watch }, deal) && (
        watch.family is None || deal.family == watch.family),
        meets(watch, deal) <==> meets(WatchView { model: None, ..watch }, deal) && (
        watch.model is None || exists|i: int|
            0 <= i < deal.models.len() && #[trigger] deal.models[i] == watch.model->0),
        meets(watch, deal) <==> meets(WatchView { min_capacity_gb: None, ..watch }, deal) && (
        watch.min_capacity_gb is None || (deal.capacity_gb is Some && watch.min_capacity_gb->0
            <= deal.capacity_gb->0)),
        meets(watch, deal) <==> meets(WatchView { min_price_cents: None, ..watch }, deal) && (
        watch.min_price_cents is None || watch.min_price_cents->0 <= deal.price_cents),
        meets(watch, deal) <==> meets(WatchView { max_price_cents: None, ..watch }, deal) && (
        watch.max_price_cents is None || deal.price_cents <= watch.max_price_cents->0),
        meets(watch, deal) <==> meets(WatchView { category: None, ..watch }, deal) && (
        watch.category is None || (deal.category == watch.category && forall|i: int|
            0 <= i < watch.spec_filters.len() ==> (lookup(
                deal.specs,
                (#[trigger] watch.spec_filters[i]).key(),
            ) matches Some(value) && watch.spec_filters[i].accepts(value)))),
{
    if let Some(model) = watch.model {
        if deal.models.contains(model) {
            let i = choose|i: int| 0 <= i < deal.models.len() && deal.models[i] == model;
            assert(deal.models[i] == model);
        }
    }
}

/// The capacity that a watch asks for is a floor: a deal that matches still does with any
/// larger capacity, and one that has the floor or more is never refused for its capacity.
pub proof fn capacity_is_a_floor(watch: WatchView, deal: DealView, larger: i64)
    ensures
        meets(watch, deal) && (deal.capacity_gb matches Some(c) ==> larger >= c) ==> meets(
            watch,
            DealView { capacity_gb: Some(larger), ..deal },
        ),
        watch.min_capacity_gb matches Some(min) && larger >= min ==> meets(
            watch,
            DealView { capacity_gb: Some(larger), ..deal },
        ) == meets(WatchView { min_capacity_gb: None, ..watch }, deal),
        watch.min_capacity_gb matches Some(min) && larger < min ==> !meets(
            watch,
            DealView { capacity_gb: Some(larger), ..deal },
        ),
{
}

/// The price bounds of a watch are inclusive, and between them every price matches.
pub proof fn prices_between_the_bounds_match(watch: WatchView, deal: DealView, price_cents: i64)
    requires
        meets(watch, deal),
    ensures
        meets(watch, DealView { price_cents, ..deal }) <==> (watch.min_price_cents is None
            || watch.min_price_cents->0 <= price_cents) && (watch.max_price_cents is None
            || price_cents <= watch.max_price_cents->0),
{
}

/// A match goes by the family, the models, the capacity, the category, the specs and the
/// price of a deal, and by nothing else of it.
pub proof fn nothing_else_decides_a_match(watch: WatchView, deal: DealView, other: DealView)
    requires
        deal.family == other.family,
        deal.models == other.models,
        deal.capacity_gb == other.capacity_gb,
        deal.category == other.category,
        deal.specs == other.specs,
        deal.price_cents == other.price_cents,
    ensures
        meets(watch, deal) == meets(watch, other),
{
}

} // verus!
