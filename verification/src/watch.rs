//! Saved product-type watches and the requests that make them.

use vstd::prelude::*;
use crate::category::{SpecFilter, SpecFilterView};
use crate::time::Timestamp;

verus! {

/// A saved search for a product.
#[derive(Debug, PartialEq)]
pub struct Watch {
    pub id: u128,
    /// Display name, e.g. "4TB HDD" or "RTX 3080".
    pub name: String,
    /// Product family the watch targets (must exist in the family tables for the
    /// stuffing and outlier signals; free-text watches still match on the other
    /// filters).
    pub family: Option<String>,
    /// Exact model within the family, e.g. "3080".
    pub model: Option<String>,
    /// Minimum extracted capacity in decimal GB.
    pub min_capacity_gb: Option<i64>,
    /// Plausibility floor: filters accessories and placeholder prices that title-match
    /// the product.
    pub min_price_cents: Option<i64>,
    pub max_price_cents: Option<i64>,
    /// Category the watch targets; when set, only deals categorized the same can match,
    /// and `spec_filters` apply.
    pub category: Option<String>,
    pub spec_filters: Vec<SpecFilter>,
    /// Search queries this watch feeds into the scheduled scrape rotation.
    pub queries: Vec<String>,
    pub active: bool,
    pub created_at: Timestamp,
}

/// What `Watch` holds.
#[verifier::ext_equal]
pub struct WatchView {
    pub id: u128,
    pub name: Seq<char>,
    pub family: Option<Seq<char>>,
    pub model: Option<Seq<char>>,
    pub min_capacity_gb: Option<i64>,
    pub min_price_cents: Option<i64>,
    pub max_price_cents: Option<i64>,
    pub category: Option<Seq<char>>,
    pub spec_filters: Seq<SpecFilterView>,
    pub queries: Seq<Seq<char>>,
    pub active: bool,
    pub created_at: Timestamp,
}

impl DeepView for Watch {
    type V = WatchView;

    open spec fn deep_view(&self) -> WatchView {
        WatchView {
            id: self.id,
            name: self.name@,
            family: self.family.deep_view(),
            model: self.model.deep_view(),
            min_capacity_gb: self.min_capacity_gb,
            min_price_cents: self.min_price_cents,
            max_price_cents: self.max_price_cents,
            category: self.category.deep_view(),
            spec_filters: self.spec_filters.deep_view(),
            queries: self.queries.deep_view(),
            active: self.active,
            created_at: self.created_at,
        }
    }
}

impl Clone for Watch {
    fn clone(&self) -> (r: Self)
        ensures
            r.deep_view() == self.deep_view(),
    {
        let r = Watch {
            id: self.id,
            name: self.name.clone(),
            family: self.family.clone(),
            model: self.model.clone(),
            min_capacity_gb: self.min_capacity_gb,
            min_price_cents: self.min_price_cents,
            max_price_cents: self.max_price_cents,
            category: self.category.clone(),
            spec_filters: self.spec_filters.clone(),
            queries: self.queries.clone(),
            active: self.active,
            created_at: self.created_at,
        };
        assert(r.spec_filters.deep_view() =~= self.spec_filters.deep_view());
        assert(r.queries.deep_view() =~= self.queries.deep_view());
        r
    }
}

/// What a client sends to make or replace a watch.
#[derive(Debug, PartialEq)]
pub struct WatchRequest {
    pub name: String,
    pub family: Option<String>,
    pub model: Option<String>,
    pub min_capacity_gb: Option<i64>,
    pub min_price_cents: Option<i64>,
    pub max_price_cents: Option<i64>,
    pub category: Option<String>,
    pub spec_filters: Vec<SpecFilter>,
    pub queries: Vec<String>,
    pub active: bool,
}

/// What `WatchRequest` holds.
#[verifier::ext_equal]
pub struct WatchRequestView {
    pub name: Seq<char>,
    pub family: Option<Seq<char>>,
    pub model: Option<Seq<char>>,
    pub min_capacity_gb: Option<i64>,
    pub min_price_cents: Option<i64>,
    pub max_price_cents: Option<i64>,
    pub category: Option<Seq<char>>,
    pub spec_filters: Seq<SpecFilterView>,
    pub queries: Seq<Seq<char>>,
    pub active: bool,
}

impl DeepView for WatchRequest {
    type V = WatchRequestView;

    open spec fn deep_view(&self) -> WatchRequestView {
        WatchRequestView {
            name: self.name@,
            family: self.family.deep_view(),
            model: self.model.deep_view(),
            min_capacity_gb: self.min_capacity_gb,
            min_price_cents: self.min_price_cents,
            max_price_cents: self.max_price_cents,
            category: self.category.deep_view(),
            spec_filters: self.spec_filters.deep_view(),
            queries: self.queries.deep_view(),
            active: self.active,
        }
    }
}

impl Clone for WatchRequest {
    fn clone(&self) -> (r: Self)
        ensures
            r.deep_view() == self.deep_view(),
    {
        let r = WatchRequest {
            name: self.name.clone(),
            family: self.family.clone(),
            model: self.model.clone(),
            min_capacity_gb: self.min_capacity_gb,
            min_price_cents: self.min_price_cents,
            max_price_cents: self.max_price_cents,
            category: self.category.clone(),
            spec_filters: self.spec_filters.clone(),
            queries: self.queries.clone(),
            active: self.active,
        };
        assert(r.spec_filters.deep_view() =~= self.spec_filters.deep_view());
        assert(r.queries.deep_view() =~= self.queries.deep_view());
        r
    }
}

/// Whether a request that does not say is for an active watch.
pub fn default_true() -> (r: bool)
    ensures
        r,
{
    true
}

/// A request that gives only a name asks for an active watch without filters.
pub open spec fn bare_request(name: Seq<char>) -> WatchRequestView {
    WatchRequestView {
        name,
        family: None,
        model: None,
        min_capacity_gb: None,
        min_price_cents: None,
        max_price_cents: None,
        category: None,
        spec_filters: Seq::empty(),
        queries: Seq::empty(),
        active: true,
    }
}

/// The watch that a request makes, under a new id.
pub open spec fn watch_made(req: WatchRequestView, id: u128, now: Timestamp) -> WatchView {
    WatchView {
        id,
        name: req.name,
        family: req.family,
        model: req.model,
        min_capacity_gb: req.min_capacity_gb,
        min_price_cents: req.min_price_cents,
        max_price_cents: req.max_price_cents,
        category: req.category,
        spec_filters: req.spec_filters,
        queries: req.queries,
        active: req.active,
        created_at: now,
    }
}

impl WatchRequest {
    /// A request that gives only a name.
    pub fn named(name: String) -> (r: WatchRequest)
        ensures
            r.deep_view() == bare_request(name@),
    {
        let spec_filters: Vec<SpecFilter> = Vec::new();
        let queries: Vec<String> = Vec::new();
        assert(spec_filters.deep_view() =~= Seq::empty());
        assert(queries.deep_view() =~= Seq::empty());
        WatchRequest {
            name,
            family: None,
            model: None,
            min_capacity_gb: None,
            min_price_cents: None,
            max_price_cents: None,
            category: None,
            spec_filters,
            queries,
            active: default_true(),
        }
    }

    /// The watch that this request makes. A watch that replaces another keeps its `id`
    /// and its `created_at`.
    pub fn into_watch(self, id: u128, created_at: Timestamp) -> (r: Watch)
        ensures
            r.deep_view() == watch_made(self.deep_view(), id, created_at),
    {
        Watch {
            id,
            name: self.name,
            family: self.family,
            model: self.model,
            min_capacity_gb: self.min_capacity_gb,
            min_price_cents: self.min_price_cents,
            max_price_cents: self.max_price_cents,
            category: self.category,
            spec_filters: self.spec_filters,
            queries: self.queries,
            active: self.active,
            created_at,
        }
    }
}

/// A watch is what was asked for, under its id, from now on.
pub proof fn watches_are_what_was_asked_for(req: WatchRequestView, id: u128, now: Timestamp)
    ensures
        ({
            let w = watch_made(req, id, now);
            &&& w.id == id
            &&& w.created_at == now
            &&& w.name == req.name
            &&& w.family == req.family
            &&& w.model == req.model
            &&& w.min_capacity_gb == req.min_capacity_gb
            &&& w.min_price_cents == req.min_price_cents
            &&& w.max_price_cents == req.max_price_cents
            &&& w.category == req.category
            &&& w.spec_filters == req.spec_filters
            &&& w.queries == req.queries
            &&& w.active == req.active
        }),
{
}

/// A request with nothing but a name asks for an active watch that demands nothing.
pub proof fn bare_requests_demand_nothing(name: Seq<char>)
    ensures
        ({
            let req = bare_request(name);
            &&& req.name == name
            &&& req.active
            &&& req.family is None && req.model is None && req.category is None
            &&& req.min_capacity_gb is None
            &&& req.min_price_cents is None && req.max_price_cents is None
            &&& req.spec_filters.len() == 0 && req.queries.len() == 0
        }),
{
}

} // verus!
