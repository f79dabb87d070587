//! A persisted deal: a normalized, attribute-extracted, scored listing.

use vstd::prelude::*;
use crate::category::{SpecValueView, Specs};
use crate::family::StuffingScore;
use crate::time::Timestamp;

verus! {

/// Heuristic warning flags attached to a deal. Signals, never hard filters: a flagged
/// deal still surfaces, tagged for the user to eyeball.
#[derive(Debug, Clone, Copy, PartialEq, Eq, Structural)]
pub enum Flag {
    /// Title enumerates several sibling models.
    PossibleStuffing,
    /// Price is far below the rolling median for this family and model.
    PriceOutlier,
    /// A buy request ("Recherche RTX 5090"), not an offer to sell.
    WantedAd,
}

impl DeepView for Flag {
    type V = Flag;

    open spec fn deep_view(&self) -> Flag {
        *self
    }
}

/// Lifecycle of a deal on its source. A deal is never deleted: it goes `gone` when a
/// successful scrape no longer sees it, and revives to `active` if it reappears.
#[derive(Debug, Clone, Copy, PartialEq, Eq, Structural, Default)]
pub enum DealStatus {
    #[default]
    Active,
    Gone,
}

/// User verdict on a deal, orthogonal to its lifecycle status. Moderated deals never
/// match watches and never notify.
#[derive(Debug, Clone, Copy, PartialEq, Eq, Structural, Default)]
pub enum Moderation {
    /// The user has not ruled on it.
    #[default]
    Unmoderated,
    /// Hidden for now: clears by itself if the listing disappears and comes back.
    Dismissed,
    /// Never show or match this listing again.
    Banned,
}

/// LLM relevance verdict for an ambiguous listing. A second, independent signal:
/// heuristic flags are kept untouched next to it.
#[derive(Debug, Clone, Copy, PartialEq, Eq, Structural)]
pub enum LlmVerdict {
    /// An offer to sell the working product itself as the main item.
    Genuine,
    /// Title enumerates sibling models for search visibility.
    StuffedTitle,
    Scam,
    /// Not the product: a PC or laptop that contains it, an accessory, an empty box, a
    /// for-parts unit, a wanted ad…
    Irrelevant,
}

impl DeepView for LlmVerdict {
    type V = LlmVerdict;

    open spec fn deep_view(&self) -> LlmVerdict {
        *self
    }
}

/// One dated price observation for a deal: at most one per day, the latest wins.
#[derive(Debug, PartialEq)]
pub struct PricePoint {
    /// ISO date (UTC) of the observation.
    pub day: String,
    pub price_cents: i64,
}

/// What `PricePoint` holds.
#[verifier::ext_equal]
pub struct PricePointView {
    pub day: Seq<char>,
    pub price_cents: i64,
}

impl DeepView for PricePoint {
    type V = PricePointView;

    open spec fn deep_view(&self) -> PricePointView {
        PricePointView { day: self.day@, price_cents: self.price_cents }
    }
}

/// Daily aggregate over every deal matched by one watch (min = best buy that day, median
/// = the market).
#[derive(Debug, PartialEq)]
pub struct WatchPricePoint {
    /// ISO date (UTC).
    pub day: String,
    pub min_cents: i64,
    pub median_cents: i64,
    /// Deals observed that day.
    pub count: i64,
}

/// What `WatchPricePoint` holds.
#[verifier::ext_equal]
pub struct WatchPricePointView {
    pub day: Seq<char>,
    pub min_cents: i64,
    pub median_cents: i64,
    pub count: i64,
}

impl DeepView for WatchPricePoint {
    type V = WatchPricePointView;

    open spec fn deep_view(&self) -> WatchPricePointView {
        WatchPricePointView {
            day: self.day@,
            min_cents: self.min_cents,
            median_cents: self.median_cents,
            count: self.count,
        }
    }
}

/// One watch a deal matched, and whether that match was pushed.
#[derive(Debug, PartialEq)]
pub struct MatchInfo {
    pub watch_id: u128,
    pub watch_name: String,
    /// Set when a notification went out (at that price).
    pub notified_price_cents: Option<i64>,
}

/// What `MatchInfo` holds.
#[verifier::ext_equal]
pub struct MatchInfoView {
    pub watch_id: u128,
    pub watch_name: Seq<char>,
    pub notified_price_cents: Option<i64>,
}

impl DeepView for MatchInfo {
    type V = MatchInfoView;

    open spec fn deep_view(&self) -> MatchInfoView {
        MatchInfoView {
            watch_id: self.watch_id,
            watch_name: self.watch_name@,
            notified_price_cents: self.notified_price_cents,
        }
    }
}

/// A deal with its match outcomes, so that the UI can always say whether a deal was
/// reported.
#[derive(Debug, PartialEq)]
pub struct DealRow {
    pub deal: Deal,
    pub matches: Vec<MatchInfo>,
}

/// What `DealRow` holds.
#[verifier::ext_equal]
pub struct DealRowView {
    pub deal: DealView,
    pub matches: Seq<MatchInfoView>,
}

impl DeepView for DealRow {
    type V = DealRowView;

    open spec fn deep_view(&self) -> DealRowView {
        DealRowView { deal: self.deal.deep_view(), matches: self.matches.deep_view() }
    }
}

/// A normalized, attribute-extracted, scored listing.
#[derive(Debug, PartialEq)]
pub struct Deal {
    pub id: u128,
    pub source_id: String,
    pub canonical_url: String,
    pub title: String,
    pub price_cents: i64,
    /// ISO currency code, e.g. "EUR".
    pub currency: String,
    /// Product family the title matched, if any.
    pub family: Option<String>,
    /// All family models found in the title. One entry = unambiguous.
    pub models: Vec<String>,
    /// Decimal gigabytes (1 TB = 1000 GB) when a capacity was extracted.
    pub capacity_gb: Option<i64>,
    /// "new" | "used" | "refurbished" when detected.
    pub condition: Option<String>,
    /// 0 = single model mentioned; → 1 as the title enumerates the whole family.
    pub stuffing_score: StuffingScore,
    pub flags: Vec<Flag>,
    pub status: DealStatus,
    /// Verdict of the optional LLM refinement pass; None when the listing was unambiguous
    /// or the pass is disabled or failed.
    pub llm_verdict: Option<LlmVerdict>,
    /// Short model-written justification for the verdict.
    pub llm_reason: Option<String>,
    /// Product category, when the title matched one.
    pub category: Option<String>,
    /// Spec values extracted per the category's spec definitions.
    pub specs: Specs,
    /// What the user decided; dismissed and banned deals are hidden and never match.
    pub moderation: Moderation,
    pub first_seen: Timestamp,
    pub last_seen: Timestamp,
}

/// What `Deal` holds.
#[verifier::ext_equal]
pub struct DealView {
    pub id: u128,
    pub source_id: Seq<char>,
    pub canonical_url: Seq<char>,
    pub title: Seq<char>,
    pub price_cents: i64,
    pub currency: Seq<char>,
    pub family: Option<Seq<char>>,
    pub models: Seq<Seq<char>>,
    pub capacity_gb: Option<i64>,
    pub condition: Option<Seq<char>>,
    pub stuffing_score: StuffingScore,
    pub flags: Seq<Flag>,
    pub status: DealStatus,
    pub llm_verdict: Option<LlmVerdict>,
    pub llm_reason: Option<Seq<char>>,
    pub category: Option<Seq<char>>,
    pub specs: Seq<(Seq<char>, SpecValueView)>,
    pub moderation: Moderation,
    pub first_seen: Timestamp,
    pub last_seen: Timestamp,
}

impl DeepView for Deal {
    type V = DealView;

    open spec fn deep_view(&self) -> DealView {
        DealView {
            id: self.id,
            source_id: self.source_id@,
            canonical_url: self.canonical_url@,
            title: self.title@,
            price_cents: self.price_cents,
            currency: self.currency@,
            family: self.family.deep_view(),
            models: self.models.deep_view(),
            capacity_gb: self.capacity_gb,
            condition: self.condition.deep_view(),
            stuffing_score: self.stuffing_score,
            flags: self.flags@,
            status: self.status,
            llm_verdict: self.llm_verdict,
            llm_reason: self.llm_reason.deep_view(),
            category: self.category.deep_view(),
            specs: self.specs.deep_view(),
            moderation: self.moderation,
            first_seen: self.first_seen,
            last_seen: self.last_seen,
        }
    }
}

impl Clone for Deal {
    fn clone(&self) -> (r: Self)
        ensures
            r.deep_view() == self.deep_view(),
    {
        let r = Deal {
            id: self.id,
            source_id: self.source_id.clone(),
            canonical_url: self.canonical_url.clone(),
            title: self.title.clone(),
            price_cents: self.price_cents,
            currency: self.currency.clone(),
            family: self.family.clone(),
            models: self.models.clone(),
            capacity_gb: self.capacity_gb,
            condition: self.condition.clone(),
            stuffing_score: self.stuffing_score,
            flags: self.flags.clone(),
            status: self.status,
            llm_verdict: self.llm_verdict,
            llm_reason: self.llm_reason.clone(),
            category: self.category.clone(),
            specs: self.specs.clone(),
            moderation: self.moderation,
            first_seen: self.first_seen,
            last_seen: self.last_seen,
        };
        assert(r.models.deep_view() =~= self.models.deep_view());
        assert(r.flags@ =~= self.flags@);
        r
    }
}

/// Whether `flags` holds `flag`.
pub fn has_flag(flags: &[Flag], flag: Flag) -> (r: bool)
    ensures
        r == flags@.contains(flag),
{
    let mut i: usize = 0;
    while i < flags.len()
        invariant
            i <= flags@.len(),
            forall|j: int| 0 <= j < i ==> #[trigger] flags@[j] != flag,
        decreases flags@.len() - i,
    {
        if flags[i] == flag {
            assert(flags@[i as int] == flag);
            return true;
        }
        i = i + 1;
    }
    false
}

} // verus!
