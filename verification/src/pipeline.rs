//! From raw listings to notifications: normalize, extract, score, dedupe, match, notify,
//! lifecycle. What is stored and sent is done around this module; what to store and what
//! to send is decided here.
//!
//! Every price change is recorded per deal; deals that a successful tick no longer sees
//! go `gone` (revived if seen again); a match already notified is notified again when its
//! price drops far enough.

use vstd::prelude::*;
use crate::attributes::{attributes_of, extract};
use crate::category::{
    categorize, categorized, extract_specs, specs_of, Category, CategoryView, SpecValueView, Specs,
};
use crate::config::ScrapeConfig;
use crate::deal::{has_flag, Deal, DealStatus, DealView, Flag, LlmVerdict, Moderation};
use crate::family::{families_in, match_families, FamilyMatch, FamilyMatchView, ProductFamily,
    ProductFamilyView, StuffingScore};
use crate::listing::{RawListing, RawListingView};
use crate::llm::{RefineInput, RefineInputView, Refinement, RefinementView};
use crate::matching::{meets, watch_matches};
use crate::money::{cents_text, money_text};
use crate::normalize::{canonical_of, canonical_url, clean_title, cleaned, price_in, read_price, PriceReading};
use crate::notify::{Notification, NotificationView};
use crate::price::{is_outlier, outlying};
use crate::ratio::Ratio;
use crate::refine::{ambiguous, needs_refinement};
use crate::text::{join, joined, push_text};
use crate::time::Timestamp;
use crate::watch::{Watch, WatchView};

verus! {

/// How many recent observations feed the rolling median.
pub const PRICE_WINDOW: u32 = 50;

/// Outcome counters of one source's fetch.
#[derive(Debug, Clone, Copy, Default, PartialEq, Eq, Structural)]
pub struct PipelineStats {
    pub new_deals: u64,
    pub updated_deals: u64,
    pub skipped: u64,
    pub notified: u64,
    /// Deals of this source no longer seen by this tick.
    pub gone: u64,
    /// Deals refined by the LLM pass this tick.
    pub refined: u64,
    /// Watch matches recorded without a push (noise).
    pub suppressed: u64,
}

/// Why a listing makes no deal.
#[derive(Debug, Clone, Copy, PartialEq, Eq, Structural)]
pub enum Skip {
    NoPrice,
    /// More cents than 64 bits hold.
    PriceTooLarge,
    BadUrl,
}

/// A normalized listing with everything its title says.
#[derive(Debug, PartialEq)]
pub struct Draft {
    pub source_id: String,
    pub canonical_url: String,
    pub title: String,
    pub price_cents: i64,
    pub currency: String,
    pub found: FamilyMatch,
    pub capacity_gb: Option<i64>,
    pub condition: Option<String>,
    pub category: Option<String>,
    pub specs: Specs,
}

/// What `Draft` holds.
#[verifier::ext_equal]
pub struct DraftView {
    pub source_id: Seq<char>,
    pub canonical_url: Seq<char>,
    pub title: Seq<char>,
    pub price_cents: i64,
    pub currency: Seq<char>,
    pub found: FamilyMatchView,
    pub capacity_gb: Option<i64>,
    pub condition: Option<Seq<char>>,
    pub category: Option<Seq<char>>,
    pub specs: Seq<(Seq<char>, SpecValueView)>,
}

impl DeepView for Draft {
    type V = DraftView;

    open spec fn deep_view(&self) -> DraftView {
        DraftView {
            source_id: self.source_id@,
            canonical_url: self.canonical_url@,
            title: self.title@,
            price_cents: self.price_cents,
            currency: self.currency@,
            found: self.found.deep_view(),
            capacity_gb: self.capacity_gb,
            condition: self.condition.deep_view(),
            category: self.category.deep_view(),
            specs: self.specs.deep_view(),
        }
    }
}

/// The slug of the category of a title, and the values of its specs.
pub open spec fn category_of(title: Seq<char>, categories: Seq<CategoryView>) -> (
    Option<Seq<char>>,
    Seq<(Seq<char>, SpecValueView)>,
) {
    match categorized(title, categories) {
        Some(i) => (Some(categories[i].slug), specs_of(title, categories[i].specs)),
        None => (None, Seq::empty()),
    }
}

/// What a listing makes: a draft, or the reason why not. The price is looked at before
/// the URL.
pub open spec fn draft_of(
    raw: RawListingView,
    families: Seq<ProductFamilyView>,
    categories: Seq<CategoryView>,
) -> Result<DraftView, Skip> {
    let title = cleaned(raw.title);
    match price_in(raw.price_text) {
        None => Err(Skip::NoPrice),
        Some((cents, currency)) => if cents > i64::MAX {
            Err(Skip::PriceTooLarge)
        } else {
            match canonical_of(raw.url) {
                None => Err(Skip::BadUrl),
                Some(canonical_url) => {
                    let category = category_of(title, categories);
                    Ok(
                        DraftView {
                            source_id: raw.source_id,
                            canonical_url,
                            title,
                            price_cents: cents as i64,
                            currency,
                            found: families_in(title, families),
                            capacity_gb: attributes_of(title).capacity_gb,
                            condition: attributes_of(title).condition,
                            category: category.0,
                            specs: category.1,
                        },
                    )
                },
            }
        },
    }
}

/// Normalizes a listing and reads its title.
pub fn read_listing(raw: &RawListing, families: &[ProductFamily], categories: &[Category]) -> (r:
    Result<Draft, Skip>)
    ensures
        match r {
            Ok(draft) => draft_of(
                raw.deep_view(),
                families.deep_view(),
                categories.deep_view(),
            ) == Ok::<DraftView, Skip>(draft.deep_view()),
            Err(skip) => draft_of(
                raw.deep_view(),
                families.deep_view(),
                categories.deep_view(),
            ) == Err::<DraftView, Skip>(skip),
        },
{
    let title = clean_title(raw.title.as_str());
    let (price_cents, currency) = match read_price(raw.price_text.as_str()) {
        PriceReading::Missing => {
            return Err(Skip::NoPrice);
        },
        PriceReading::TooLarge => {
            return Err(Skip::PriceTooLarge);
        },
        PriceReading::Price(cents, currency) => (cents, currency),
    };
    let canonical_url = match canonical_url(raw.url.as_str()) {
        Some(url) => url,
        None => {
            return Err(Skip::BadUrl);
        },
    };
    let attrs = extract(title.as_str());
    let found = match_families(title.as_str(), families);
    let (category, specs) = match categorize(title.as_str(), categories) {
        Some(c) => (Some(c.slug.clone()), extract_specs(title.as_str(), c)),
        None => (None, Specs::new()),
    };
    Ok(
        Draft {
            source_id: raw.source_id.clone(),
            canonical_url,
            title,
            price_cents,
            currency,
            found,
            capacity_gb: attrs.capacity_gb,
            condition: attrs.condition,
            category,
            specs,
        },
    )
}

/// The family and the model of a listing that names exactly one: what its price is
/// compared under.
pub open spec fn identity(family: Option<Seq<char>>, models: Seq<Seq<char>>) -> Option<
    (Seq<char>, Seq<char>),
> {
    match family {
        Some(name) => if models.len() == 1 {
            Some((name, models[0]))
        } else {
            None
        },
        None => None,
    }
}

/// The family and the model of a listing that names exactly one.
fn single_model(family: &Option<String>, models: &Vec<String>) -> (r: Option<(String, String)>)
    ensures
        r.deep_view() == identity(family.deep_view(), models.deep_view()),
{
    match family {
        Some(name) => {
            if models.len() == 1 {
                assert(models.deep_view()[0] == models@[0]@);
                Some((name.clone(), models[0].clone()))
            } else {
                None
            }
        },
        None => None,
    }
}

/// Whether a score reaches a threshold.
pub open spec fn reaches(score: StuffingScore, threshold: (int, int)) -> bool {
    score.extra * threshold.1 >= threshold.0 * score.siblings
}

/// Whether a score reaches a threshold.
fn score_reaches(score: StuffingScore, threshold: Ratio) -> (r: bool)
    ensures
        r == reaches(score, threshold.deep_view()),
{
    let (num, den) = threshold.parts();
    let extra: u64 = score.extra;
    let siblings: u64 = score.siblings;
    proof {
        assert(0 <= extra * den <= 0x1_0000_0000_0000_0000 * 0x1_0000_0000) by (nonlinear_arith)
            requires
                0 <= extra <= 0x1_0000_0000_0000_0000,
                0 <= den <= 0x1_0000_0000,
        ;
        assert(-0x1_0000_0000_0000_0000 * 0x1_0000_0000 <= num * siblings <= 0x1_0000_0000_0000_0000 * 0x1_0000_0000)
            by (nonlinear_arith)
            requires
                0 <= siblings <= 0x1_0000_0000_0000_0000,
                -0x1_0000_0000 <= num <= 0x1_0000_0000,
        ;
    }
    (extra as i128) * (den as i128) >= (num as i128) * (siblings as i128)
}

/// The flags of a draft: stuffing where several models are named and enough of them, a
/// price outlier where exactly one is and its history says so.
pub open spec fn flags_of(
    draft: DraftView,
    history: Seq<i64>,
    threshold: (int, int),
    ratio: (int, int),
) -> Seq<Flag> {
    let stuffed = draft.found.models.len() >= 2 && reaches(draft.found.stuffing_score, threshold);
    let outlier = identity(draft.found.family, draft.found.models) is Some && outlying(
        draft.price_cents,
        history,
        ratio,
    );
    (if stuffed {
        seq![Flag::PossibleStuffing]
    } else {
        Seq::empty()
    }) + (if outlier {
        seq![Flag::PriceOutlier]
    } else {
        Seq::empty()
    })
}

/// The deal that a draft makes.
pub open spec fn deal_of(draft: DraftView, flags: Seq<Flag>, id: u128, now: Timestamp) -> DealView {
    DealView {
        id,
        source_id: draft.source_id,
        canonical_url: draft.canonical_url,
        title: draft.title,
        price_cents: draft.price_cents,
        currency: draft.currency,
        family: draft.found.family,
        models: draft.found.models,
        capacity_gb: draft.capacity_gb,
        condition: draft.condition,
        stuffing_score: draft.found.stuffing_score,
        flags,
        status: DealStatus::Active,
        llm_verdict: None,
        llm_reason: None,
        category: draft.category,
        specs: draft.specs,
        moderation: Moderation::Unmoderated,
        first_seen: now,
        last_seen: now,
    }
}

impl Draft {
    /// The family and the model whose recent prices (`PRICE_WINDOW` of them) this
    /// listing's price is held against; none where the listing names no model or several.
    pub fn price_identity(&self) -> (r: Option<(String, String)>)
        ensures
            r.deep_view() == identity(
                self.deep_view().found.family,
                self.deep_view().found.models,
            ),
    {
        single_model(&self.found.family, &self.found.models)
    }

    /// The deal that this draft makes, with its flags. `history` is read only where the
    /// draft has a price identity.
    pub fn into_deal(self, history: &[i64], scrape: &ScrapeConfig, id: u128, now: Timestamp) -> (r:
        Deal)
        ensures
            r.deep_view() == deal_of(
                self.deep_view(),
                flags_of(
                    self.deep_view(),
                    history@,
                    scrape.stuffing_threshold.deep_view(),
                    scrape.outlier_ratio.deep_view(),
                ),
                id,
                now,
            ),
    {
        let mut flags: Vec<Flag> = Vec::new();
        if self.found.models.len() >= 2 && score_reaches(
            self.found.stuffing_score,
            scrape.stuffing_threshold,
        ) {
            flags.push(Flag::PossibleStuffing);
        }
        if self.price_identity().is_some() && is_outlier(
            self.price_cents,
            history,
            scrape.outlier_ratio,
        ) {
            flags.push(Flag::PriceOutlier);
        }
        assert(flags@ =~= flags_of(
            self.deep_view(),
            history@,
            scrape.stuffing_threshold.deep_view(),
            scrape.outlier_ratio.deep_view(),
        ));
        Deal {
            id,
            source_id: self.source_id,
            canonical_url: self.canonical_url,
            title: self.title,
            price_cents: self.price_cents,
            currency: self.currency,
            family: self.found.family,
            models: self.found.models,
            capacity_gb: self.capacity_gb,
            condition: self.condition,
            stuffing_score: self.found.stuffing_score,
            flags,
            status: DealStatus::Active,
            llm_verdict: None,
            llm_reason: None,
            category: self.category,
            specs: self.specs,
            moderation: Moderation::Unmoderated,
            first_seen: now,
            last_seen: now,
        }
    }
}

/// What storing a deal did, and what the pipeline should react to.
#[derive(Debug, Clone, Copy, PartialEq, Eq, Structural)]
pub enum UpsertOutcome {
    New,
    /// Same listing seen again with a different price.
    PriceChanged { old_price_cents: i64 },
    Unchanged,
}

/// The user's verdict on a listing that was seen again: a dismissal clears where the
/// listing had gone, a ban never does.
pub open spec fn kept_moderation(stored: DealView) -> Moderation {
    if stored.status == DealStatus::Gone && stored.moderation == Moderation::Dismissed {
        Moderation::Unmoderated
    } else {
        stored.moderation
    }
}

/// `a`, or `b` where `a` is none.
pub open spec fn first_of<T>(a: Option<T>, b: Option<T>) -> Option<T> {
    if a is Some {
        a
    } else {
        b
    }
}

/// A deal as stored once it is seen again: active, under its first id and first sight,
/// with the new listing's content. What the LLM said stays unless it says something new.
pub open spec fn merged(stored: DealView, seen: DealView) -> DealView {
    DealView {
        id: stored.id,
        first_seen: stored.first_seen,
        status: DealStatus::Active,
        llm_verdict: first_of(seen.llm_verdict, stored.llm_verdict),
        llm_reason: first_of(seen.llm_reason, stored.llm_reason),
        moderation: kept_moderation(stored),
        ..seen
    }
}

/// What storing a deal comes to. `stored` is the deal under the same source and canonical
/// URL.
pub open spec fn upserted(stored: Option<DealView>, seen: DealView) -> (DealView, UpsertOutcome) {
    match stored {
        None => (DealView { status: DealStatus::Active, ..seen }, UpsertOutcome::New),
        Some(old) => (
            merged(old, seen),
            if old.price_cents != seen.price_cents {
                UpsertOutcome::PriceChanged { old_price_cents: old.price_cents }
            } else {
                UpsertOutcome::Unchanged
            },
        ),
    }
}

/// The deal to store, given the one stored under the same source and canonical URL, and
/// what that comes to.
pub fn upsert_deal(stored: Option<Deal>, seen: Deal) -> (r: (Deal, UpsertOutcome))
    ensures
        (r.0.deep_view(), r.1) == upserted(stored.deep_view(), seen.deep_view()),
{
    match stored {
        None => {
            let mut deal = seen;
            deal.status = DealStatus::Active;
            (deal, UpsertOutcome::New)
        },
        Some(old) => {
            let outcome = if old.price_cents != seen.price_cents {
                UpsertOutcome::PriceChanged { old_price_cents: old.price_cents }
            } else {
                UpsertOutcome::Unchanged
            };
            let moderation = if old.status == DealStatus::Gone && old.moderation
                == Moderation::Dismissed {
                Moderation::Unmoderated
            } else {
                old.moderation
            };
            let mut deal = seen;
            deal.id = old.id;
            deal.first_seen = old.first_seen;
            deal.status = DealStatus::Active;
            deal.moderation = moderation;
            if deal.llm_verdict.is_none() {
                deal.llm_verdict = old.llm_verdict;
            }
            if deal.llm_reason.is_none() {
                deal.llm_reason = old.llm_reason;
            }
            (deal, outcome)
        },
    }
}

/// Whether storing a deal adds a day's price to its history: a new deal and a changed
/// price do.
pub fn records_price(outcome: UpsertOutcome) -> (r: bool)
    ensures
        r == (outcome !is Unchanged),
{
    match outcome {
        UpsertOutcome::Unchanged => false,
        _ => true,
    }
}

/// Whether a watch of `watches` matches a deal that the user has not put aside.
pub open spec fn would_match(deal: DealView, watches: Seq<WatchView>) -> bool {
    deal.moderation == Moderation::Unmoderated && exists|i: int|
        0 <= i < watches.len() && meets(#[trigger] watches[i], deal)
}

/// Whether the LLM should look at a deal: one without a verdict that is either new and
/// ambiguous or about to match a watch. The verdict gates notifications, so a match is
/// looked at before it reaches the user.
pub open spec fn refinable(was_new: bool, deal: DealView, watches: Seq<WatchView>) -> bool {
    deal.llm_verdict is None && ((was_new && ambiguous(
        deal.family is Some,
        deal.models.len(),
        deal.flags,
    )) || would_match(deal, watches))
}

/// What the model is told of a deal.
pub open spec fn refine_input_of(deal: DealView) -> RefineInputView {
    RefineInputView {
        title: deal.title,
        price_cents: deal.price_cents,
        currency: deal.currency,
        family: match first_of(deal.family, deal.category) {
            Some(name) => name,
            None => "unknown"@,
        },
        models: deal.models,
        flags: deal.flags,
    }
}

/// The places of the watches that match a deal; none where the user has put it aside.
pub open spec fn places_matched(deal: DealView, watches: Seq<WatchView>) -> Seq<int>
    decreases watches.len(),
{
    if watches.len() == 0 || deal.moderation != Moderation::Unmoderated {
        Seq::empty()
    } else {
        let before = places_matched(deal, watches.drop_last());
        if meets(watches.last(), deal) {
            before.push(watches.len() - 1)
        } else {
            before
        }
    }
}

/// `places` as mathematical numbers.
pub open spec fn as_ints(places: Seq<usize>) -> Seq<int> {
    Seq::new(places.len(), |i: int| places[i] as int)
}

/// The places of the watches that match a deal. A deal that the user dismissed or banned
/// matches none.
pub fn matched_watches(deal: &Deal, watches: &Vec<Watch>) -> (r: Vec<usize>)
    ensures
        as_ints(r@) == places_matched(deal.deep_view(), watches.deep_view()),
        forall|i: int| 0 <= i < r@.len() ==> #[trigger] r@[i] < watches@.len(),
{
    let mut out: Vec<usize> = Vec::new();
    assert(as_ints(out@) =~= Seq::empty());
    if deal.moderation != Moderation::Unmoderated {
        return out;
    }
    let ghost all = watches.deep_view();
    let mut i: usize = 0;
    while i < watches.len()
        invariant
            i <= watches@.len(),
            all == watches.deep_view(),
            deal.moderation == Moderation::Unmoderated,
            as_ints(out@) == places_matched(deal.deep_view(), all.take(i as int)),
            forall|j: int| 0 <= j < out@.len() ==> #[trigger] out@[j] < i,
        decreases watches@.len() - i,
    {
        let ghost before = out@;
        assert(all.take(i + 1).drop_last() =~= all.take(i as int));
        assert(all.take(i + 1).last() == watches@[i as int].deep_view());
        if watch_matches(&watches[i], deal) {
            out.push(i);
            assert(as_ints(out@) =~= as_ints(before).push(i as int));
        }
        i = i + 1;
    }
    assert(all.take(all.len() as int) =~= all);
    out
}

/// What to tell the model of a deal, where it should look at it.
pub fn refinement_request(was_new: bool, deal: &Deal, watches: &Vec<Watch>) -> (r: Option<
    RefineInput,
>)
    ensures
        r.deep_view() == if refinable(was_new, deal.deep_view(), watches.deep_view()) {
            Some(refine_input_of(deal.deep_view()))
        } else {
            None
        },
{
    if deal.llm_verdict.is_some() {
        return None;
    }
    let family = match &deal.family {
        Some(f) => Some(f.as_str()),
        None => None,
    };
    let wanted = was_new && needs_refinement(
        family,
        deal.models.as_slice(),
        deal.flags.as_slice(),
    );
    let matched = matched_watches(deal, watches);
    proof {
        matched_or_not(deal.deep_view(), watches.deep_view());
    }
    if !wanted && matched.len() == 0 {
        return None;
    }
    let label = match &deal.family {
        Some(f) => f.clone(),
        None => match &deal.category {
            Some(c) => c.clone(),
            None => "unknown".to_owned(),
        },
    };
    let models = deal.models.clone();
    let flags = deal.flags.clone();
    assert(models.deep_view() =~= deal.models.deep_view());
    assert(flags@ =~= deal.flags@);
    Some(
        RefineInput {
            title: deal.title.clone(),
            price_cents: deal.price_cents,
            currency: deal.currency.clone(),
            family: label,
            models,
            flags,
        },
    )
}

/// A deal matches some watch exactly where the places of those that match are not empty,
/// and each of those places holds a watch that matches.
pub proof fn matched_or_not(deal: DealView, watches: Seq<WatchView>)
    ensures
        would_match(deal, watches) <==> places_matched(deal, watches).len() > 0,
        forall|k: int|
            0 <= k < places_matched(deal, watches).len() ==> {
                let i = #[trigger] places_matched(deal, watches)[k];
                0 <= i < watches.len() && meets(watches[i], deal)
            },
    decreases watches.len(),
{
    if watches.len() > 0 && deal.moderation == Moderation::Unmoderated {
        let rest = watches.drop_last();
        matched_or_not(deal, rest);
        if would_match(deal, watches) {
            let i = choose|i: int| 0 <= i < watches.len() && meets(#[trigger] watches[i], deal);
            if i < rest.len() {
                assert(meets(rest[i], deal));
            }
        }
        if would_match(deal, rest) {
            let i = choose|i: int| 0 <= i < rest.len() && meets(#[trigger] rest[i], deal);
            assert(meets(watches[i], deal));
        }
        if meets(watches.last(), deal) {
            assert(meets(watches[watches.len() - 1], deal));
        }
        assert forall|k: int| 0 <= k < places_matched(deal, watches).len() implies {
            let i = #[trigger] places_matched(deal, watches)[k];
            0 <= i < watches.len() && meets(watches[i], deal)
        } by {
            let before = places_matched(deal, rest);
            if k < before.len() {
                assert(places_matched(deal, watches)[k] == before[k]);
                assert(rest[before[k]] == watches[before[k]]);
            }
        }
    }
}

/// A deal with what the LLM said of it. A capacity or condition that the heuristics found
/// stays; one that they left empty is filled.
pub open spec fn refined(deal: DealView, refinement: RefinementView) -> DealView {
    DealView {
        llm_verdict: Some(refinement.verdict),
        llm_reason: Some(refinement.reason),
        capacity_gb: first_of(deal.capacity_gb, refinement.capacity_gb),
        condition: first_of(deal.condition, refinement.condition),
        ..deal
    }
}

/// A deal with what the LLM said of it.
pub fn apply_refinement(deal: Deal, refinement: Refinement) -> (r: Deal)
    ensures
        r.deep_view() == refined(deal.deep_view(), refinement.deep_view()),
{
    let mut deal = deal;
    deal.llm_verdict = Some(refinement.verdict);
    deal.llm_reason = Some(refinement.reason);
    if deal.capacity_gb.is_none() {
        deal.capacity_gb = refinement.capacity_gb;
    }
    if deal.condition.is_none() {
        deal.condition = refinement.condition;
    }
    deal
}

/// The family and the model that a deal's price is recorded under: only an unambiguous
/// listing, only at first sight, and never an outlier.
pub fn history_entry(was_new: bool, deal: &Deal) -> (r: Option<(String, String)>)
    ensures
        r.deep_view() == if was_new && !deal.flags@.contains(Flag::PriceOutlier) {
            identity(deal.deep_view().family, deal.deep_view().models)
        } else {
            None
        },
{
    if was_new && !has_flag(deal.flags.as_slice(), Flag::PriceOutlier) {
        single_model(&deal.family, &deal.models)
    } else {
        None
    }
}

/// Whether a match should reach the user. A wanted ad does not, nor what the LLM called
/// noise; without a verdict, a possible stuffing does not.
pub open spec fn worthy(deal: DealView) -> bool {
    !deal.flags.contains(Flag::WantedAd) && match deal.llm_verdict {
        Some(verdict) => verdict == LlmVerdict::Genuine,
        None => !deal.flags.contains(Flag::PossibleStuffing),
    }
}

/// Whether a match should reach the user. Suppressed matches stay visible in the UI with
/// their badges.
pub fn notification_worthy(deal: &Deal) -> (r: bool)
    ensures
        r == worthy(deal.deep_view()),
{
    if has_flag(deal.flags.as_slice(), Flag::WantedAd) {
        return false;
    }
    match deal.llm_verdict {
        Some(LlmVerdict::Genuine) => true,
        Some(_) => false,
        None => !has_flag(deal.flags.as_slice(), Flag::PossibleStuffing),
    }
}

/// The tag of a flag.
pub open spec fn tag_of(flag: Flag) -> Seq<char> {
    match flag {
        Flag::PossibleStuffing => "possible-stuffing"@,
        Flag::PriceOutlier => "price-outlier"@,
        Flag::WantedAd => "wanted-ad"@,
    }
}

/// The tag of a flag.
pub fn flag_tag(flag: Flag) -> (r: &'static str)
    ensures
        r@ == tag_of(flag),
{
    match flag {
        Flag::PossibleStuffing => "possible-stuffing",
        Flag::PriceOutlier => "price-outlier",
        Flag::WantedAd => "wanted-ad",
    }
}

/// The tags of flags.
pub open spec fn flag_tags(flags: Seq<Flag>) -> Seq<Seq<char>> {
    Seq::new(flags.len(), |i: int| tag_of(flags[i]))
}

/// The tags of flags.
pub fn tags_from(flags: &Vec<Flag>) -> (r: Vec<String>)
    ensures
        r.deep_view() == flag_tags(flags@),
{
    let ghost all = flag_tags(flags@);
    let mut out: Vec<String> = Vec::new();
    let mut i: usize = 0;
    assert(out.deep_view() =~= all.take(0));
    while i < flags.len()
        invariant
            i <= flags@.len(),
            all == flag_tags(flags@),
            out.deep_view() == all.take(i as int),
        decreases flags@.len() - i,
    {
        push_text(&mut out, flag_tag(flags[i]));
        i = i + 1;
        assert(out.deep_view() =~= all.take(i as int));
    }
    assert(all.take(all.len() as int) =~= all);
    out
}

/// `first`, then the tags of `flags`.
pub open spec fn tags_of(first: Seq<char>, flags: Seq<Flag>) -> Seq<Seq<char>> {
    seq![first] + flag_tags(flags)
}

/// `first`, then the tags of `flags`, comma-separated.
fn tag_list(first: &str, flags: &Vec<Flag>) -> (r: String)
    ensures
        r@ == joined(tags_of(first@, flags@), ","@),
{
    let mut tags: Vec<String> = Vec::new();
    tags.push(first.to_owned());
    let ghost all = tags_of(first@, flags@);
    let mut i: usize = 0;
    assert(tags.deep_view() =~= all.take(1));
    while i < flags.len()
        invariant
            i <= flags@.len(),
            all == tags_of(first@, flags@),
            tags.deep_view() == all.take(i + 1),
        decreases flags@.len() - i,
    {
        let ghost before = tags.deep_view();
        let tag = flag_tag(flags[i]).to_owned();
        tags.push(tag);
        i = i + 1;
        assert(tags.deep_view() =~= before.push(tag@));
        assert(tags.deep_view() =~= all.take(i + 1));
    }
    assert(all.take(all.len() as int) =~= all);
    join(&tags, ",")
}

/// The push for a fresh match.
pub open spec fn fresh_push(watch: Seq<char>, deal: DealView) -> NotificationView {
    NotificationView {
        title: watch + ": "@ + money_text(deal.price_cents as int) + " "@ + deal.currency,
        message: deal.title + "\n"@ + deal.canonical_url,
        tags: joined(tags_of("moneybag"@, deal.flags), ","@),
        priority: "default"@,
    }
}

/// The push for a match whose price dropped from `prev`.
pub open spec fn drop_push(watch: Seq<char>, deal: DealView, prev: i64) -> NotificationView {
    NotificationView {
        title: watch + ": "@ + money_text(prev as int) + " → "@ + money_text(
            deal.price_cents as int,
        ) + " "@ + deal.currency,
        message: "Price drop\n"@ + deal.title + "\n"@ + deal.canonical_url,
        tags: joined(tags_of("chart_with_downwards_trend"@, deal.flags), ","@),
        priority: "default"@,
    }
}

/// Whether `price` is at least `pct` percent below `prev`.
pub open spec fn dropped(price: i64, prev: i64, pct: (int, int)) -> bool {
    price * (100 * pct.1) <= prev * (100 * pct.1 - pct.0)
}

/// Whether `price` is at least `pct` percent below `prev`.
pub fn has_dropped(price: i64, prev: i64, pct: Ratio) -> (r: bool)
    ensures
        r == dropped(price, prev, pct.deep_view()),
{
    let (num, den) = pct.parts();
    let whole: i128 = 100 * (den as i128);
    let left: i128 = whole - num as i128;
    proof {
        assert(-0x8000_0000_0000_0000 * 0x100_0000_0000 <= price * whole <= 0x8000_0000_0000_0000 * 0x100_0000_0000)
            by (nonlinear_arith)
            requires
                -0x8000_0000_0000_0000 <= price <= 0x8000_0000_0000_0000,
                0 <= whole <= 0x100_0000_0000,
        ;
        assert(-0x8000_0000_0000_0000 * 0x100_0000_0000 <= prev * left <= 0x8000_0000_0000_0000 * 0x100_0000_0000)
            by (nonlinear_arith)
            requires
                -0x8000_0000_0000_0000 <= prev <= 0x8000_0000_0000_0000,
                -0x100_0000_0000 <= left <= 0x100_0000_0000,
        ;
    }
    (price as i128) * whole <= (prev as i128) * left
}

/// What to push for a match that was not known before; nothing where it is noise (the
/// match is recorded all the same).
pub fn push_for_fresh(watch: &Watch, deal: &Deal) -> (r: Option<Notification>)
    ensures
        r.deep_view() == if worthy(deal.deep_view()) {
            Some(fresh_push(watch.name@, deal.deep_view()))
        } else {
            None
        },
{
    if !notification_worthy(deal) {
        return None;
    }
    let mut title = watch.name.clone();
    title.append(": ");
    title.append(cents_text(deal.price_cents).as_str());
    title.append(" ");
    title.append(deal.currency.as_str());
    let mut message = deal.title.clone();
    message.append("\n");
    message.append(deal.canonical_url.as_str());
    Some(
        Notification {
            title,
            message,
            tags: tag_list("moneybag", &deal.flags),
            priority: "default".to_owned(),
        },
    )
}

/// What to push for a match already known: its price drop, where it was notified at
/// `prev`, dropped far enough since, and is no noise.
pub fn push_for_known(watch: &Watch, deal: &Deal, prev: Option<i64>, pct: Ratio) -> (r: Option<
    Notification,
>)
    ensures
        r.deep_view() == match prev {
            Some(p) => if dropped(deal.price_cents, p, pct.deep_view()) && worthy(
                deal.deep_view(),
            ) {
                Some(drop_push(watch.name@, deal.deep_view(), p))
            } else {
                None
            },
            None => None,
        },
{
    let prev: i64 = match prev {
        Some(p) => p,
        None => {
            return None;
        },
    };
    if !has_dropped(deal.price_cents, prev, pct) || !notification_worthy(deal) {
        return None;
    }
    let mut title = watch.name.clone();
    title.append(": ");
    title.append(cents_text(prev).as_str());
    title.append(" → ");
    title.append(cents_text(deal.price_cents).as_str());
    title.append(" ");
    title.append(deal.currency.as_str());
    let mut message = "Price drop\n".to_owned();
    message.append(deal.title.as_str());
    message.append("\n");
    message.append(deal.canonical_url.as_str());
    Some(
        Notification {
            title,
            message,
            tags: tag_list("chart_with_downwards_trend", &deal.flags),
            priority: "default".to_owned(),
        },
    )
}

/// Those of a source's active deals, by id and canonical URL, whose URL a full fetch did
/// not see.
pub open spec fn unseen(active: Seq<(u128, Seq<char>)>, seen: Seq<Seq<char>>) -> Seq<u128>
    decreases active.len(),
{
    if active.len() == 0 {
        Seq::empty()
    } else {
        let before = unseen(active.drop_last(), seen);
        if seen.contains(active.last().1) {
            before
        } else {
            before.push(active.last().0)
        }
    }
}

/// Whether `list` holds `s`.
pub fn holds_text(list: &Vec<String>, s: &str) -> (r: bool)
    ensures
        r == list.deep_view().contains(s@),
{
    let mut i: usize = 0;
    while i < list.len()
        invariant
            i <= list@.len(),
            forall|j: int| 0 <= j < i ==> #[trigger] list.deep_view()[j] != s@,
        decreases list@.len() - i,
    {
        if crate::text::same(list[i].as_str(), s) {
            assert(list.deep_view()[i as int] == s@);
            return true;
        }
        i = i + 1;
    }
    false
}

/// The deals that went gone: those of a source's active deals whose URL is not among
/// `seen`. Only a full fetch (`full`) may make a deal disappear: a partial one makes none.
pub fn mark_gone(active: &Vec<(u128, String)>, seen: &Vec<String>, full: bool) -> (r: Vec<u128>)
    ensures
        r@ == if full {
            unseen(active.deep_view(), seen.deep_view())
        } else {
            Seq::empty()
        },
{
    let mut out: Vec<u128> = Vec::new();
    if !full {
        return out;
    }
    let ghost all = active.deep_view();
    let mut i: usize = 0;
    while i < active.len()
        invariant
            i <= active@.len(),
            all == active.deep_view(),
            out@ == unseen(all.take(i as int), seen.deep_view()),
        decreases active@.len() - i,
    {
        assert(all.take(i + 1).drop_last() =~= all.take(i as int));
        assert(all[i as int] == (active@[i as int].0, active@[i as int].1@));
        if !holds_text(seen, active[i].1.as_str()) {
            out.push(active[i].0);
        }
        i = i + 1;
    }
    assert(all.take(all.len() as int) =~= all);
    out
}

/// What became of one listing.
#[derive(Debug, Clone, Copy, PartialEq, Eq, Structural)]
pub struct ListingReport {
    /// None where the listing was skipped.
    pub outcome: Option<UpsertOutcome>,
    pub refined: bool,
    pub notified: u64,
    pub suppressed: u64,
}

/// One, where it holds.
pub open spec fn one_if(b: bool) -> int {
    if b {
        1
    } else {
        0
    }
}

impl PipelineStats {
    /// The counters with one more listing counted.
    pub fn count(self, report: ListingReport) -> (r: PipelineStats)
        requires
            self.new_deals < u64::MAX,
            self.updated_deals < u64::MAX,
            self.skipped < u64::MAX,
            self.refined < u64::MAX,
            self.notified + report.notified <= u64::MAX,
            self.suppressed + report.suppressed <= u64::MAX,
        ensures
            r.new_deals == self.new_deals + one_if(report.outcome == Some(UpsertOutcome::New)),
            r.updated_deals == self.updated_deals + one_if(
                report.outcome is Some && report.outcome != Some(UpsertOutcome::New),
            ),
            r.skipped == self.skipped + one_if(report.outcome is None),
            r.refined == self.refined + one_if(report.refined),
            r.notified == self.notified + report.notified,
            r.suppressed == self.suppressed + report.suppressed,
            r.gone == self.gone,
    {
        let mut stats = self;
        match report.outcome {
            None => {
                stats.skipped = stats.skipped + 1;
            },
            Some(UpsertOutcome::New) => {
                stats.new_deals = stats.new_deals + 1;
            },
            Some(_) => {
                stats.updated_deals = stats.updated_deals + 1;
            },
        }
        if report.refined {
            stats.refined = stats.refined + 1;
        }
        stats.notified = stats.notified + report.notified;
        stats.suppressed = stats.suppressed + report.suppressed;
        stats
    }
}

/// A deal that the user dismissed or banned matches no watch and gets no model call for
/// one.
pub proof fn moderated_never_matches(deal: DealView, watches: Seq<WatchView>)
    requires
        deal.moderation != Moderation::Unmoderated,
    ensures
        places_matched(deal, watches) == Seq::<int>::empty(),
        !would_match(deal, watches),
{
}

/// Seen again, a deal keeps its id, its first sight and what the LLM said, and is active
/// even if it had gone.
pub proof fn seeing_again_keeps_identity(stored: DealView, seen: DealView)
    requires
        seen.llm_verdict is None,
        seen.llm_reason is None,
    ensures
        ({
            let (deal, outcome) = upserted(Some(stored), seen);
            &&& deal.id == stored.id
            &&& deal.first_seen == stored.first_seen
            &&& deal.llm_verdict == stored.llm_verdict
            &&& deal.llm_reason == stored.llm_reason
            &&& deal.status == DealStatus::Active
            &&& deal.price_cents == seen.price_cents
            &&& deal.last_seen == seen.last_seen
            &&& outcome != UpsertOutcome::New
            &&& outcome == UpsertOutcome::Unchanged <==> stored.price_cents == seen.price_cents
        }),
{
}

/// A ban survives every sighting; a dismissal clears exactly when the listing had gone.
pub proof fn bans_survive(stored: DealView, seen: DealView)
    ensures
        stored.moderation == Moderation::Banned ==> upserted(Some(stored), seen).0.moderation
            == Moderation::Banned,
        stored.moderation == Moderation::Dismissed ==> (upserted(Some(stored), seen).0.moderation
            == Moderation::Unmoderated <==> stored.status == DealStatus::Gone),
{
}

/// Storing the same sighting twice changes nothing the second time.
pub proof fn storing_twice_changes_nothing(seen: DealView)
    requires
        seen.status == DealStatus::Active,
    ensures
        upserted(Some(upserted(None, seen).0), seen).0 == seen,
        upserted(Some(upserted(None, seen).0), seen).1 == UpsertOutcome::Unchanged,
{
}

/// A refinement never overwrites what the heuristics found, nor touches the flags, the
/// price or the identity of the deal.
pub proof fn refinement_only_fills(deal: DealView, refinement: RefinementView)
    ensures
        deal.capacity_gb is Some ==> refined(deal, refinement).capacity_gb == deal.capacity_gb,
        deal.condition is Some ==> refined(deal, refinement).condition == deal.condition,
        refined(deal, refinement).flags == deal.flags,
        refined(deal, refinement).price_cents == deal.price_cents,
        refined(deal, refinement).id == deal.id,
{
}

/// A deal that has a verdict is not refined again.
pub proof fn never_refined_twice(
    was_new: bool,
    deal: DealView,
    refinement: RefinementView,
    watches: Seq<WatchView>,
)
    ensures
        !refinable(was_new, refined(deal, refinement), watches),
{
}

/// A known match at an unchanged positive price is not notified again.
pub proof fn same_price_never_renotifies(price: i64, pct: (int, int))
    requires
        price > 0,
        pct.0 > 0,
        pct.1 > 0,
    ensures
        !dropped(price, price, pct),
{
    assert(price * (100 * pct.1) > price * (100 * pct.1 - pct.0)) by (nonlinear_arith)
        requires
            price > 0,
            pct.0 > 0,
    ;
}

/// What is a drop at some price is a drop at every lower price.
pub proof fn deeper_drops_still_notify(price: i64, lower: i64, prev: i64, pct: (int, int))
    requires
        pct.1 > 0,
        lower <= price,
        dropped(price, prev, pct),
    ensures
        dropped(lower, prev, pct),
{
    assert(lower * (100 * pct.1) <= price * (100 * pct.1)) by (nonlinear_arith)
        requires
            lower <= price,
            pct.1 > 0,
    ;
}

/// Exactly the deals whose URL was not seen go gone.
pub proof fn gone_is_unseen(active: Seq<(u128, Seq<char>)>, seen: Seq<Seq<char>>, i: int)
    requires
        0 <= i < active.len(),
    ensures
        !seen.contains(active[i].1) ==> unseen(active, seen).contains(active[i].0),
        (forall|j: int| 0 <= j < active.len() && j != i ==> (#[trigger] active[j]).0 != active[i].0)
            && seen.contains(active[i].1) ==> !unseen(active, seen).contains(active[i].0),
    decreases active.len(),
{
    let rest = active.drop_last();
    let before = unseen(rest, seen);
    let all = unseen(active, seen);
    if i < rest.len() {
        gone_is_unseen(rest, seen, i);
        assert(rest[i] == active[i]);
        if !seen.contains(active[i].1) {
            let k = choose|k: int| 0 <= k < before.len() && before[k] == active[i].0;
            assert(all[k] == active[i].0);
        }
        if (forall|j: int|
            0 <= j < active.len() && j != i ==> (#[trigger] active[j]).0 != active[i].0)
            && seen.contains(active[i].1) {
            assert forall|j: int| 0 <= j < rest.len() && j != i implies (#[trigger] rest[j]).0
                != rest[i].0 by {
                assert(active[j] == rest[j]);
            }
            assert(active[active.len() - 1].0 != active[i].0);
            if all.contains(active[i].0) {
                let k = choose|k: int| 0 <= k < all.len() && all[k] == active[i].0;
                assert(before.contains(active[i].0)) by {
                    assert(k < before.len());
                    assert(before[k] == active[i].0);
                }
            }
        }
    } else {
        if !seen.contains(active[i].1) {
            assert(all[all.len() - 1] == active[i].0);
        }
        if (forall|j: int|
            0 <= j < active.len() && j != i ==> (#[trigger] active[j]).0 != active[i].0)
            && seen.contains(active[i].1) {
            unseen_are_active(rest, seen);
            if all.contains(active[i].0) {
                let k = choose|k: int| 0 <= k < all.len() && all[k] == active[i].0;
                let j = choose|j: int| 0 <= j < rest.len() && (#[trigger] rest[j]).0 == before[k];
                assert(active[j] == rest[j]);
            }
        }
    }
}

proof fn unseen_are_active(active: Seq<(u128, Seq<char>)>, seen: Seq<Seq<char>>)
    ensures
        forall|k: int|
            0 <= k < unseen(active, seen).len() ==> exists|j: int|
                0 <= j < active.len() && (#[trigger] active[j]).0 == #[trigger] unseen(
                    active,
                    seen,
                )[k],
    decreases active.len(),
{
    if active.len() > 0 {
        let rest = active.drop_last();
        unseen_are_active(rest, seen);
        let before = unseen(rest, seen);
        assert forall|k: int| 0 <= k < unseen(active, seen).len() implies exists|j: int|
            0 <= j < active.len() && (#[trigger] active[j]).0 == #[trigger] unseen(
                active,
                seen,
            )[k] by {
            if k < before.len() {
                let j = choose|j: int| 0 <= j < rest.len() && (#[trigger] rest[j]).0 == before[k];
                assert(active[j] == rest[j]);
            } else {
                assert(active[active.len() - 1].0 == unseen(active, seen)[k]);
            }
        }
    }
}

// ---- what a listing comes to ----

/// Of a deal that the user has not put aside, every watch that it meets has its place among
/// those matched, no other has, and each stands there once, in order; of one that the user
/// has put aside, none has.
pub proof fn every_match_has_its_place(deal: DealView, watches: Seq<WatchView>, i: int)
    ensures
        places_matched(deal, watches).contains(i) <==> deal.moderation == Moderation::Unmoderated
            && 0 <= i < watches.len() && meets(watches[i], deal),
        forall|a: int, b: int|
            0 <= a < b < places_matched(deal, watches).len() ==> #[trigger] places_matched(
                deal,
                watches,
            )[a] < #[trigger] places_matched(deal, watches)[b],
    decreases watches.len(),
{
    let all = places_matched(deal, watches);
    matched_or_not(deal, watches);
    if watches.len() > 0 && deal.moderation == Moderation::Unmoderated {
        let rest = watches.drop_last();
        let before = places_matched(deal, rest);
        every_match_has_its_place(deal, rest, i);
        matched_or_not(deal, rest);
        if before.contains(i) {
            let k = choose|k: int| 0 <= k < before.len() && before[k] == i;
            assert(all[k] == i);
            assert(rest[i] == watches[i]);
        }
        if i == watches.len() - 1 && meets(watches[i], deal) {
            assert(all[before.len() as int] == i);
        }
        if 0 <= i < rest.len() {
            assert(rest[i] == watches[i]);
        }
        if all.contains(i) {
            let k = choose|k: int| 0 <= k < all.len() && all[k] == i;
            assert(all[k] == i);
            if k < before.len() {
                assert(before[k] == i);
            }
        }
        assert forall|a: int, b: int| 0 <= a < b < all.len() implies #[trigger] all[a]
            < #[trigger] all[b] by {
            if b < before.len() {
                assert(before[a] < before[b]);
            } else {
                assert(before[a] < rest.len());
            }
        }
    }
}

/// After a sighting, the stored deal has the content of that sighting; only its id, its
/// first sight, its moderation and what the LLM said can come from before.
pub proof fn a_sighting_brings_its_content(stored: DealView, seen: DealView)
    ensures
        ({
            let deal = upserted(Some(stored), seen).0;
            &&& deal.source_id == seen.source_id
            &&& deal.canonical_url == seen.canonical_url
            &&& deal.title == seen.title
            &&& deal.price_cents == seen.price_cents
            &&& deal.currency == seen.currency
            &&& deal.family == seen.family
            &&& deal.models == seen.models
            &&& deal.capacity_gb == seen.capacity_gb
            &&& deal.condition == seen.condition
            &&& deal.stuffing_score == seen.stuffing_score
            &&& deal.flags == seen.flags
            &&& deal.category == seen.category
            &&& deal.specs == seen.specs
            &&& deal.last_seen == seen.last_seen
            &&& deal.status == DealStatus::Active
            &&& deal.id == stored.id
            &&& deal.first_seen == stored.first_seen
        }),
{
}

/// What storing comes to: new where nothing was stored, else a change of price from the
/// stored one, or none. A first sighting is stored as it is, and active.
pub proof fn outcomes_tell_the_price(stored: DealView, seen: DealView)
    ensures
        upserted(None, seen).1 == UpsertOutcome::New,
        upserted(None, seen).0 == (DealView { status: DealStatus::Active, ..seen }),
        stored.price_cents == seen.price_cents ==> upserted(Some(stored), seen).1
            == UpsertOutcome::Unchanged,
        stored.price_cents != seen.price_cents ==> upserted(Some(stored), seen).1 == (
        UpsertOutcome::PriceChanged { old_price_cents: stored.price_cents }),
{
}

/// What the LLM said of a sighting replaces what it said before, and what the user decided
/// stays, but for a dismissal of a listing that had gone.
pub proof fn verdicts_and_decisions_carry_over(stored: DealView, seen: DealView)
    ensures
        ({
            let deal = upserted(Some(stored), seen).0;
            &&& seen.llm_verdict is Some ==> deal.llm_verdict == seen.llm_verdict
            &&& seen.llm_verdict is None ==> deal.llm_verdict == stored.llm_verdict
            &&& seen.llm_reason is Some ==> deal.llm_reason == seen.llm_reason
            &&& seen.llm_reason is None ==> deal.llm_reason == stored.llm_reason
            &&& stored.status == DealStatus::Active ==> deal.moderation == stored.moderation
            &&& stored.moderation != Moderation::Dismissed ==> deal.moderation == stored.moderation
            &&& stored.status == DealStatus::Gone && stored.moderation == Moderation::Dismissed
                ==> deal.moderation == Moderation::Unmoderated
        }),
{
}

/// A refinement sets the verdict and its reason, fills a capacity or a condition that was
/// missing, and leaves everything else as it was.
pub proof fn refinement_changes_no_more(deal: DealView, refinement: RefinementView)
    ensures
        ({
            let after = refined(deal, refinement);
            &&& after.llm_verdict == Some(refinement.verdict)
            &&& after.llm_reason == Some(refinement.reason)
            &&& deal.capacity_gb is None ==> after.capacity_gb == refinement.capacity_gb
            &&& deal.condition is None ==> after.condition == refinement.condition
            &&& deal.capacity_gb is Some ==> after.capacity_gb == deal.capacity_gb
            &&& deal.condition is Some ==> after.condition == deal.condition
            &&& after == (DealView {
                llm_verdict: after.llm_verdict,
                llm_reason: after.llm_reason,
                capacity_gb: after.capacity_gb,
                condition: after.condition,
                ..deal
            })
        }),
{
}

/// Which matches reach the user: what the LLM called genuine does whatever its title looks
/// like, what it called anything else does not; without a verdict, a possible stuffing does
/// not, and anything else does. A wanted ad never does, and an outlier flag never mutes.
pub proof fn noise_stays_quiet(deal: DealView, flags: Seq<Flag>)
    ensures
        deal.flags.contains(Flag::WantedAd) ==> !worthy(deal),
        !deal.flags.contains(Flag::WantedAd) && deal.llm_verdict == Some(LlmVerdict::Genuine)
            ==> worthy(deal),
        deal.llm_verdict == Some(LlmVerdict::StuffedTitle) ==> !worthy(deal),
        deal.llm_verdict == Some(LlmVerdict::Scam) ==> !worthy(deal),
        deal.llm_verdict == Some(LlmVerdict::Irrelevant) ==> !worthy(deal),
        deal.llm_verdict is None && deal.flags.contains(Flag::PossibleStuffing) ==> !worthy(deal),
        deal.llm_verdict is None && !deal.flags.contains(Flag::PossibleStuffing)
            && !deal.flags.contains(Flag::WantedAd) ==> worthy(deal),
        worthy(DealView { flags: deal.flags.push(Flag::PriceOutlier), ..deal }) == worthy(deal),
{
    let longer = deal.flags.push(Flag::PriceOutlier);
    assert forall|f: Flag| f != Flag::PriceOutlier implies longer.contains(f)
        == deal.flags.contains(f) by {
        if deal.flags.contains(f) {
            let i = choose|i: int| 0 <= i < deal.flags.len() && deal.flags[i] == f;
            assert(longer[i] == f);
        }
        if longer.contains(f) {
            let i = choose|i: int| 0 <= i < longer.len() && longer[i] == f;
            assert(deal.flags[i] == f);
        }
    }
}

/// A drop is a fall of the price by at least so many percent of what it was.
pub proof fn drops_are_measured_in_percent(price: i64, prev: i64, pct: (int, int))
    ensures
        dropped(price, prev, pct) <==> (prev - price) * (100 * pct.1) >= prev * pct.0,
{
    assert((prev - price) * (100 * pct.1) - prev * pct.0 == prev * (100 * pct.1 - pct.0) - price * (
    100 * pct.1)) by (nonlinear_arith);
}

/// Which flags a draft gets: stuffing exactly where it names two models or more and their
/// score reaches the threshold, an outlier exactly where it names one model of a family and
/// its price is one; each once, and no other.
pub proof fn drafts_are_flagged_for_a_reason(
    draft: DraftView,
    history: Seq<i64>,
    threshold: (int, int),
    ratio: (int, int),
)
    ensures
        ({
            let flags = flags_of(draft, history, threshold, ratio);
            &&& flags.contains(Flag::PossibleStuffing) <==> draft.found.models.len() >= 2
                && threshold.0 * draft.found.stuffing_score.siblings
                <= draft.found.stuffing_score.extra * threshold.1
            &&& flags.contains(Flag::PriceOutlier) <==> draft.found.family is Some
                && draft.found.models.len() == 1 && outlying(draft.price_cents, history, ratio)
            &&& !flags.contains(Flag::WantedAd)
            &&& flags.no_duplicates()
        }),
{
    let flags = flags_of(draft, history, threshold, ratio);
    let stuffed = draft.found.models.len() >= 2 && reaches(draft.found.stuffing_score, threshold);
    let outlier = identity(draft.found.family, draft.found.models) is Some && outlying(
        draft.price_cents,
        history,
        ratio,
    );
    assert(threshold.0 * draft.found.stuffing_score.siblings == draft.found.stuffing_score.siblings
        * threshold.0) by (nonlinear_arith);
    if stuffed {
        assert(flags[0] == Flag::PossibleStuffing);
    }
    if outlier {
        assert(flags[flags.len() - 1] == Flag::PriceOutlier);
    }
}

/// A price is recorded under a family and a model exactly where there is a family and one
/// model, and then under those.
pub proof fn one_model_names_a_price(family: Option<Seq<char>>, models: Seq<Seq<char>>)
    ensures
        identity(family, models) is Some <==> family is Some && models.len() == 1,
        identity(family, models) matches Some(named) ==> family == Some(named.0) && models
            == seq![named.1],
{
    if models.len() == 1 {
        assert(models =~= seq![models[0]]);
    }
}

/// The LLM looks at a deal exactly where it has not yet, and where it is new, of a family,
/// and names several models or has an odd price, or where some watch would match it.
pub proof fn who_is_looked_at(was_new: bool, deal: DealView, watches: Seq<WatchView>, i: int)
    ensures
        deal.llm_verdict is Some ==> !refinable(was_new, deal, watches),
        deal.llm_verdict is None && deal.moderation == Moderation::Unmoderated && 0 <= i
            < watches.len() && meets(watches[i], deal) ==> refinable(was_new, deal, watches),
        deal.llm_verdict is None && was_new && deal.family is Some && deal.models.len() >= 2
            ==> refinable(was_new, deal, watches),
        deal.llm_verdict is None && was_new && deal.family is Some && deal.flags.contains(
            Flag::PriceOutlier,
        ) ==> refinable(was_new, deal, watches),
        places_matched(deal, watches).len() == 0 && (!was_new || deal.family is None || (
        deal.models.len() < 2 && !deal.flags.contains(Flag::PriceOutlier))) ==> !refinable(
            was_new,
            deal,
            watches,
        ),
{
    matched_or_not(deal, watches);
}

/// What the model is told of a deal: its own words, and what it is taken for: the family,
/// else the category.
pub proof fn the_model_is_told_the_deal(deal: DealView)
    ensures
        ({
            let input = refine_input_of(deal);
            &&& input.title == deal.title
            &&& input.price_cents == deal.price_cents
            &&& input.currency == deal.currency
            &&& input.models == deal.models
            &&& input.flags == deal.flags
            &&& deal.family matches Some(f) ==> input.family == f
            &&& deal.family is None && deal.category is Some ==> input.family == deal.category->0
            &&& deal.family is None && deal.category is None ==> input.family == "unknown"@
        }),
{
}

/// A push names the watch first, the currency last, and leads to the listing; that of a drop
/// says so, with the old price before the new one.
pub proof fn pushes_lead_to_the_listing(watch: Seq<char>, deal: DealView, prev: i64)
    ensures
        ({
            let fresh = fresh_push(watch, deal);
            let drop = drop_push(watch, deal, prev);
            let price = money_text(deal.price_cents as int);
            &&& watch.is_prefix_of(fresh.title) && watch.is_prefix_of(drop.title)
            &&& (price + " "@ + deal.currency).is_suffix_of(fresh.title)
            &&& (price + " "@ + deal.currency).is_suffix_of(drop.title)
            &&& (watch + ": "@ + money_text(prev as int)).is_prefix_of(drop.title)
            &&& deal.title.is_prefix_of(fresh.message)
            &&& deal.canonical_url.is_suffix_of(fresh.message)
            &&& fresh.message.is_suffix_of(drop.message)
            &&& "Price drop"@.is_prefix_of(drop.message)
            &&& fresh.priority == "default"@ && drop.priority == "default"@
        }),
{
    let fresh = fresh_push(watch, deal);
    let drop = drop_push(watch, deal, prev);
    let price = money_text(deal.price_cents as int);
    reveal_strlit("Price drop\n");
    reveal_strlit("Price drop");
    let tail = price + " "@ + deal.currency;
    assert(fresh.title.take(watch.len() as int) =~= watch);
    assert(drop.title.take(watch.len() as int) =~= watch);
    assert(fresh.title.skip(fresh.title.len() - tail.len()) =~= tail);
    assert(drop.title.skip(drop.title.len() - tail.len()) =~= tail);
    let head = watch + ": "@ + money_text(prev as int);
    assert(drop.title.take(head.len() as int) =~= head);
    assert(fresh.message.take(deal.title.len() as int) =~= deal.title);
    assert(fresh.message.skip(fresh.message.len() - deal.canonical_url.len())
        =~= deal.canonical_url);
    assert(drop.message.skip(drop.message.len() - fresh.message.len()) =~= fresh.message);
    assert(drop.message.take(10) =~= "Price drop"@);
}

/// The deals that went gone are the active ones whose URL was not seen, each once, in order.
pub proof fn gone_in_order(active: Seq<(u128, Seq<char>)>, seen: Seq<Seq<char>>)
    ensures
        unseen(active, seen) == active.filter(
            |a: (u128, Seq<char>)| !seen.contains(a.1),
        ).map_values(|a: (u128, Seq<char>)| a.0),
    decreases active.len(),
{
    reveal(Seq::filter);
    let p = |a: (u128, Seq<char>)| !seen.contains(a.1);
    if active.len() > 0 {
        let rest = active.drop_last();
        gone_in_order(rest, seen);
        let kept = rest.filter(p);
        if p(active.last()) {
            assert(kept.push(active.last()).map_values(|a: (u128, Seq<char>)| a.0)
                =~= kept.map_values(|a: (u128, Seq<char>)| a.0).push(active.last().0));
        }
    }
    assert(unseen(active, seen) =~= active.filter(p).map_values(|a: (u128, Seq<char>)| a.0));
}

/// What a listing makes: nothing without a price that can be held, then nothing without a
/// URL, and else a draft of what its clean title, its price and its URL say.
pub proof fn drafts_say_what_the_listing_says(
    raw: RawListingView,
    families: Seq<ProductFamilyView>,
    categories: Seq<CategoryView>,
)
    ensures
        price_in(raw.price_text) is None ==> draft_of(raw, families, categories) == Err::<
            DraftView,
            Skip,
        >(Skip::NoPrice),
        draft_of(raw, families, categories) is Ok <==> price_in(raw.price_text) is Some && (price_in(
            raw.price_text,
        )->0).0 <= i64::MAX && canonical_of(raw.url) is Some,
        draft_of(raw, families, categories) matches Ok(draft) ==> {
            &&& draft.source_id == raw.source_id
            &&& Some(draft.canonical_url) == canonical_of(raw.url)
            &&& draft.title == cleaned(raw.title)
            &&& Some((draft.price_cents as int, draft.currency)) == price_in(raw.price_text)
            &&& draft.found == families_in(draft.title, families)
            &&& draft.capacity_gb == attributes_of(draft.title).capacity_gb
            &&& draft.condition == attributes_of(draft.title).condition
            &&& match categorized(draft.title, categories) {
                Some(i) => draft.category == Some(categories[i].slug) && draft.specs == specs_of(
                    draft.title,
                    categories[i].specs,
                ),
                None => draft.category is None && draft.specs.len() == 0,
            }
        },
{
}

/// A draft becomes a deal with its own content, active, looked at by no one yet.
pub proof fn drafts_become_deals(draft: DraftView, flags: Seq<Flag>, id: u128, now: Timestamp)
    ensures
        ({
            let deal = deal_of(draft, flags, id, now);
            &&& deal.id == id && deal.first_seen == now && deal.last_seen == now
            &&& deal.source_id == draft.source_id
            &&& deal.canonical_url == draft.canonical_url
            &&& deal.title == draft.title
            &&& deal.price_cents == draft.price_cents && deal.currency == draft.currency
            &&& deal.family == draft.found.family && deal.models == draft.found.models
            &&& deal.stuffing_score == draft.found.stuffing_score
            &&& deal.capacity_gb == draft.capacity_gb && deal.condition == draft.condition
            &&& deal.category == draft.category && deal.specs == draft.specs
            &&& deal.flags == flags
            &&& deal.status == DealStatus::Active
            &&& deal.moderation == Moderation::Unmoderated
            &&& deal.llm_verdict is None && deal.llm_reason is None
        }),
{
}

/// What a push says, word for word: the watch and the price, or both prices; the title and
/// the URL; its own tag and then that of each flag, in order.
pub proof fn pushes_say(watch: Seq<char>, deal: DealView, prev: i64)
    ensures
        fresh_push(watch, deal).title == watch + ": "@ + money_text(deal.price_cents as int) + " "@
            + deal.currency,
        fresh_push(watch, deal).message == deal.title + seq!['\n'] + deal.canonical_url,
        fresh_push(watch, deal).tags == joined(
            seq!["moneybag"@] + deal.flags.map_values(|f: Flag| tag_of(f)),
            seq![','],
        ),
        drop_push(watch, deal, prev).title == watch + ": "@ + money_text(prev as int) + " → "@
            + money_text(deal.price_cents as int) + " "@ + deal.currency,
        drop_push(watch, deal, prev).message == "Price drop"@ + seq!['\n'] + deal.title + seq![
            '\n',
        ] + deal.canonical_url,
        drop_push(watch, deal, prev).tags == joined(
            seq!["chart_with_downwards_trend"@] + deal.flags.map_values(|f: Flag| tag_of(f)),
            seq![','],
        ),
        tag_of(Flag::PossibleStuffing) == "possible-stuffing"@,
        tag_of(Flag::PriceOutlier) == "price-outlier"@,
        tag_of(Flag::WantedAd) == "wanted-ad"@,
{
    reveal_strlit(",");
    reveal_strlit("\n");
    reveal_strlit("Price drop");
    reveal_strlit("Price drop\n");
    assert(","@ =~= seq![',']);
    assert("\n"@ =~= seq!['\n']);
    assert("Price drop\n"@ =~= "Price drop"@ + seq!['\n']);
    assert(flag_tags(deal.flags) =~= deal.flags.map_values(|f: Flag| tag_of(f)));
}

} // verus!
