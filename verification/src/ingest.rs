//! One listing's way through the pipeline, as a sequence of requests to storage, the LLM
//! and the notifier. Each reply leads to the next request, until the listing is done.

use vstd::prelude::*;
use crate::category::{Category, CategoryView};
use crate::config::ScrapeConfig;
use crate::deal::{Deal, DealView, Flag, Moderation};
use crate::family::{ProductFamily, ProductFamilyView};
use crate::listing::{RawListing, RawListingView};
use crate::llm::{RefineInput, RefineInputView, Refinement, RefinementView};
use crate::matching::meets;
use crate::normalize::canonical_of;
use crate::notify::{Notification, NotificationView};
use crate::pipeline::{
    apply_refinement, as_ints, deal_of, draft_of, drop_push, dropped, every_match_has_its_place,
    flags_of, fresh_push, history_entry, identity, matched_or_not, matched_watches, places_matched,
    push_for_fresh, push_for_known, read_listing, refinable, refine_input_of, refined,
    refinement_request, upsert_deal, upserted, worthy, Draft, DraftView, ListingReport,
    PRICE_WINDOW, UpsertOutcome,
};
use crate::time::Timestamp;
use crate::watch::{Watch, WatchView};

verus! {

/// What every listing of a fetch is held against.
#[derive(Debug, PartialEq)]
pub struct Rules {
    pub families: Vec<ProductFamily>,
    pub categories: Vec<Category>,
    pub watches: Vec<Watch>,
    pub scrape: ScrapeConfig,
    /// Whether there is an LLM to ask.
    pub llm: bool,
}

/// What `Rules` holds.
#[verifier::ext_equal]
pub struct RulesView {
    pub families: Seq<ProductFamilyView>,
    pub categories: Seq<CategoryView>,
    pub watches: Seq<WatchView>,
    pub stuffing_threshold: (int, int),
    pub outlier_ratio: (int, int),
    pub renotify_drop_pct: (int, int),
    pub llm: bool,
}

impl DeepView for Rules {
    type V = RulesView;

    open spec fn deep_view(&self) -> RulesView {
        RulesView {
            families: self.families.deep_view(),
            categories: self.categories.deep_view(),
            watches: self.watches.deep_view(),
            stuffing_threshold: self.scrape.stuffing_threshold.deep_view(),
            outlier_ratio: self.scrape.outlier_ratio.deep_view(),
            renotify_drop_pct: self.scrape.renotify_drop_pct.deep_view(),
            llm: self.llm,
        }
    }
}

/// What a listing asks of the world around it.
#[derive(Debug, PartialEq)]
pub enum Request {
    /// The latest prices of a model, at most so many.
    RecentPrices { family: String, model: String, limit: u32 },
    /// The deal stored under a source and a canonical URL.
    StoredDeal { source_id: String, canonical_url: String },
    /// Store the deal; unless the outcome is `Unchanged`, add its price to its history.
    SaveDeal { deal: Deal, outcome: UpsertOutcome },
    /// Ask the LLM about the deal.
    Refine { input: RefineInput },
    /// Store what the LLM said of the deal.
    SaveRefined { deal: Deal },
    /// Add a price to the history of a model.
    RecordPrice { family: String, model: String, price_cents: i64 },
    /// Record that the deal matches a watch.
    RecordMatch { deal_id: u128, watch_id: u128 },
    /// Send a notification, and note the price that it gave.
    Push { notification: Notification, deal_id: u128, watch_id: u128, price_cents: i64 },
}

/// What `Request` holds.
#[verifier::ext_equal]
pub enum RequestView {
    RecentPrices { family: Seq<char>, model: Seq<char>, limit: u32 },
    StoredDeal { source_id: Seq<char>, canonical_url: Seq<char> },
    SaveDeal { deal: DealView, outcome: UpsertOutcome },
    Refine { input: RefineInputView },
    SaveRefined { deal: DealView },
    RecordPrice { family: Seq<char>, model: Seq<char>, price_cents: i64 },
    RecordMatch { deal_id: u128, watch_id: u128 },
    Push { notification: NotificationView, deal_id: u128, watch_id: u128, price_cents: i64 },
}

impl DeepView for Request {
    type V = RequestView;

    open spec fn deep_view(&self) -> RequestView {
        match self {
            Request::RecentPrices { family, model, limit } => RequestView::RecentPrices {
                family: family@,
                model: model@,
                limit: *limit,
            },
            Request::StoredDeal { source_id, canonical_url } => RequestView::StoredDeal {
                source_id: source_id@,
                canonical_url: canonical_url@,
            },
            Request::SaveDeal { deal, outcome } => RequestView::SaveDeal {
                deal: deal.deep_view(),
                outcome: *outcome,
            },
            Request::Refine { input } => RequestView::Refine { input: input.deep_view() },
            Request::SaveRefined { deal } => RequestView::SaveRefined { deal: deal.deep_view() },
            Request::RecordPrice { family, model, price_cents } => RequestView::RecordPrice {
                family: family@,
                model: model@,
                price_cents: *price_cents,
            },
            Request::RecordMatch { deal_id, watch_id } => RequestView::RecordMatch {
                deal_id: *deal_id,
                watch_id: *watch_id,
            },
            Request::Push { notification, deal_id, watch_id, price_cents } => RequestView::Push {
                notification: notification.deep_view(),
                deal_id: *deal_id,
                watch_id: *watch_id,
                price_cents: *price_cents,
            },
        }
    }
}

/// What the world answers.
#[derive(Debug, PartialEq)]
pub enum Reply {
    Prices { history: Vec<i64> },
    Stored { deal: Option<Deal> },
    /// What was asked is done.
    Done,
    /// What the LLM said, or nothing where it failed.
    Refined { refinement: Option<Refinement> },
    /// Whether the match is new, and the price last notified for it.
    Match { fresh: bool, notified: Option<i64> },
}

/// What `Reply` holds.
#[verifier::ext_equal]
pub enum ReplyView {
    Prices { history: Seq<i64> },
    Stored { deal: Option<DealView> },
    Done,
    Refined { refinement: Option<RefinementView> },
    Match { fresh: bool, notified: Option<i64> },
}

impl DeepView for Reply {
    type V = ReplyView;

    open spec fn deep_view(&self) -> ReplyView {
        match self {
            Reply::Prices { history } => ReplyView::Prices { history: history@ },
            Reply::Stored { deal } => ReplyView::Stored { deal: deal.deep_view() },
            Reply::Done => ReplyView::Done,
            Reply::Refined { refinement } => ReplyView::Refined {
                refinement: refinement.deep_view(),
            },
            Reply::Match { fresh, notified } => ReplyView::Match {
                fresh: *fresh,
                notified: *notified,
            },
        }
    }
}

/// Where a listing stands: which request is out.
#[derive(Debug, PartialEq)]
enum Stage {
    Pricing { draft: Draft, id: u128, now: Timestamp },
    Looking { deal: Deal },
    Saving { deal: Deal },
    Refining { deal: Deal },
    SavingRefined { deal: Deal },
    Recording { deal: Deal },
    Matching { deal: Deal, places: Vec<usize>, at: usize },
    Pushing { deal: Deal, places: Vec<usize>, at: usize },
}

/// What `Stage` holds.
#[verifier::ext_equal]
pub enum StageView {
    Pricing { draft: DraftView, id: u128, now: Timestamp },
    Looking { deal: DealView },
    Saving { deal: DealView },
    Refining { deal: DealView },
    SavingRefined { deal: DealView },
    Recording { deal: DealView },
    Matching { deal: DealView, places: Seq<int>, at: int },
    Pushing { deal: DealView, places: Seq<int>, at: int },
}

impl DeepView for Stage {
    type V = StageView;

    closed spec fn deep_view(&self) -> StageView {
        match self {
            Stage::Pricing { draft, id, now } => StageView::Pricing {
                draft: draft.deep_view(),
                id: *id,
                now: *now,
            },
            Stage::Looking { deal } => StageView::Looking { deal: deal.deep_view() },
            Stage::Saving { deal } => StageView::Saving { deal: deal.deep_view() },
            Stage::Refining { deal } => StageView::Refining { deal: deal.deep_view() },
            Stage::SavingRefined { deal } => StageView::SavingRefined { deal: deal.deep_view() },
            Stage::Recording { deal } => StageView::Recording { deal: deal.deep_view() },
            Stage::Matching { deal, places, at } => StageView::Matching {
                deal: deal.deep_view(),
                places: as_ints(places@),
                at: *at as int,
            },
            Stage::Pushing { deal, places, at } => StageView::Pushing {
                deal: deal.deep_view(),
                places: as_ints(places@),
                at: *at as int,
            },
        }
    }
}

/// A listing under way.
#[derive(Debug, PartialEq)]
pub struct Ingest {
    stage: Stage,
    report: ListingReport,
}

/// What `Ingest` holds.
#[verifier::ext_equal]
pub struct IngestView {
    pub stage: StageView,
    pub report: ListingReport,
}

impl DeepView for Ingest {
    type V = IngestView;

    closed spec fn deep_view(&self) -> IngestView {
        IngestView { stage: self.stage.deep_view(), report: self.report }
    }
}

/// What comes next for a listing.
#[derive(Debug, PartialEq)]
pub enum Next {
    /// A request is out; its reply is to be handed to `Ingest::reply`.
    Ask { ingest: Ingest, request: Request },
    /// The listing is done.
    Finished { report: ListingReport },
}

/// What `Next` holds.
#[verifier::ext_equal]
pub enum NextView {
    Ask { ingest: IngestView, request: RequestView },
    Finished { report: ListingReport },
}

impl DeepView for Next {
    type V = NextView;

    open spec fn deep_view(&self) -> NextView {
        match self {
            Next::Ask { ingest, request } => NextView::Ask {
                ingest: ingest.deep_view(),
                request: request.deep_view(),
            },
            Next::Finished { report } => NextView::Finished { report: *report },
        }
    }
}

/// The report of a listing that was not looked at.
pub open spec fn unreported() -> ListingReport {
    ListingReport { outcome: None, refined: false, notified: 0, suppressed: 0 }
}

/// A request that is out at a stage.
pub open spec fn ask(stage: StageView, report: ListingReport, request: RequestView) -> NextView {
    NextView::Ask { ingest: IngestView { stage, report }, request }
}

/// Whether the deal was new.
pub open spec fn was_new(report: ListingReport) -> bool {
    report.outcome == Some(UpsertOutcome::New)
}

/// Once the deal is scored, the stored one is looked up.
pub open spec fn look_up(deal: DealView) -> NextView {
    ask(
        StageView::Looking { deal },
        unreported(),
        RequestView::StoredDeal {
            source_id: deal.source_id,
            canonical_url: deal.canonical_url,
        },
    )
}

/// A listing that makes no deal is done; else the prices of its model are asked for, where
/// it names exactly one.
pub open spec fn begun(
    rules: RulesView,
    raw: RawListingView,
    id: u128,
    now: Timestamp,
) -> NextView {
    match draft_of(raw, rules.families, rules.categories) {
        Err(_) => NextView::Finished { report: unreported() },
        Ok(draft) => match identity(draft.found.family, draft.found.models) {
            Some((family, model)) => ask(
                StageView::Pricing { draft, id, now },
                unreported(),
                RequestView::RecentPrices { family, model, limit: PRICE_WINDOW },
            ),
            None => look_up(scored(rules, draft, Seq::empty(), id, now)),
        },
    }
}

/// The deal of a draft, scored against the prices of its model.
pub open spec fn scored(
    rules: RulesView,
    draft: DraftView,
    history: Seq<i64>,
    id: u128,
    now: Timestamp,
) -> DealView {
    deal_of(
        draft,
        flags_of(draft, history, rules.stuffing_threshold, rules.outlier_ratio),
        id,
        now,
    )
}

/// Once the deal is stored, the LLM is asked, where there is one and it should look.
pub open spec fn after_saving(
    rules: RulesView,
    deal: DealView,
    report: ListingReport,
) -> NextView {
    if rules.llm && refinable(was_new(report), deal, rules.watches) {
        ask(
            StageView::Refining { deal },
            report,
            RequestView::Refine { input: refine_input_of(deal) },
        )
    } else {
        after_refining(rules, deal, report)
    }
}

/// Once the deal was looked at, its price joins the history of its model: on first sight
/// only, where it names exactly one and its price is no outlier.
pub open spec fn after_refining(
    rules: RulesView,
    deal: DealView,
    report: ListingReport,
) -> NextView {
    let entry = if was_new(report) && !deal.flags.contains(Flag::PriceOutlier) {
        identity(deal.family, deal.models)
    } else {
        None
    };
    match entry {
        Some((family, model)) => ask(
            StageView::Recording { deal },
            report,
            RequestView::RecordPrice { family, model, price_cents: deal.price_cents },
        ),
        None => after_recording(rules, deal, report),
    }
}

/// At last the deal is held against the watches.
pub open spec fn after_recording(
    rules: RulesView,
    deal: DealView,
    report: ListingReport,
) -> NextView {
    match_next(rules, deal, places_matched(deal, rules.watches), 0, report)
}

/// The next match is recorded; after the last one the listing is done.
pub open spec fn match_next(
    rules: RulesView,
    deal: DealView,
    places: Seq<int>,
    at: int,
    report: ListingReport,
) -> NextView {
    if at < places.len() {
        ask(
            StageView::Matching { deal, places, at },
            report,
            RequestView::RecordMatch { deal_id: deal.id, watch_id: rules.watches[places[at]].id },
        )
    } else {
        NextView::Finished { report }
    }
}

/// The push that a recorded match calls for: for a new one where the deal is worth it, for
/// a known one where its price has also dropped far enough since the last.
pub open spec fn push_due(
    rules: RulesView,
    deal: DealView,
    watch: WatchView,
    fresh: bool,
    notified: Option<i64>,
) -> Option<NotificationView> {
    if !worthy(deal) {
        None
    } else if fresh {
        Some(fresh_push(watch.name, deal))
    } else {
        match notified {
            Some(prev) => if dropped(deal.price_cents, prev, rules.renotify_drop_pct) {
                Some(drop_push(watch.name, deal, prev))
            } else {
                None
            },
            None => None,
        }
    }
}

/// What comes after a match was recorded.
pub open spec fn after_matching(
    rules: RulesView,
    deal: DealView,
    places: Seq<int>,
    at: int,
    report: ListingReport,
    fresh: bool,
    notified: Option<i64>,
) -> NextView {
    let watch = rules.watches[places[at]];
    match push_due(rules, deal, watch, fresh, notified) {
        Some(notification) => ask(
            StageView::Pushing { deal, places, at },
            report,
            RequestView::Push {
                notification,
                deal_id: deal.id,
                watch_id: watch.id,
                price_cents: deal.price_cents,
            },
        ),
        None => match_next(
            rules,
            deal,
            places,
            at + 1,
            if fresh {
                ListingReport { suppressed: (report.suppressed + 1) as u64, ..report }
            } else {
                report
            },
        ),
    }
}

/// Whether a reply is one to the request that is out.
pub open spec fn answers(ingest: IngestView, reply: ReplyView) -> bool {
    match ingest.stage {
        StageView::Pricing { .. } => reply is Prices,
        StageView::Looking { .. } => reply is Stored,
        StageView::Saving { .. } => reply is Done,
        StageView::Refining { .. } => reply is Refined,
        StageView::SavingRefined { .. } => reply is Done,
        StageView::Recording { .. } => reply is Done,
        StageView::Matching { .. } => reply is Match,
        StageView::Pushing { .. } => reply is Done,
    }
}

/// What comes next once a reply is in.
pub open spec fn followed(rules: RulesView, ingest: IngestView, reply: ReplyView) -> NextView {
    let report = ingest.report;
    match (ingest.stage, reply) {
        (StageView::Pricing { draft, id, now }, ReplyView::Prices { history }) => look_up(
            scored(rules, draft, history, id, now),
        ),
        (StageView::Looking { deal: seen }, ReplyView::Stored { deal: stored }) => {
            let (deal, outcome) = upserted(stored, seen);
            ask(
                StageView::Saving { deal },
                ListingReport { outcome: Some(outcome), ..report },
                RequestView::SaveDeal { deal, outcome },
            )
        },
        (StageView::Saving { deal }, _) => after_saving(rules, deal, report),
        (StageView::Refining { deal }, ReplyView::Refined { refinement }) => match refinement {
            Some(said) => {
                let deal = refined(deal, said);
                ask(
                    StageView::SavingRefined { deal },
                    ListingReport { refined: true, ..report },
                    RequestView::SaveRefined { deal },
                )
            },
            None => after_refining(rules, deal, report),
        },
        (StageView::SavingRefined { deal }, _) => after_refining(rules, deal, report),
        (StageView::Recording { deal }, _) => after_recording(rules, deal, report),
        (
            StageView::Matching { deal, places, at },
            ReplyView::Match { fresh, notified },
        ) => after_matching(rules, deal, places, at, report, fresh, notified),
        (StageView::Pushing { deal, places, at }, _) => match_next(
            rules,
            deal,
            places,
            at + 1,
            ListingReport { notified: (report.notified + 1) as u64, ..report },
        ),
        _ => NextView::Finished { report },
    }
}

/// Whether a listing under way fits the rules: the watches it is held against are exactly
/// those that match, and it counts no more pushes than it has passed.
pub open spec fn in_order(rules: RulesView, ingest: IngestView) -> bool {
    match ingest.stage {
        StageView::Matching { deal, places, at } => {
            &&& places == places_matched(deal, rules.watches)
            &&& 0 <= at < places.len()
            &&& ingest.report.notified + ingest.report.suppressed <= at
        },
        StageView::Pushing { deal, places, at } => {
            &&& places == places_matched(deal, rules.watches)
            &&& 0 <= at < places.len()
            &&& ingest.report.notified + ingest.report.suppressed <= at
        },
        _ => ingest.report.notified + ingest.report.suppressed == 0,
    }
}

/// Whether what comes next fits the rules.
pub open spec fn next_in_order(rules: RulesView, next: NextView) -> bool {
    next matches NextView::Ask { ingest, .. } ==> in_order(rules, ingest)
}

fn asking(stage: Stage, report: ListingReport, request: Request) -> (r: Next)
    ensures
        r.deep_view() == ask(stage.deep_view(), report, request.deep_view()),
{
    Next::Ask { ingest: Ingest { stage, report }, request }
}

fn looking(deal: Deal) -> (r: Next)
    ensures
        r.deep_view() == look_up(deal.deep_view()),
{
    let report = ListingReport { outcome: None, refined: false, notified: 0, suppressed: 0 };
    let request = Request::StoredDeal {
        source_id: deal.source_id.clone(),
        canonical_url: deal.canonical_url.clone(),
    };
    asking(Stage::Looking { deal }, report, request)
}

fn matching(
    rules: &Rules,
    deal: Deal,
    places: Vec<usize>,
    at: usize,
    report: ListingReport,
) -> (r: Next)
    requires
        as_ints(places@) == places_matched(deal.deep_view(), rules.deep_view().watches),
        at <= places@.len(),
        report.notified + report.suppressed <= at,
    ensures
        r.deep_view() == match_next(
            rules.deep_view(),
            deal.deep_view(),
            as_ints(places@),
            at as int,
            report,
        ),
        next_in_order(rules.deep_view(), r.deep_view()),
{
    if at < places.len() {
        let ghost w = rules.deep_view().watches;
        proof {
            matched_or_not(deal.deep_view(), w);
            assert(as_ints(places@)[at as int] == places@[at as int]);
        }
        let place: usize = places[at];
        assert(w.len() == rules.watches@.len());
        assert(w[place as int] == rules.watches@[place as int].deep_view());
        let request = Request::RecordMatch {
            deal_id: deal.id,
            watch_id: rules.watches[place].id,
        };
        asking(Stage::Matching { deal, places, at }, report, request)
    } else {
        Next::Finished { report }
    }
}

fn recorded(rules: &Rules, deal: Deal, report: ListingReport) -> (r: Next)
    requires
        report.notified + report.suppressed == 0,
    ensures
        r.deep_view() == after_recording(rules.deep_view(), deal.deep_view(), report),
        next_in_order(rules.deep_view(), r.deep_view()),
{
    let places = matched_watches(&deal, &rules.watches);
    matching(rules, deal, places, 0, report)
}

fn looked_at(rules: &Rules, deal: Deal, report: ListingReport) -> (r: Next)
    requires
        report.notified + report.suppressed == 0,
    ensures
        r.deep_view() == after_refining(rules.deep_view(), deal.deep_view(), report),
        next_in_order(rules.deep_view(), r.deep_view()),
{
    let new = is_new(report);
    assert(deal.flags@ == deal.deep_view().flags);
    match history_entry(new, &deal) {
        Some((family, model)) => {
            let price_cents = deal.price_cents;
            asking(
                Stage::Recording { deal },
                report,
                Request::RecordPrice { family, model, price_cents },
            )
        },
        None => recorded(rules, deal, report),
    }
}

fn is_new(report: ListingReport) -> (r: bool)
    ensures
        r == was_new(report),
{
    match report.outcome {
        Some(UpsertOutcome::New) => true,
        _ => false,
    }
}

fn saved(rules: &Rules, deal: Deal, report: ListingReport) -> (r: Next)
    requires
        report.notified + report.suppressed == 0,
    ensures
        r.deep_view() == after_saving(rules.deep_view(), deal.deep_view(), report),
        next_in_order(rules.deep_view(), r.deep_view()),
{
    if rules.llm {
        if let Some(input) = refinement_request(is_new(report), &deal, &rules.watches) {
            return asking(Stage::Refining { deal }, report, Request::Refine { input });
        }
    }
    looked_at(rules, deal, report)
}

fn matched(
    rules: &Rules,
    deal: Deal,
    places: Vec<usize>,
    at: usize,
    report: ListingReport,
    fresh: bool,
    notified: Option<i64>,
) -> (r: Next)
    requires
        as_ints(places@) == places_matched(deal.deep_view(), rules.deep_view().watches),
        at < places@.len(),
        report.notified + report.suppressed <= at,
    ensures
        r.deep_view() == after_matching(
            rules.deep_view(),
            deal.deep_view(),
            as_ints(places@),
            at as int,
            report,
            fresh,
            notified,
        ),
        next_in_order(rules.deep_view(), r.deep_view()),
{
    let ghost w = rules.deep_view().watches;
    proof {
        matched_or_not(deal.deep_view(), w);
        assert(as_ints(places@)[at as int] == places@[at as int]);
    }
    let place: usize = places[at];
    assert(at < places.len());
    assert(w.len() == rules.watches@.len());
    assert(w[place as int] == rules.watches@[place as int].deep_view());
    let watch = &rules.watches[place];
    let push = if fresh {
        push_for_fresh(watch, &deal)
    } else {
        push_for_known(watch, &deal, notified, rules.scrape.renotify_drop_pct)
    };
    match push {
        Some(notification) => {
            let request = Request::Push {
                notification,
                deal_id: deal.id,
                watch_id: watch.id,
                price_cents: deal.price_cents,
            };
            asking(Stage::Pushing { deal, places, at }, report, request)
        },
        None => {
            let mut report = report;
            if fresh {
                report.suppressed = report.suppressed + 1;
            }
            matching(rules, deal, places, at + 1, report)
        },
    }
}

impl Ingest {
    /// What a new listing asks for first. `id` and `now` are those of the deal that it
    /// makes if it is new.
    pub fn begin(rules: &Rules, raw: &RawListing, id: u128, now: Timestamp) -> (r: Next)
        ensures
            r.deep_view() == begun(rules.deep_view(), raw.deep_view(), id, now),
            next_in_order(rules.deep_view(), r.deep_view()),
    {
        let report = ListingReport { outcome: None, refined: false, notified: 0, suppressed: 0 };
        match read_listing(raw, rules.families.as_slice(), rules.categories.as_slice()) {
            Err(_) => Next::Finished { report },
            Ok(draft) => match draft.price_identity() {
                Some((family, model)) => asking(
                    Stage::Pricing { draft, id, now },
                    report,
                    Request::RecentPrices { family, model, limit: PRICE_WINDOW },
                ),
                None => {
                    let history: Vec<i64> = Vec::new();
                    assert(history@ =~= Seq::empty());
                    looking(draft.into_deal(history.as_slice(), &rules.scrape, id, now))
                },
            },
        }
    }

    /// What the listing asks for once the reply to its last request is in.
    pub fn reply(self, rules: &Rules, reply: Reply) -> (r: Next)
        requires
            in_order(rules.deep_view(), self.deep_view()),
            answers(self.deep_view(), reply.deep_view()),
        ensures
            r.deep_view() == followed(rules.deep_view(), self.deep_view(), reply.deep_view()),
            next_in_order(rules.deep_view(), r.deep_view()),
    {
        let report = self.report;
        match (self.stage, reply) {
            (Stage::Pricing { draft, id, now }, Reply::Prices { history }) => looking(
                draft.into_deal(history.as_slice(), &rules.scrape, id, now),
            ),
            (Stage::Looking { deal: seen }, Reply::Stored { deal: stored }) => {
                let (deal, outcome) = upsert_deal(stored, seen);
                let mut report = report;
                report.outcome = Some(outcome);
                let copy = deal.clone();
                asking(Stage::Saving { deal }, report, Request::SaveDeal { deal: copy, outcome })
            },
            (Stage::Saving { deal }, _) => saved(rules, deal, report),
            (Stage::Refining { deal }, Reply::Refined { refinement }) => match refinement {
                Some(said) => {
                    let deal = apply_refinement(deal, said);
                    let mut report = report;
                    report.refined = true;
                    let copy = deal.clone();
                    asking(
                        Stage::SavingRefined { deal },
                        report,
                        Request::SaveRefined { deal: copy },
                    )
                },
                None => looked_at(rules, deal, report),
            },
            (Stage::SavingRefined { deal }, _) => looked_at(rules, deal, report),
            (Stage::Recording { deal }, _) => recorded(rules, deal, report),
            (Stage::Matching { deal, places, at }, Reply::Match { fresh, notified }) => matched(
                rules,
                deal,
                places,
                at,
                report,
                fresh,
                notified,
            ),
            (Stage::Pushing { deal, places, at }, _) => {
                let mut report = report;
                assert(as_ints(places@).len() == places@.len());
                assert(at < places.len());
                report.notified = report.notified + 1;
                matching(rules, deal, places, at + 1, report)
            },
            _ => Next::Finished { report },
        }
    }
}

/// How many more replies a listing can take.
pub open spec fn steps_left(rules: RulesView, ingest: IngestView) -> int {
    let most: int = 2 * rules.watches.len() as int;
    match ingest.stage {
        StageView::Pricing { .. } => most + 6,
        StageView::Looking { .. } => most + 5,
        StageView::Saving { .. } => most + 4,
        StageView::Refining { .. } => most + 3,
        StageView::SavingRefined { .. } => most + 2,
        StageView::Recording { .. } => most + 1,
        StageView::Matching { places, at, .. } => 2 * (places.len() - at),
        StageView::Pushing { places, at, .. } => 2 * (places.len() - at) - 1,
    }
}

proof fn few_places(deal: DealView, watches: Seq<WatchView>)
    ensures
        places_matched(deal, watches).len() <= watches.len(),
    decreases watches.len(),
{
    if watches.len() > 0 {
        few_places(deal, watches.drop_last());
    }
}

/// Every reply brings a listing nearer to its end.
pub proof fn every_reply_makes_progress(rules: RulesView, ingest: IngestView, reply: ReplyView)
    requires
        in_order(rules, ingest),
        answers(ingest, reply),
    ensures
        steps_left(rules, ingest) > 0,
        followed(rules, ingest, reply) matches NextView::Ask { ingest: after, .. } ==> steps_left(
            rules,
            after,
        ) < steps_left(rules, ingest),
{
    let report = ingest.report;
    match ingest.stage {
        StageView::Saving { deal } => {
            few_places(deal, rules.watches);
        },
        StageView::Refining { deal } => {
            few_places(deal, rules.watches);
        },
        StageView::SavingRefined { deal } => {
            few_places(deal, rules.watches);
        },
        StageView::Recording { deal } => {
            few_places(deal, rules.watches);
        },
        _ => {},
    }
}

/// A push goes out only for a deal that the user has not put aside, that is worth it, and
/// that matches the watch it names; and it is noted at the deal's price.
pub proof fn pushes_are_wanted(rules: RulesView, ingest: IngestView, reply: ReplyView)
    requires
        in_order(rules, ingest),
        answers(ingest, reply),
    ensures
        followed(rules, ingest, reply) matches NextView::Ask {
            ingest: after,
            request: RequestView::Push { deal_id, watch_id, price_cents, .. },
        } ==> after.stage matches StageView::Pushing { deal, places, at } && {
            let watch = rules.watches[places[at]];
            &&& meets(watch, deal)
            &&& deal.moderation == Moderation::Unmoderated
            &&& worthy(deal)
            &&& deal_id == deal.id
            &&& watch_id == watch.id
            &&& price_cents == deal.price_cents
        },
{
    if let StageView::Matching { deal, places, at } = ingest.stage {
        matched_or_not(deal, rules.watches);
        assert(meets(rules.watches[places[at]], deal));
        if deal.moderation != Moderation::Unmoderated {
            crate::pipeline::moderated_never_matches(deal, rules.watches);
        }
    }
}

/// A deal that the user has put aside is done once it is stored: no match, no push.
pub proof fn moderated_deals_rest(rules: RulesView, deal: DealView, report: ListingReport)
    requires
        deal.moderation != Moderation::Unmoderated,
    ensures
        after_recording(rules, deal, report) == (NextView::Finished { report }),
{
    crate::pipeline::moderated_never_matches(deal, rules.watches);
}

/// The LLM is asked only right after the deal was stored, only where there is one, and
/// never about a deal that it has already looked at.
pub proof fn the_model_is_asked_once(rules: RulesView, ingest: IngestView, reply: ReplyView)
    requires
        in_order(rules, ingest),
        answers(ingest, reply),
    ensures
        followed(rules, ingest, reply) matches NextView::Ask {
            ingest: after,
            request: RequestView::Refine { .. },
        } ==> {
            &&& ingest.stage is Saving
            &&& rules.llm
            &&& after.stage matches StageView::Refining { deal } && deal.llm_verdict is None
        },
{
}

/// Every reply leaves a listing in order.
pub proof fn replies_keep_order(rules: RulesView, ingest: IngestView, reply: ReplyView)
    requires
        in_order(rules, ingest),
        answers(ingest, reply),
    ensures
        next_in_order(rules, followed(rules, ingest, reply)),
{
}

/// How many more replies what comes next can take.
pub open spec fn left_of(rules: RulesView, next: NextView) -> int {
    match next {
        NextView::Ask { ingest, .. } => steps_left(rules, ingest),
        NextView::Finished { .. } => 0,
    }
}

/// The whole way of a listing from `next` on. `world` answers what storage and the
/// notifier are asked, given all that they were asked so far, and `model` is the LLM: what
/// it says of a deal, or nothing where it fails. Gives what storage and the notifier were
/// asked, and the report; nothing where an answer is not one to what was asked.
pub open spec fn run(
    rules: RulesView,
    next: NextView,
    world: spec_fn(Seq<RequestView>) -> ReplyView,
    model: spec_fn(RefineInputView) -> Option<RefinementView>,
    asked: Seq<RequestView>,
) -> Option<(Seq<RequestView>, ListingReport)>
    decreases left_of(rules, next),
{
    match next {
        NextView::Finished { report } => Some((asked, report)),
        NextView::Ask { ingest, request } => {
            let (reply, asked) = match request {
                RequestView::Refine { input } => (
                    ReplyView::Refined { refinement: model(input) },
                    asked,
                ),
                _ => (world(asked.push(request)), asked.push(request)),
            };
            if in_order(rules, ingest) && answers(ingest, reply) {
                proof {
                    every_reply_makes_progress(rules, ingest, reply);
                    replies_keep_order(rules, ingest, reply);
                    order_leaves_steps(rules, followed(rules, ingest, reply));
                }
                run(rules, followed(rules, ingest, reply), world, model, asked)
            } else {
                None
            }
        },
    }
}

/// The steps that a listing in order has left are never below none.
pub proof fn order_leaves_steps(rules: RulesView, next: NextView)
    requires
        next_in_order(rules, next),
    ensures
        left_of(rules, next) >= 0,
{
}

proof fn without_model(
    rules: RulesView,
    next: NextView,
    world: spec_fn(Seq<RequestView>) -> ReplyView,
    model: spec_fn(RefineInputView) -> Option<RefinementView>,
    asked: Seq<RequestView>,
)
    requires
        forall|input: RefineInputView| #[trigger] model(input) is None,
        next_in_order(rules, next),
    ensures
        run(rules, next, world, model, asked) == run(
            RulesView { llm: false, ..rules },
            next,
            world,
            model,
            asked,
        ),
    decreases left_of(rules, next),
{
    let off = RulesView { llm: false, ..rules };
    if let NextView::Ask { ingest, request } = next {
        let (reply, then) = match request {
            RequestView::Refine { input } => (
                ReplyView::Refined { refinement: model(input) },
                asked,
            ),
            _ => (world(asked.push(request)), asked.push(request)),
        };
        assert(in_order(rules, ingest) == in_order(off, ingest));
        if in_order(rules, ingest) && answers(ingest, reply) {
            every_reply_makes_progress(rules, ingest, reply);
            replies_keep_order(rules, ingest, reply);
            let after = followed(rules, ingest, reply);
            order_leaves_steps(rules, after);
            without_model(rules, after, world, model, then);
            if let (StageView::Saving { deal }, NextView::Ask { ingest: held, .. }) = (
                ingest.stage,
                after,
            ) {
                if held.stage is Refining {
                    let nothing = ReplyView::Refined { refinement: None };
                    a_failing_model_is_left_out(rules, deal, ingest.report);
                    assert(followed(off, held, nothing) == followed(off, ingest, reply));
                } else {
                    assert(after == followed(off, ingest, reply));
                }
            } else {
                assert(after == followed(off, ingest, reply));
            }
        }
    }
}

/// Where the LLM fails, the listing goes on as if there were none.
proof fn a_failing_model_is_left_out(rules: RulesView, deal: DealView, report: ListingReport)
    ensures
        followed(
            rules,
            IngestView { stage: StageView::Refining { deal }, report },
            ReplyView::Refined { refinement: None },
        ) == after_saving(RulesView { llm: false, ..rules }, deal, report),
{
}

/// An LLM that fails on every deal changes nothing: from its first request to its report,
/// a listing asks the same of storage and the notifier, and comes to the same, as with no
/// LLM at all.
pub proof fn a_failing_model_changes_nothing(
    rules: RulesView,
    raw: RawListingView,
    id: u128,
    now: Timestamp,
    world: spec_fn(Seq<RequestView>) -> ReplyView,
    model: spec_fn(RefineInputView) -> Option<RefinementView>,
)
    requires
        forall|input: RefineInputView| #[trigger] model(input) is None,
    ensures
        ({
            let off = RulesView { llm: false, ..rules };
            run(rules, begun(rules, raw, id, now), world, model, Seq::empty()) == run(
                off,
                begun(off, raw, id, now),
                world,
                model,
                Seq::empty(),
            )
        }),
{
    without_model(rules, begun(rules, raw, id, now), world, model, Seq::empty());
}

/// Whether a deal was stored before what comes next, or will be.
spec fn comes_to_a_deal(next: NextView) -> bool {
    match next {
        NextView::Finished { report } => report.outcome is Some,
        NextView::Ask { ingest, .. } => ingest.stage is Pricing || ingest.stage is Looking
            || ingest.report.outcome is Some,
    }
}

proof fn deals_are_reported(
    rules: RulesView,
    next: NextView,
    world: spec_fn(Seq<RequestView>) -> ReplyView,
    model: spec_fn(RefineInputView) -> Option<RefinementView>,
    asked: Seq<RequestView>,
)
    requires
        next_in_order(rules, next),
        comes_to_a_deal(next),
    ensures
        run(rules, next, world, model, asked) matches Some((_, report)) ==> report.outcome is Some,
    decreases left_of(rules, next),
{
    if let NextView::Ask { ingest, request } = next {
        let (reply, then) = match request {
            RequestView::Refine { input } => (
                ReplyView::Refined { refinement: model(input) },
                asked,
            ),
            _ => (world(asked.push(request)), asked.push(request)),
        };
        if in_order(rules, ingest) && answers(ingest, reply) {
            every_reply_makes_progress(rules, ingest, reply);
            replies_keep_order(rules, ingest, reply);
            let after = followed(rules, ingest, reply);
            order_leaves_steps(rules, after);
            assert(comes_to_a_deal(after));
            deals_are_reported(rules, after, world, model, then);
        }
    }
}

/// A listing is skipped exactly where it makes no deal, and one that is not skipped has a
/// canonical URL.
pub proof fn skipped_listings_make_no_deal(
    rules: RulesView,
    raw: RawListingView,
    id: u128,
    now: Timestamp,
    world: spec_fn(Seq<RequestView>) -> ReplyView,
    model: spec_fn(RefineInputView) -> Option<RefinementView>,
)
    ensures
        run(rules, begun(rules, raw, id, now), world, model, Seq::empty()) matches Some(
            (_, report),
        ) ==> {
            &&& report.outcome is None <==> draft_of(raw, rules.families, rules.categories) is Err
            &&& report.outcome is Some ==> canonical_of(raw.url) is Some
        },
{
    let next = begun(rules, raw, id, now);
    if draft_of(raw, rules.families, rules.categories) is Ok {
        deals_are_reported(rules, next, world, model, Seq::empty());
    }
}

/// A listing that is done has pushed or muted no more matches than it has.
pub proof fn reports_count_matches(rules: RulesView, ingest: IngestView, reply: ReplyView)
    requires
        in_order(rules, ingest),
        answers(ingest, reply),
    ensures
        followed(rules, ingest, reply) matches NextView::Finished { report } ==> report.notified
            + report.suppressed <= rules.watches.len(),
{
    match ingest.stage {
        StageView::Matching { deal, places, at } => {
            few_places(deal, rules.watches);
        },
        StageView::Pushing { deal, places, at } => {
            few_places(deal, rules.watches);
        },
        _ => {},
    }
}

proof fn runs_keep_what_was_asked(
    rules: RulesView,
    next: NextView,
    world: spec_fn(Seq<RequestView>) -> ReplyView,
    model: spec_fn(RefineInputView) -> Option<RefinementView>,
    asked: Seq<RequestView>,
    request: RequestView,
)
    requires
        next_in_order(rules, next),
        asked.contains(request),
    ensures
        run(rules, next, world, model, asked) matches Some((all, _)) ==> all.contains(request),
    decreases left_of(rules, next),
{
    if let NextView::Ask { ingest, request: out } = next {
        let (reply, then) = match out {
            RequestView::Refine { input } => (
                ReplyView::Refined { refinement: model(input) },
                asked,
            ),
            _ => (world(asked.push(out)), asked.push(out)),
        };
        let k = choose|k: int| 0 <= k < asked.len() && asked[k] == request;
        assert(then[k] == request);
        if in_order(rules, ingest) && answers(ingest, reply) {
            every_reply_makes_progress(rules, ingest, reply);
            replies_keep_order(rules, ingest, reply);
            let after = followed(rules, ingest, reply);
            order_leaves_steps(rules, after);
            runs_keep_what_was_asked(rules, after, world, model, then, request);
        }
    }
}

proof fn matches_are_recorded_from(
    rules: RulesView,
    deal: DealView,
    at: int,
    report: ListingReport,
    world: spec_fn(Seq<RequestView>) -> ReplyView,
    model: spec_fn(RefineInputView) -> Option<RefinementView>,
    asked: Seq<RequestView>,
    k: int,
)
    requires
        0 <= at <= k < places_matched(deal, rules.watches).len(),
        report.notified + report.suppressed <= at,
    ensures
        run(
            rules,
            match_next(rules, deal, places_matched(deal, rules.watches), at, report),
            world,
            model,
            asked,
        ) matches Some((all, _)) ==> all.contains(
            RequestView::RecordMatch {
                deal_id: deal.id,
                watch_id: rules.watches[places_matched(deal, rules.watches)[k]].id,
            },
        ),
    decreases places_matched(deal, rules.watches).len() - at,
{
    let places = places_matched(deal, rules.watches);
    few_places(deal, rules.watches);
    let wanted = RequestView::RecordMatch {
        deal_id: deal.id,
        watch_id: rules.watches[places[k]].id,
    };
    let next = match_next(rules, deal, places, at, report);
    let request = RequestView::RecordMatch {
        deal_id: deal.id,
        watch_id: rules.watches[places[at]].id,
    };
    let ingest = IngestView { stage: StageView::Matching { deal, places, at }, report };
    assert(next == NextView::Ask { ingest, request });
    let then = asked.push(request);
    let reply = world(then);
    if answers(ingest, reply) {
        every_reply_makes_progress(rules, ingest, reply);
        replies_keep_order(rules, ingest, reply);
        let after = followed(rules, ingest, reply);
        order_leaves_steps(rules, after);
        assert(run(rules, next, world, model, asked) == run(rules, after, world, model, then));
        if k == at {
            assert(then[asked.len() as int] == wanted);
            runs_keep_what_was_asked(rules, after, world, model, then, wanted);
        } else if let NextView::Ask { ingest: pushing, request: push } = after {
            if pushing.stage is Pushing {
                let told = then.push(push);
                let done = world(told);
                if answers(pushing, done) {
                    let more = ListingReport { notified: (report.notified + 1) as u64, ..report };
                    assert(followed(rules, pushing, done) == match_next(
                        rules,
                        deal,
                        places,
                        at + 1,
                        more,
                    ));
                    matches_are_recorded_from(rules, deal, at + 1, more, world, model, told, k);
                }
            } else {
                let more = pushing.report;
                assert(after == match_next(rules, deal, places, at + 1, more));
                matches_are_recorded_from(rules, deal, at + 1, more, world, model, then, k);
            }
        }
    }
}

/// Every active watch that a deal matches has its match recorded before the listing is
/// done.
pub proof fn every_match_is_recorded(
    rules: RulesView,
    deal: DealView,
    report: ListingReport,
    world: spec_fn(Seq<RequestView>) -> ReplyView,
    model: spec_fn(RefineInputView) -> Option<RefinementView>,
    asked: Seq<RequestView>,
    i: int,
)
    requires
        0 <= i < rules.watches.len(),
        meets(rules.watches[i], deal),
        deal.moderation == Moderation::Unmoderated,
        report.notified + report.suppressed == 0,
    ensures
        run(rules, after_recording(rules, deal, report), world, model, asked) matches Some((all, _))
            ==> all.contains(
            RequestView::RecordMatch { deal_id: deal.id, watch_id: rules.watches[i].id },
        ),
{
    every_match_has_its_place(deal, rules.watches, i);
    let places = places_matched(deal, rules.watches);
    let k = choose|k: int| 0 <= k < places.len() && places[k] == i;
    matches_are_recorded_from(rules, deal, 0, report, world, model, asked, k);
}

/// How a listing begins: one that makes no deal is done at once and has done nothing; one
/// that names exactly one model asks for its fifty last prices; any other looks its deal up.
pub proof fn how_a_listing_begins(
    rules: RulesView,
    raw: RawListingView,
    id: u128,
    now: Timestamp,
)
    ensures
        match draft_of(raw, rules.families, rules.categories) {
            Err(_) => begun(rules, raw, id, now) matches NextView::Finished { report }
                && report.outcome is None && !report.refined && report.notified == 0
                && report.suppressed == 0,
            Ok(draft) => begun(rules, raw, id, now) matches NextView::Ask { ingest, request }
                && ingest.report.outcome is None && !ingest.report.refined
                && ingest.report.notified == 0 && ingest.report.suppressed == 0 && match identity(
                draft.found.family,
                draft.found.models,
            ) {
                Some((family, model)) => request == (RequestView::RecentPrices {
                    family,
                    model,
                    limit: 50,
                }) && ingest.stage == (StageView::Pricing { draft, id, now }),
                None => {
                    let deal = deal_of(
                        draft,
                        flags_of(
                            draft,
                            Seq::empty(),
                            rules.stuffing_threshold,
                            rules.outlier_ratio,
                        ),
                        id,
                        now,
                    );
                    request == (RequestView::StoredDeal {
                        source_id: draft.source_id,
                        canonical_url: draft.canonical_url,
                    }) && ingest.stage == (StageView::Looking { deal })
                },
            },
        },
{
}

/// What storage answers decides what a deal is saved as: the prices of its model its flags,
/// the stored deal what of the old one stays.
pub proof fn deals_are_scored_then_stored(
    rules: RulesView,
    draft: DraftView,
    history: Seq<i64>,
    id: u128,
    now: Timestamp,
    seen: DealView,
    stored: Option<DealView>,
    report: ListingReport,
)
    ensures
        followed(
            rules,
            IngestView { stage: StageView::Pricing { draft, id, now }, report },
            ReplyView::Prices { history },
        ) matches NextView::Ask { ingest, request } && request == (RequestView::StoredDeal {
            source_id: draft.source_id,
            canonical_url: draft.canonical_url,
        }) && ingest.stage == (StageView::Looking {
            deal: deal_of(
                draft,
                flags_of(draft, history, rules.stuffing_threshold, rules.outlier_ratio),
                id,
                now,
            ),
        }),
        followed(
            rules,
            IngestView { stage: StageView::Looking { deal: seen }, report },
            ReplyView::Stored { deal: stored },
        ) == (NextView::Ask {
            ingest: IngestView {
                stage: StageView::Saving { deal: upserted(stored, seen).0 },
                report: ListingReport { outcome: Some(upserted(stored, seen).1), ..report },
            },
            request: RequestView::SaveDeal {
                deal: upserted(stored, seen).0,
                outcome: upserted(stored, seen).1,
            },
        }),
{
}

/// Once a deal is saved, the model is asked about it exactly where there is one and the
/// deal is one to look at; what the model says is applied and saved, and counted.
pub proof fn when_the_model_is_asked(
    rules: RulesView,
    deal: DealView,
    report: ListingReport,
    said: Option<RefinementView>,
    reply: ReplyView,
)
    ensures
        rules.llm && refinable(report.outcome == Some(UpsertOutcome::New), deal, rules.watches)
            ==> followed(rules, IngestView { stage: StageView::Saving { deal }, report }, reply) == (
        NextView::Ask {
            ingest: IngestView { stage: StageView::Refining { deal }, report },
            request: RequestView::Refine { input: refine_input_of(deal) },
        }),
        !(rules.llm && refinable(
            report.outcome == Some(UpsertOutcome::New),
            deal,
            rules.watches,
        )) ==> followed(rules, IngestView { stage: StageView::Saving { deal }, report }, reply)
            == after_refining(rules, deal, report),
        followed(
            rules,
            IngestView { stage: StageView::Refining { deal }, report },
            ReplyView::Refined { refinement: said },
        ) == match said {
            Some(r) => NextView::Ask {
                ingest: IngestView {
                    stage: StageView::SavingRefined { deal: refined(deal, r) },
                    report: ListingReport { refined: true, ..report },
                },
                request: RequestView::SaveRefined { deal: refined(deal, r) },
            },
            None => after_refining(rules, deal, report),
        },
        followed(rules, IngestView { stage: StageView::SavingRefined { deal }, report }, reply)
            == after_refining(rules, deal, report),
{
}

/// A price joins the history of its model exactly where the deal is new, names one model
/// and is no price outlier; then the deal is held against the watches.
pub proof fn when_a_price_is_recorded(
    rules: RulesView,
    deal: DealView,
    report: ListingReport,
    reply: ReplyView,
)
    ensures
        report.outcome == Some(UpsertOutcome::New) && !deal.flags.contains(Flag::PriceOutlier)
            && identity(deal.family, deal.models) is Some ==> after_refining(rules, deal, report)
            == (NextView::Ask {
            ingest: IngestView { stage: StageView::Recording { deal }, report },
            request: RequestView::RecordPrice {
                family: (identity(deal.family, deal.models)->0).0,
                model: (identity(deal.family, deal.models)->0).1,
                price_cents: deal.price_cents,
            },
        }),
        !(report.outcome == Some(UpsertOutcome::New) && !deal.flags.contains(Flag::PriceOutlier)
            && identity(deal.family, deal.models) is Some) ==> after_refining(rules, deal, report)
            == after_recording(rules, deal, report),
        followed(rules, IngestView { stage: StageView::Recording { deal }, report }, reply)
            == after_recording(rules, deal, report),
        after_recording(rules, deal, report) == match_next(
            rules,
            deal,
            places_matched(deal, rules.watches),
            0,
            report,
        ),
{
}

/// A new match of a deal that is worth it is pushed; a known one only where it was pushed
/// before at a price from which the deal has dropped far enough; no other is pushed.
pub proof fn when_a_push_is_due(
    rules: RulesView,
    deal: DealView,
    watch: WatchView,
    fresh: bool,
    notified: Option<i64>,
)
    ensures
        push_due(rules, deal, watch, fresh, notified) is Some <==> worthy(deal) && (fresh || (
        notified is Some && dropped(deal.price_cents, notified->0, rules.renotify_drop_pct))),
        worthy(deal) && fresh ==> push_due(rules, deal, watch, fresh, notified) == Some(
            fresh_push(watch.name, deal),
        ),
        !fresh && push_due(rules, deal, watch, fresh, notified) is Some ==> push_due(
            rules,
            deal,
            watch,
            fresh,
            notified,
        ) == Some(drop_push(watch.name, deal, notified->0)),
{
}

/// A recorded match is pushed where a push is due, and the push is counted once it is out;
/// a new match that is not pushed counts as muted; then comes the next watch.
pub proof fn matches_are_pushed_or_muted(
    rules: RulesView,
    deal: DealView,
    places: Seq<int>,
    at: int,
    report: ListingReport,
    fresh: bool,
    notified: Option<i64>,
    reply: ReplyView,
)
    requires
        report.notified < u64::MAX,
        report.suppressed < u64::MAX,
    ensures
        ({
            let watch = rules.watches[places[at]];
            let after = followed(
                rules,
                IngestView { stage: StageView::Matching { deal, places, at }, report },
                ReplyView::Match { fresh, notified },
            );
            match push_due(rules, deal, watch, fresh, notified) {
                Some(notification) => after == (NextView::Ask {
                    ingest: IngestView { stage: StageView::Pushing { deal, places, at }, report },
                    request: RequestView::Push {
                        notification,
                        deal_id: deal.id,
                        watch_id: watch.id,
                        price_cents: deal.price_cents,
                    },
                }),
                None => exists|muted: u64|
                    muted == report.suppressed + (if fresh {
                        1int
                    } else {
                        0
                    }) && after == #[trigger] match_next(
                        rules,
                        deal,
                        places,
                        at + 1,
                        ListingReport { suppressed: muted, ..report },
                    ),
            }
        }),
        exists|told: u64|
            told == report.notified + 1 && followed(
                rules,
                IngestView { stage: StageView::Pushing { deal, places, at }, report },
                reply,
            ) == #[trigger] match_next(
                rules,
                deal,
                places,
                at + 1,
                ListingReport { notified: told, ..report },
            ),
        0 <= at < places.len() ==> match_next(rules, deal, places, at, report) == (NextView::Ask {
            ingest: IngestView { stage: StageView::Matching { deal, places, at }, report },
            request: RequestView::RecordMatch {
                deal_id: deal.id,
                watch_id: rules.watches[places[at]].id,
            },
        }),
        at >= places.len() ==> match_next(rules, deal, places, at, report) == (
        NextView::Finished { report }),
{
    let muted: u64 = (report.suppressed + if fresh {
        1int
    } else {
        0
    }) as u64;
    let told: u64 = (report.notified + 1) as u64;
    let quiet = ListingReport { suppressed: muted, ..report };
    let loud = ListingReport { notified: told, ..report };
    assert(!fresh ==> quiet == report);
    assert(match_next(rules, deal, places, at + 1, quiet) == match_next(
        rules,
        deal,
        places,
        at + 1,
        quiet,
    ));
    assert(followed(
        rules,
        IngestView { stage: StageView::Pushing { deal, places, at }, report },
        reply,
    ) == match_next(rules, deal, places, at + 1, loud));
}

} // verus!
