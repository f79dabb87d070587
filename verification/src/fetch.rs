//! One fetch of a source: what its listings come to together, and which stored deals it no
//! longer saw.

use vstd::prelude::*;
use crate::listing::{RawListing, RawListingView};
use crate::normalize::{canonical_of, canonical_url};
use crate::pipeline::{mark_gone, one_if, unseen, ListingReport, PipelineStats, UpsertOutcome};

verus! {

/// A fetch under way.
#[derive(Debug, PartialEq)]
pub struct Fetch {
    stats: PipelineStats,
    seen: Vec<String>,
}

/// What `Fetch` holds: the counters so far, and the canonical URLs that it saw.
#[verifier::ext_equal]
pub struct FetchView {
    pub new_deals: int,
    pub updated_deals: int,
    pub skipped: int,
    pub refined: int,
    pub notified: int,
    pub suppressed: int,
    pub seen: Seq<Seq<char>>,
}

impl DeepView for Fetch {
    type V = FetchView;

    closed spec fn deep_view(&self) -> FetchView {
        FetchView {
            new_deals: self.stats.new_deals as int,
            updated_deals: self.stats.updated_deals as int,
            skipped: self.stats.skipped as int,
            refined: self.stats.refined as int,
            notified: self.stats.notified as int,
            suppressed: self.stats.suppressed as int,
            seen: self.seen.deep_view(),
        }
    }
}

/// A fetch that has taken no listing yet.
pub open spec fn fresh_fetch() -> FetchView {
    FetchView {
        new_deals: 0,
        updated_deals: 0,
        skipped: 0,
        refined: 0,
        notified: 0,
        suppressed: 0,
        seen: Seq::empty(),
    }
}

/// The URL that a listing was seen under; none where it was skipped.
pub open spec fn seen_under(raw: RawListingView, report: ListingReport) -> Option<Seq<char>> {
    if report.outcome is Some {
        canonical_of(raw.url)
    } else {
        None
    }
}

/// The fetch with one listing more.
pub open spec fn with_listing(
    fetch: FetchView,
    raw: RawListingView,
    report: ListingReport,
) -> FetchView {
    FetchView {
        new_deals: fetch.new_deals + one_if(report.outcome == Some(UpsertOutcome::New)),
        updated_deals: fetch.updated_deals + one_if(
            report.outcome is Some && report.outcome != Some(UpsertOutcome::New),
        ),
        skipped: fetch.skipped + one_if(report.outcome is None),
        refined: fetch.refined + one_if(report.refined),
        notified: fetch.notified + report.notified,
        suppressed: fetch.suppressed + report.suppressed,
        seen: match seen_under(raw, report) {
            Some(url) => fetch.seen.push(url),
            None => fetch.seen,
        },
    }
}

/// The fetch that took `listings`, each with its report, in order.
pub open spec fn fetched(listings: Seq<(RawListingView, ListingReport)>) -> FetchView
    decreases listings.len(),
{
    if listings.len() == 0 {
        fresh_fetch()
    } else {
        with_listing(fetched(listings.drop_last()), listings.last().0, listings.last().1)
    }
}

/// Whether the counters can take one report more.
pub open spec fn has_room(fetch: FetchView, report: ListingReport) -> bool {
    &&& fetch.new_deals < u64::MAX
    &&& fetch.updated_deals < u64::MAX
    &&& fetch.skipped < u64::MAX
    &&& fetch.refined < u64::MAX
    &&& fetch.notified + report.notified <= u64::MAX
    &&& fetch.suppressed + report.suppressed <= u64::MAX
}

impl Fetch {
    /// A fetch that has taken no listing yet.
    pub fn new() -> (r: Fetch)
        ensures
            r.deep_view() == fresh_fetch(),
    {
        let stats = PipelineStats {
            new_deals: 0,
            updated_deals: 0,
            skipped: 0,
            notified: 0,
            gone: 0,
            refined: 0,
            suppressed: 0,
        };
        let seen: Vec<String> = Vec::new();
        assert(seen.deep_view() =~= Seq::empty());
        Fetch { stats, seen }
    }

    /// Whether the counters can take one report more.
    pub fn room_for(&self, report: ListingReport) -> (r: bool)
        ensures
            r == has_room(self.deep_view(), report),
    {
        let stats = &self.stats;
        stats.new_deals < u64::MAX && stats.updated_deals < u64::MAX && stats.skipped < u64::MAX
            && stats.refined < u64::MAX && report.notified <= u64::MAX - stats.notified
            && report.suppressed <= u64::MAX - stats.suppressed
    }

    /// The fetch with one listing more, once its report is in.
    pub fn take(self, raw: &RawListing, report: ListingReport) -> (r: Fetch)
        requires
            has_room(self.deep_view(), report),
        ensures
            r.deep_view() == with_listing(self.deep_view(), raw.deep_view(), report),
    {
        let stats = self.stats.count(report);
        let mut seen = self.seen;
        if report.outcome.is_some() {
            if let Some(url) = canonical_url(raw.url.as_str()) {
                let ghost before = seen.deep_view();
                seen.push(url);
                assert(seen.deep_view() =~= before.push(url@));
            }
        }
        Fetch { stats, seen }
    }

    /// The counters of the whole fetch, and the deals that went gone: those of the source's
    /// active deals that it did not see. `full` says that the fetch saw all that the source
    /// has; one that did not makes no deal disappear.
    pub fn finish(self, active: &Vec<(u128, String)>, full: bool) -> (r: (PipelineStats, Vec<u128>))
        ensures
            r.0.new_deals == self.deep_view().new_deals,
            r.0.updated_deals == self.deep_view().updated_deals,
            r.0.skipped == self.deep_view().skipped,
            r.0.refined == self.deep_view().refined,
            r.0.notified == self.deep_view().notified,
            r.0.suppressed == self.deep_view().suppressed,
            r.0.gone == r.1@.len(),
            r.1@ == if full {
                unseen(active.deep_view(), self.deep_view().seen)
            } else {
                Seq::empty()
            },
    {
        let gone = mark_gone(active, &self.seen, full);
        let mut stats = self.stats;
        stats.gone = gone.len() as u64;
        (stats, gone)
    }
}

/// Every listing of a fetch is counted once: as a new deal, as a known one, or as skipped.
pub proof fn every_listing_is_counted_once(listings: Seq<(RawListingView, ListingReport)>)
    ensures
        fetched(listings).new_deals + fetched(listings).updated_deals + fetched(listings).skipped
            == listings.len(),
        fetched(listings).new_deals >= 0,
        fetched(listings).updated_deals >= 0,
        fetched(listings).skipped >= 0,
    decreases listings.len(),
{
    if listings.len() > 0 {
        every_listing_is_counted_once(listings.drop_last());
    }
}

/// A fetch saw exactly the canonical URLs of the listings that were not skipped.
pub proof fn a_fetch_sees_what_it_keeps(
    listings: Seq<(RawListingView, ListingReport)>,
    url: Seq<char>,
)
    ensures
        fetched(listings).seen.contains(url) <==> exists|i: int|
            0 <= i < listings.len() && seen_under(
                (#[trigger] listings[i]).0,
                listings[i].1,
            ) == Some(url),
    decreases listings.len(),
{
    let seen = fetched(listings).seen;
    if listings.len() > 0 {
        let rest = listings.drop_last();
        let last = listings.last();
        let n = listings.len() - 1;
        let before = fetched(rest).seen;
        a_fetch_sees_what_it_keeps(rest, url);
        if before.contains(url) {
            let k = choose|k: int| 0 <= k < before.len() && before[k] == url;
            assert(seen[k] == url);
            let i = choose|i: int|
                0 <= i < rest.len() && seen_under((#[trigger] rest[i]).0, rest[i].1) == Some(url);
            assert(listings[i] == rest[i]);
        }
        if seen_under(last.0, last.1) == Some(url) {
            assert(listings[n] == last);
            assert(seen[before.len() as int] == url);
        }
        if seen.contains(url) && !before.contains(url) {
            let k = choose|k: int| 0 <= k < seen.len() && seen[k] == url;
            assert(k >= before.len());
        }
        if exists|i: int|
            0 <= i < listings.len() && seen_under(
                (#[trigger] listings[i]).0,
                listings[i].1,
            ) == Some(url) {
            let i = choose|i: int|
                0 <= i < listings.len() && seen_under(
                    (#[trigger] listings[i]).0,
                    listings[i].1,
                ) == Some(url);
            if i < n {
                assert(rest[i] == listings[i]);
                assert(before.contains(url));
            }
        }
    }
}

/// A deal whose listing a fetch kept does not go gone.
pub proof fn kept_listings_stay(
    listings: Seq<(RawListingView, ListingReport)>,
    active: Seq<(u128, Seq<char>)>,
    i: int,
    k: int,
)
    requires
        0 <= i < listings.len(),
        0 <= k < active.len(),
        forall|j: int, l: int|
            0 <= j < l < active.len() ==> (#[trigger] active[j]).0 != (#[trigger] active[l]).0,
    ensures
        seen_under(listings[i].0, listings[i].1) == Some(active[k].1) ==> !unseen(
            active,
            fetched(listings).seen,
        ).contains(active[k].0),
{
    if seen_under(listings[i].0, listings[i].1) == Some(active[k].1) {
        a_fetch_sees_what_it_keeps(listings, active[k].1);
        crate::pipeline::gone_is_unseen(active, fetched(listings).seen, k);
    }
}

/// A fetch counts its listings by what became of them.
pub proof fn fetches_count_by_outcome(listings: Seq<(RawListingView, ListingReport)>)
    ensures
        fetched(listings).new_deals == listings.filter(
            |l: (RawListingView, ListingReport)| l.1.outcome == Some(UpsertOutcome::New),
        ).len(),
        fetched(listings).updated_deals == listings.filter(
            |l: (RawListingView, ListingReport)|
                l.1.outcome is Some && l.1.outcome != Some(UpsertOutcome::New),
        ).len(),
        fetched(listings).skipped == listings.filter(
            |l: (RawListingView, ListingReport)| l.1.outcome is None,
        ).len(),
        fetched(listings).refined == listings.filter(
            |l: (RawListingView, ListingReport)| l.1.refined,
        ).len(),
    decreases listings.len(),
{
    reveal(Seq::filter);
    if listings.len() > 0 {
        fetches_count_by_outcome(listings.drop_last());
    }
}

/// The pushes and the mutings of a fetch are those of its listings taken together.
pub proof fn fetches_add_up(
    a: Seq<(RawListingView, ListingReport)>,
    raw: RawListingView,
    report: ListingReport,
)
    ensures
        fetched(Seq::empty()) == fresh_fetch(),
        fetched(a.push((raw, report))).notified == fetched(a).notified + report.notified,
        fetched(a.push((raw, report))).suppressed == fetched(a).suppressed + report.suppressed,
        fresh_fetch().notified == 0 && fresh_fetch().suppressed == 0 && fresh_fetch().new_deals == 0
            && fresh_fetch().updated_deals == 0 && fresh_fetch().skipped == 0
            && fresh_fetch().refined == 0 && fresh_fetch().seen.len() == 0,
        seen_under(raw, report) == if report.outcome is Some {
            canonical_of(raw.url)
        } else {
            None
        },
{
    assert(a.push((raw, report)).drop_last() =~= a);
}

/// The URLs seen are those of the listings kept, in order.
pub proof fn urls_are_seen_in_order(
    listings: Seq<(RawListingView, ListingReport)>,
)
    ensures
        fetched(listings).seen.map_values(|l: Seq<char>| Some(l)) == listings.map_values(
            |x: (RawListingView, ListingReport)| seen_under(x.0, x.1),
        ).filter(|l: Option<Seq<char>>| l is Some),
    decreases listings.len(),
{
    reveal(Seq::filter);
    let f = |x: (RawListingView, ListingReport)| seen_under(x.0, x.1);
    let p = |l: Option<Seq<char>>| l is Some;
    let g = |l: Seq<char>| Some(l);
    if listings.len() > 0 {
        let rest = listings.drop_last();
        urls_are_seen_in_order(rest);
        assert(listings.map_values(f).drop_last() =~= rest.map_values(f));
        assert(listings.map_values(f).last() == f(listings.last()));
        if let Some(l) = f(listings.last()) {
            let before = fetched(rest).seen;
            assert(before.push(l).map_values(g) =~= before.map_values(g).push(Some(l)));
        }
    }
    assert(fetched(listings).seen.map_values(g) =~= listings.map_values(f).filter(p));
}

/// There is room for a report exactly where no counter is full and its pushes and mutings
/// can be added; every counter then fits once it was.
pub proof fn room_is_enough(fetch: FetchView, raw: RawListingView, report: ListingReport)
    ensures
        has_room(fetch, report) <==> fetch.new_deals < u64::MAX && fetch.updated_deals < u64::MAX
            && fetch.skipped < u64::MAX && fetch.refined < u64::MAX && fetch.notified
            + report.notified <= u64::MAX && fetch.suppressed + report.suppressed <= u64::MAX,
        has_room(fetch, report) ==> ({
            let after = with_listing(fetch, raw, report);
            &&& after.new_deals <= u64::MAX && after.updated_deals <= u64::MAX
            &&& after.skipped <= u64::MAX && after.refined <= u64::MAX
            &&& after.notified <= u64::MAX && after.suppressed <= u64::MAX
        }),
{
}

} // verus!
