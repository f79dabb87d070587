//! Ad-hoc searches for guided watch creation: the drafted queries go once to the sources
//! that take queries, and the progress of each source is reported. These are partial
//! fetches: they never make a deal go gone.

use vstd::prelude::*;
use crate::config::{
    Config, ConfigView, EbayConfig, EbayConfigView, LeboncoinConfig, LeboncoinConfigView,
    ScrapeConfig, SourceConfig, SourceConfigView,
};
use crate::family::ProductFamily;
use crate::status::{SourceProgress, SourceProgressView};
use crate::table::{keys_differ, lookup, put, put_then_lookup, with_entry};
use crate::text::{contains, occurs};

verus! {

/// What is needed to build one-shot sources for a list of queries, and to run what they
/// find through the pipeline.
#[derive(Debug, PartialEq)]
pub struct SearchContext {
    pub config: Config,
    pub families: Vec<ProductFamily>,
    pub scrape: ScrapeConfig,
}

/// A source set up for one search.
#[derive(Debug, PartialEq)]
pub enum OneShot {
    Leboncoin(LeboncoinConfig),
    Ebay(EbayConfig),
    Generic(SourceConfig),
}

/// What `OneShot` holds.
#[verifier::ext_equal]
pub enum OneShotView {
    Leboncoin(LeboncoinConfigView),
    Ebay(EbayConfigView),
    Generic(SourceConfigView),
}

impl DeepView for OneShot {
    type V = OneShotView;

    open spec fn deep_view(&self) -> OneShotView {
        match self {
            OneShot::Leboncoin(c) => OneShotView::Leboncoin(c.deep_view()),
            OneShot::Ebay(c) => OneShotView::Ebay(c.deep_view()),
            OneShot::Generic(c) => OneShotView::Generic(c.deep_view()),
        }
    }
}

impl OneShot {
    /// The id of the source.
    pub fn id(&self) -> (r: &str)
        ensures
            r@ == match self.deep_view() {
                OneShotView::Leboncoin(_) => crate::scrape::leboncoin::SOURCE_ID@,
                OneShotView::Ebay(_) => crate::scrape::ebay::SOURCE_ID@,
                OneShotView::Generic(c) => c.id,
            },
    {
        match self {
            OneShot::Leboncoin(_) => crate::scrape::leboncoin::SOURCE_ID,
            OneShot::Ebay(_) => crate::scrape::ebay::SOURCE_ID,
            OneShot::Generic(c) => c.id.as_str(),
        }
    }
}

/// The declarative sources that take a query, each for one page of the given queries.
pub open spec fn generic_shots(sources: Seq<SourceConfigView>, queries: Seq<Seq<char>>) -> Seq<
    OneShotView,
>
    decreases sources.len(),
{
    if sources.len() == 0 {
        Seq::empty()
    } else {
        let before = generic_shots(sources.drop_last(), queries);
        if occurs(sources.last().url, "{query}"@) {
            before.push(
                OneShotView::Generic(
                    SourceConfigView { queries, max_pages: 1, ..sources.last() },
                ),
            )
        } else {
            before
        }
    }
}

/// The sources of an ad-hoc search: those that are enabled and take a query, with exactly
/// the given queries and a single page each.
pub open spec fn shots(config: ConfigView, queries: Seq<Seq<char>>) -> Seq<OneShotView> {
    (if config.leboncoin.enabled {
        seq![
            OneShotView::Leboncoin(
                LeboncoinConfigView { queries, pages_per_query: 1, ..config.leboncoin },
            ),
        ]
    } else {
        Seq::empty()
    }) + (if config.ebay.enabled {
        seq![OneShotView::Ebay(EbayConfigView { queries, ..config.ebay })]
    } else {
        Seq::empty()
    }) + generic_shots(config.sources, queries)
}

fn copy_queries(queries: &Vec<String>) -> (r: Vec<String>)
    ensures
        r.deep_view() == queries.deep_view(),
{
    let r = queries.clone();
    assert(r.deep_view() =~= queries.deep_view());
    r
}

/// The sources of an ad-hoc search: a taste, the scheduled rotation does the deep passes.
pub fn one_shot_sources(context: &SearchContext, queries: &Vec<String>) -> (r: Vec<OneShot>)
    ensures
        r.deep_view() == shots(context.config.deep_view(), queries.deep_view()),
{
    let config = &context.config;
    let mut out: Vec<OneShot> = Vec::new();
    if config.leboncoin.enabled {
        let mut c = config.leboncoin.clone();
        c.queries = copy_queries(queries);
        c.pages_per_query = 1;
        out.push(OneShot::Leboncoin(c));
    }
    if config.ebay.enabled {
        let mut c = config.ebay.clone();
        c.queries = copy_queries(queries);
        out.push(OneShot::Ebay(c));
    }
    let ghost head = out.deep_view();
    let ghost q = queries.deep_view();
    assert(head =~= (if config.leboncoin.enabled {
        seq![
            OneShotView::Leboncoin(
                LeboncoinConfigView {
                    queries: q,
                    pages_per_query: 1,
                    ..config.leboncoin.deep_view()
                },
            ),
        ]
    } else {
        Seq::empty()
    }) + (if config.ebay.enabled {
        seq![OneShotView::Ebay(EbayConfigView { queries: q, ..config.ebay.deep_view() })]
    } else {
        Seq::empty()
    }));
    let ghost all = config.sources.deep_view();
    let mut i: usize = 0;
    assert(out.deep_view() =~= head + generic_shots(all.take(0), q));
    while i < config.sources.len()
        invariant
            i <= config.sources@.len(),
            all == config.sources.deep_view(),
            q == queries.deep_view(),
            out.deep_view() == head + generic_shots(all.take(i as int), q),
        decreases config.sources@.len() - i,
    {
        let ghost before = out.deep_view();
        assert(all.take(i + 1).drop_last() =~= all.take(i as int));
        assert(all.take(i + 1).last() == config.sources@[i as int].deep_view());
        if contains(config.sources[i].url.as_str(), "{query}") {
            let mut c = config.sources[i].clone();
            c.queries = copy_queries(queries);
            c.max_pages = 1;
            let shot = OneShot::Generic(c);
            out.push(shot);
            assert(out.deep_view() =~= before.push(shot.deep_view()));
            assert(out.deep_view() =~= head + generic_shots(all.take(i + 1), q));
        }
        i = i + 1;
    }
    assert(all.take(all.len() as int) =~= all);
    out
}

/// An ad-hoc search under way: the progress of each source, by id.
#[derive(Debug, PartialEq)]
pub struct SearchJob {
    pub id: u128,
    pub sources: Vec<(String, SourceProgress)>,
    pub done: bool,
}

/// What `SearchJob` holds.
#[verifier::ext_equal]
pub struct SearchJobView {
    pub id: u128,
    pub sources: Seq<(Seq<char>, SourceProgressView)>,
    pub done: bool,
}

impl DeepView for SearchJob {
    type V = SearchJobView;

    open spec fn deep_view(&self) -> SearchJobView {
        SearchJobView { id: self.id, sources: self.sources.deep_view(), done: self.done }
    }
}

/// Every source pending, each id once.
pub open spec fn all_pending(ids: Seq<Seq<char>>) -> Seq<(Seq<char>, SourceProgressView)>
    decreases ids.len(),
{
    if ids.len() == 0 {
        Seq::empty()
    } else {
        put(all_pending(ids.drop_last()), ids.last(), SourceProgressView::Pending)
    }
}

impl SearchJobView {
    /// Whether each source stands once.
    pub open spec fn wf(self) -> bool {
        keys_differ(self.sources)
    }
}

impl SearchJob {
    /// A search of the sources with these ids: all pending, and done at once where there
    /// is none.
    pub fn new(id: u128, ids: &Vec<String>) -> (r: SearchJob)
        ensures
            r.deep_view() == (SearchJobView {
                id,
                sources: all_pending(ids.deep_view()),
                done: ids@.len() == 0,
            }),
            r.deep_view().wf(),
    {
        let ghost all = ids.deep_view();
        let mut sources: Vec<(String, SourceProgress)> = Vec::new();
        let mut i: usize = 0;
        assert(sources.deep_view() =~= Seq::empty());
        while i < ids.len()
            invariant
                i <= ids@.len(),
                all == ids.deep_view(),
                sources.deep_view() == all_pending(all.take(i as int)),
                keys_differ(sources.deep_view()),
            decreases ids@.len() - i,
        {
            proof {
                put_then_lookup(
                    sources.deep_view(),
                    ids@[i as int]@,
                    SourceProgressView::Pending,
                    ids@[i as int]@,
                );
            }
            sources = with_entry(sources, ids[i].as_str(), SourceProgress::Pending);
            assert(all.take(i + 1).drop_last() =~= all.take(i as int));
            assert(all.take(i + 1).last() == ids@[i as int]@);
            i = i + 1;
        }
        assert(all.take(all.len() as int) =~= all);
        SearchJob { id, sources, done: ids.len() == 0 }
    }

    /// The search with the progress of one source.
    pub fn report(self, source_id: &str, progress: SourceProgress) -> (r: SearchJob)
        requires
            self.deep_view().wf(),
        ensures
            r.deep_view() == (SearchJobView {
                sources: put(self.deep_view().sources, source_id@, progress.deep_view()),
                ..self.deep_view()
            }),
            r.deep_view().wf(),
    {
        proof {
            put_then_lookup(
                self.sources.deep_view(),
                source_id@,
                progress.deep_view(),
                source_id@,
            );
        }
        SearchJob {
            id: self.id,
            sources: with_entry(self.sources, source_id, progress),
            done: self.done,
        }
    }

    /// The search once every source has reported.
    pub fn finish(self) -> (r: SearchJob)
        ensures
            r.deep_view() == (SearchJobView { done: true, ..self.deep_view() }),
    {
        SearchJob { id: self.id, sources: self.sources, done: true }
    }
}

/// The progress of a source whose fetch, and the processing of what it found, came to an
/// end.
pub fn progress_of(found: Result<u64, String>) -> (r: SourceProgress)
    ensures
        r.deep_view() == match found {
            Ok(listings) => SourceProgressView::Done { listings },
            Err(message) => SourceProgressView::Error { message: message@ },
        },
{
    match found {
        Ok(listings) => SourceProgress::Done { listings },
        Err(message) => SourceProgress::Error { message },
    }
}

/// What a source reports is what the search shows for it, and the other sources keep what
/// they showed.
pub proof fn reports_are_shown(
    job: SearchJobView,
    source_id: Seq<char>,
    progress: SourceProgressView,
    other: Seq<char>,
)
    ensures
        lookup(put(job.sources, source_id, progress), source_id) == Some(progress),
        other != source_id ==> lookup(put(job.sources, source_id, progress), other) == lookup(
            job.sources,
            other,
        ),
{
    put_then_lookup(job.sources, source_id, progress, source_id);
    put_then_lookup(job.sources, source_id, progress, other);
}

/// With nothing enabled and no source that takes a query, a search goes nowhere.
pub proof fn nothing_enabled_searches_nothing(config: ConfigView, queries: Seq<Seq<char>>)
    requires
        !config.leboncoin.enabled,
        !config.ebay.enabled,
        config.sources.len() == 0,
    ensures
        shots(config, queries) == Seq::<OneShotView>::empty(),
{
}

/// The declarative sources searched are those whose URL takes a query, in order, each with
/// the queries given and a single page, and else as it is configured.
pub proof fn sources_that_take_a_query_are_searched(
    sources: Seq<SourceConfigView>,
    queries: Seq<Seq<char>>,
)
    ensures
        generic_shots(sources, queries) == sources.filter(
            |s: SourceConfigView| occurs(s.url, "{query}"@),
        ).map_values(
            |s: SourceConfigView|
                OneShotView::Generic(SourceConfigView { queries, max_pages: 1, ..s }),
        ),
    decreases sources.len(),
{
    reveal(Seq::filter);
    let p = |s: SourceConfigView| occurs(s.url, "{query}"@);
    let f = |s: SourceConfigView|
        OneShotView::Generic(SourceConfigView { queries, max_pages: 1, ..s });
    if sources.len() > 0 {
        let rest = sources.drop_last();
        sources_that_take_a_query_are_searched(rest, queries);
        if p(sources.last()) {
            assert(rest.filter(p).push(sources.last()).map_values(f) =~= rest.filter(p).map_values(
                f,
            ).push(f(sources.last())));
        }
    }
    assert(generic_shots(sources, queries) =~= sources.filter(p).map_values(f));
}

/// A search goes to Leboncoin and eBay exactly where they are enabled, with the queries
/// given and, of Leboncoin, a single page of each; then to the declarative sources.
pub proof fn enabled_sources_are_searched(config: ConfigView, queries: Seq<Seq<char>>)
    ensures
        shots(config, queries).len() == (if config.leboncoin.enabled {
            1int
        } else {
            0
        }) + (if config.ebay.enabled {
            1int
        } else {
            0
        }) + generic_shots(config.sources, queries).len(),
        generic_shots(config.sources, queries).is_suffix_of(shots(config, queries)),
        config.leboncoin.enabled ==> shots(config, queries)[0] == OneShotView::Leboncoin(
            LeboncoinConfigView {
                enabled: true,
                queries,
                pages_per_query: 1,
                delay_ms: config.leboncoin.delay_ms,
                interval_minutes: config.leboncoin.interval_minutes,
            },
        ),
        config.ebay.enabled ==> shots(config, queries)[if config.leboncoin.enabled {
            1int
        } else {
            0
        }] == OneShotView::Ebay(
            EbayConfigView {
                enabled: true,
                queries,
                delay_ms: config.ebay.delay_ms,
                interval_minutes: config.ebay.interval_minutes,
                fetch_command: config.ebay.fetch_command,
            },
        ),
{
    let all = shots(config, queries);
    let tail = generic_shots(config.sources, queries);
    assert(all.subrange(all.len() - tail.len(), all.len() as int) =~= tail);
}

/// Every source of a search is pending at its start, each id once, and nothing else is
/// shown.
pub proof fn every_source_is_pending(ids: Seq<Seq<char>>, id: Seq<char>)
    ensures
        lookup(all_pending(ids), id) == if ids.contains(id) {
            Some(SourceProgressView::Pending)
        } else {
            None
        },
        keys_differ(all_pending(ids)),
    decreases ids.len(),
{
    if ids.len() > 0 {
        let rest = ids.drop_last();
        every_source_is_pending(rest, id);
        put_then_lookup(all_pending(rest), ids.last(), SourceProgressView::Pending, id);
        if rest.contains(id) {
            let k = choose|k: int| 0 <= k < rest.len() && rest[k] == id;
            assert(ids[k] == id);
        }
        if ids.contains(id) && id != ids.last() {
            let k = choose|k: int| 0 <= k < ids.len() && ids[k] == id;
            assert(rest[k] == id);
        }
        if id == ids.last() {
            assert(ids[ids.len() - 1] == id);
        }
    }
}

} // verus!
