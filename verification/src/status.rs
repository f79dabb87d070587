//! Source liveness: is anything actually scraping, and did a watch match?

use vstd::prelude::*;
use crate::order::{alphabetical, alphabetical_is_total, at_or_before, sort_texts};
use crate::text::{push_text, same};
use crate::time::Timestamp;

verus! {

/// Outcome counters of one scheduler tick.
#[derive(Debug, Clone, Copy, Default, PartialEq, Eq, Structural)]
pub struct TickStats {
    pub fetched: u64,
    pub new_deals: u64,
    pub updated_deals: u64,
    pub skipped: u64,
    pub notified: u64,
    pub gone: u64,
    pub refined: u64,
    /// Matches recorded without a push.
    pub suppressed: u64,
}

/// How one source has been doing.
#[derive(Debug, PartialEq)]
pub struct SourceStatus {
    pub source_id: String,
    pub interval_minutes: u64,
    /// None until the first tick completes.
    pub last_tick: Option<Timestamp>,
    pub last_stats: Option<TickStats>,
    /// Set when the last tick failed (cleared on success).
    pub last_error: Option<String>,
    pub consecutive_failures: u32,
}

/// What `SourceStatus` holds.
#[verifier::ext_equal]
pub struct SourceStatusView {
    pub source_id: Seq<char>,
    pub interval_minutes: u64,
    pub last_tick: Option<Timestamp>,
    pub last_stats: Option<TickStats>,
    pub last_error: Option<Seq<char>>,
    pub consecutive_failures: u32,
}

impl DeepView for SourceStatus {
    type V = SourceStatusView;

    open spec fn deep_view(&self) -> SourceStatusView {
        SourceStatusView {
            source_id: self.source_id@,
            interval_minutes: self.interval_minutes,
            last_tick: self.last_tick,
            last_stats: self.last_stats,
            last_error: self.last_error.deep_view(),
            consecutive_failures: self.consecutive_failures,
        }
    }
}

impl Clone for SourceStatus {
    fn clone(&self) -> (r: Self)
        ensures
            r.deep_view() == self.deep_view(),
    {
        SourceStatus {
            source_id: self.source_id.clone(),
            interval_minutes: self.interval_minutes,
            last_tick: self.last_tick,
            last_stats: self.last_stats,
            last_error: self.last_error.clone(),
            consecutive_failures: self.consecutive_failures,
        }
    }
}

/// The status of a source after a tick at `now`: a success sets the counters and clears
/// the error and the run of failures; a failure sets the error, lengthens the run and
/// keeps the counters of the last success.
pub open spec fn ticked(
    status: SourceStatusView,
    now: Timestamp,
    result: Result<TickStats, Seq<char>>,
) -> SourceStatusView {
    match result {
        Ok(stats) => SourceStatusView {
            last_tick: Some(now),
            last_stats: Some(stats),
            last_error: None,
            consecutive_failures: 0,
            ..status
        },
        Err(error) => SourceStatusView {
            last_tick: Some(now),
            last_error: Some(error),
            consecutive_failures: (status.consecutive_failures + 1) as u32,
            ..status
        },
    }
}

/// What the result of a tick holds.
pub open spec fn tick_result(result: Result<TickStats, String>) -> Result<TickStats, Seq<char>> {
    match result {
        Ok(stats) => Ok(stats),
        Err(error) => Err(error@),
    }
}

impl SourceStatus {
    /// A source that has not ticked yet.
    pub fn idle(source_id: &str, interval_minutes: u64) -> (r: SourceStatus)
        ensures
            r.deep_view() == (SourceStatusView {
                source_id: source_id@,
                interval_minutes,
                last_tick: None,
                last_stats: None,
                last_error: None,
                consecutive_failures: 0,
            }),
    {
        SourceStatus {
            source_id: source_id.to_owned(),
            interval_minutes,
            last_tick: None,
            last_stats: None,
            last_error: None,
            consecutive_failures: 0,
        }
    }

    /// The status after a tick at `now`.
    pub fn record_tick(self, now: Timestamp, result: Result<TickStats, String>) -> (r: SourceStatus)
        requires
            result is Err ==> self.consecutive_failures < u32::MAX,
        ensures
            r.deep_view() == ticked(self.deep_view(), now, tick_result(result)),
    {
        match result {
            Ok(stats) => SourceStatus {
                source_id: self.source_id,
                interval_minutes: self.interval_minutes,
                last_tick: Some(now),
                last_stats: Some(stats),
                last_error: None,
                consecutive_failures: 0,
            },
            Err(error) => SourceStatus {
                source_id: self.source_id,
                interval_minutes: self.interval_minutes,
                last_tick: Some(now),
                last_stats: self.last_stats,
                last_error: Some(error),
                consecutive_failures: self.consecutive_failures + 1,
            },
        }
    }
}

/// Whether the LLM layer (refinement and interpretation) is live, so that a silent
/// heuristic-only setup is visible.
#[derive(Debug, PartialEq, Eq)]
pub struct LlmStatus {
    pub enabled: bool,
    pub model: Option<String>,
    /// Calls under way.
    pub busy: u32,
    /// How many milliseconds recent calls took on average, by the kind of call.
    pub avg_ms: Vec<(String, i64)>,
}

/// What `LlmStatus` holds.
#[verifier::ext_equal]
pub struct LlmStatusView {
    pub enabled: bool,
    pub model: Option<Seq<char>>,
    pub busy: u32,
    pub avg_ms: Seq<(Seq<char>, i64)>,
}

impl DeepView for LlmStatus {
    type V = LlmStatusView;

    open spec fn deep_view(&self) -> LlmStatusView {
        LlmStatusView {
            enabled: self.enabled,
            model: self.model.deep_view(),
            busy: self.busy,
            avg_ms: self.avg_ms.deep_view(),
        }
    }
}

/// Everything the status page shows.
#[derive(Debug, PartialEq)]
pub struct StatusResponse {
    pub sources: Vec<SourceStatus>,
    /// Current match count per watch id.
    pub watch_matches: Vec<(u128, i64)>,
    pub llm: LlmStatus,
}

/// What `StatusResponse` holds.
#[verifier::ext_equal]
pub struct StatusResponseView {
    pub sources: Seq<SourceStatusView>,
    pub watch_matches: Seq<(u128, i64)>,
    pub llm: LlmStatusView,
}

impl DeepView for StatusResponse {
    type V = StatusResponseView;

    open spec fn deep_view(&self) -> StatusResponseView {
        StatusResponseView {
            sources: self.sources.deep_view(),
            watch_matches: self.watch_matches@,
            llm: self.llm.deep_view(),
        }
    }
}

/// The ids of sources.
pub open spec fn source_ids(sources: Seq<SourceStatusView>) -> Seq<Seq<char>> {
    Seq::new(sources.len(), |i: int| sources[i].source_id)
}

/// The first source with an id.
pub open spec fn source_with(sources: Seq<SourceStatusView>, id: Seq<char>) -> Option<
    SourceStatusView,
>
    decreases sources.len(),
{
    if sources.len() == 0 {
        None
    } else if sources[0].source_id == id {
        Some(sources[0])
    } else {
        source_with(sources.drop_first(), id)
    }
}

/// The sources in the alphabetical order of their ids.
pub open spec fn in_id_order(sources: Seq<SourceStatusView>) -> Seq<SourceStatusView> {
    let ids = source_ids(sources).sort_by(alphabetical());
    Seq::new(ids.len(), |i: int| source_with(sources, ids[i])->0)
}

/// The first source with an id that one has.
fn find_source(sources: &Vec<SourceStatus>, id: &str) -> (r: SourceStatus)
    requires
        source_ids(sources.deep_view()).contains(id@),
    ensures
        source_with(sources.deep_view(), id@) == Some(r.deep_view()),
{
    let ghost all = sources.deep_view();
    let mut i: usize = 0;
    assert(all.skip(0) =~= all);
    while i < sources.len()
        invariant
            i <= sources@.len(),
            all == sources.deep_view(),
            source_with(all, id@) == source_with(all.skip(i as int), id@),
            source_ids(all).contains(id@),
            forall|j: int| 0 <= j < i ==> (#[trigger] all[j]).source_id != id@,
        decreases sources@.len() - i,
    {
        assert(all.skip(i as int)[0] == sources@[i as int].deep_view());
        assert(all[i as int] == sources@[i as int].deep_view());
        assert(all.skip(i as int).drop_first() =~= all.skip(i + 1));
        if same(sources[i].source_id.as_str(), id) {
            return sources[i].clone();
        }
        i = i + 1;
    }
    proof {
        let ids = source_ids(all);
        let j = choose|j: int| 0 <= j < ids.len() && ids[j] == id@;
        assert(all[j].source_id == id@);
    }
    SourceStatus::idle(id, 0)
}

/// The sources in the alphabetical order of their ids.
pub fn sort_sources(sources: &Vec<SourceStatus>) -> (r: Vec<SourceStatus>)
    ensures
        r.deep_view() == in_id_order(sources.deep_view()),
{
    let ghost all = sources.deep_view();
    let mut ids: Vec<String> = Vec::new();
    let mut i: usize = 0;
    assert(ids.deep_view() =~= source_ids(all).take(0));
    while i < sources.len()
        invariant
            i <= sources@.len(),
            all == sources.deep_view(),
            ids.deep_view() == source_ids(all).take(i as int),
        decreases sources@.len() - i,
    {
        assert(all[i as int] == sources@[i as int].deep_view());
        push_text(&mut ids, sources[i].source_id.as_str());
        i = i + 1;
        assert(ids.deep_view() =~= source_ids(all).take(i as int));
    }
    assert(source_ids(all).take(all.len() as int) =~= source_ids(all));
    let ids = sort_texts(&ids);
    let ghost sorted = source_ids(all).sort_by(alphabetical());
    let ghost wanted = in_id_order(all);
    proof {
        alphabetical_is_total();
        source_ids(all).lemma_sort_by_ensures(alphabetical());
    }
    let mut out: Vec<SourceStatus> = Vec::new();
    let mut i: usize = 0;
    assert(out.deep_view() =~= wanted.take(0));
    while i < ids.len()
        invariant
            i <= ids@.len(),
            all == sources.deep_view(),
            sorted == ids.deep_view(),
            sorted == source_ids(all).sort_by(alphabetical()),
            wanted == in_id_order(all),
            forall|x: Seq<char>|
                !source_ids(all).contains(x) ==> !(#[trigger] sorted.contains(x)),
            out.deep_view() == wanted.take(i as int),
        decreases ids@.len() - i,
    {
        let ghost before = out.deep_view();
        assert(sorted[i as int] == ids@[i as int]@);
        assert(sorted.contains(sorted[i as int]));
        let source = find_source(sources, ids[i].as_str());
        out.push(source);
        assert(out.deep_view() =~= before.push(source.deep_view()));
        i = i + 1;
        assert(out.deep_view() =~= wanted.take(i as int));
    }
    assert(wanted.take(wanted.len() as int) =~= wanted);
    out
}

/// The body of the health probe.
#[derive(Debug, PartialEq, Eq)]
pub struct HealthResponse {
    pub status: String,
    pub version: String,
    /// The commit that the server was built from.
    pub commit: Option<String>,
}

/// What `HealthResponse` holds.
#[verifier::ext_equal]
pub struct HealthResponseView {
    pub status: Seq<char>,
    pub version: Seq<char>,
    pub commit: Option<Seq<char>>,
}

impl DeepView for HealthResponse {
    type V = HealthResponseView;

    open spec fn deep_view(&self) -> HealthResponseView {
        HealthResponseView {
            status: self.status@,
            version: self.version@,
            commit: self.commit.deep_view(),
        }
    }
}

/// The answer of a server that is up.
pub fn health(version: &str, commit: &str) -> (r: HealthResponse)
    ensures
        r.deep_view() == (HealthResponseView {
            status: "ok"@,
            version: version@,
            commit: Some(commit@),
        }),
{
    HealthResponse {
        status: "ok".to_owned(),
        version: version.to_owned(),
        commit: Some(commit.to_owned()),
    }
}

/// Progress of one source in an ad-hoc search.
#[derive(Debug, PartialEq)]
pub enum SourceProgress {
    Pending,
    Done { listings: u64 },
    Error { message: String },
}

/// What `SourceProgress` holds.
#[verifier::ext_equal]
pub enum SourceProgressView {
    Pending,
    Done { listings: u64 },
    Error { message: Seq<char> },
}

impl DeepView for SourceProgress {
    type V = SourceProgressView;

    open spec fn deep_view(&self) -> SourceProgressView {
        match self {
            SourceProgress::Pending => SourceProgressView::Pending,
            SourceProgress::Done { listings } => SourceProgressView::Done { listings: *listings },
            SourceProgress::Error { message } => SourceProgressView::Error { message: message@ },
        }
    }
}

impl Clone for SourceProgress {
    fn clone(&self) -> (r: Self)
        ensures
            r.deep_view() == self.deep_view(),
    {
        match self {
            SourceProgress::Pending => SourceProgress::Pending,
            SourceProgress::Done { listings } => SourceProgress::Done { listings: *listings },
            SourceProgress::Error { message } => SourceProgress::Error { message: message.clone() },
        }
    }
}

/// The last success stays shown through failures, and the error only after one.
pub proof fn ticks_keep_the_last_success(
    status: SourceStatusView,
    now: Timestamp,
    result: Result<TickStats, Seq<char>>,
)
    requires
        status.consecutive_failures < u32::MAX,
    ensures
        ticked(status, now, result).last_tick == Some(now),
        ticked(status, now, result).last_error is Some <==> result is Err,
        ticked(status, now, result).consecutive_failures > 0 <==> result is Err,
        result is Err ==> ticked(status, now, result).last_stats == status.last_stats,
{
}

/// What a tick leaves of a source's status: a success its counters and no failure, a
/// failure its error and one more in the run.
pub proof fn ticks_are_told(status: SourceStatusView, now: Timestamp, stats: TickStats, error: Seq<
    char,
>)
    requires
        status.consecutive_failures < u32::MAX,
    ensures
        ticked(status, now, Ok(stats)) == (SourceStatusView {
            source_id: status.source_id,
            interval_minutes: status.interval_minutes,
            last_tick: Some(now),
            last_stats: Some(stats),
            last_error: None,
            consecutive_failures: 0,
        }),
        ticked(status, now, Err(error)).source_id == status.source_id,
        ticked(status, now, Err(error)).interval_minutes == status.interval_minutes,
        ticked(status, now, Err(error)).last_tick == Some(now),
        ticked(status, now, Err(error)).last_stats == status.last_stats,
        ticked(status, now, Err(error)).last_error == Some(error),
        ticked(status, now, Err(error)).consecutive_failures == status.consecutive_failures + 1,
{
}

proof fn source_is_found(sources: Seq<SourceStatusView>, k: int)
    requires
        0 <= k < sources.len(),
        forall|a: int, b: int|
            0 <= a < b < sources.len() ==> (#[trigger] sources[a]).source_id != (
            #[trigger] sources[b]).source_id,
    ensures
        source_with(sources, sources[k].source_id) == Some(sources[k]),
    decreases sources.len(),
{
    if k > 0 {
        let rest = sources.drop_first();
        assert(sources[0].source_id != sources[k].source_id);
        assert forall|a: int, b: int| 0 <= a < b < rest.len() implies (#[trigger] rest[a]).source_id
            != (#[trigger] rest[b]).source_id by {
            assert(rest[a] == sources[a + 1] && rest[b] == sources[b + 1]);
        }
        source_is_found(rest, k - 1);
        assert(rest[k - 1] == sources[k]);
    }
}

/// Where no two sources share an id, each is shown as it is, in the alphabetical order of
/// the ids, and no other is.
pub proof fn every_source_is_shown(sources: Seq<SourceStatusView>, i: int)
    requires
        forall|a: int, b: int|
            0 <= a < b < sources.len() ==> (#[trigger] sources[a]).source_id != (
            #[trigger] sources[b]).source_id,
        0 <= i < sources.len(),
    ensures
        in_id_order(sources).len() == sources.len(),
        in_id_order(sources).contains(sources[i]),
        sources.contains(in_id_order(sources)[i]),
        forall|j: int|
            0 <= j < i ==> at_or_before(
                (#[trigger] in_id_order(sources)[j]).source_id,
                in_id_order(sources)[i].source_id,
            ),
{
    let ids = source_ids(sources);
    let sorted = ids.sort_by(alphabetical());
    alphabetical_is_total();
    ids.lemma_sort_by_ensures(alphabetical());
    ids.to_multiset_ensures();
    sorted.to_multiset_ensures();
    let shown = in_id_order(sources);
    assert forall|j: int| 0 <= j < shown.len() implies sources.contains(#[trigger] shown[j])
        && shown[j].source_id == sorted[j] by {
        assert(sorted.contains(sorted[j]));
        assert(ids.to_multiset().count(sorted[j]) > 0);
        assert(ids.contains(sorted[j]));
        let k = choose|k: int| 0 <= k < ids.len() && ids[k] == sorted[j];
        source_is_found(sources, k);
        assert(shown[j] == sources[k]);
    }
    assert(ids[i] == sources[i].source_id);
    assert(ids.contains(ids[i]));
    assert(sorted.to_multiset().count(ids[i]) > 0);
    assert(sorted.contains(ids[i]));
    let k = choose|k: int| 0 <= k < sorted.len() && sorted[k] == ids[i];
    source_is_found(sources, i);
    assert(shown[k] == sources[i]);
    assert forall|j: int| 0 <= j < i implies at_or_before(
        (#[trigger] shown[j]).source_id,
        shown[i].source_id,
    ) by {
        assert(alphabetical()(sorted[j], sorted[i]));
        assert(sources.contains(shown[i]));
    }
}

} // verus!
