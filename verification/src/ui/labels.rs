//! The status strip and the about page: is anything scraping, how did each source fare,
//! and is the LLM there.

use vstd::prelude::*;
use crate::status::{
    HealthResponse, HealthResponseView, LlmStatus, LlmStatusView, SourceStatus, SourceStatusView,
};
use crate::table::{find, lookup};
use crate::text::{digit, digit_char, nat_text, u64_text};
use crate::time::Timestamp;

verus! {

/// How long a call of a kind takes on average.
pub fn llm_avg_ms(llm: &LlmStatus, kind: &str) -> (r: Option<i64>)
    ensures
        r == lookup(llm.deep_view().avg_ms, kind@),
{
    match find(&llm.avg_ms, kind) {
        Some(ms) => Some(*ms),
        None => None,
    }
}

/// The seconds that a call has taken, a second later: none once it is over.
pub fn elapsed_after(elapsed: u32, busy: bool) -> (r: u32)
    requires
        busy ==> elapsed < u32::MAX,
    ensures
        r == if busy {
            elapsed + 1
        } else {
            0
        },
{
    if busy {
        elapsed + 1
    } else {
        0
    }
}

/// Milliseconds in seconds, rounded.
pub open spec fn whole_seconds(ms: int) -> int {
    (ms + 500) / 1000
}

/// How a call that is under way is shown: how long it has taken, and how long such calls
/// take on average.
pub open spec fn progress_label(base: Seq<char>, elapsed: u32, avg_ms: Option<i64>) -> Seq<char> {
    let so_far = base + "… "@ + nat_text(elapsed as nat) + "s"@;
    match avg_ms {
        Some(ms) => if ms > 0 {
            so_far + " / ~"@ + nat_text(whole_seconds(ms as int) as nat) + "s"@
        } else {
            so_far
        },
        None => so_far,
    }
}

/// How a call that is under way is shown.
pub fn llm_progress_label(base: &str, elapsed: u32, avg_ms: Option<i64>) -> (r: String)
    ensures
        r@ == progress_label(base@, elapsed, avg_ms),
{
    let mut out = base.to_owned();
    out.append("… ");
    out.append(u64_text(elapsed as u64).as_str());
    out.append("s");
    if let Some(ms) = avg_ms {
        if ms > 0 {
            let up: i64 = if ms % 1000 >= 500 {
                1
            } else {
                0
            };
            let secs: u64 = (ms / 1000 + up) as u64;
            assert(secs == whole_seconds(ms as int));
            out.append(" / ~");
            out.append(u64_text(secs).as_str());
            out.append("s");
        }
    }
    out
}

/// Whole seconds from one instant to a later one.
pub open spec fn seconds_between(from: Timestamp, to: Timestamp) -> int {
    to.seconds - from.seconds - if to.nanos < from.nanos {
        1int
    } else {
        0int
    }
}

/// How long ago a source ticked, as the strip says it.
pub open spec fn ago_text(last: Option<Timestamp>, now: Timestamp) -> Seq<char> {
    match last {
        None => "waiting for first pass"@,
        Some(t) => {
            let secs = seconds_between(t, now);
            let mins = (secs / 60) as nat;
            if secs < 60 {
                "just now"@
            } else if mins < 60 {
                nat_text(mins) + " min ago"@
            } else {
                nat_text(mins / 60) + seq!['h', digit(mins % 60 / 10), digit(mins % 10)] + " ago"@
            }
        },
    }
}

/// How long ago a source ticked.
pub fn ago(last: Option<Timestamp>, now: Timestamp) -> (r: String)
    ensures
        r@ == ago_text(last, now),
{
    let t = match last {
        None => {
            return "waiting for first pass".to_owned();
        },
        Some(t) => t,
    };
    let borrow: i128 = if now.nanos < t.nanos {
        1
    } else {
        0
    };
    let secs: i128 = now.seconds as i128 - t.seconds as i128 - borrow;
    if secs < 60 {
        return "just now".to_owned();
    }
    let mins: u64 = (secs / 60) as u64;
    if mins < 60 {
        let mut out = u64_text(mins);
        out.append(" min ago");
        return out;
    }
    let mut out = u64_text(mins / 60);
    let ghost hours = out@;
    out.push('h');
    out.push(digit_char((mins % 60 / 10) as u8));
    out.push(digit_char((mins % 10) as u8));
    assert(out@ =~= hours + seq!['h', digit((mins % 60 / 10) as nat), digit((mins % 10) as nat)]);
    out.append(" ago");
    out
}

/// What the strip says of a source, and whether it fails.
pub open spec fn source_label(source: SourceStatusView, now: Timestamp) -> Seq<char> {
    let when = ago_text(source.last_tick, now);
    match (source.last_error, source.last_stats) {
        (Some(_), _) => source.source_id + " ✗ failing, "@ + when,
        (None, Some(stats)) => source.source_id + " ✓ "@ + nat_text(stats.fetched as nat)
            + " listings, "@ + when,
        (None, None) => source.source_id + " · every "@ + nat_text(source.interval_minutes as nat)
            + " min, "@ + when,
    }
}

/// What the strip says of a source, and whether it fails.
pub fn source_chip(source: &SourceStatus, now: Timestamp) -> (r: (String, bool))
    ensures
        r.0@ == source_label(source.deep_view(), now),
        r.1 == (source.deep_view().last_error is Some),
{
    let when = ago(source.last_tick, now);
    let mut out = source.source_id.clone();
    if source.last_error.is_some() {
        out.append(" ✗ failing, ");
        out.append(when.as_str());
        return (out, true);
    }
    match source.last_stats {
        Some(stats) => {
            out.append(" ✓ ");
            out.append(u64_text(stats.fetched).as_str());
            out.append(" listings, ");
        },
        None => {
            out.append(" · every ");
            out.append(u64_text(source.interval_minutes).as_str());
            out.append(" min, ");
        },
    }
    out.append(when.as_str());
    (out, false)
}

/// What the strip says of the LLM, and how that looks.
pub open spec fn llm_label(llm: LlmStatusView) -> (Seq<char>, Seq<char>) {
    if llm.enabled && llm.busy > 0 {
        (
            "LLM ⋯ working ("@ + nat_text(llm.busy as nat) + " call"@ + (if llm.busy == 1 {
                ""@
            } else {
                "s"@
            }) + ")"@,
            "warn"@,
        )
    } else if llm.enabled {
        (
            "LLM ✓ "@ + (match llm.model {
                Some(m) => m,
                None => ""@,
            }),
            "ok"@,
        )
    } else {
        ("LLM off"@, "muted"@)
    }
}

/// What the strip says of the LLM, and how that looks.
pub fn llm_chip(llm: &LlmStatus) -> (r: (String, &'static str))
    ensures
        (r.0@, r.1@) == llm_label(llm.deep_view()),
{
    if llm.enabled && llm.busy > 0 {
        let mut out = "LLM ⋯ working (".to_owned();
        out.append(u64_text(llm.busy as u64).as_str());
        out.append(" call");
        if llm.busy == 1 {
            out.append("");
        } else {
            out.append("s");
        }
        out.append(")");
        (out, "warn")
    } else if llm.enabled {
        let mut out = "LLM ✓ ".to_owned();
        match &llm.model {
            Some(m) => {
                out.append(m.as_str());
            },
            None => {
                out.append("");
            },
        }
        (out, "ok")
    } else {
        ("LLM off".to_owned(), "muted")
    }
}

/// What the about page says of the server.
pub open spec fn server_line(
    health: Option<Result<HealthResponseView, Seq<char>>>,
    url: Seq<char>,
) -> Seq<char> {
    match health {
        None => "checking…"@,
        Some(Ok(h)) => h.version + " ("@ + (match h.commit {
            Some(c) => c,
            None => "unknown"@,
        }) + ") at "@ + url,
        Some(Err(e)) => "unreachable ("@ + e + ")"@,
    }
}

/// What a probe of the server holds.
pub open spec fn health_view(health: Option<Result<HealthResponse, String>>) -> Option<
    Result<HealthResponseView, Seq<char>>,
> {
    match health {
        None => None,
        Some(Ok(h)) => Some(Ok(h.deep_view())),
        Some(Err(e)) => Some(Err(e@)),
    }
}

/// What the about page says of the server.
pub fn about_server(health: Option<Result<HealthResponse, String>>, url: &str) -> (r: String)
    ensures
        r@ == server_line(health_view(health), url@),
{
    match health {
        None => "checking…".to_owned(),
        Some(Ok(h)) => {
            let mut out = h.version;
            out.append(" (");
            match &h.commit {
                Some(c) => {
                    out.append(c.as_str());
                },
                None => {
                    out.append("unknown");
                },
            }
            out.append(") at ");
            out.append(url);
            out
        },
        Some(Err(e)) => {
            let mut out = "unreachable (".to_owned();
            out.append(e.as_str());
            out.append(")");
            out
        },
    }
}

/// What the about page says of the LLM.
pub fn about_llm(llm: Option<&LlmStatus>) -> (r: String)
    ensures
        r@ == match llm {
            None => "…"@,
            Some(s) => if s.deep_view().enabled {
                "enabled — "@ + (match s.deep_view().model {
                    Some(m) => m,
                    None => ""@,
                })
            } else {
                "disabled (heuristics only)"@
            },
        },
{
    match llm {
        None => "…".to_owned(),
        Some(s) => {
            if s.enabled {
                let mut out = "enabled — ".to_owned();
                match &s.model {
                    Some(m) => {
                        out.append(m.as_str());
                    },
                    None => {
                        out.append("");
                    },
                }
                out
            } else {
                "disabled (heuristics only)".to_owned()
            }
        },
    }
}

/// Milliseconds are shown to the nearest second.
pub proof fn seconds_are_rounded(ms: int)
    requires
        ms >= 0,
    ensures
        1000 * whole_seconds(ms) - 500 <= ms < 1000 * whole_seconds(ms) + 500,
{
}

/// A call under way shows how long it has taken, and how long such calls take where that
/// is known.
pub proof fn progress_is_shown(base: Seq<char>, elapsed: u32, ms: i64)
    ensures
        progress_label(base, elapsed, None) == base + "… "@ + nat_text(elapsed as nat) + "s"@,
        ms <= 0 ==> progress_label(base, elapsed, Some(ms)) == progress_label(base, elapsed, None),
        ms > 0 ==> progress_label(base, elapsed, Some(ms)) == progress_label(base, elapsed, None)
            + " / ~"@ + nat_text(((ms + 500) / 1000) as nat) + "s"@,
{
}

/// The seconds between two instants are whole ones that have passed.
pub proof fn passed_seconds_are_whole(from: Timestamp, to: Timestamp)
    requires
        from.nanos < 1_000_000_000,
        to.nanos < 1_000_000_000,
    ensures
        ({
            let a = from.seconds * 1_000_000_000 + from.nanos;
            let b = to.seconds * 1_000_000_000 + to.nanos;
            let n = seconds_between(from, to);
            n * 1_000_000_000 <= b - a < (n + 1) * 1_000_000_000
        }),
{
}

/// How long ago a source ticked: not yet, less than a minute, minutes up to an hour, and
/// then hours and minutes.
pub proof fn ages_are_told(last: Timestamp, now: Timestamp)
    ensures
        ago_text(None, now) == "waiting for first pass"@,
        seconds_between(last, now) < 60 ==> ago_text(Some(last), now) == "just now"@,
        60 <= seconds_between(last, now) < 3600 ==> ago_text(Some(last), now) == nat_text(
            (seconds_between(last, now) / 60) as nat,
        ) + " min ago"@,
        seconds_between(last, now) >= 3600 ==> ({
            let mins = (seconds_between(last, now) / 60) as nat;
            ago_text(Some(last), now) == nat_text(mins / 60) + seq![
                'h',
                digit(mins % 60 / 10),
                digit(mins % 60 % 10),
            ] + " ago"@
        }),
{
    let mins = (seconds_between(last, now) / 60) as nat;
    assert(mins % 60 % 10 == mins % 10);
}

/// What the strip says of a source: that it fails, what its last success found, or how
/// often it runs.
pub proof fn sources_are_labelled(source: SourceStatusView, now: Timestamp)
    ensures
        source.last_error is Some ==> source_label(source, now) == source.source_id
            + " ✗ failing, "@ + ago_text(source.last_tick, now),
        source.last_error is None && source.last_stats is Some ==> source_label(source, now)
            == source.source_id + " ✓ "@ + nat_text((source.last_stats->0).fetched as nat)
            + " listings, "@ + ago_text(source.last_tick, now),
        source.last_error is None && source.last_stats is None ==> source_label(source, now)
            == source.source_id + " · every "@ + nat_text(source.interval_minutes as nat)
            + " min, "@ + ago_text(source.last_tick, now),
{
}

/// What the strip says of the LLM: that it works, which model it is, or that it is off.
pub proof fn the_llm_is_labelled(llm: LlmStatusView)
    ensures
        !llm.enabled ==> llm_label(llm) == ("LLM off"@, "muted"@),
        llm.enabled && llm.busy == 0 && llm.model is Some ==> llm_label(llm) == (
            "LLM ✓ "@ + llm.model->0,
            "ok"@,
        ),
        llm.enabled && llm.busy == 1 ==> llm_label(llm) == (
            "LLM ⋯ working ("@ + nat_text(1) + " call"@ + ""@ + ")"@,
            "warn"@,
        ),
        llm.enabled && llm.busy > 1 ==> llm_label(llm) == (
            "LLM ⋯ working ("@ + nat_text(llm.busy as nat) + " call"@ + "s"@ + ")"@,
            "warn"@,
        ),
{
}

/// What the about page says of the server.
pub proof fn the_server_is_told(h: HealthResponseView, url: Seq<char>, e: Seq<char>)
    ensures
        server_line(None, url) == "checking…"@,
        server_line(Some(Err(e)), url) == "unreachable ("@ + e + ")"@,
        h.commit is Some ==> server_line(Some(Ok(h)), url) == h.version + " ("@ + h.commit->0
            + ") at "@ + url,
        h.commit is None ==> server_line(Some(Ok(h)), url) == h.version + " ("@ + "unknown"@
            + ") at "@ + url,
{
}

} // verus!
