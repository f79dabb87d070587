//! Per-source scheduling: a failing source backs off and alerts, and never blocks or
//! delays other sources.

use vstd::prelude::*;
use crate::notify::{Notification, NotificationView};
use crate::pipeline::PipelineStats;
use crate::status::TickStats;

verus! {

/// Seconds of the first back-off.
pub const BACKOFF_BASE: u64 = 60;

/// Seconds of the longest back-off.
pub const BACKOFF_CAP: u64 = 3600;

/// Consecutive-failure accounting for one source: exponential back-off and a single alert
/// per outage (re-armed on recovery).
#[derive(Debug, PartialEq, Eq)]
pub struct FailureState {
    consecutive: u32,
    alert_after: u32,
    alerted: bool,
}

/// What `FailureState` holds.
#[verifier::ext_equal]
pub struct FailureStateView {
    pub consecutive: u32,
    pub alert_after: u32,
    pub alerted: bool,
}

impl DeepView for FailureState {
    type V = FailureStateView;

    closed spec fn deep_view(&self) -> FailureStateView {
        FailureStateView {
            consecutive: self.consecutive,
            alert_after: self.alert_after,
            alerted: self.alerted,
        }
    }
}

/// Two to the power `n`.
pub open spec fn doubled(n: nat) -> nat
    decreases n,
{
    if n == 0 {
        1
    } else {
        2 * doubled((n - 1) as nat)
    }
}

/// Seconds to wait after the `consecutive`-th failure in a row: a minute, doubled each
/// time, an hour at most.
pub open spec fn backoff(consecutive: nat) -> nat {
    let steps = if consecutive == 0 { 0 } else { (consecutive - 1) as nat };
    let wait = BACKOFF_BASE as nat * doubled(if steps <= 6 { steps } else { 6 });
    if wait <= BACKOFF_CAP {
        wait
    } else {
        BACKOFF_CAP as nat
    }
}

/// No failures yet.
pub open spec fn healthy(alert_after: u32) -> FailureStateView {
    FailureStateView { consecutive: 0, alert_after, alerted: false }
}

/// One more failure in a row.
pub open spec fn failed(s: FailureStateView) -> FailureStateView {
    FailureStateView {
        consecutive: if s.consecutive < u32::MAX { (s.consecutive + 1) as u32 } else { u32::MAX },
        ..s
    }
}

/// Whether an alert is due.
pub open spec fn alert_due(s: FailureStateView) -> bool {
    !s.alerted && s.consecutive >= s.alert_after
}

/// The state after asking for an alert.
pub open spec fn alert_asked(s: FailureStateView) -> FailureStateView {
    FailureStateView { alerted: s.alerted || alert_due(s), ..s }
}

impl FailureState {
    /// No failures yet; alert from the `alert_after`-th in a row.
    pub fn new(alert_after: u32) -> (r: FailureState)
        ensures
            r.deep_view() == healthy(alert_after),
    {
        FailureState { consecutive: 0, alert_after, alerted: false }
    }

    /// Records a failure; returns for how many seconds to back off before the retry.
    pub fn record_failure(&mut self) -> (r: u64)
        ensures
            final(self).deep_view() == failed(old(self).deep_view()),
            r == backoff(final(self).deep_view().consecutive as nat),
    {
        self.consecutive = self.consecutive.saturating_add(1);
        let steps: u32 = self.consecutive.saturating_sub(1);
        proof {
            reveal_with_fuel(doubled, 7);
        }
        if steps == 0 {
            BACKOFF_BASE
        } else if steps == 1 {
            BACKOFF_BASE * 2
        } else if steps == 2 {
            BACKOFF_BASE * 4
        } else if steps == 3 {
            BACKOFF_BASE * 8
        } else if steps == 4 {
            BACKOFF_BASE * 16
        } else if steps == 5 {
            BACKOFF_BASE * 32
        } else {
            BACKOFF_CAP
        }
    }

    /// True exactly once per outage, when the threshold is crossed.
    pub fn should_alert(&mut self) -> (r: bool)
        ensures
            r == alert_due(old(self).deep_view()),
            final(self).deep_view() == alert_asked(old(self).deep_view()),
    {
        if !self.alerted && self.consecutive >= self.alert_after {
            self.alerted = true;
            return true;
        }
        false
    }

    /// Records a success: the outage, if any, is over.
    pub fn record_success(&mut self)
        ensures
            final(self).deep_view() == healthy(old(self).deep_view().alert_after),
    {
        self.consecutive = 0;
        self.alerted = false;
    }
}

/// The alert that a failing source sends.
pub open spec fn failing_alert(source_id: Seq<char>, error: Seq<char>) -> NotificationView {
    NotificationView {
        title: "ferret: source "@ + source_id + " is failing"@,
        message: "Repeated scrape failures, backing off.\nLast error: "@ + error,
        tags: "warning,ferret"@,
        priority: "high"@,
    }
}

/// What to do after a tick.
#[derive(Debug, PartialEq)]
pub struct TickPlan {
    /// Seconds to wait before the next tick.
    pub sleep_secs: u64,
    /// The alert to send before waiting.
    pub alert: Option<Notification>,
}

/// Decides what follows a tick of a source: after a success, the interval; after a failed
/// fetch or pipeline, the back-off, and an alert once per outage.
pub fn after_tick(
    failures: &mut FailureState,
    source_id: &str,
    interval_secs: u64,
    error: Option<&str>,
) -> (r: TickPlan)
    ensures
        match error {
            None => {
                &&& final(failures).deep_view() == healthy(old(failures).deep_view().alert_after)
                &&& r.sleep_secs == interval_secs
                &&& r.alert is None
            },
            Some(e) => {
                let now = failed(old(failures).deep_view());
                &&& final(failures).deep_view() == alert_asked(now)
                &&& r.sleep_secs == backoff(now.consecutive as nat)
                &&& r.alert.deep_view() == if alert_due(now) {
                    Some(failing_alert(source_id@, e@))
                } else {
                    None
                }
            },
        },
{
    match error {
        None => {
            failures.record_success();
            TickPlan { sleep_secs: interval_secs, alert: None }
        },
        Some(e) => {
            let sleep_secs: u64 = failures.record_failure();
            if failures.should_alert() {
                let mut title = "ferret: source ".to_owned();
                title.append(source_id);
                title.append(" is failing");
                let mut message = "Repeated scrape failures, backing off.\nLast error: ".to_owned();
                message.append(e);
                let alert = Notification {
                    title,
                    message,
                    tags: "warning,ferret".to_owned(),
                    priority: "high".to_owned(),
                };
                TickPlan { sleep_secs, alert: Some(alert) }
            } else {
                TickPlan { sleep_secs, alert: None }
            }
        },
    }
}

/// The counters that a successful tick shows.
pub fn tick_stats(fetched: u64, stats: PipelineStats) -> (r: TickStats)
    ensures
        r == (TickStats {
            fetched,
            new_deals: stats.new_deals,
            updated_deals: stats.updated_deals,
            skipped: stats.skipped,
            notified: stats.notified,
            gone: stats.gone,
            refined: stats.refined,
            suppressed: stats.suppressed,
        }),
{
    TickStats {
        fetched,
        new_deals: stats.new_deals,
        updated_deals: stats.updated_deals,
        skipped: stats.skipped,
        notified: stats.notified,
        gone: stats.gone,
        refined: stats.refined,
        suppressed: stats.suppressed,
    }
}

/// The state after `n` failures in a row from a healthy start, an alert asked for after
/// each.
pub open spec fn outage(alert_after: u32, n: nat) -> FailureStateView
    decreases n,
{
    if n == 0 {
        healthy(alert_after)
    } else {
        alert_asked(failed(outage(alert_after, (n - 1) as nat)))
    }
}

/// How many alerts those failures raise.
pub open spec fn alerts_raised(alert_after: u32, n: nat) -> nat
    decreases n,
{
    if n == 0 {
        0
    } else {
        alerts_raised(alert_after, (n - 1) as nat) + if alert_due(
            failed(outage(alert_after, (n - 1) as nat)),
        ) {
            1nat
        } else {
            0
        }
    }
}

/// An outage raises one alert, at the failure that crosses the threshold, and no other
/// however long it lasts.
pub proof fn one_alert_per_outage(alert_after: u32, n: nat)
    ensures
        alerts_raised(alert_after, n) == if n >= 1 && n >= alert_after {
            1nat
        } else {
            0
        },
    decreases n,
{
    outage_state(alert_after, n);
    if n > 0 {
        one_alert_per_outage(alert_after, (n - 1) as nat);
        outage_state(alert_after, (n - 1) as nat);
    }
}

proof fn outage_state(alert_after: u32, n: nat)
    ensures
        outage(alert_after, n).consecutive == if n < u32::MAX {
            n
        } else {
            u32::MAX as nat
        },
        outage(alert_after, n).alert_after == alert_after,
        outage(alert_after, n).alerted == (n >= 1 && n >= alert_after),
    decreases n,
{
    if n > 0 {
        outage_state(alert_after, (n - 1) as nat);
    }
}

/// The back-off never shrinks while an outage lasts, starts at a minute and stays within
/// an hour.
pub proof fn backoff_grows_within_bounds(n: nat, m: nat)
    requires
        1 <= n <= m,
    ensures
        BACKOFF_BASE <= backoff(n) <= backoff(m) <= BACKOFF_CAP,
        backoff(1) == BACKOFF_BASE,
        n >= 7 ==> backoff(n) == BACKOFF_CAP,
{
    reveal_with_fuel(doubled, 8);
}

/// The first wait is a minute; each further failure doubles the wait, up to an hour.
pub proof fn waits_double(consecutive: nat)
    ensures
        backoff(0) == 60,
        backoff(1) == 60,
        consecutive >= 1 ==> backoff(consecutive + 1) == if 2 * backoff(consecutive) <= 3600 {
            2 * backoff(consecutive)
        } else {
            3600
        },
{
    reveal_with_fuel(doubled, 8);
}

/// A failure lengthens the run by one, as long as it can be counted, and changes nothing
/// else; an alert is due once per outage, as soon as the run is long enough.
pub proof fn failures_lead_to_an_alert(s: FailureStateView)
    ensures
        s.consecutive < u32::MAX ==> failed(s).consecutive == s.consecutive + 1,
        s.consecutive == u32::MAX ==> failed(s).consecutive == u32::MAX,
        failed(s).alert_after == s.alert_after,
        failed(s).alerted == s.alerted,
        alert_due(s) <==> !s.alerted && s.consecutive >= s.alert_after,
        !alert_due(alert_asked(s)),
        alert_asked(s).alerted <==> s.alerted || s.consecutive >= s.alert_after,
        alert_asked(s).consecutive == s.consecutive,
        alert_asked(s).alert_after == s.alert_after,
        healthy(s.alert_after).consecutive == 0,
        healthy(s.alert_after).alert_after == s.alert_after,
        !healthy(s.alert_after).alerted,
{
}

/// The alert of a failing source names it and its last error.
pub proof fn alerts_name_the_source(source_id: Seq<char>, error: Seq<char>)
    ensures
        failing_alert(source_id, error).title == "ferret: source "@ + source_id + " is failing"@,
        failing_alert(source_id, error).message
            == "Repeated scrape failures, backing off.\nLast error: "@ + error,
        failing_alert(source_id, error).tags == "warning,ferret"@,
        failing_alert(source_id, error).priority == "high"@,
{
}

} // verus!
