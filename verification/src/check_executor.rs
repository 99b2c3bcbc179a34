//! The execution of checks: which run, which are missed, and which run again.

use crate::config_store::Tick;
use crate::ids;
use crate::text;
use crate::text::decimal;
use crate::time::{utc_now, Timestamp};
use crate::types::check_config::{lemma_hour_keeps_rest, runs_at, CheckConfig};
use crate::types::result::{CheckResult, CheckStatus, CheckStatusReason};
use std::sync::Arc;
use vstd::prelude::*;

verus! {

/// A check that is to run.
#[derive(Debug)]
pub struct ScheduledCheck {
    tick: Tick,
    config: Arc<CheckConfig>,
    /// How often the check has been run again.
    retry_count: u16,
}

impl ScheduledCheck {
    /// The tick at which the check was to run.
    pub closed spec fn at(self) -> Tick {
        self.tick
    }

    /// The configuration of the check.
    pub closed spec fn of(self) -> CheckConfig {
        *self.config
    }

    /// How often the check has been run again.
    pub closed spec fn retries(self) -> u16 {
        self.retry_count
    }

    /// A check that runs for the first time.
    pub fn new(tick: Tick, config: Arc<CheckConfig>) -> (r: ScheduledCheck)
        ensures
            r.at() == tick,
            r.of() == *config,
            r.retries() == 0,
    {
        ScheduledCheck { tick, config, retry_count: 0 }
    }

    /// A check of a configuration of its own.
    pub fn new_for_test(tick: Tick, config: CheckConfig) -> (r: ScheduledCheck)
        ensures
            r.at() == tick,
            r.of() == config,
            r.retries() == 0,
    {
        ScheduledCheck { tick, config: Arc::new(config), retry_count: 0 }
    }

    /// The configuration of the check.
    pub fn get_config(&self) -> (r: &Arc<CheckConfig>)
        ensures
            **r == self.of(),
    {
        &self.config
    }

    /// The tick at which the check was to run.
    pub fn get_tick(&self) -> (r: &Tick)
        ensures
            *r == self.at(),
    {
        &self.tick
    }

    /// How often the check has been run again.
    pub fn get_retry(&self) -> (r: u16)
        ensures
            r == self.retries(),
    {
        self.retry_count
    }

    /// The same check, to run once more.
    pub fn again(self) -> (r: ScheduledCheck)
        requires
            self.retries() < u16::MAX,
        ensures
            r.at() == self.at(),
            r.of() == self.of(),
            r.retries() == self.retries() + 1,
    {
        ScheduledCheck {
            tick: self.tick,
            config: self.config,
            retry_count: self.retry_count + 1,
        }
    }
}

/// How checks are executed.
#[derive(Debug)]
pub struct ExecutorConfig {
    /// How many checks run at the same time.
    pub concurrency: usize,
    /// Whether checks run on more than one thread.
    pub checker_parallel: bool,
    /// How often a check that fails is run again.
    pub failure_retries: u16,
    /// The region that the checks run in.
    pub region: String,
    /// Whether the tasks are measured.
    pub record_task_metrics: bool,
}

/// How the task of a check is run.
#[derive(Clone, Copy, Debug, PartialEq, Eq, Structural)]
pub enum TaskMode {
    /// On a thread of its own choosing.
    Spawned,
    /// On a thread of its own choosing, and measured.
    SpawnedAndMeasured,
    /// Where it is, and measured.
    Measured,
}

impl ExecutorConfig {
    /// How the task of a check is run: only a measured one can be kept where it is.
    pub fn task_mode(&self) -> (r: TaskMode)
        ensures
            r == (if !self.record_task_metrics {
                TaskMode::Spawned
            } else if self.checker_parallel {
                TaskMode::SpawnedAndMeasured
            } else {
                TaskMode::Measured
            }),
    {
        if self.record_task_metrics {
            if self.checker_parallel {
                TaskMode::SpawnedAndMeasured
            } else {
                TaskMode::Measured
            }
        } else {
            TaskMode::Spawned
        }
    }
}

/// What happens to a check of an executor.
#[derive(Clone, Copy, Debug, PartialEq, Eq, Structural)]
pub enum LoadEvent {
    /// It is queued, for the first time or again.
    Queued,
    /// It runs.
    Started,
    /// It is done.
    Finished,
}

/// How many checks wait and how many run.
#[derive(Clone, Copy, Debug, PartialEq, Eq, Structural)]
pub struct ExecutorLoad {
    pub queue_size: u64,
    pub num_running: u64,
}

impl ExecutorLoad {
    /// Fewer checks run than may run at the same time. Zero sets no limit.
    pub open spec fn room(self, concurrency: int) -> bool {
        concurrency == 0 || self.num_running < concurrency
    }

    /// What a load is after something happened to a check: only one that waits runs, and
    /// only where there is room, and only one that runs is done.
    pub open spec fn step(self, event: LoadEvent, concurrency: int, after: ExecutorLoad) -> bool {
        match event {
            LoadEvent::Queued => after.queue_size == self.queue_size + 1 && after.num_running
                == self.num_running,
            LoadEvent::Started => self.room(concurrency) && after.queue_size == self.queue_size - 1
                && after.num_running == self.num_running + 1,
            LoadEvent::Finished => after.queue_size == self.queue_size && after.num_running
                == self.num_running - 1,
        }
    }

    /// Nothing waits and nothing runs.
    pub fn new() -> (r: ExecutorLoad)
        ensures
            r == (ExecutorLoad { queue_size: 0, num_running: 0 }),
    {
        ExecutorLoad { queue_size: 0, num_running: 0 }
    }

    /// Whether another check may run.
    pub fn has_room(&self, concurrency: usize) -> (r: bool)
        ensures
            r == self.room(concurrency as int),
    {
        concurrency == 0 || self.num_running < concurrency as u64
    }

    /// One more check waits.
    pub fn queued(&mut self)
        requires
            old(self).queue_size < u64::MAX,
        ensures
            forall|concurrency: int| #[trigger]
                old(self).step(LoadEvent::Queued, concurrency, *final(self)),
    {
        self.queue_size = self.queue_size + 1;
    }

    /// A check that waited runs.
    pub fn started(&mut self, concurrency: usize)
        requires
            0 < old(self).queue_size,
            old(self).num_running < u64::MAX,
            old(self).room(concurrency as int),
        ensures
            old(self).step(LoadEvent::Started, concurrency as int, *final(self)),
    {
        self.queue_size = self.queue_size - 1;
        self.num_running = self.num_running + 1;
    }

    /// A check that ran is done.
    pub fn finished(&mut self)
        requires
            0 < old(self).num_running,
        ensures
            forall|concurrency: int| #[trigger]
                old(self).step(LoadEvent::Finished, concurrency, *final(self)),
    {
        self.num_running = self.num_running - 1;
    }
}

/// A check comes too late at a time: more than its interval after its tick.
pub open spec fn too_late(check: ScheduledCheck, now: Timestamp) -> bool {
    now.in_nanos() - check.at().time.in_nanos() > check.of().interval.seconds() * 1_000_000_000
}

/// Whether a check comes too late to run.
pub fn is_too_late(check: &ScheduledCheck, now: Timestamp) -> (r: bool)
    ensures
        r == too_late(*check, now),
{
    let late_by: i128 = now.nanos_since_epoch() - check.tick.time.nanos_since_epoch();
    let interval: i128 = check.config.interval.secs() as i128 * 1_000_000_000;
    late_by > interval
}

/// A check that came to `status` is run again.
pub open spec fn retries_after(
    check: ScheduledCheck,
    status: CheckStatus,
    failure_retries: u16,
) -> bool {
    status == CheckStatus::Failure && check.retries() < failure_retries
}

/// What is done with a check that has run.
#[derive(Debug)]
pub enum Completion {
    /// It is queued again, and its result is dropped.
    Retry(ScheduledCheck),
    /// Its result is produced and recorded.
    Report,
}

/// Whether a check that came to `status` is run again.
pub fn will_retry(check: &ScheduledCheck, status: CheckStatus, failure_retries: u16) -> (r: bool)
    ensures
        r == retries_after(*check, status, failure_retries),
{
    status == CheckStatus::Failure && check.retry_count < failure_retries
}

/// Decides what is done with a check that came to `status`.
pub fn complete(check: ScheduledCheck, status: CheckStatus, failure_retries: u16) -> (r: Completion)
    ensures
        if retries_after(check, status, failure_retries) {
            r matches Completion::Retry(next) && next.at() == check.at() && next.of() == check.of()
                && next.retries() == check.retries() + 1
        } else {
            r is Report
        },
{
    if will_retry(&check, status, failure_retries) {
        Completion::Retry(check.again())
    } else {
        Completion::Report
    }
}

/// A result of a check that did not run.
pub open spec fn is_missed(
    r: CheckResult,
    check: ScheduledCheck,
    region: Seq<char>,
    guid: u128,
    span_id: u64,
    now: Timestamp,
) -> bool {
    &&& r.guid == guid
    &&& r.subscription_id == check.of().subscription_id
    &&& r.status == CheckStatus::MissedWindow
    &&& r.status_reason is None
    &&& r.trace_id == 0
    &&& r.span_id == span_id
    &&& r.scheduled_check_time == check.at().time
    &&& r.scheduled_check_time_us == check.at().time
    &&& r.actual_check_time == now
    &&& r.actual_check_time_us == now
    &&& r.duration is None
    &&& r.duration_us is None
    &&& r.request_info is None
    &&& r.request_info_list@.len() == 0
    &&& r.region@ == region
}

impl CheckResult {
    /// The result of a check that was missed, found out at `now`.
    pub fn missed_at(
        check: &ScheduledCheck,
        region: &str,
        guid: u128,
        span_id: u64,
        now: Timestamp,
    ) -> (r: CheckResult)
        ensures
            is_missed(r, *check, region@, guid, span_id, now),
    {
        CheckResult {
            guid,
            subscription_id: check.config.subscription_id,
            status: CheckStatus::MissedWindow,
            status_reason: None,
            trace_id: 0,
            span_id,
            scheduled_check_time: check.tick.time,
            scheduled_check_time_us: check.tick.time,
            actual_check_time: now,
            actual_check_time_us: now,
            duration: None,
            duration_us: None,
            request_info: None,
            request_info_list: Vec::new(),
            region: region.to_owned(),
        }
    }

    /// The result of a check that was missed, found out now.
    pub fn missed_from(check: &ScheduledCheck, region: &str) -> (r: CheckResult)
        ensures
            is_missed(r, *check, region@, r.guid, r.span_id, r.actual_check_time),
            r.actual_check_time.in_calendar(),
    {
        CheckResult::missed_at(
            check,
            region,
            ids::random_id(),
            ids::random_span(),
            utc_now(),
        )
    }
}

/// The labels under which a result is counted.
#[derive(Debug)]
pub struct ResultLabels {
    pub status: &'static str,
    pub failure_reason: &'static str,
    pub status_code: String,
    pub is_retry: &'static str,
    pub will_retry: &'static str,
}

/// What is measured of a result.
#[derive(Debug)]
pub struct ResultMeasures {
    pub labels: ResultLabels,
    /// How long the check took, in nanoseconds, where it ran.
    pub duration: Option<u128>,
    /// How long after its time it ran, in nanoseconds.
    pub delay: u128,
}

/// The label of a status.
pub open spec fn status_label(status: CheckStatus) -> Seq<char> {
    match status {
        CheckStatus::Success => "success"@,
        CheckStatus::Failure => "failure"@,
        CheckStatus::MissedWindow => "missed_window"@,
        CheckStatus::DisallowedByRobots => "disallowed_by_robots"@,
    }
}

/// The label of a reason.
pub open spec fn reason_label(reason: Option<CheckStatusReason>) -> Seq<char> {
    match reason {
        Some(r) => r.status_type.name(),
        None => "ok"@,
    }
}

/// The label of the status code of the last request.
pub open spec fn status_code_label(result: CheckResult) -> Seq<char> {
    match result.request_info {
        Some(info) => match info.http_status_code {
            Some(code) => decimal(code as nat),
            None => "none"@,
        },
        None => "none"@,
    }
}

/// The label of a yes or no.
pub open spec fn bool_label(value: bool) -> Seq<char> {
    if value {
        "true"@
    } else {
        "false"@
    }
}

/// A stretch of time, or none where it is negative.
pub open spec fn not_negative(nanos: int) -> int {
    if nanos < 0 {
        0
    } else {
        nanos
    }
}

fn to_bool_label(value: bool) -> (r: &'static str)
    ensures
        r@ == bool_label(value),
{
    if value {
        "true"
    } else {
        "false"
    }
}

/// What is measured of a result.
pub fn result_metrics(result: &CheckResult, is_retry: bool, will_retry: bool) -> (r: ResultMeasures)
    ensures
        r.labels.status@ == status_label(result.status),
        r.labels.failure_reason@ == reason_label(result.status_reason),
        r.labels.status_code@ == status_code_label(*result),
        r.labels.is_retry@ == bool_label(is_retry),
        r.labels.will_retry@ == bool_label(will_retry),
        r.duration is Some <==> result.duration is Some,
        r.duration matches Some(d) ==> d == not_negative(result.duration->0.nanos as int),
        r.delay == not_negative(
            result.actual_check_time.in_nanos() - result.scheduled_check_time.in_nanos(),
        ),
{
    let status = match result.status {
        CheckStatus::Success => "success",
        CheckStatus::Failure => "failure",
        CheckStatus::MissedWindow => "missed_window",
        CheckStatus::DisallowedByRobots => "disallowed_by_robots",
    };
    let failure_reason = match &result.status_reason {
        Some(reason) => reason.status_type.as_str(),
        None => "ok",
    };
    let status_code = match &result.request_info {
        Some(info) => match info.http_status_code {
            Some(code) => text::decimal_of(code as u128),
            None => "none".to_owned(),
        },
        None => "none".to_owned(),
    };
    let duration = match result.duration {
        Some(duration) => if duration.nanos < 0 {
            Some(0)
        } else {
            Some(duration.nanos as u128)
        },
        None => None,
    };
    let delay: i128 = result.actual_check_time.nanos_since_epoch()
        - result.scheduled_check_time.nanos_since_epoch();
    ResultMeasures {
        labels: ResultLabels {
            status,
            failure_reason,
            status_code,
            is_retry: to_bool_label(is_retry),
            will_retry: to_bool_label(will_retry),
        },
        duration,
        delay: if delay < 0 {
            0
        } else {
            delay as u128
        },
    }
}

/// A check is run again only after a failure, and never more often than allowed.
pub proof fn law_retries_are_bounded(
    check: ScheduledCheck,
    status: CheckStatus,
    failure_retries: u16,
)
    ensures
        retries_after(check, status, failure_retries) ==> status == CheckStatus::Failure
            && check.retries() + 1 <= failure_retries,
        check.retries() >= failure_retries ==> !retries_after(check, status, failure_retries),
{
}

/// A check comes too late once its next run is due, and not before: up to and at the
/// second at which its configuration runs next it still runs, and behind that it does not.
pub proof fn law_late_once_the_next_run_is_due(check: ScheduledCheck, now: Timestamp, next: int)
    requires
        runs_at(
            check.of().subscription_id,
            check.of().interval,
            check.at().time.secs as int % 3600,
        ),
        check.at().time.secs < next,
        runs_at(check.of().subscription_id, check.of().interval, next % 3600),
        forall|t: int|
            check.at().time.secs < t < next ==> !#[trigger] runs_at(
                check.of().subscription_id,
                check.of().interval,
                t % 3600,
            ),
    ensures
        too_late(check, now) <==> now.in_nanos() > next * 1_000_000_000 + check.at().time.nanos,
{
    let id = check.of().subscription_id;
    let interval = check.of().interval;
    let n = interval.seconds();
    let secs = check.at().time.secs as int;
    lemma_hour_keeps_rest(secs, interval);
    lemma_hour_keeps_rest(next, interval);
    lemma_hour_keeps_rest(secs + n, interval);
    vstd::arithmetic::div_mod::lemma_mod_add_multiples_vanish(secs, n);
    assert(runs_at(id, interval, (secs + n) % 3600));
    vstd::arithmetic::div_mod::lemma_fundamental_div_mod(secs, n);
    vstd::arithmetic::div_mod::lemma_fundamental_div_mod(next, n);
    let q = next / n - secs / n;
    assert(next - secs == n * q) by (nonlinear_arith)
        requires
            next == n * (next / n) + next % n,
            secs == n * (secs / n) + secs % n,
            next % n == secs % n,
            q == next / n - secs / n,
    ;
    assert(1 <= q) by (nonlinear_arith)
        requires
            0 < n * q,
            0 < n,
    ;
    assert(n <= n * q) by (nonlinear_arith)
        requires
            1 <= q,
            0 < n,
    ;
    assert(next == secs + n);
}

/// Whether a check comes too late depends on how long after its tick it is, and on its
/// interval alone.
pub proof fn law_lateness_is_relative(
    check: ScheduledCheck,
    now: Timestamp,
    other: ScheduledCheck,
    then: Timestamp,
)
    requires
        other.of().interval == check.of().interval,
        then.in_nanos() - other.at().time.in_nanos() == now.in_nanos() - check.at().time.in_nanos(),
    ensures
        too_late(other, then) <==> too_late(check, now),
{
}

/// A check that was too late stays so.
pub proof fn law_late_stays_late(check: ScheduledCheck, now: Timestamp, later: Timestamp)
    requires
        now.in_nanos() <= later.in_nanos(),
        too_late(check, now),
    ensures
        too_late(check, later),
{
}

/// A check that fails each time runs once, and once more for every retry that is allowed:
/// each run but the last is followed by another, which counts one retry more.
pub proof fn law_failing_checks_use_up_their_retries(
    runs: Seq<ScheduledCheck>,
    failure_retries: u16,
    k: int,
)
    requires
        runs.len() == failure_retries + 1,
        forall|i: int| 0 <= i < runs.len() ==> (#[trigger] runs[i]).retries() == i,
        0 <= k < runs.len(),
    ensures
        retries_after(runs[k], CheckStatus::Failure, failure_retries) <==> k + 1 < runs.len(),
{
    assert(runs[k].retries() == k);
}

/// A check that comes to anything but a failure is not run again, however many retries
/// are left.
pub proof fn law_only_failures_are_retried(
    check: ScheduledCheck,
    status: CheckStatus,
    failure_retries: u16,
)
    requires
        status is Success || status is MissedWindow || status is DisallowedByRobots,
    ensures
        !retries_after(check, status, failure_retries),
{
}

/// How often something happened.
pub open spec fn times(events: Seq<LoadEvent>, event: LoadEvent) -> int
    decreases events.len(),
{
    if events.len() == 0 {
        0
    } else {
        times(events.drop_last(), event) + if events.last() == event {
            1int
        } else {
            0
        }
    }
}

/// The loads of an executor before, between and after what happened to its checks.
pub open spec fn is_load_history(
    loads: Seq<ExecutorLoad>,
    events: Seq<LoadEvent>,
    concurrency: int,
) -> bool {
    &&& loads.len() == events.len() + 1
    &&& loads[0] == (ExecutorLoad { queue_size: 0, num_running: 0 })
    &&& forall|i: int|
        0 <= i < events.len() ==> loads[i].step(#[trigger] events[i], concurrency, loads[i + 1])
}

/// At every moment the counters of an executor tell the checks that wait and the checks
/// that run, and never more run than may run at the same time. Once every check that was
/// queued is done, nothing waits and nothing runs.
pub proof fn law_load_is_bounded(
    loads: Seq<ExecutorLoad>,
    events: Seq<LoadEvent>,
    concurrency: int,
    moment: int,
)
    requires
        is_load_history(loads, events, concurrency),
        0 <= concurrency,
        0 <= moment <= events.len(),
    ensures
        ({
            let queued = times(events.take(moment), LoadEvent::Queued);
            let started = times(events.take(moment), LoadEvent::Started);
            let finished = times(events.take(moment), LoadEvent::Finished);
            &&& loads[moment].queue_size == queued - started
            &&& loads[moment].num_running == started - finished
            &&& 0 < concurrency ==> loads[moment].num_running <= concurrency
            &&& finished == queued ==> loads[moment].queue_size == 0 && loads[moment].num_running
                == 0
        }),
    decreases moment,
{
    if moment > 0 {
        law_load_is_bounded(loads, events, concurrency, moment - 1);
        assert(events.take(moment).drop_last() =~= events.take(moment - 1));
        assert(events.take(moment).last() == events[moment - 1]);
        assert(loads[moment - 1].step(events[moment - 1], concurrency, loads[moment]));
    }
}

/// The result of a missed run names the run and says when that was noticed; nothing was
/// done, so nothing was measured.
pub proof fn law_missed_runs_are_told_as_missed(
    r: CheckResult,
    check: ScheduledCheck,
    region: Seq<char>,
    guid: u128,
    span_id: u64,
    now: Timestamp,
)
    requires
        is_missed(r, check, region, guid, span_id, now),
    ensures
        r.status is MissedWindow,
        r.subscription_id == check.of().subscription_id,
        r.scheduled_check_time == check.at().time && r.scheduled_check_time_us == check.at().time,
        r.actual_check_time == now && r.actual_check_time_us == now,
        r.guid == guid && r.span_id == span_id && r.trace_id == 0,
        r.region@ == region,
        r.status_reason is None && r.duration is None && r.duration_us is None,
        r.request_info is None && r.request_info_list@.len() == 0,
{
}

/// What is measured of a result is a length of time: as long as it is, and nothing where
/// the clock went back.
pub proof fn law_measures_are_lengths(nanos: int)
    ensures
        not_negative(nanos) >= 0,
        nanos >= 0 ==> not_negative(nanos) == nanos,
        nanos <= 0 ==> not_negative(nanos) == 0,
{
}

} // verus!
