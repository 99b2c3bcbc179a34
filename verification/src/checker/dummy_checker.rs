//! A checker that makes no request and hands out prepared results.

use crate::config_store::Tick;
use crate::time::Timestamp;
use crate::types::check_config::CheckConfig;
use crate::types::result::{CheckResult, CheckStatus};
use vstd::prelude::*;

verus! {

/// A prepared result: what it says, and how long it is waited for, in milliseconds.
#[derive(Clone, Copy, Debug, PartialEq, Eq, Structural)]
pub struct DummyResult {
    pub delay_ms: Option<u64>,
    pub status: CheckStatus,
}

impl Default for DummyResult {
    fn default() -> (r: Self)
        ensures
            r == (DummyResult { delay_ms: None, status: CheckStatus::Success }),
    {
        DummyResult { delay_ms: None, status: CheckStatus::Success }
    }
}

/// Hands out prepared results in the order in which they were queued.
#[derive(Debug)]
pub struct DummyChecker {
    results: Vec<DummyResult>,
}

impl DummyChecker {
    /// The results that wait, the next one first.
    pub closed spec fn view(&self) -> Seq<DummyResult> {
        self.results@
    }

    /// A checker without results.
    pub fn new() -> (r: DummyChecker)
        ensures
            r.view() == Seq::<DummyResult>::empty(),
    {
        DummyChecker { results: Vec::new() }
    }

    /// Queues a result.
    pub fn queue_result(&mut self, result: DummyResult)
        ensures
            final(self).view() == old(self).view().push(result),
    {
        self.results.push(result);
    }

    /// The next result. Where there is none, the caller has to wait until one is queued.
    pub fn next_result(&mut self) -> (r: Option<DummyResult>)
        ensures
            old(self).view().len() == 0 ==> r is None && final(self).view() == old(self).view(),
            old(self).view().len() > 0 ==> r == Some(old(self).view()[0]) && final(self).view()
                == old(self).view().skip(1),
    {
        if self.results.len() == 0 {
            None
        } else {
            let first = self.results.remove(0);
            proof {
                assert(self.results@ =~= old(self).results@.skip(1));
            }
            Some(first)
        }
    }
}

/// Reports a prepared result.
pub fn to_check_result(
    config: &CheckConfig,
    tick: &Tick,
    region: &str,
    prepared: DummyResult,
    guid: u128,
    trace_id: u128,
    span_id: u64,
    actual_check_time: Timestamp,
) -> (r: CheckResult)
    ensures
        r.guid == guid,
        r.subscription_id == config.subscription_id,
        r.status == prepared.status,
        r.status_reason is None,
        r.trace_id == trace_id,
        r.span_id == span_id,
        r.scheduled_check_time == tick.time,
        r.scheduled_check_time_us == tick.time,
        r.actual_check_time == actual_check_time,
        r.actual_check_time_us == actual_check_time,
        r.duration is None,
        r.duration_us is None,
        r.request_info is None,
        r.request_info_list@.len() == 0,
        r.region@ == region@,
{
    CheckResult {
        guid,
        subscription_id: config.subscription_id,
        status: prepared.status,
        status_reason: None,
        trace_id,
        span_id,
        scheduled_check_time: tick.time,
        scheduled_check_time_us: tick.time,
        actual_check_time,
        actual_check_time_us: actual_check_time,
        duration: None,
        duration_us: None,
        request_info: None,
        request_info_list: Vec::new(),
        region: region.to_owned(),
    }
}

} // verus!
