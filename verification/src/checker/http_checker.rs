//! The plain HTTP check: one request without redirects told apart, and a result without
//! the steps of the request.

use super::reqwest_checker::{
    client_cause, connection_cause, connection_error, dns_cause, dns_error, failure_reason,
    hyper_cause, hyper_error, optional_reason_chars, reason, reason_chars, response_reason,
    response_status_reason, tls_cause, tls_error, Outcome, RequestFailure, UPTIME_USER_AGENT,
};
use super::CHECKER_RESULT_NAMESPACE;
use crate::config_store::Tick;
use crate::ids;
use crate::time::{utc_display, utc_text, TimeDelta, Timestamp};
use crate::types::check_config::CheckConfig;
use crate::types::result::{
    CheckResult, CheckStatus, CheckStatusReason, CheckStatusReasonType, RequestDurations,
    RequestInfo,
};
use crate::types::shared::RequestMethod;
use vstd::prelude::*;
use vstd::utf8::encode_utf8;

verus! {

/// The plain HTTP check, by the settings of its client.
#[derive(Debug)]
pub struct HttpChecker {
    pub user_agent: &'static str,
    /// Whether only addresses of the public internet are connected to.
    pub external_only: bool,
    /// How many idle connections are kept for a host.
    pub pool_max_idle_per_host: usize,
}

impl HttpChecker {
    /// A checker that makes a connection of its own for every request.
    pub fn new(validate_url: bool) -> (r: HttpChecker)
        ensures
            r.user_agent@ == UPTIME_USER_AGENT@,
            r.external_only == validate_url,
            r.pool_max_idle_per_host == 0,
    {
        HttpChecker {
            user_agent: UPTIME_USER_AGENT,
            external_only: validate_url,
            pool_max_idle_per_host: 0,
        }
    }
}

/// The identifier of a run, whatever its retry.
pub open spec fn guid_of(subscription_id: u128, time: Timestamp) -> u128 {
    ids::named_id(
        CHECKER_RESULT_NAMESPACE,
        encode_utf8(
            ids::hyphenated_form(subscription_id) + "-"@ + utc_text(time.secs, time.nanos),
        ),
    )
}

/// The identifier of a run.
pub fn make_guid(subscription_id: u128, time: Timestamp) -> (r: u128)
    requires
        time.in_calendar(),
    ensures
        r == guid_of(subscription_id, time),
{
    let key = ids::to_hyphenated(subscription_id).concat("-").concat(utc_display(time).as_str());
    ids::id_of_name(CHECKER_RESULT_NAMESPACE, key.as_str().as_bytes())
}

/// The value of the `sentry-trace` header, with the identifier in groups.
pub open spec fn grouped_trace_header(sampled: bool, trace_id: u128, span_id: u64) -> Seq<char> {
    let ids = ids::hyphenated_form(trace_id) + "-"@ + ids::hex(span_id as int, 16);
    if sampled {
        ids
    } else {
        ids + "-0"@
    }
}

/// The value of the `sentry-trace` header.
pub fn make_trace_header(config: &CheckConfig, trace_id: u128, span_id: u64) -> (r: String)
    ensures
        r@ == grouped_trace_header(config.trace_sampling, trace_id, span_id),
{
    let ids = ids::to_hyphenated(trace_id).concat("-").concat(
        ids::hex_text(span_id as u128, 16).as_str(),
    );
    if config.trace_sampling {
        ids
    } else {
        ids.concat("-0")
    }
}

/// Why a request without a response failed: the first of these that applies.
pub open spec fn plain_failure_reason(failure: RequestFailure) -> (
    CheckStatusReasonType,
    Seq<char>,
) {
    if failure.timeout {
        (CheckStatusReasonType::Timeout, "Request timed out"@)
    } else if dns_cause(failure.causes@) is Some {
        (CheckStatusReasonType::DnsError, dns_cause(failure.causes@)->0)
    } else if tls_cause(failure.causes@) is Some {
        (CheckStatusReasonType::TlsError, tls_cause(failure.causes@)->0)
    } else if connection_cause(failure.causes@) is Some {
        (CheckStatusReasonType::ConnectionError, connection_cause(failure.causes@)->0)
    } else if hyper_cause(failure.causes@) is Some {
        hyper_cause(failure.causes@)->0
    } else {
        (CheckStatusReasonType::Failure, failure.debug@)
    }
}

/// Why a request without a response failed.
pub fn plain_status_reason(failure: &RequestFailure) -> (r: CheckStatusReason)
    ensures
        reason_chars(r) == plain_failure_reason(*failure),
{
    if failure.timeout {
        return reason(CheckStatusReasonType::Timeout, "Request timed out".to_owned());
    }
    if let Some(message) = dns_error(&failure.causes) {
        return reason(CheckStatusReasonType::DnsError, message);
    }
    if let Some(message) = tls_error(&failure.causes) {
        return reason(CheckStatusReasonType::TlsError, message);
    }
    if let Some(message) = connection_error(&failure.causes) {
        return reason(CheckStatusReasonType::ConnectionError, message);
    }
    if let Some((status_type, message)) = hyper_error(&failure.causes) {
        return reason(status_type, message);
    }
    reason(CheckStatusReasonType::Failure, failure.debug.clone())
}

/// A request of which only the method and the status are known.
pub open spec fn is_bare_info(info: RequestInfo, method: RequestMethod, status: Option<u16>) -> bool {
    &&& info.request_type == method
    &&& info.http_status_code == status
    &&& info.url@.len() == 0
    &&& info.request_body_size_bytes == 0
    &&& info.response_body_size_bytes == 0
    &&& info.request_duration_us == 0
    &&& info.durations.dns_lookup.start_us == 0
    &&& info.durations.dns_lookup.duration_us == 0
    &&& info.durations.tcp_connection == info.durations.dns_lookup
    &&& info.durations.tls_handshake == info.durations.dns_lookup
    &&& info.durations.time_to_first_byte == info.durations.dns_lookup
    &&& info.durations.send_request == info.durations.dns_lookup
    &&& info.durations.receive_response == info.durations.dns_lookup
    &&& info.certificate_info is None
}

pub(crate) fn bare_info(method: RequestMethod, status: Option<u16>) -> (r: RequestInfo)
    ensures
        is_bare_info(r, method, status),
{
    RequestInfo {
        request_type: method,
        http_status_code: status,
        url: String::new(),
        request_body_size_bytes: 0,
        response_body_size_bytes: 0,
        request_duration_us: 0,
        durations: RequestDurations::default(),
        certificate_info: None,
    }
}

/// What a plain check says of a failure or a response.
pub open spec fn plain_reason(outcome: Outcome) -> Option<(CheckStatusReasonType, Seq<char>)> {
    match outcome {
        Outcome::Response { status, .. } => response_reason(status),
        Outcome::Failed(failure) => Some(plain_failure_reason(failure)),
    }
}

/// The status code that came, with a response or without.
pub open spec fn status_seen(outcome: Outcome) -> Option<u16> {
    match outcome {
        Outcome::Response { status, .. } => Some(status),
        Outcome::Failed(failure) => failure.status,
    }
}

/// Reports what a plain check came to.
pub fn to_check_result(
    config: &CheckConfig,
    tick: &Tick,
    region: &str,
    outcome: &Outcome,
    actual_check_time: Timestamp,
    span_id: u64,
    duration: TimeDelta,
) -> (r: CheckResult)
    requires
        tick.time.in_calendar(),
        outcome matches Outcome::Response { status, .. } ==> 100 <= *status < 1000,
    ensures
        r.guid == guid_of(config.subscription_id, tick.time),
        r.trace_id == r.guid,
        r.subscription_id == config.subscription_id,
        r.status == (if outcome.passed() {
            CheckStatus::Success
        } else {
            CheckStatus::Failure
        }),
        optional_reason_chars(r.status_reason) == plain_reason(*outcome),
        r.span_id == span_id,
        r.scheduled_check_time == tick.time,
        r.scheduled_check_time_us == tick.time,
        r.actual_check_time == actual_check_time,
        r.actual_check_time_us == actual_check_time,
        r.duration == Some(duration),
        r.duration_us == Some(duration),
        r.request_info matches Some(info) && is_bare_info(
            info,
            config.request_method,
            status_seen(*outcome),
        ),
        r.request_info_list@.len() == 0,
        r.region@ == region@,
{
    let guid = make_guid(config.subscription_id, tick.time);
    let (status, status_reason, code) = match outcome {
        Outcome::Response { status, .. } => (
            if 200 <= *status && *status < 300 {
                CheckStatus::Success
            } else {
                CheckStatus::Failure
            },
            response_status_reason(*status),
            Some(*status),
        ),
        Outcome::Failed(failure) => (
            CheckStatus::Failure,
            Some(plain_status_reason(failure)),
            failure.status,
        ),
    };
    CheckResult {
        guid,
        subscription_id: config.subscription_id,
        status,
        status_reason,
        trace_id: guid,
        span_id,
        scheduled_check_time: tick.time,
        scheduled_check_time_us: tick.time,
        actual_check_time,
        actual_check_time_us: actual_check_time,
        duration: Some(duration),
        duration_us: Some(duration),
        request_info: Some(bare_info(config.request_method, code)),
        request_info_list: Vec::new(),
        region: region.to_owned(),
    }
}

/// A plain check gives the same reason as the other one for every failure that is not one
/// of redirects and not the client's alone.
pub proof fn law_plain_reasons_are_the_same(failure: RequestFailure)
    requires
        failure.timeout || !failure.redirect,
        failure.timeout || client_cause(failure.causes@) is None || dns_cause(failure.causes@)
            is Some || tls_cause(failure.causes@) is Some || connection_cause(failure.causes@)
            is Some || hyper_cause(failure.causes@) is Some,
    ensures
        plain_failure_reason(failure) == failure_reason(failure),
{
}

/// A plain check does not tell redirects apart.
pub proof fn law_plain_reasons_know_no_redirects(failure: RequestFailure, other: RequestFailure)
    requires
        other.timeout == failure.timeout,
        other.causes == failure.causes,
        other.debug == failure.debug,
    ensures
        plain_failure_reason(other) == plain_failure_reason(failure),
        !failure.timeout && dns_cause(failure.causes@) is None && tls_cause(failure.causes@) is None
            && connection_cause(failure.causes@) is None && hyper_cause(failure.causes@) is None
            ==> plain_failure_reason(failure) == (
            CheckStatusReasonType::Failure,
            failure.debug@,
        ),
{
}

/// A request that is not sampled says so at the end of its header, and else the header is
/// the same.
pub proof fn law_sampling_shows_at_the_end(trace_id: u128, span_id: u64)
    ensures
        grouped_trace_header(false, trace_id, span_id) == grouped_trace_header(
            true,
            trace_id,
            span_id,
        ) + "-0"@,
{
}

/// A request that was not measured is told by its method and its status alone.
pub proof fn law_nothing_else_is_told_of_plain_requests(
    info: RequestInfo,
    method: RequestMethod,
    status: Option<u16>,
)
    requires
        is_bare_info(info, method, status),
    ensures
        info.request_type == method && info.http_status_code == status,
        info.url@.len() == 0 && info.certificate_info is None,
        info.request_body_size_bytes == 0 && info.response_body_size_bytes == 0,
        info.request_duration_us == 0,
        info.durations.dns_lookup.duration_us == 0 && info.durations.dns_lookup.start_us == 0,
        info.durations.tcp_connection.duration_us == 0
            && info.durations.tcp_connection.start_us == 0,
        info.durations.tls_handshake.duration_us == 0 && info.durations.tls_handshake.start_us == 0,
        info.durations.time_to_first_byte.duration_us == 0
            && info.durations.time_to_first_byte.start_us == 0,
        info.durations.send_request.duration_us == 0 && info.durations.send_request.start_us == 0,
        info.durations.receive_response.duration_us == 0
            && info.durations.receive_response.start_us == 0,
{
}

/// The status that is told is that of the response, and of a failure the one that it came
/// with, if it did.
pub proof fn law_the_status_that_came_is_told(outcome: Outcome)
    ensures
        outcome matches Outcome::Response { status, .. } ==> status_seen(outcome) == Some(status),
        outcome matches Outcome::Failed(failure) ==> status_seen(outcome) == failure.status,
{
}

} // verus!
