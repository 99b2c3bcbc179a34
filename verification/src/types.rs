//! The data that the checker works on.

pub mod assertion;
pub mod check_config;
pub mod result;
pub mod shared;

use vstd::prelude::*;

verus! {

/// How a check of a monitor ended.
#[derive(Clone, Copy, Debug, PartialEq, Eq, Structural)]
pub enum CheckStatus {
    Success,
    Failure,
    MissedWindow,
}

impl CheckStatus {
    /// The name of the status.
    pub fn as_str(&self) -> (r: &'static str)
        ensures
            r@ == (match self {
                CheckStatus::Success => "success"@,
                CheckStatus::Failure => "failure"@,
                CheckStatus::MissedWindow => "missed_window"@,
            }),
    {
        match self {
            CheckStatus::Success => "success",
            CheckStatus::Failure => "failure",
            CheckStatus::MissedWindow => "missed_window",
        }
    }
}

/// Why a check of a monitor failed.
#[derive(Clone, Copy, Debug, PartialEq, Eq, Structural)]
pub enum CheckStatusReasonType {
    Timeout,
    DnsError,
    Failure,
}

impl CheckStatusReasonType {
    /// The name of the reason.
    pub fn as_str(&self) -> (r: &'static str)
        ensures
            r@ == (match self {
                CheckStatusReasonType::Timeout => "timeout"@,
                CheckStatusReasonType::DnsError => "dns_error"@,
                CheckStatusReasonType::Failure => "failure"@,
            }),
    {
        match self {
            CheckStatusReasonType::Timeout => "timeout",
            CheckStatusReasonType::DnsError => "dns_error",
            CheckStatusReasonType::Failure => "failure",
        }
    }
}

/// The request that a check of a monitor makes.
#[derive(Clone, Copy, Debug, PartialEq, Eq, Structural)]
pub enum RequestType {
    Head,
    Get,
}

impl RequestType {
    /// The name of the method.
    pub fn as_str(&self) -> (r: &'static str)
        ensures
            r@ == (match self {
                RequestType::Head => "HEAD"@,
                RequestType::Get => "GET"@,
            }),
    {
        match self {
            RequestType::Head => "HEAD",
            RequestType::Get => "GET",
        }
    }
}

/// Why a check of a monitor has its status.
#[derive(Debug)]
pub struct CheckStatusReason {
    pub status_type: CheckStatusReasonType,
    /// The reason in words.
    pub description: String,
}

/// The request of a check of a monitor.
#[derive(Clone, Copy, Debug)]
pub struct RequestInfo {
    pub request_type: RequestType,
    /// The status of the response. Empty where there was none.
    pub http_status_code: Option<u16>,
}

/// The result of a check of a monitor.
#[derive(Debug)]
pub struct CheckResult {
    pub guid: u128,
    pub monitor_id: u64,
    pub monitor_environment_id: u64,
    pub status: CheckStatus,
    pub status_reason: Option<CheckStatusReason>,
    pub trace_id: u128,
    /// When the check was to run, in milliseconds since the epoch.
    pub scheduled_check_time: u64,
    /// When it ran, in milliseconds since the epoch.
    pub actual_check_time: u64,
    /// How long it took, in milliseconds. Empty where it was missed.
    pub duration_ms: Option<u128>,
    /// The request. Empty where the check was missed.
    pub request_info: Option<RequestInfo>,
}

} // verus!
