//! Checks over HTTP with curl underneath: what its errors are reported as.

use super::http_checker::{bare_info, is_bare_info};
use super::ip_filter::{private_ranges_v4, private_ranges_v6, private_v4, private_v6, Network};
use super::reqwest_checker::{
    identifies, is_success, optional_reason_chars, reason, reason_chars, response_reason,
    response_status_reason, UPTIME_USER_AGENT,
};
use super::make_trace_id;
use crate::check_executor::ScheduledCheck;
use crate::time::{TimeDelta, Timestamp};
use crate::types::result::{CheckResult, CheckStatus, CheckStatusReason, CheckStatusReasonType};
use vstd::prelude::*;

verus! {

/// How many redirects are followed.
pub const REDIRECT_LIMIT: u32 = 9;

/// How the client is to be made.
#[derive(Debug)]
pub struct Options {
    /// Whether addresses of internal networks are refused.
    pub validate_url: bool,
    /// The network interface to use.
    pub interface: Option<String>,
    /// How long a connection is kept, in seconds.
    pub connection_cache_ttl_secs: u64,
    /// Whether every request makes a connection of its own.
    pub disable_connection_reuse: bool,
}

impl Default for Options {
    fn default() -> (r: Self)
        ensures
            r.validate_url,
            r.interface is None,
            r.connection_cache_ttl_secs == 90,
            !r.disable_connection_reuse,
    {
        Options {
            validate_url: true,
            interface: None,
            connection_cache_ttl_secs: 90,
            disable_connection_reuse: false,
        }
    }
}

/// Checks over HTTP, by the settings of their client.
#[derive(Debug)]
pub struct IsahcChecker {
    pub user_agent: &'static str,
    pub connection_cache_ttl_secs: u64,
    pub redirect_limit: u32,
    /// How many connections are kept. Empty where there is no limit.
    pub connection_cache_size: Option<usize>,
    /// The ranges that are not connected to.
    pub ipv4_blacklist: Vec<Network>,
    pub ipv6_blacklist: Vec<Network>,
    pub interface: Option<String>,
}

impl IsahcChecker {
    /// The settings follow from options.
    pub open spec fn follows(self, options: Options) -> bool {
        &&& self.user_agent@ == UPTIME_USER_AGENT@
        &&& self.connection_cache_ttl_secs == options.connection_cache_ttl_secs
        &&& self.redirect_limit == REDIRECT_LIMIT
        &&& self.connection_cache_size == (if options.disable_connection_reuse {
            Some(0usize)
        } else {
            None
        })
        &&& self.ipv4_blacklist@ == (if options.validate_url {
            private_v4()
        } else {
            Seq::empty()
        })
        &&& self.ipv6_blacklist@ == (if options.validate_url {
            private_v6()
        } else {
            Seq::empty()
        })
        &&& self.interface == options.interface
    }

    /// The settings that follow from options.
    pub fn new_internal(options: Options) -> (r: IsahcChecker)
        ensures
            r.follows(options),
    {
        IsahcChecker {
            user_agent: UPTIME_USER_AGENT,
            connection_cache_ttl_secs: options.connection_cache_ttl_secs,
            redirect_limit: REDIRECT_LIMIT,
            connection_cache_size: if options.disable_connection_reuse {
                Some(0)
            } else {
                None
            },
            ipv4_blacklist: if options.validate_url {
                private_ranges_v4()
            } else {
                Vec::new()
            },
            ipv6_blacklist: if options.validate_url {
                private_ranges_v6()
            } else {
                Vec::new()
            },
            interface: options.interface,
        }
    }

    /// The settings that follow from these options.
    pub fn new(
        validate_url: bool,
        disable_connection_reuse: bool,
        connection_cache_ttl_secs: u64,
        interface: Option<String>,
    ) -> (r: IsahcChecker)
        ensures
            r.follows(
                Options {
                    validate_url,
                    interface,
                    connection_cache_ttl_secs,
                    disable_connection_reuse,
                },
            ),
    {
        IsahcChecker::new_internal(
            Options { validate_url, interface, connection_cache_ttl_secs, disable_connection_reuse },
        )
    }
}

/// The kinds of errors that are told apart.
#[derive(Clone, Copy, Debug, PartialEq, Eq, Structural)]
pub enum FailureKind {
    Timeout,
    TooManyRedirects,
    NameResolution,
    BadClientCertificate,
    BadServerCertificate,
    TlsEngine,
    ConnectionFailed,
    Io,
    Other,
}

/// What a request came to: a status, or an error and its message.
#[derive(Debug)]
pub enum Outcome {
    Response { status: u16 },
    Failed { kind: FailureKind, message: String },
}

/// A text in quotes, with what cannot be shown escaped.
pub uninterp spec fn quoted(s: Seq<char>) -> Seq<char>;

/// The `Debug` form of a text, which is named, not spelled out.
#[verifier::external_body]
fn quote(s: &str) -> (r: String)
    ensures
        r@ == quoted(s@),
{
    format!("{:?}", s)
}

/// Why a request without a response failed.
pub open spec fn kind_reason(kind: FailureKind, message: Seq<char>) -> (
    CheckStatusReasonType,
    Seq<char>,
) {
    match kind {
        FailureKind::Timeout => (CheckStatusReasonType::Timeout, message),
        FailureKind::TooManyRedirects => (
            CheckStatusReasonType::RedirectError,
            "Too many redirects"@,
        ),
        FailureKind::NameResolution => (CheckStatusReasonType::DnsError, message),
        FailureKind::BadClientCertificate => (CheckStatusReasonType::TlsError, message),
        FailureKind::BadServerCertificate => (CheckStatusReasonType::TlsError, message),
        FailureKind::TlsEngine => (CheckStatusReasonType::TlsError, message),
        FailureKind::ConnectionFailed => (CheckStatusReasonType::ConnectionError, message),
        FailureKind::Io => (CheckStatusReasonType::ConnectionError, message),
        FailureKind::Other => (CheckStatusReasonType::Failure, quoted(message)),
    }
}

/// Why a request without a response failed.
pub fn kind_status_reason(kind: FailureKind, message: &String) -> (r: CheckStatusReason)
    ensures
        reason_chars(r) == kind_reason(kind, message@),
{
    match kind {
        FailureKind::Timeout => reason(CheckStatusReasonType::Timeout, message.clone()),
        FailureKind::TooManyRedirects => reason(
            CheckStatusReasonType::RedirectError,
            "Too many redirects".to_owned(),
        ),
        FailureKind::NameResolution => reason(CheckStatusReasonType::DnsError, message.clone()),
        FailureKind::BadClientCertificate => reason(
            CheckStatusReasonType::TlsError,
            message.clone(),
        ),
        FailureKind::BadServerCertificate => reason(
            CheckStatusReasonType::TlsError,
            message.clone(),
        ),
        FailureKind::TlsEngine => reason(CheckStatusReasonType::TlsError, message.clone()),
        FailureKind::ConnectionFailed => reason(
            CheckStatusReasonType::ConnectionError,
            message.clone(),
        ),
        FailureKind::Io => reason(CheckStatusReasonType::ConnectionError, message.clone()),
        FailureKind::Other => reason(CheckStatusReasonType::Failure, quote(message.as_str())),
    }
}

impl Outcome {
    /// The check found what it looked for.
    pub open spec fn passed(self) -> bool {
        self matches Outcome::Response { status } && is_success(status)
    }

    /// Why the check did not find it.
    pub open spec fn reason(self) -> Option<(CheckStatusReasonType, Seq<char>)> {
        match self {
            Outcome::Response { status } => response_reason(status),
            Outcome::Failed { kind, message } => Some(kind_reason(kind, message@)),
        }
    }

    /// The status code that came. An error brings none.
    pub open spec fn status_seen(self) -> Option<u16> {
        match self {
            Outcome::Response { status } => Some(status),
            Outcome::Failed { .. } => None,
        }
    }
}

/// Reports what a check came to.
pub fn to_check_result(
    check: &ScheduledCheck,
    region: &str,
    outcome: &Outcome,
    actual_check_time: Timestamp,
    span_id: u64,
    duration: TimeDelta,
) -> (r: CheckResult)
    requires
        check.at().time.in_calendar(),
        outcome matches Outcome::Response { status } ==> 100 <= *status < 1000,
    ensures
        identifies(r, *check, region@, actual_check_time, span_id),
        r.status == (if outcome.passed() {
            CheckStatus::Success
        } else {
            CheckStatus::Failure
        }),
        optional_reason_chars(r.status_reason) == outcome.reason(),
        r.duration == Some(duration),
        r.duration_us == Some(duration),
        r.request_info matches Some(info) && is_bare_info(
            info,
            check.of().request_method,
            outcome.status_seen(),
        ),
        r.request_info_list@.len() == 0,
{
    let config = check.get_config();
    let trace_id = make_trace_id(config, check.get_tick(), check.get_retry());
    let (status, status_reason, code) = match outcome {
        Outcome::Response { status } => (
            if 200 <= *status && *status < 300 {
                CheckStatus::Success
            } else {
                CheckStatus::Failure
            },
            response_status_reason(*status),
            Some(*status),
        ),
        Outcome::Failed { kind, message } => (
            CheckStatus::Failure,
            Some(kind_status_reason(*kind, message)),
            None,
        ),
    };
    CheckResult {
        guid: trace_id,
        subscription_id: config.subscription_id,
        status,
        status_reason,
        trace_id,
        span_id,
        scheduled_check_time: check.get_tick().time(),
        scheduled_check_time_us: check.get_tick().time(),
        actual_check_time,
        actual_check_time_us: actual_check_time,
        duration: Some(duration),
        duration_us: Some(duration),
        request_info: Some(bare_info(config.request_method, code)),
        request_info_list: Vec::new(),
        region: region.to_owned(),
    }
}

/// An error is told in its own words, but for too many redirects, and an error that is
/// none of the others stands in quotes. It is one of the handshake where it is of a
/// certificate or of the engine, and one of the connection where it is of connecting or of
/// reading and writing.
pub proof fn law_errors_keep_their_words(kind: FailureKind, message: Seq<char>)
    ensures
        kind is TooManyRedirects || kind is Other || kind_reason(kind, message).1 == message,
        kind_reason(FailureKind::TooManyRedirects, message).1 == "Too many redirects"@,
        kind_reason(FailureKind::Other, message).1 == quoted(message),
        kind_reason(kind, message).0 == CheckStatusReasonType::TlsError <==> kind
            is BadClientCertificate || kind is BadServerCertificate || kind is TlsEngine,
        kind_reason(kind, message).0 == CheckStatusReasonType::ConnectionError <==> kind
            is ConnectionFailed || kind is Io,
        kind_reason(kind, message).0 == CheckStatusReasonType::DnsError <==> kind is NameResolution,
        kind_reason(kind, message).0 == CheckStatusReasonType::Timeout <==> kind is Timeout,
        kind_reason(kind, message).0 == CheckStatusReasonType::RedirectError <==> kind
            is TooManyRedirects,
        kind_reason(kind, message).0 == CheckStatusReasonType::Failure <==> kind is Other,
{
}

/// A response passes where its status is one of the two hundreds, and nowhere else.
pub proof fn law_two_hundreds_pass(status: u16, kind: FailureKind, message: String)
    ensures
        (Outcome::Response { status }).passed() <==> status / 100 == 2,
        (Outcome::Response { status }).reason() is None <==> status / 100 == 2,
        !(Outcome::Failed { kind, message }).passed(),
        (Outcome::Failed { kind, message }).reason() is Some,
{
}

/// The status that is told is that of the response, and a failure has none.
pub proof fn law_the_status_that_came_is_told(outcome: Outcome)
    ensures
        outcome matches Outcome::Response { status } ==> outcome.status_seen() == Some(status),
        outcome is Failed ==> outcome.status_seen() is None,
{
}

} // verus!
