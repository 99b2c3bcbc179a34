//! Checks over HTTP: what is asked, and what the answer is reported as.

use super::ip_filter::IpAddress;
use super::{make_trace_id, trace_id_of};
use crate::check_executor::ScheduledCheck;
use crate::text;
use crate::time::{TimeDelta, Timestamp};
use crate::types::check_config::CheckConfig;
use crate::types::result::{
    tells, to_request_info_list, CheckResult, CheckStatus, CheckStatusReason,
    CheckStatusReasonType, RequestDurations, RequestInfo, RequestStats, Timing,
};
use crate::types::shared::RequestMethod;
use vstd::prelude::*;
use vstd::utf8::encode_utf8;

verus! {

/// Who the checks say that they are.
pub const UPTIME_USER_AGENT: &'static str =
    "SentryUptimeBot/1.0 (+http://docs.sentry.io/product/alerts/uptime-monitoring/)";

/// The name under which a robots.txt speaks of the checks.
pub const ROBOTS_AGENT: &'static str = "SentryUptimeBot";

/// How much of a robots.txt is read, in bytes.
pub const ROBOTS_TXT_LIMIT: usize = 100_000;

/// How long reading a robots.txt may take, in milliseconds.
pub const ROBOTS_TXT_TIME_MS: u64 = 10_000;

/// How the client is to be made.
#[derive(Debug)]
pub struct Options {
    /// Whether addresses of internal networks are refused.
    pub validate_url: bool,
    /// Whether every request makes a connection of its own.
    pub disable_connection_reuse: bool,
    /// How long an idle connection is kept, in seconds.
    pub pool_idle_timeout_secs: u64,
    pub dns_nameservers: Option<Vec<IpAddress>>,
    /// The network interface to use.
    pub interface: Option<String>,
}

impl Default for Options {
    fn default() -> (r: Self)
        ensures
            r.validate_url,
            !r.disable_connection_reuse,
            r.pool_idle_timeout_secs == 90,
            r.dns_nameservers is None,
            r.interface is None,
    {
        Options {
            validate_url: true,
            disable_connection_reuse: false,
            pool_idle_timeout_secs: 90,
            dns_nameservers: None,
            interface: None,
        }
    }
}

/// Checks over HTTP, by the settings of their client.
#[derive(Debug)]
pub struct ReqwestChecker {
    pub user_agent: &'static str,
    pub tls_info: bool,
    /// Whether only addresses of the public internet are connected to.
    pub external_only: bool,
    pub pool_idle_timeout_secs: u64,
    /// How many idle connections are kept for a host. Empty where there is no limit.
    pub pool_max_idle_per_host: Option<usize>,
    pub dns_nameservers: Option<Vec<IpAddress>>,
    pub interface: Option<String>,
}

impl ReqwestChecker {
    /// The settings follow from options.
    pub open spec fn follows(self, options: Options) -> bool {
        &&& self.user_agent@ == UPTIME_USER_AGENT@
        &&& self.tls_info
        &&& self.external_only == options.validate_url
        &&& self.pool_idle_timeout_secs == options.pool_idle_timeout_secs
        &&& self.pool_max_idle_per_host == (if options.disable_connection_reuse {
            Some(0usize)
        } else {
            None
        })
        &&& self.dns_nameservers == options.dns_nameservers
        &&& self.interface == options.interface
    }

    /// The settings that follow from options.
    pub fn new_internal(options: Options) -> (r: ReqwestChecker)
        ensures
            r.follows(options),
    {
        ReqwestChecker {
            user_agent: UPTIME_USER_AGENT,
            tls_info: true,
            external_only: options.validate_url,
            pool_idle_timeout_secs: options.pool_idle_timeout_secs,
            pool_max_idle_per_host: if options.disable_connection_reuse {
                Some(0)
            } else {
                None
            },
            dns_nameservers: options.dns_nameservers,
            interface: options.interface,
        }
    }

    /// The settings that follow from these options.
    pub fn new(
        validate_url: bool,
        disable_connection_reuse: bool,
        pool_idle_timeout_secs: u64,
        dns_nameservers: Option<Vec<IpAddress>>,
        interface: Option<String>,
    ) -> (r: ReqwestChecker)
        ensures
            r.follows(
                Options {
                    validate_url,
                    disable_connection_reuse,
                    pool_idle_timeout_secs,
                    dns_nameservers,
                    interface,
                },
            ),
    {
        ReqwestChecker::new_internal(
            Options {
                validate_url,
                disable_connection_reuse,
                pool_idle_timeout_secs,
                dns_nameservers,
                interface,
            },
        )
    }
}

/// A character that a header's name can hold.
pub open spec fn is_token(c: char) -> bool {
    ('0' <= c && c <= '9') || ('A' <= c && c <= 'Z') || ('a' <= c && c <= 'z') || c == '!' || c == '#'
        || c == '$' || c == '%' || c == '&' || c == '\'' || c == '*' || c == '+' || c == '-' || c
        == '.' || c == '^' || c == '_' || c == '`' || c == '|' || c == '~'
}

/// A text that can be a header's name.
pub open spec fn is_header_name(s: Seq<char>) -> bool {
    0 < s.len() <= 65535 && forall|i: int| 0 <= i < s.len() ==> is_token(#[trigger] s[i])
}

/// A name with its capitals made small.
pub open spec fn lower_case(s: Seq<char>) -> Seq<char> {
    s.map_values(
        |c: char|
            if 'A' <= c && c <= 'Z' {
                (c as int + 32) as char
            } else {
                c
            },
    )
}

/// `http::HeaderName::from_bytes`: a name of token characters, made small; at most
/// 65535 of them and at least one.
#[verifier::external_body]
fn header_name(s: &str) -> (r: Option<String>)
    ensures
        match r {
            Some(name) => is_header_name(s@) && name@ == lower_case(s@),
            None => !is_header_name(s@),
        },
{
    http::HeaderName::from_bytes(s.as_bytes()).ok().map(|name| name.as_str().to_owned())
}

/// A text that can be a header's value: no control characters but tabs.
pub open spec fn is_header_value(s: Seq<char>) -> bool {
    forall|i: int|
        0 <= i < encode_utf8(s).len() ==> (#[trigger] encode_utf8(s)[i] == 9 || (encode_utf8(s)[i]
            >= 32 && encode_utf8(s)[i] != 127))
}

/// `http::HeaderValue::from_str`: it takes a text without control characters, tabs
/// excepted.
#[verifier::external_body]
fn header_value_passes(s: &str) -> (r: bool)
    ensures
        r == is_header_value(s@),
{
    http::HeaderValue::from_str(s).is_ok()
}

/// The headers that can be sent, in order.
pub open spec fn sendable(headers: Seq<(String, String)>) -> Seq<(Seq<char>, Seq<char>)>
    decreases headers.len(),
{
    if headers.len() == 0 {
        Seq::empty()
    } else {
        let rest = sendable(headers.drop_last());
        let (name, value) = headers.last();
        if is_header_name(name@) && is_header_value(value@) {
            rest.push((lower_case(name@), value@))
        } else {
            rest
        }
    }
}

/// Headers by their characters.
pub open spec fn header_chars(headers: Seq<(String, String)>) -> Seq<(Seq<char>, Seq<char>)> {
    headers.map_values(|h: (String, String)| (h.0@, h.1@))
}

/// The request that a check makes.
#[derive(Debug)]
pub struct RequestPlan {
    pub method: RequestMethod,
    pub url: String,
    pub timeout_ms: i64,
    pub headers: Vec<(String, String)>,
    pub body: String,
}

/// Plans the request of a check. Headers that cannot be sent are left out.
pub fn plan_request(check_config: &CheckConfig, sentry_trace: &str) -> (r: RequestPlan)
    ensures
        r.method == check_config.request_method,
        r.url@ == check_config.url@,
        r.timeout_ms == check_config.timeout_ms,
        r.body@ == check_config.request_body@,
        header_chars(r.headers@) == sendable(check_config.request_headers@).push(
            ("sentry-trace"@, sentry_trace@),
        ),
{
    let given = &check_config.request_headers;
    let mut headers: Vec<(String, String)> = Vec::new();
    let mut i: usize = 0;
    while i < given.len()
        invariant
            i <= given@.len(),
            header_chars(headers@) == sendable(given@.take(i as int)),
        decreases given.len() - i,
    {
        proof {
            assert(given@.take(i + 1).drop_last() =~= given@.take(i as int));
        }
        let ghost before = headers@;
        let value = &given[i].1;
        if let Some(name) = header_name(given[i].0.as_str()) {
            if header_value_passes(value.as_str()) {
                let pair = (name, value.clone());
                headers.push(pair);
                proof {
                    assert(header_chars(headers@) =~= header_chars(before).push(
                        (pair.0@, pair.1@),
                    ));
                }
            }
        }
        i = i + 1;
    }
    let ghost before = headers@;
    let trace = ("sentry-trace".to_owned(), sentry_trace.to_owned());
    headers.push(trace);
    proof {
        assert(given@.take(i as int) =~= given@);
        assert(header_chars(headers@) =~= header_chars(before).push((trace.0@, trace.1@)));
    }
    RequestPlan {
        method: check_config.request_method,
        url: check_config.url.clone(),
        timeout_ms: check_config.timeout_ms,
        headers,
        body: check_config.request_body.clone(),
    }
}

/// What went wrong on a socket.
#[derive(Clone, Copy, Debug, PartialEq, Eq, Structural)]
pub enum IoFault {
    ConnectionRefused,
    ConnectionReset,
    Other,
}

/// One of the causes of a request's failure, the nearest first.
#[derive(Debug)]
#[allow(inconsistent_fields)]
pub enum Cause {
    /// The resolver could not find the host.
    Resolve { message: String },
    /// The handshake failed, for reasons that may have no name.
    Tls { reasons: Vec<Option<String>> },
    Io(IoFault),
    /// The protocol failed.
    Hyper { incomplete_message: bool, message: String },
    /// The client failed.
    HyperClient { connect: bool, message: String },
    Other,
}

/// A request that got no response.
#[derive(Debug)]
pub struct RequestFailure {
    pub status: Option<u16>,
    pub timeout: bool,
    pub redirect: bool,
    pub causes: Vec<Cause>,
    /// The failure in words, without the URL.
    pub debug: String,
}

/// What a request came to.
#[derive(Debug)]
pub enum Outcome {
    Response { status: u16, stats: Vec<RequestStats> },
    Failed(RequestFailure),
}

/// The message of the first cause that is the resolver's.
pub open spec fn dns_cause(causes: Seq<Cause>) -> Option<Seq<char>>
    decreases causes.len(),
{
    if causes.len() == 0 {
        None
    } else {
        match causes[0] {
            Cause::Resolve { message } => Some(message@),
            _ => dns_cause(causes.skip(1)),
        }
    }
}

/// The reasons of a failed handshake.
pub open spec fn tls_reasons(reasons: Seq<Option<String>>) -> Seq<Seq<char>> {
    reasons.map_values(
        |r: Option<String>|
            match r {
                Some(reason) => reason@,
                None => "unknown error"@,
            },
    )
}

/// The reasons of the first cause that is the handshake's.
pub open spec fn tls_cause(causes: Seq<Cause>) -> Option<Seq<char>>
    decreases causes.len(),
{
    if causes.len() == 0 {
        None
    } else {
        match causes[0] {
            Cause::Tls { reasons } => Some(text::joined(tls_reasons(reasons@), ", "@)),
            _ => tls_cause(causes.skip(1)),
        }
    }
}

/// The first cause that is a connection refused or reset.
pub open spec fn connection_cause(causes: Seq<Cause>) -> Option<Seq<char>>
    decreases causes.len(),
{
    if causes.len() == 0 {
        None
    } else {
        match causes[0] {
            Cause::Io(IoFault::ConnectionRefused) => Some("Connection refused"@),
            Cause::Io(IoFault::ConnectionReset) => Some("Connection reset"@),
            _ => connection_cause(causes.skip(1)),
        }
    }
}

/// The first cause that is the protocol's.
pub open spec fn hyper_cause(causes: Seq<Cause>) -> Option<(CheckStatusReasonType, Seq<char>)>
    decreases causes.len(),
{
    if causes.len() == 0 {
        None
    } else {
        match causes[0] {
            Cause::Hyper { incomplete_message, message } => Some(
                (
                    if incomplete_message {
                        CheckStatusReasonType::ConnectionError
                    } else {
                        CheckStatusReasonType::Failure
                    },
                    message@,
                ),
            ),
            _ => hyper_cause(causes.skip(1)),
        }
    }
}

/// The first cause that is the client's.
pub open spec fn client_cause(causes: Seq<Cause>) -> Option<(CheckStatusReasonType, Seq<char>)>
    decreases causes.len(),
{
    if causes.len() == 0 {
        None
    } else {
        match causes[0] {
            Cause::HyperClient { connect, message } => Some(
                (
                    if connect {
                        CheckStatusReasonType::ConnectionError
                    } else {
                        CheckStatusReasonType::Failure
                    },
                    message@,
                ),
            ),
            _ => client_cause(causes.skip(1)),
        }
    }
}

/// The message by its characters.
pub open spec fn message_chars(r: Option<String>) -> Option<Seq<char>> {
    match r {
        Some(s) => Some(s@),
        None => None,
    }
}

/// The reason by its type and characters.
pub open spec fn typed_chars(r: Option<(CheckStatusReasonType, String)>) -> Option<
    (CheckStatusReasonType, Seq<char>),
> {
    match r {
        Some((t, s)) => Some((t, s@)),
        None => None,
    }
}

/// The message of the resolver, if it is among the causes.
pub fn dns_error(causes: &Vec<Cause>) -> (r: Option<String>)
    ensures
        message_chars(r) == dns_cause(causes@),
{
    let mut i: usize = 0;
    proof {
        assert(causes@.skip(0) =~= causes@);
    }
    while i < causes.len()
        invariant
            i <= causes@.len(),
            dns_cause(causes@) == dns_cause(causes@.skip(i as int)),
        decreases causes.len() - i,
    {
        if let Cause::Resolve { message } = &causes[i] {
            return Some(message.clone());
        }
        proof {
            assert(causes@.skip(i as int).skip(1) =~= causes@.skip(i + 1));
        }
        i = i + 1;
    }
    None
}

fn reason_texts(reasons: &Vec<Option<String>>) -> (r: Vec<String>)
    ensures
        text::chars_of(r@) == tls_reasons(reasons@),
{
    let mut texts: Vec<String> = Vec::new();
    let mut i: usize = 0;
    while i < reasons.len()
        invariant
            i <= reasons@.len(),
            texts@.len() == i,
            forall|j: int|
                0 <= j < i ==> (#[trigger] texts@[j])@ == tls_reasons(reasons@)[j],
        decreases reasons.len() - i,
    {
        match &reasons[i] {
            Some(reason) => texts.push(reason.clone()),
            None => texts.push("unknown error".to_owned()),
        }
        i = i + 1;
    }
    proof {
        assert(text::chars_of(texts@) =~= tls_reasons(reasons@));
    }
    texts
}

/// The reasons of the handshake, if it is among the causes.
pub fn tls_error(causes: &Vec<Cause>) -> (r: Option<String>)
    ensures
        message_chars(r) == tls_cause(causes@),
{
    let mut i: usize = 0;
    proof {
        assert(causes@.skip(0) =~= causes@);
    }
    while i < causes.len()
        invariant
            i <= causes@.len(),
            tls_cause(causes@) == tls_cause(causes@.skip(i as int)),
        decreases causes.len() - i,
    {
        if let Cause::Tls { reasons } = &causes[i] {
            return Some(text::join(&reason_texts(reasons), ", "));
        }
        proof {
            assert(causes@.skip(i as int).skip(1) =~= causes@.skip(i + 1));
        }
        i = i + 1;
    }
    None
}

/// What happened to the connection, if it was refused or reset.
pub fn connection_error(causes: &Vec<Cause>) -> (r: Option<String>)
    ensures
        message_chars(r) == connection_cause(causes@),
{
    let mut i: usize = 0;
    proof {
        assert(causes@.skip(0) =~= causes@);
    }
    while i < causes.len()
        invariant
            i <= causes@.len(),
            connection_cause(causes@) == connection_cause(causes@.skip(i as int)),
        decreases causes.len() - i,
    {
        match &causes[i] {
            Cause::Io(IoFault::ConnectionRefused) => return Some("Connection refused".to_owned()),
            Cause::Io(IoFault::ConnectionReset) => return Some("Connection reset".to_owned()),
            _ => {},
        }
        proof {
            assert(causes@.skip(i as int).skip(1) =~= causes@.skip(i + 1));
        }
        i = i + 1;
    }
    None
}

/// What the protocol says, if it is among the causes.
pub fn hyper_error(causes: &Vec<Cause>) -> (r: Option<(CheckStatusReasonType, String)>)
    ensures
        typed_chars(r) == hyper_cause(causes@),
{
    let mut i: usize = 0;
    proof {
        assert(causes@.skip(0) =~= causes@);
    }
    while i < causes.len()
        invariant
            i <= causes@.len(),
            hyper_cause(causes@) == hyper_cause(causes@.skip(i as int)),
        decreases causes.len() - i,
    {
        if let Cause::Hyper { incomplete_message, message } = &causes[i] {
            if *incomplete_message {
                return Some((CheckStatusReasonType::ConnectionError, message.clone()));
            }
            return Some((CheckStatusReasonType::Failure, message.clone()));
        }
        proof {
            assert(causes@.skip(i as int).skip(1) =~= causes@.skip(i + 1));
        }
        i = i + 1;
    }
    None
}

/// What the client says, if it is among the causes.
pub fn hyper_util_error(causes: &Vec<Cause>) -> (r: Option<(CheckStatusReasonType, String)>)
    ensures
        typed_chars(r) == client_cause(causes@),
{
    let mut i: usize = 0;
    proof {
        assert(causes@.skip(0) =~= causes@);
    }
    while i < causes.len()
        invariant
            i <= causes@.len(),
            client_cause(causes@) == client_cause(causes@.skip(i as int)),
        decreases causes.len() - i,
    {
        if let Cause::HyperClient { connect, message } = &causes[i] {
            if *connect {
                return Some((CheckStatusReasonType::ConnectionError, message.clone()));
            }
            return Some((CheckStatusReasonType::Failure, message.clone()));
        }
        proof {
            assert(causes@.skip(i as int).skip(1) =~= causes@.skip(i + 1));
        }
        i = i + 1;
    }
    None
}

/// A status that says that all is well.
pub open spec fn is_success(status: u16) -> bool {
    200 <= status < 300
}

/// A status with its words, as http writes it.
pub uninterp spec fn status_line(status: u16) -> Seq<char>;

/// `to_string` of `http::StatusCode`: the code and its words, which are named, not
/// spelled out.
#[verifier::external_body]
pub(crate) fn status_text(status: u16) -> (r: String)
    requires
        100 <= status < 1000,
    ensures
        r@ == status_line(status),
{
    http::StatusCode::from_u16(status).map(|code| code.to_string()).unwrap_or_default()
}

/// Why a request without a response failed: the first of these that applies.
pub open spec fn failure_reason(failure: RequestFailure) -> (CheckStatusReasonType, Seq<char>) {
    if failure.timeout {
        (CheckStatusReasonType::Timeout, "Request timed out"@)
    } else if failure.redirect {
        (CheckStatusReasonType::RedirectError, "Too many redirects"@)
    } else if dns_cause(failure.causes@) is Some {
        (CheckStatusReasonType::DnsError, dns_cause(failure.causes@)->0)
    } else if tls_cause(failure.causes@) is Some {
        (CheckStatusReasonType::TlsError, tls_cause(failure.causes@)->0)
    } else if connection_cause(failure.causes@) is Some {
        (CheckStatusReasonType::ConnectionError, connection_cause(failure.causes@)->0)
    } else if hyper_cause(failure.causes@) is Some {
        hyper_cause(failure.causes@)->0
    } else if client_cause(failure.causes@) is Some {
        client_cause(failure.causes@)->0
    } else {
        (CheckStatusReasonType::Failure, failure.debug@)
    }
}

/// A reason by its type and characters.
pub open spec fn reason_chars(reason: CheckStatusReason) -> (CheckStatusReasonType, Seq<char>) {
    (reason.status_type, reason.description@)
}

pub(crate) fn reason(status_type: CheckStatusReasonType, description: String) -> (r:
    CheckStatusReason)
    ensures
        reason_chars(r) == (status_type, description@),
{
    CheckStatusReason { status_type, description }
}

/// Why a request without a response failed.
pub fn failure_status_reason(failure: &RequestFailure) -> (r: CheckStatusReason)
    ensures
        reason_chars(r) == failure_reason(*failure),
{
    if failure.timeout {
        return reason(CheckStatusReasonType::Timeout, "Request timed out".to_owned());
    }
    if failure.redirect {
        return reason(CheckStatusReasonType::RedirectError, "Too many redirects".to_owned());
    }
    if let Some(message) = dns_error(&failure.causes) {
        return reason(CheckStatusReasonType::DnsError, message);
    }
    if let Some(message) = tls_error(&failure.causes) {
        return reason(CheckStatusReasonType::TlsError, message);
    }
    if let Some(message) = connection_error(&failure.causes) {
        return reason(CheckStatusReasonType::ConnectionError, message);
    }
    if let Some((status_type, message)) = hyper_error(&failure.causes) {
        return reason(status_type, message);
    }
    if let Some((status_type, message)) = hyper_util_error(&failure.causes) {
        return reason(status_type, message);
    }
    reason(CheckStatusReasonType::Failure, failure.debug.clone())
}

/// What is said of a response by its status.
pub open spec fn response_reason(status: u16) -> Option<(CheckStatusReasonType, Seq<char>)> {
    if is_success(status) {
        None
    } else {
        Some((CheckStatusReasonType::Failure, "Got non 2xx status: "@ + status_line(status)))
    }
}

/// An optional reason by its type and characters.
pub open spec fn optional_reason_chars(reason: Option<CheckStatusReason>) -> Option<
    (CheckStatusReasonType, Seq<char>),
> {
    match reason {
        Some(r) => Some(reason_chars(r)),
        None => None,
    }
}

/// What is said of a response by its status.
pub fn response_status_reason(status: u16) -> (r: Option<CheckStatusReason>)
    requires
        100 <= status < 1000,
    ensures
        optional_reason_chars(r) == response_reason(status),
{
    if 200 <= status && status < 300 {
        None
    } else {
        Some(
            reason(
                CheckStatusReasonType::Failure,
                "Got non 2xx status: ".to_owned().concat(status_text(status).as_str()),
            ),
        )
    }
}

/// The point in microseconds since the epoch. A time before it wraps round at the
/// width of 128 bits.
pub open spec fn epoch_micros(at: Timestamp) -> int {
    let micros = at.secs * 1_000_000 + at.nanos / 1000;
    if micros >= 0 {
        micros
    } else {
        micros + 0x1_0000_0000_0000_0000_0000_0000_0000_0000
    }
}

fn to_epoch_micros(at: Timestamp) -> (r: u128)
    ensures
        r == epoch_micros(at),
{
    let micros: i128 = at.secs as i128 * 1_000_000 + (at.nanos / 1000) as i128;
    proof {
        assert(micros < 0 ==> micros as u128 == micros
            + 0x1_0000_0000_0000_0000_0000_0000_0000_0000) by (bit_vector);
    }
    micros as u128
}

/// A duration that can be told in microseconds.
pub open spec fn can_be_told(duration: TimeDelta) -> bool {
    0 <= duration.nanos && duration.nanos / 1000 <= i64::MAX
}

/// Which step a failed request is billed for: the one that failed has all the time.
pub open spec fn billed(failure: RequestFailure, at: Timestamp, duration: TimeDelta) -> RequestDurations {
    let nothing = Timing { start_us: epoch_micros(at) as u128, duration_us: 0 };
    let everything = Timing {
        start_us: epoch_micros(at) as u128,
        duration_us: (duration.nanos / 1000) as u64,
    };
    let dns = dns_cause(failure.causes@) is Some;
    let tcp = !dns && connection_cause(failure.causes@) is Some;
    let tls = !dns && !tcp && tls_cause(failure.causes@) is Some;
    RequestDurations {
        dns_lookup: if dns {
            everything
        } else {
            nothing
        },
        tcp_connection: if tcp {
            everything
        } else {
            nothing
        },
        tls_handshake: if tls {
            everything
        } else {
            nothing
        },
        time_to_first_byte: nothing,
        send_request: if !dns && !tcp && !tls {
            everything
        } else {
            nothing
        },
        receive_response: nothing,
    }
}

/// What is told of a request that got no response.
pub open spec fn tells_of_failure(
    info: RequestInfo,
    config: CheckConfig,
    failure: RequestFailure,
    at: Timestamp,
    duration: TimeDelta,
) -> bool {
    &&& info.http_status_code == failure.status
    &&& info.request_type == config.request_method
    &&& info.request_body_size_bytes == encode_utf8(config.request_body@).len() as int
        % 0x1_0000_0000
    &&& info.url@ == config.url@
    &&& info.response_body_size_bytes == 0
    &&& info.request_duration_us == duration.nanos / 1000
    &&& info.durations == billed(failure, at, duration)
    &&& info.certificate_info is None
}

fn failed_request_info(
    config: &CheckConfig,
    failure: &RequestFailure,
    at: Timestamp,
    duration: TimeDelta,
) -> (r: RequestInfo)
    requires
        can_be_told(duration),
    ensures
        tells_of_failure(r, *config, *failure, at, duration),
{
    let start_us = to_epoch_micros(at);
    let micros: u64 = (duration.nanos as u128 / 1000) as u64;
    let zero_timing = Timing { start_us, duration_us: 0 };
    let full_duration = Timing { start_us, duration_us: micros };
    let mut dns_timing = zero_timing;
    let mut connection_timing = zero_timing;
    let mut tls_timing = zero_timing;
    let mut send_request_timing = zero_timing;
    if dns_error(&failure.causes).is_some() {
        dns_timing = full_duration;
    } else if connection_error(&failure.causes).is_some() {
        connection_timing = full_duration;
    } else if tls_error(&failure.causes).is_some() {
        tls_timing = full_duration;
    } else {
        send_request_timing = full_duration;
    }
    let body = config.request_body.as_str().as_bytes();
    RequestInfo {
        http_status_code: failure.status,
        request_type: config.request_method,
        request_body_size_bytes: (body.len() as u64 % 0x1_0000_0000) as u32,
        url: config.url.clone(),
        response_body_size_bytes: 0,
        request_duration_us: micros,
        durations: RequestDurations {
            dns_lookup: dns_timing,
            tcp_connection: connection_timing,
            tls_handshake: tls_timing,
            time_to_first_byte: zero_timing,
            send_request: send_request_timing,
            receive_response: zero_timing,
        },
        certificate_info: None,
    }
}

impl Outcome {
    /// A response has a status of three digits and tells of at least one request.
    pub open spec fn wf(self) -> bool {
        self matches Outcome::Response { status, stats } ==> 100 <= status < 1000 && 0
            < stats@.len() && forall|i: int|
            0 <= i < stats@.len() ==> (#[trigger] stats@[i]).can_be_told()
    }

    /// The check found what it looked for: a response that says that all is well.
    pub open spec fn passed(self) -> bool {
        self matches Outcome::Response { status, .. } && is_success(status)
    }

    /// Why the check did not find it.
    pub open spec fn reason(self) -> Option<(CheckStatusReasonType, Seq<char>)> {
        match self {
            Outcome::Response { status, .. } => response_reason(status),
            Outcome::Failed(failure) => Some(failure_reason(failure)),
        }
    }
}

/// What is told of the requests of a check.
pub open spec fn told(
    list: Seq<RequestInfo>,
    config: CheckConfig,
    outcome: Outcome,
    at: Timestamp,
    duration: TimeDelta,
) -> bool {
    match outcome {
        Outcome::Response { stats, .. } => list.len() == stats@.len() && forall|i: int|
            0 <= i < list.len() ==> tells(
                #[trigger] list[i],
                stats@[i],
                config.request_method,
            ),
        Outcome::Failed(failure) => list.len() == 1 && tells_of_failure(
            list[0],
            config,
            failure,
            at,
            duration,
        ),
    }
}

/// What is always told of a check: which it is, and when it ran.
pub open spec fn identifies(
    r: CheckResult,
    check: ScheduledCheck,
    region: Seq<char>,
    at: Timestamp,
    span_id: u64,
) -> bool {
    &&& r.trace_id == trace_id_of(check.of(), check.at(), check.retries())
    &&& r.guid == r.trace_id
    &&& r.subscription_id == check.of().subscription_id
    &&& r.span_id == span_id
    &&& r.scheduled_check_time == check.at().time
    &&& r.scheduled_check_time_us == check.at().time
    &&& r.actual_check_time == at
    &&& r.actual_check_time_us == at
    &&& r.region@ == region
}

/// Reports what a check came to: it passed iff a response of the two hundreds came.
pub fn to_check_result(
    check: &ScheduledCheck,
    region: &str,
    outcome: &Outcome,
    actual_check_time: Timestamp,
    span_id: u64,
    duration: TimeDelta,
) -> (r: CheckResult)
    requires
        check.at().time.in_calendar(),
        can_be_told(duration),
        outcome.wf(),
    ensures
        identifies(r, *check, region@, actual_check_time, span_id),
        r.status == (if outcome.passed() {
            CheckStatus::Success
        } else {
            CheckStatus::Failure
        }),
        optional_reason_chars(r.status_reason) == outcome.reason(),
        r.duration == Some(duration),
        r.duration_us == Some(duration),
        told(r.request_info_list@, check.of(), *outcome, actual_check_time, duration),
        r.request_info == Some(r.request_info_list@.last()),
{
    let config = check.get_config();
    let trace_id = make_trace_id(config, check.get_tick(), check.get_retry());
    let (status, status_reason, rinfos) = match outcome {
        Outcome::Response { status, stats } => (
            if 200 <= *status && *status < 300 {
                CheckStatus::Success
            } else {
                CheckStatus::Failure
            },
            response_status_reason(*status),
            to_request_info_list(stats, config.request_method),
        ),
        Outcome::Failed(failure) => (
            CheckStatus::Failure,
            Some(failure_status_reason(failure)),
            vec![failed_request_info(config, failure, actual_check_time, duration)],
        ),
    };
    let final_req = rinfos[rinfos.len() - 1].clone();
    CheckResult {
        guid: trace_id,
        subscription_id: config.subscription_id,
        status,
        status_reason,
        trace_id,
        span_id,
        scheduled_check_time: check.get_tick().time(),
        scheduled_check_time_us: check.get_tick().time(),
        actual_check_time,
        actual_check_time_us: actual_check_time,
        duration: Some(duration),
        duration_us: Some(duration),
        request_info: Some(final_req),
        request_info_list: rinfos,
        region: region.to_owned(),
    }
}

/// A check passes iff there is no reason why not.
pub proof fn law_reason_iff_not_passed(outcome: Outcome)
    ensures
        outcome.passed() <==> outcome.reason() is None,
{
}

/// The cause is the resolver's.
pub open spec fn is_resolver(cause: Cause) -> bool {
    cause is Resolve
}

/// The cause is the handshake's.
pub open spec fn is_handshake(cause: Cause) -> bool {
    cause is Tls
}

/// The cause is a connection that was refused or reset.
pub open spec fn is_connection(cause: Cause) -> bool {
    cause == Cause::Io(IoFault::ConnectionRefused) || cause == Cause::Io(IoFault::ConnectionReset)
}

/// The cause is the protocol's.
pub open spec fn is_protocol(cause: Cause) -> bool {
    cause is Hyper
}

/// The cause is the client's.
pub open spec fn is_client(cause: Cause) -> bool {
    cause is HyperClient
}

/// The failure was neither a timeout nor one of redirects.
pub open spec fn has_causes(failure: RequestFailure) -> bool {
    !failure.timeout && !failure.redirect
}

/// A failure is a timeout wherever it is one, and else one of redirects wherever it is
/// one, whatever its causes.
pub proof fn law_timeouts_and_redirects_come_first(failure: RequestFailure)
    ensures
        failure.timeout ==> failure_reason(failure) == (
            CheckStatusReasonType::Timeout,
            "Request timed out"@,
        ),
        !failure.timeout && failure.redirect ==> failure_reason(failure) == (
            CheckStatusReasonType::RedirectError,
            "Too many redirects"@,
        ),
{
}

/// Where a cause is the resolver's, the failure is one of the lookup, with the words of
/// the first such cause, whatever the other causes are.
pub proof fn law_lookups_come_before_other_causes(failure: RequestFailure, i: int)
    requires
        has_causes(failure),
        0 <= i < failure.causes@.len(),
        is_resolver(failure.causes@[i]),
        forall|j: int| 0 <= j < i ==> !is_resolver(#[trigger] failure.causes@[j]),
    ensures
        failure.causes@[i] matches Cause::Resolve { message } && failure_reason(failure) == (
            CheckStatusReasonType::DnsError,
            message@,
        ),
{
    lemma_first_resolver(failure.causes@, i);
}

/// Where none is the resolver's and one is the handshake's, the failure is one of the
/// handshake, with the reasons of the first such cause.
pub proof fn law_handshakes_come_next(failure: RequestFailure, i: int)
    requires
        has_causes(failure),
        0 <= i < failure.causes@.len(),
        is_handshake(failure.causes@[i]),
        forall|j: int| 0 <= j < i ==> !is_handshake(#[trigger] failure.causes@[j]),
        forall|j: int|
            0 <= j < failure.causes@.len() ==> !is_resolver(#[trigger] failure.causes@[j]),
    ensures
        failure_reason(failure).0 == CheckStatusReasonType::TlsError,
        failure.causes@[i] matches Cause::Tls { reasons } && failure_reason(failure).1
            == text::joined(tls_reasons(reasons@), ", "@) && tls_reasons(reasons@).len()
            == reasons@.len() && forall|k: int|
            0 <= k < reasons@.len() ==> #[trigger] tls_reasons(reasons@)[k] == (match reasons@[k] {
                Some(reason) => reason@,
                None => "unknown error"@,
            }),
{
    lemma_first_handshake(failure.causes@, i);
    lemma_no_resolver(failure.causes@);
}

/// Where none is the resolver's or the handshake's and a connection was refused or reset,
/// the failure is one of the connection, and says which of the two came first.
pub proof fn law_connections_come_next(failure: RequestFailure, i: int)
    requires
        has_causes(failure),
        0 <= i < failure.causes@.len(),
        is_connection(failure.causes@[i]),
        forall|j: int| 0 <= j < i ==> !is_connection(#[trigger] failure.causes@[j]),
        forall|j: int|
            0 <= j < failure.causes@.len() ==> !is_resolver(#[trigger] failure.causes@[j])
                && !is_handshake(failure.causes@[j]),
    ensures
        failure.causes@[i] == Cause::Io(IoFault::ConnectionRefused) ==> failure_reason(failure) == (
            CheckStatusReasonType::ConnectionError,
            "Connection refused"@,
        ),
        failure.causes@[i] == Cause::Io(IoFault::ConnectionReset) ==> failure_reason(failure) == (
            CheckStatusReasonType::ConnectionError,
            "Connection reset"@,
        ),
{
    lemma_first_connection(failure.causes@, i);
    lemma_no_resolver(failure.causes@);
    lemma_no_handshake(failure.causes@);
}

/// Where no cause is any of these and one is the protocol's, its words are the reason,
/// and it is one of the connection only where a message was cut off.
pub proof fn law_protocol_faults_come_next(failure: RequestFailure, i: int)
    requires
        has_causes(failure),
        0 <= i < failure.causes@.len(),
        is_protocol(failure.causes@[i]),
        forall|j: int| 0 <= j < i ==> !is_protocol(#[trigger] failure.causes@[j]),
        forall|j: int|
            0 <= j < failure.causes@.len() ==> !is_resolver(#[trigger] failure.causes@[j])
                && !is_handshake(failure.causes@[j]) && !is_connection(failure.causes@[j]),
    ensures
        failure.causes@[i] matches Cause::Hyper { incomplete_message, message } && failure_reason(
            failure,
        ).1 == message@ && (incomplete_message ==> failure_reason(failure).0
            == CheckStatusReasonType::ConnectionError) && (!incomplete_message ==> failure_reason(
            failure,
        ).0 == CheckStatusReasonType::Failure),
{
    lemma_first_protocol(failure.causes@, i);
    lemma_no_resolver(failure.causes@);
    lemma_no_handshake(failure.causes@);
    lemma_no_connection(failure.causes@);
}

/// Where only the client is left, its words are the reason, and it is one of the
/// connection only where it could not connect.
pub proof fn law_client_faults_come_last(failure: RequestFailure, i: int)
    requires
        has_causes(failure),
        0 <= i < failure.causes@.len(),
        is_client(failure.causes@[i]),
        forall|j: int| 0 <= j < i ==> !is_client(#[trigger] failure.causes@[j]),
        forall|j: int|
            0 <= j < failure.causes@.len() ==> !is_resolver(#[trigger] failure.causes@[j])
                && !is_handshake(failure.causes@[j]) && !is_connection(failure.causes@[j])
                && !is_protocol(failure.causes@[j]),
    ensures
        failure.causes@[i] matches Cause::HyperClient { connect, message } && failure_reason(
            failure,
        ).1 == message@ && (connect ==> failure_reason(failure).0
            == CheckStatusReasonType::ConnectionError) && (!connect ==> failure_reason(failure).0
            == CheckStatusReasonType::Failure),
{
    lemma_first_client(failure.causes@, i);
    lemma_no_resolver(failure.causes@);
    lemma_no_handshake(failure.causes@);
    lemma_no_connection(failure.causes@);
    lemma_no_protocol(failure.causes@);
}

/// A failure with no such cause is told in its own words.
pub proof fn law_other_failures_speak_for_themselves(failure: RequestFailure)
    requires
        has_causes(failure),
        forall|j: int|
            0 <= j < failure.causes@.len() ==> !is_resolver(#[trigger] failure.causes@[j])
                && !is_handshake(failure.causes@[j]) && !is_connection(failure.causes@[j])
                && !is_protocol(failure.causes@[j]) && !is_client(failure.causes@[j]),
    ensures
        failure_reason(failure) == (CheckStatusReasonType::Failure, failure.debug@),
{
    lemma_no_resolver(failure.causes@);
    lemma_no_handshake(failure.causes@);
    lemma_no_connection(failure.causes@);
    lemma_no_protocol(failure.causes@);
    lemma_no_client(failure.causes@);
}

proof fn lemma_no_resolver(causes: Seq<Cause>)
    requires
        forall|j: int| 0 <= j < causes.len() ==> !is_resolver(#[trigger] causes[j]),
    ensures
        dns_cause(causes) is None,
    decreases causes.len(),
{
    if causes.len() > 0 {
        assert(!is_resolver(causes[0]));
        let rest = causes.skip(1);
        assert forall|j: int| 0 <= j < rest.len() implies !is_resolver(#[trigger] rest[j]) by {
            assert(rest[j] == causes[j + 1]);
        }
        lemma_no_resolver(rest);
    }
}

proof fn lemma_first_resolver(causes: Seq<Cause>, i: int)
    requires
        0 <= i < causes.len(),
        is_resolver(causes[i]),
        forall|j: int| 0 <= j < i ==> !is_resolver(#[trigger] causes[j]),
    ensures
        dns_cause(causes) == dns_cause(causes.skip(i)),
    decreases i,
{
    if i > 0 {
        assert(!is_resolver(causes[0]));
        let rest = causes.skip(1);
        assert forall|j: int| 0 <= j < i - 1 implies !is_resolver(#[trigger] rest[j]) by {
            assert(rest[j] == causes[j + 1]);
        }
        lemma_first_resolver(rest, i - 1);
        assert(rest.skip(i - 1) =~= causes.skip(i));
    } else {
        assert(causes.skip(0) =~= causes);
    }
}

proof fn lemma_no_handshake(causes: Seq<Cause>)
    requires
        forall|j: int| 0 <= j < causes.len() ==> !is_handshake(#[trigger] causes[j]),
    ensures
        tls_cause(causes) is None,
    decreases causes.len(),
{
    if causes.len() > 0 {
        assert(!is_handshake(causes[0]));
        let rest = causes.skip(1);
        assert forall|j: int| 0 <= j < rest.len() implies !is_handshake(#[trigger] rest[j]) by {
            assert(rest[j] == causes[j + 1]);
        }
        lemma_no_handshake(rest);
    }
}

proof fn lemma_first_handshake(causes: Seq<Cause>, i: int)
    requires
        0 <= i < causes.len(),
        is_handshake(causes[i]),
        forall|j: int| 0 <= j < i ==> !is_handshake(#[trigger] causes[j]),
    ensures
        tls_cause(causes) == tls_cause(causes.skip(i)),
    decreases i,
{
    if i > 0 {
        assert(!is_handshake(causes[0]));
        let rest = causes.skip(1);
        assert forall|j: int| 0 <= j < i - 1 implies !is_handshake(#[trigger] rest[j]) by {
            assert(rest[j] == causes[j + 1]);
        }
        lemma_first_handshake(rest, i - 1);
        assert(rest.skip(i - 1) =~= causes.skip(i));
    } else {
        assert(causes.skip(0) =~= causes);
    }
}

proof fn lemma_no_connection(causes: Seq<Cause>)
    requires
        forall|j: int| 0 <= j < causes.len() ==> !is_connection(#[trigger] causes[j]),
    ensures
        connection_cause(causes) is None,
    decreases causes.len(),
{
    if causes.len() > 0 {
        assert(!is_connection(causes[0]));
        let rest = causes.skip(1);
        assert forall|j: int| 0 <= j < rest.len() implies !is_connection(#[trigger] rest[j]) by {
            assert(rest[j] == causes[j + 1]);
        }
        lemma_no_connection(rest);
    }
}

proof fn lemma_first_connection(causes: Seq<Cause>, i: int)
    requires
        0 <= i < causes.len(),
        is_connection(causes[i]),
        forall|j: int| 0 <= j < i ==> !is_connection(#[trigger] causes[j]),
    ensures
        connection_cause(causes) == connection_cause(causes.skip(i)),
    decreases i,
{
    if i > 0 {
        assert(!is_connection(causes[0]));
        let rest = causes.skip(1);
        assert forall|j: int| 0 <= j < i - 1 implies !is_connection(#[trigger] rest[j]) by {
            assert(rest[j] == causes[j + 1]);
        }
        lemma_first_connection(rest, i - 1);
        assert(rest.skip(i - 1) =~= causes.skip(i));
    } else {
        assert(causes.skip(0) =~= causes);
    }
}

proof fn lemma_no_protocol(causes: Seq<Cause>)
    requires
        forall|j: int| 0 <= j < causes.len() ==> !is_protocol(#[trigger] causes[j]),
    ensures
        hyper_cause(causes) is None,
    decreases causes.len(),
{
    if causes.len() > 0 {
        assert(!is_protocol(causes[0]));
        let rest = causes.skip(1);
        assert forall|j: int| 0 <= j < rest.len() implies !is_protocol(#[trigger] rest[j]) by {
            assert(rest[j] == causes[j + 1]);
        }
        lemma_no_protocol(rest);
    }
}

proof fn lemma_first_protocol(causes: Seq<Cause>, i: int)
    requires
        0 <= i < causes.len(),
        is_protocol(causes[i]),
        forall|j: int| 0 <= j < i ==> !is_protocol(#[trigger] causes[j]),
    ensures
        hyper_cause(causes) == hyper_cause(causes.skip(i)),
    decreases i,
{
    if i > 0 {
        assert(!is_protocol(causes[0]));
        let rest = causes.skip(1);
        assert forall|j: int| 0 <= j < i - 1 implies !is_protocol(#[trigger] rest[j]) by {
            assert(rest[j] == causes[j + 1]);
        }
        lemma_first_protocol(rest, i - 1);
        assert(rest.skip(i - 1) =~= causes.skip(i));
    } else {
        assert(causes.skip(0) =~= causes);
    }
}

proof fn lemma_no_client(causes: Seq<Cause>)
    requires
        forall|j: int| 0 <= j < causes.len() ==> !is_client(#[trigger] causes[j]),
    ensures
        client_cause(causes) is None,
    decreases causes.len(),
{
    if causes.len() > 0 {
        assert(!is_client(causes[0]));
        let rest = causes.skip(1);
        assert forall|j: int| 0 <= j < rest.len() implies !is_client(#[trigger] rest[j]) by {
            assert(rest[j] == causes[j + 1]);
        }
        lemma_no_client(rest);
    }
}

proof fn lemma_first_client(causes: Seq<Cause>, i: int)
    requires
        0 <= i < causes.len(),
        is_client(causes[i]),
        forall|j: int| 0 <= j < i ==> !is_client(#[trigger] causes[j]),
    ensures
        client_cause(causes) == client_cause(causes.skip(i)),
    decreases i,
{
    if i > 0 {
        assert(!is_client(causes[0]));
        let rest = causes.skip(1);
        assert forall|j: int| 0 <= j < i - 1 implies !is_client(#[trigger] rest[j]) by {
            assert(rest[j] == causes[j + 1]);
        }
        lemma_first_client(rest, i - 1);
        assert(rest.skip(i - 1) =~= causes.skip(i));
    } else {
        assert(causes.skip(0) =~= causes);
    }
}

/// A timing has all the time of a failed request, from when it ran.
pub open spec fn has_all(timing: Timing, info: RequestInfo, duration: TimeDelta) -> bool {
    timing.duration_us == duration.nanos / 1000 && info.request_duration_us == duration.nanos
        / 1000
}

/// The step that failed has all the time of the request: the lookup where a cause is the
/// resolver's, else the connection where one was refused or reset, else the handshake
/// where a cause is the handshake's, and else the sending of the request.
pub proof fn law_the_step_that_failed_has_all_the_time(
    info: RequestInfo,
    config: CheckConfig,
    failure: RequestFailure,
    at: Timestamp,
    duration: TimeDelta,
    looked_up: bool,
    connected: bool,
    shaken: bool,
)
    requires
        tells_of_failure(info, config, failure, at, duration),
        can_be_told(duration),
        looked_up == !exists|j: int|
            0 <= j < failure.causes@.len() && is_resolver(#[trigger] failure.causes@[j]),
        connected == !exists|j: int|
            0 <= j < failure.causes@.len() && is_connection(#[trigger] failure.causes@[j]),
        shaken == !exists|j: int|
            0 <= j < failure.causes@.len() && is_handshake(#[trigger] failure.causes@[j]),
    ensures
        !looked_up ==> has_all(info.durations.dns_lookup, info, duration),
        looked_up && !connected ==> has_all(info.durations.tcp_connection, info, duration),
        looked_up && connected && !shaken ==> has_all(
            info.durations.tls_handshake,
            info,
            duration,
        ),
        looked_up && connected && shaken ==> has_all(info.durations.send_request, info, duration),
{
    let causes = failure.causes@;
    if looked_up {
        lemma_no_resolver(causes);
    } else {
        lemma_some_resolver(causes);
    }
    if connected {
        lemma_no_connection(causes);
    } else {
        lemma_some_connection(causes);
    }
    if shaken {
        lemma_no_handshake(causes);
    } else {
        lemma_some_handshake(causes);
    }
}

proof fn lemma_some_resolver(causes: Seq<Cause>)
    requires
        exists|j: int| 0 <= j < causes.len() && is_resolver(#[trigger] causes[j]),
    ensures
        dns_cause(causes) is Some,
    decreases causes.len(),
{
    let j = choose|j: int| 0 <= j < causes.len() && is_resolver(#[trigger] causes[j]);
    if !is_resolver(causes[0]) {
        assert(is_resolver(causes.skip(1)[j - 1]));
        lemma_some_resolver(causes.skip(1));
    }
}

proof fn lemma_some_connection(causes: Seq<Cause>)
    requires
        exists|j: int| 0 <= j < causes.len() && is_connection(#[trigger] causes[j]),
    ensures
        connection_cause(causes) is Some,
    decreases causes.len(),
{
    let j = choose|j: int| 0 <= j < causes.len() && is_connection(#[trigger] causes[j]);
    if !is_connection(causes[0]) {
        assert(is_connection(causes.skip(1)[j - 1]));
        lemma_some_connection(causes.skip(1));
    }
}

proof fn lemma_some_handshake(causes: Seq<Cause>)
    requires
        exists|j: int| 0 <= j < causes.len() && is_handshake(#[trigger] causes[j]),
    ensures
        tls_cause(causes) is Some,
    decreases causes.len(),
{
    let j = choose|j: int| 0 <= j < causes.len() && is_handshake(#[trigger] causes[j]);
    if !is_handshake(causes[0]) {
        assert(is_handshake(causes.skip(1)[j - 1]));
        lemma_some_handshake(causes.skip(1));
    }
}

/// Of a failed request all steps are told from when the check ran, and what it was to
/// be.
pub proof fn law_failed_requests_are_told_for_what_they_are(
    info: RequestInfo,
    config: CheckConfig,
    failure: RequestFailure,
    at: Timestamp,
    duration: TimeDelta,
)
    requires
        tells_of_failure(info, config, failure, at, duration),
        at.in_calendar(),
        0 <= at.secs,
    ensures
        info.durations.dns_lookup.start_us * 1000 <= at.in_nanos()
            < info.durations.dns_lookup.start_us * 1000 + 1000,
        info.durations.tcp_connection.start_us == info.durations.dns_lookup.start_us,
        info.durations.tls_handshake.start_us == info.durations.dns_lookup.start_us,
        info.durations.send_request.start_us == info.durations.dns_lookup.start_us,
        info.durations.time_to_first_byte.start_us == info.durations.dns_lookup.start_us,
        info.durations.receive_response.start_us == info.durations.dns_lookup.start_us,
        info.durations.time_to_first_byte.duration_us == 0,
        info.durations.receive_response.duration_us == 0,
        info.http_status_code == failure.status,
        info.request_type == config.request_method,
        info.url@ == config.url@,
        info.certificate_info is None,
{
}

/// A response passes where its status is one of the two hundreds, and nowhere else; else
/// the reason names the status. A request without a response does not pass.
pub proof fn law_two_hundreds_pass(
    status: u16,
    stats: Vec<RequestStats>,
    failure: RequestFailure,
)
    ensures
        (Outcome::Response { status, stats }).passed() <==> status / 100 == 2,
        status / 100 != 2 ==> (Outcome::Response { status, stats }).reason() == Some(
            (CheckStatusReasonType::Failure, "Got non 2xx status: "@ + status_line(status)),
        ),
        !Outcome::Failed(failure).passed(),
{
}

/// A failed request is billed for exactly one step.
pub proof fn law_one_step_is_billed(failure: RequestFailure, at: Timestamp, duration: TimeDelta)
    requires
        can_be_told(duration),
    ensures
        ({
            let d = billed(failure, at, duration);
            d.dns_lookup.duration_us + d.tcp_connection.duration_us + d.tls_handshake.duration_us
                + d.time_to_first_byte.duration_us + d.send_request.duration_us
                + d.receive_response.duration_us == duration.nanos / 1000
        }),
{
}

/// A URL.
#[verifier::external_type_specification]
#[verifier::external_body]
pub struct ExUrl(reqwest::Url);

/// The URL that a text denotes.
pub uninterp spec fn url_in(s: Seq<char>) -> Option<reqwest::Url>;

/// `reqwest::Url::parse`: the URL that a text denotes. Which texts denote one is named,
/// not spelled out.
#[verifier::external_body]
fn parse_url(s: &str) -> (r: Option<reqwest::Url>)
    ensures
        r == url_in(s@),
{
    reqwest::Url::parse(s).ok()
}

/// A URL as it is written.
pub uninterp spec fn url_text(url: reqwest::Url) -> Seq<char>;

/// `reqwest::Url::as_str`: the URL as it is written, which is named, not spelled out.
#[verifier::external_body]
fn write_url(url: &reqwest::Url) -> (r: String)
    ensures
        r@ == url_text(*url),
{
    url.as_str().to_owned()
}

/// The URL with another path.
pub uninterp spec fn url_with_path(url: reqwest::Url, path: Seq<char>) -> reqwest::Url;

/// `reqwest::Url::set_path`: the URL with another path, which is named, not spelled
/// out.
#[verifier::external_body]
fn set_path(url: &reqwest::Url, path: &str) -> (r: reqwest::Url)
    ensures
        r == url_with_path(*url, path@),
{
    let mut changed = url.clone();
    changed.set_path(path);
    changed
}

/// Where a check's robots.txt lies, and the URL that it is asked about.
#[derive(Debug)]
pub struct RobotsTarget {
    pub robots_url: String,
    pub url: String,
}

/// Where the robots.txt of a check's URL lies. A URL that is none has no robots.txt.
pub fn robots_target(config: &CheckConfig) -> (r: Option<RobotsTarget>)
    ensures
        match url_in(config.url@) {
            None => r is None,
            Some(url) => r matches Some(t) && t.url@ == url_text(url) && t.robots_url@ == url_text(
                url_with_path(url, "robots.txt"@),
            ),
        },
{
    match parse_url(config.url.as_str()) {
        None => None,
        Some(url) => {
            let robots_url = set_path(&url, "robots.txt");
            Some(RobotsTarget { robots_url: write_url(&robots_url), url: write_url(&url) })
        },
    }
}

/// What has been read of a robots.txt.
#[derive(Debug)]
pub struct RobotsBody {
    pub bytes: Vec<u8>,
}

impl RobotsBody {
    /// Nothing has been read.
    pub fn new() -> (r: RobotsBody)
        ensures
            r.bytes@ == Seq::<u8>::empty(),
    {
        RobotsBody { bytes: Vec::new() }
    }

    /// Takes in a chunk, and says whether that is enough.
    pub fn push(&mut self, chunk: Vec<u8>) -> (r: bool)
        ensures
            final(self).bytes@ == old(self).bytes@ + chunk@,
            r == (final(self).bytes@.len() > ROBOTS_TXT_LIMIT),
    {
        let mut chunk = chunk;
        self.bytes.append(&mut chunk);
        self.bytes.len() > ROBOTS_TXT_LIMIT
    }
}

/// How long reading a robots.txt may still take, in milliseconds.
pub open spec fn time_left(elapsed_ms: u64) -> int {
    if elapsed_ms >= ROBOTS_TXT_TIME_MS {
        0
    } else {
        ROBOTS_TXT_TIME_MS - elapsed_ms
    }
}

/// How long reading a robots.txt may still take, in milliseconds.
pub fn robots_time_left(elapsed_ms: u64) -> (r: u64)
    ensures
        r == time_left(elapsed_ms),
{
    if elapsed_ms >= ROBOTS_TXT_TIME_MS {
        0
    } else {
        ROBOTS_TXT_TIME_MS - elapsed_ms
    }
}

/// The rules of a robots.txt for one agent.
#[verifier::external_type_specification]
#[verifier::external_body]
pub struct ExRobot(texting_robots::Robot);

/// The rules that a robots.txt has for an agent.
pub uninterp spec fn robot_in(agent: Seq<char>, txt: Seq<u8>) -> Option<texting_robots::Robot>;

/// `texting_robots::Robot::new`: the rules that a robots.txt has for an agent. What
/// they are is named, not spelled out.
#[verifier::external_body]
fn parse_robots(agent: &str, txt: &[u8]) -> (r: Option<texting_robots::Robot>)
    ensures
        r == robot_in(agent@, txt@),
{
    texting_robots::Robot::new(agent, txt).ok()
}

/// The rules allow a URL.
pub uninterp spec fn robot_allows(robot: texting_robots::Robot, url: Seq<char>) -> bool;

/// `texting_robots::Robot::allowed`: whether the rules allow a URL, which is named, not
/// spelled out.
#[verifier::external_body]
fn allowed(robot: &texting_robots::Robot, url: &str) -> (r: bool)
    ensures
        r == robot_allows(*robot, url@),
{
    robot.allowed(url)
}

/// A URL is disallowed: there are rules, and they do not allow it.
pub open spec fn disallowed(txt: Seq<u8>, url: Seq<char>) -> bool {
    robot_in(ROBOTS_AGENT@, txt) matches Some(robot) && !robot_allows(robot, url)
}

/// What is told of a check that was not allowed to run.
pub open spec fn tells_of_robots(
    r: CheckResult,
    check: ScheduledCheck,
    region: Seq<char>,
    at: Timestamp,
    span_id: u64,
) -> bool {
    &&& identifies(r, check, region, at, span_id)
    &&& r.status == CheckStatus::DisallowedByRobots
    &&& r.status_reason is None
    &&& r.duration is None
    &&& r.duration_us is None
    &&& r.request_info is None
    &&& r.request_info_list@.len() == 0
}

/// The result of a check whose URL its robots.txt does not allow.
pub fn disallowed_result(
    check: &ScheduledCheck,
    region: &str,
    actual_check_time: Timestamp,
    span_id: u64,
) -> (r: CheckResult)
    requires
        check.at().time.in_calendar(),
    ensures
        tells_of_robots(r, *check, region@, actual_check_time, span_id),
{
    let config = check.get_config();
    let trace_id = make_trace_id(config, check.get_tick(), check.get_retry());
    CheckResult {
        guid: trace_id,
        subscription_id: config.subscription_id,
        status: CheckStatus::DisallowedByRobots,
        status_reason: None,
        trace_id,
        span_id,
        scheduled_check_time: check.get_tick().time(),
        scheduled_check_time_us: check.get_tick().time(),
        actual_check_time,
        actual_check_time_us: actual_check_time,
        duration: None,
        duration_us: None,
        request_info: None,
        request_info_list: Vec::new(),
        region: region.to_owned(),
    }
}

/// Holds a check's URL against its robots.txt: a result iff the URL is one and is
/// disallowed.
pub fn check_robots(
    check: &ScheduledCheck,
    region: &str,
    robots_txt: &[u8],
    actual_check_time: Timestamp,
    span_id: u64,
) -> (r: Option<CheckResult>)
    requires
        check.at().time.in_calendar(),
    ensures
        r is Some <==> (url_in(check.of().url@) matches Some(url) && disallowed(
            robots_txt@,
            url_text(url),
        )),
        r matches Some(result) ==> tells_of_robots(
            result,
            *check,
            region@,
            actual_check_time,
            span_id,
        ),
{
    let url = match parse_url(check.get_config().url.as_str()) {
        None => return None,
        Some(url) => write_url(&url),
    };
    match parse_robots(ROBOTS_AGENT, robots_txt) {
        None => None,
        Some(robot) => if allowed(&robot, url.as_str()) {
            None
        } else {
            Some(disallowed_result(check, region, actual_check_time, span_id))
        },
    }
}

/// The headers of a check are sent in their order: those of two lists are those of the
/// one, and behind them those of the other. One that can be sent is, with its value as it
/// is, and another is not.
pub proof fn law_headers_are_sent_in_order(
    front: Seq<(String, String)>,
    back: Seq<(String, String)>,
    header: (String, String),
)
    ensures
        sendable(front + back) == sendable(front) + sendable(back),
        is_header_name(header.0@) && is_header_value(header.1@) ==> sendable(seq![header]) == seq![
            (lower_case(header.0@), header.1@),
        ],
        !(is_header_name(header.0@) && is_header_value(header.1@)) ==> sendable(
            seq![header],
        ).len() == 0,
    decreases back.len(),
{
    let one = seq![header];
    assert(one.drop_last() =~= Seq::<(String, String)>::empty());
    assert(sendable(one.drop_last()) =~= Seq::<(Seq<char>, Seq<char>)>::empty());
    if is_header_name(header.0@) && is_header_value(header.1@) {
        assert(sendable(one) =~= seq![(lower_case(header.0@), header.1@)]);
    }
    if back.len() > 0 {
        let fewer = back.drop_last();
        law_headers_are_sent_in_order(front, fewer, header);
        assert((front + back).drop_last() =~= front + fewer);
        assert((front + back).last() == back.last());
        assert(sendable(front + back) =~= sendable(front) + sendable(back));
    } else {
        assert(front + back =~= front);
        assert(sendable(front + back) =~= sendable(front) + sendable(back));
    }
}

/// The characters of a header's name are the visible ones but for quotes, brackets and
/// the other signs that separate.
pub proof fn law_names_are_made_of_visible_signs(c: char)
    ensures
        is_token(c) <==> 33 <= c as u32 <= 126 && c != '"' && c != '(' && c != ')' && c != ',' && c
            != '/' && c != ':' && c != ';' && c != '<' && c != '=' && c != '>' && c != '?' && c
            != '@' && c != '[' && c != '\\' && c != ']' && c != '{' && c != '}',
{
}

/// Names are written small: each capital becomes the letter that it is the capital of, and
/// all else stays.
pub proof fn law_names_are_written_small(s: Seq<char>, i: int)
    requires
        0 <= i < s.len(),
    ensures
        lower_case(s).len() == s.len(),
        'A' <= s[i] && s[i] <= 'Z' ==> lower_case(s)[i] as int - 'a' as int == s[i] as int
            - 'A' as int,
        !('A' <= s[i] && s[i] <= 'Z') ==> lower_case(s)[i] == s[i],
        lower_case(lower_case(s)) == lower_case(s),
{
    assert(lower_case(lower_case(s)) =~= lower_case(s));
}

/// Times are told in whole microseconds since the start of the epoch.
pub proof fn law_times_are_told_in_microseconds(at: Timestamp)
    requires
        0 <= at.secs,
        at.nanos < 1_000_000_000,
    ensures
        1000 * epoch_micros(at) <= at.in_nanos() < 1000 * epoch_micros(at) + 1000,
{
}

/// A result names the run that it is of: by its subscription, the time that it was planned
/// for and the time that it began.
pub proof fn law_results_name_their_run(
    r: CheckResult,
    check: ScheduledCheck,
    region: Seq<char>,
    at: Timestamp,
    span_id: u64,
)
    requires
        identifies(r, check, region, at, span_id),
    ensures
        r.subscription_id == check.of().subscription_id,
        r.scheduled_check_time == check.at().time && r.scheduled_check_time_us == check.at().time,
        r.actual_check_time == at && r.actual_check_time_us == at,
        r.guid == trace_id_of(check.of(), check.at(), check.retries()) && r.trace_id == r.guid,
        r.span_id == span_id && r.region@ == region,
{
}

/// The result of a run that robots.txt forbids names the run; no request was made, so
/// nothing was measured.
pub proof fn law_forbidden_runs_are_told_as_forbidden(
    r: CheckResult,
    check: ScheduledCheck,
    region: Seq<char>,
    at: Timestamp,
    span_id: u64,
)
    requires
        tells_of_robots(r, check, region, at, span_id),
    ensures
        identifies(r, check, region, at, span_id),
        r.status is DisallowedByRobots,
        r.status_reason is None && r.duration is None && r.duration_us is None,
        r.request_info is None && r.request_info_list@.len() == 0,
{
}

/// Reading a robots.txt may take ten seconds in all.
pub proof fn law_robots_have_ten_seconds(elapsed_ms: u64)
    ensures
        elapsed_ms <= 10 * 1000 ==> elapsed_ms + time_left(elapsed_ms) == 10 * 1000,
        elapsed_ms >= 10 * 1000 ==> time_left(elapsed_ms) == 0,
{
}

/// A url is forbidden where there are rules and they do not allow it.
pub proof fn law_urls_are_forbidden_by_rules(txt: Seq<u8>, url: Seq<char>)
    ensures
        robot_in("SentryUptimeBot"@, txt) is None ==> !disallowed(txt, url),
        robot_in("SentryUptimeBot"@, txt) matches Some(robot) ==> disallowed(txt, url)
            == !robot_allows(robot, url),
{
}

} // verus!
