//! The result of a check.

use super::shared::RequestMethod;
use crate::text;
use crate::text::decimal;
use crate::time::{TimeDelta, Timestamp};
use vstd::prelude::*;

verus! {

/// The status of a check.
#[derive(Clone, Copy, Debug, PartialEq, Eq, Structural)]
pub enum CheckStatus {
    Success,
    Failure,
    MissedWindow,
    DisallowedByRobots,
}

/// Why a check failed.
#[derive(Clone, Copy, Debug, PartialEq, Eq, Structural)]
pub enum CheckStatusReasonType {
    Timeout,
    DnsError,
    TlsError,
    ConnectionError,
    RedirectError,
    Failure,
    AssertionError,
    AssertionFailure,
}

impl CheckStatusReasonType {
    /// The reason as it is reported.
    pub open spec fn name(self) -> Seq<char> {
        match self {
            CheckStatusReasonType::Timeout => "timeout"@,
            CheckStatusReasonType::DnsError => "dns_error"@,
            CheckStatusReasonType::TlsError => "tls_error"@,
            CheckStatusReasonType::ConnectionError => "connection_error"@,
            CheckStatusReasonType::RedirectError => "redirect_error"@,
            CheckStatusReasonType::Failure => "failure"@,
            CheckStatusReasonType::AssertionError => "assertion_error"@,
            CheckStatusReasonType::AssertionFailure => "assertion_failure"@,
        }
    }

    /// The reason as it is reported.
    pub fn as_str(&self) -> (r: &'static str)
        ensures
            r@ == self.name(),
    {
        match self {
            CheckStatusReasonType::Timeout => "timeout",
            CheckStatusReasonType::DnsError => "dns_error",
            CheckStatusReasonType::TlsError => "tls_error",
            CheckStatusReasonType::ConnectionError => "connection_error",
            CheckStatusReasonType::RedirectError => "redirect_error",
            CheckStatusReasonType::Failure => "failure",
            CheckStatusReasonType::AssertionError => "assertion_error",
            CheckStatusReasonType::AssertionFailure => "assertion_failure",
        }
    }
}

/// Why a check has its status, in a word and in a sentence.
#[derive(Debug, PartialEq, Eq)]
pub struct CheckStatusReason {
    pub status_type: CheckStatusReasonType,
    pub description: String,
}

/// When a step of a request began, in microseconds since the epoch, and how long it
/// took.
#[derive(Clone, Copy, Debug, PartialEq, Eq, Structural)]
pub struct Timing {
    pub start_us: u128,
    pub duration_us: u64,
}

impl Default for Timing {
    fn default() -> (r: Self)
        ensures
            r == (Timing { start_us: 0, duration_us: 0 }),
    {
        Timing { start_us: 0, duration_us: 0 }
    }
}

/// From when until when a certificate is valid, in seconds since the epoch.
#[derive(Clone, Copy, Debug, PartialEq, Eq, Structural)]
pub struct CertificateInfo {
    pub not_before_timestamp_s: u64,
    pub not_after_timestamp_s: u64,
}

impl Default for CertificateInfo {
    fn default() -> (r: Self)
        ensures
            r == (CertificateInfo { not_before_timestamp_s: 0, not_after_timestamp_s: 0 }),
    {
        CertificateInfo { not_before_timestamp_s: 0, not_after_timestamp_s: 0 }
    }
}

/// The steps of a request.
#[derive(Clone, Copy, Debug, PartialEq, Eq, Structural)]
pub struct RequestDurations {
    pub dns_lookup: Timing,
    pub tcp_connection: Timing,
    pub tls_handshake: Timing,
    pub time_to_first_byte: Timing,
    /// From the end of the handshakes until the payload is sent.
    pub send_request: Timing,
    /// From the first byte of the header until the end of the request.
    pub receive_response: Timing,
}

impl Default for RequestDurations {
    fn default() -> (r: Self)
        ensures
            r.dns_lookup == (Timing { start_us: 0, duration_us: 0 }),
            r.tcp_connection == r.dns_lookup,
            r.tls_handshake == r.dns_lookup,
            r.time_to_first_byte == r.dns_lookup,
            r.send_request == r.dns_lookup,
            r.receive_response == r.dns_lookup,
    {
        let none = Timing { start_us: 0, duration_us: 0 };
        RequestDurations {
            dns_lookup: none,
            tcp_connection: none,
            tls_handshake: none,
            time_to_first_byte: none,
            send_request: none,
            receive_response: none,
        }
    }
}

/// A timing can be told relative to a reference.
pub open spec fn timing_after(reference: u128, timing: Timing) -> bool {
    reference <= timing.start_us && timing.start_us - reference + timing.duration_us <= u128::MAX
}

/// Start and end of a timing, relative to a reference.
fn to_timings(reference: u128, start: u128, duration: u64) -> (r: (u128, u128))
    requires
        timing_after(reference, Timing { start_us: start, duration_us: duration }),
    ensures
        r.0 == start - reference,
        r.1 == start - reference + duration,
{
    (start - reference, (start - reference) + duration as u128)
}

/// A timing in words, relative to a reference.
pub open spec fn timing_text(reference: u128, timing: Timing) -> Seq<char> {
    decimal((timing.start_us - reference) as nat) + " - "@ + decimal(
        (timing.start_us - reference + timing.duration_us) as nat,
    )
}

fn describe_timing(reference: u128, timing: Timing) -> (r: String)
    requires
        timing_after(reference, timing),
    ensures
        r@ == timing_text(reference, timing),
{
    let (start, end) = to_timings(reference, timing.start_us, timing.duration_us);
    text::decimal_of(start).concat(" - ").concat(text::decimal_of(end).as_str())
}

impl RequestDurations {
    /// Every step but the wait for the first byte comes after the start of the lookup.
    pub open spec fn after_lookup(self) -> bool {
        &&& timing_after(self.dns_lookup.start_us, self.dns_lookup)
        &&& timing_after(self.dns_lookup.start_us, self.tcp_connection)
        &&& timing_after(self.dns_lookup.start_us, self.tls_handshake)
        &&& timing_after(self.dns_lookup.start_us, self.send_request)
        &&& timing_after(self.dns_lookup.start_us, self.receive_response)
    }

    /// The steps in words, relative to the start of the lookup.
    pub open spec fn words(self) -> Seq<char> {
        let reference = self.dns_lookup.start_us;
        "RequestDurations { dns_lookup: "@ + timing_text(reference, self.dns_lookup)
            + ", tcp_connection: "@ + timing_text(reference, self.tcp_connection)
            + ", tls_handshake: "@ + timing_text(reference, self.tls_handshake)
            + ", send_request: "@ + timing_text(reference, self.send_request)
            + ", receive_response: "@ + timing_text(reference, self.receive_response) + " }"@
    }

    /// The steps in words, relative to the start of the lookup.
    pub fn describe(&self) -> (r: String)
        requires
            self.after_lookup(),
        ensures
            r@ == self.words(),
    {
        let reference = self.dns_lookup.start_us;
        "RequestDurations { dns_lookup: ".to_owned().concat(
            describe_timing(reference, self.dns_lookup).as_str(),
        ).concat(", tcp_connection: ").concat(
            describe_timing(reference, self.tcp_connection).as_str(),
        ).concat(", tls_handshake: ").concat(
            describe_timing(reference, self.tls_handshake).as_str(),
        ).concat(", send_request: ").concat(
            describe_timing(reference, self.send_request).as_str(),
        ).concat(", receive_response: ").concat(
            describe_timing(reference, self.receive_response).as_str(),
        ).concat(" }")
    }
}

/// One request of a check.
#[derive(Debug, PartialEq, Eq)]
pub struct RequestInfo {
    pub request_type: RequestMethod,
    /// The status of the response. Empty where none came.
    pub http_status_code: Option<u16>,
    pub url: String,
    pub request_body_size_bytes: u32,
    pub response_body_size_bytes: u32,
    pub request_duration_us: u64,
    pub durations: RequestDurations,
    /// The leaf certificate of the connection, if there was one.
    pub certificate_info: Option<CertificateInfo>,
}

impl Clone for RequestInfo {
    fn clone(&self) -> (r: Self)
        ensures
            r == *self,
    {
        RequestInfo {
            request_type: self.request_type,
            http_status_code: self.http_status_code,
            url: self.url.clone(),
            request_body_size_bytes: self.request_body_size_bytes,
            response_body_size_bytes: self.response_body_size_bytes,
            request_duration_us: self.request_duration_us,
            durations: self.durations,
            certificate_info: self.certificate_info,
        }
    }
}

/// A stretch on the process's clock, in nanoseconds.
#[derive(Clone, Copy, Debug, PartialEq, Eq, Structural)]
pub struct Stretch {
    pub start: u64,
    pub end: u64,
}

/// How a connection was made. A step that did not happen is empty.
#[derive(Clone, Copy, Debug, PartialEq, Eq, Structural)]
pub struct ConnectionStats {
    pub dns_resolve: Option<Stretch>,
    pub connect: Option<Stretch>,
    pub tls_connect: Option<Stretch>,
}

/// What was measured of one request, times being nanoseconds on the process's clock.
#[derive(Debug)]
pub struct RequestStats {
    /// How its connection was made. Empty where a pooled connection was used.
    pub connection: Option<ConnectionStats>,
    pub request_start: u64,
    /// The start in microseconds since the epoch.
    pub request_start_timestamp_us: u128,
    pub request_sent: Option<u64>,
    pub response_start: Option<u64>,
    pub request_end: u64,
    pub status_code: u16,
    pub request_body_size: u32,
    pub url: String,
    /// The leaf certificate in DER.
    pub certificate: Option<Vec<u8>>,
}

/// Microseconds from one point on the clock to a later one, and none to an earlier
/// one.
pub open spec fn micros_between(from: u64, to: u64) -> int {
    if from <= to {
        (to - from) / 1000
    } else {
        0
    }
}

fn micros(from: u64, to: u64) -> (r: u64)
    ensures
        r == micros_between(from, to),
{
    if from <= to {
        (to - from) / 1000
    } else {
        0
    }
}

/// A stretch on the clock as a timing, where `reference` on the clock is
/// `reference_ts` since the epoch.
pub open spec fn timing_of(reference_ts: u128, reference: u64, start: u64, end: u64) -> Timing {
    Timing {
        start_us: (reference_ts + micros_between(reference, start)) as u128,
        duration_us: micros_between(start, end) as u64,
    }
}

fn to_timing(reference_ts: u128, reference: u64, start: u64, end: u64) -> (r: Timing)
    requires
        reference_ts + micros_between(reference, start) <= u128::MAX,
    ensures
        r == timing_of(reference_ts, reference, start, end),
{
    Timing {
        start_us: reference_ts + micros(reference, start) as u128,
        duration_us: micros(start, end),
    }
}

/// What was measured of a step, or nothing at the start of the request.
pub open spec fn stretch_or_nothing(step: Option<Stretch>, request_start: u64) -> Stretch {
    match step {
        Some(stretch) => stretch,
        None => Stretch { start: request_start, end: request_start },
    }
}

/// What was measured of a point, or the start of the request.
pub open spec fn point_or_start(point: Option<u64>, request_start: u64) -> u64 {
    match point {
        Some(at) => at,
        None => request_start,
    }
}

impl RequestStats {
    /// How the connection was made. A pooled connection took no steps.
    pub open spec fn connection_steps(self) -> ConnectionStats {
        match self.connection {
            Some(steps) => steps,
            None => ConnectionStats { dns_resolve: None, connect: None, tls_connect: None },
        }
    }

    /// When the connection stood: at the end of the last step of making it.
    pub open spec fn connected_at(self) -> u64 {
        let steps = self.connection_steps();
        match steps.tls_connect {
            Some(tls) => tls.end,
            None => stretch_or_nothing(steps.connect, self.request_start).end,
        }
    }

    /// Every step starts at a time that can be told.
    pub open spec fn can_be_told(self) -> bool {
        let steps = self.connection_steps();
        let fits = |start: u64|
            self.request_start_timestamp_us + micros_between(self.request_start, start)
                <= u128::MAX;
        &&& fits(stretch_or_nothing(steps.dns_resolve, self.request_start).start)
        &&& fits(stretch_or_nothing(steps.connect, self.request_start).start)
        &&& fits(stretch_or_nothing(steps.tls_connect, self.request_start).start)
        &&& fits(point_or_start(self.request_sent, self.request_start))
        &&& fits(self.connected_at())
        &&& fits(point_or_start(self.response_start, self.request_start))
    }

    /// The steps of the request.
    pub open spec fn durations(self) -> RequestDurations {
        let steps = self.connection_steps();
        let timing = |start: u64, end: u64|
            timing_of(self.request_start_timestamp_us, self.request_start, start, end);
        let dns = stretch_or_nothing(steps.dns_resolve, self.request_start);
        let tcp = stretch_or_nothing(steps.connect, self.request_start);
        let tls = stretch_or_nothing(steps.tls_connect, self.request_start);
        let sent = point_or_start(self.request_sent, self.request_start);
        let answered = point_or_start(self.response_start, self.request_start);
        RequestDurations {
            dns_lookup: timing(dns.start, dns.end),
            tcp_connection: timing(tcp.start, tcp.end),
            tls_handshake: timing(tls.start, tls.end),
            time_to_first_byte: timing(sent, answered),
            send_request: timing(self.connected_at(), sent),
            receive_response: timing(answered, self.request_end),
        }
    }
}

/// The days and seconds from the epoch to the ends of a certificate's validity.
#[derive(Clone, Copy, Debug, PartialEq, Eq, Structural)]
pub struct Validity {
    pub not_before_days: i32,
    pub not_before_secs: i32,
    pub not_after_days: i32,
    pub not_after_secs: i32,
}

/// A certificate as openssl holds it.
#[verifier::external_type_specification]
#[verifier::external_body]
pub struct ExX509(openssl::x509::X509);

/// The bytes that a certificate was read from.
pub uninterp spec fn read_from(certificate: openssl::x509::X509) -> Seq<u8>;

/// Bytes are a certificate in DER.
pub uninterp spec fn is_certificate(der: Seq<u8>) -> bool;

/// The days and seconds from the epoch to the time from which a certificate in DER is
/// valid.
pub uninterp spec fn start_in(der: Seq<u8>) -> Option<(i32, i32)>;

/// The days and seconds from the epoch to the time until which a certificate in DER is
/// valid.
pub uninterp spec fn end_in(der: Seq<u8>) -> Option<(i32, i32)>;

/// `X509::from_der` of openssl: whether it takes the bytes is named, and the certificate
/// it gives is the one in the bytes.
#[verifier::external_body]
fn read_certificate(der: &[u8]) -> (r: Option<openssl::x509::X509>)
    ensures
        r is Some == is_certificate(der@),
        r matches Some(certificate) ==> read_from(certificate) == der@,
{
    openssl::x509::X509::from_der(der).ok()
}

/// `Asn1Time::diff` of openssl from the epoch to the `not_before` of a certificate: it is
/// named, not spelled out. A date that openssl cannot read has none.
#[verifier::external_body]
fn read_start(certificate: &openssl::x509::X509) -> (r: Option<(i32, i32)>)
    ensures
        r == start_in(read_from(*certificate)),
{
    let epoch = openssl::asn1::Asn1Time::from_unix(0).ok()?;
    let difference = epoch.diff(certificate.not_before()).ok()?;
    Some((difference.days, difference.secs))
}

/// `Asn1Time::diff` of openssl from the epoch to the `not_after` of a certificate: it is
/// named, not spelled out. A date that openssl cannot read has none.
#[verifier::external_body]
fn read_end(certificate: &openssl::x509::X509) -> (r: Option<(i32, i32)>)
    ensures
        r == end_in(read_from(*certificate)),
{
    let epoch = openssl::asn1::Asn1Time::from_unix(0).ok()?;
    let difference = epoch.diff(certificate.not_after()).ok()?;
    Some((difference.days, difference.secs))
}

/// The validity of a certificate in DER, where the bytes are one and both its dates can
/// be read.
pub open spec fn validity_in(der: Seq<u8>) -> Option<Validity> {
    match (start_in(der), end_in(der)) {
        (Some(start), Some(end)) if is_certificate(der) => Some(
            Validity {
                not_before_days: start.0,
                not_before_secs: start.1,
                not_after_days: end.0,
                not_after_secs: end.1,
            },
        ),
        _ => None,
    }
}

/// The validity of a certificate in DER, where the bytes are one and both its dates can
/// be read.
fn read_validity(der: &[u8]) -> (r: Option<Validity>)
    ensures
        r == validity_in(der@),
{
    match read_certificate(der) {
        None => None,
        Some(certificate) => match (read_start(&certificate), read_end(&certificate)) {
            (Some(start), Some(end)) => Some(
                Validity {
                    not_before_days: start.0,
                    not_before_secs: start.1,
                    not_after_days: end.0,
                    not_after_secs: end.1,
                },
            ),
            _ => None,
        },
    }
}

/// Seconds since the epoch. A time before it wraps round at the width of 64 bits.
pub open spec fn epoch_seconds(days: i32, secs: i32) -> int {
    let total = secs + days * 86400;
    if total >= 0 {
        total
    } else {
        total + 0x1_0000_0000_0000_0000
    }
}

fn to_epoch_seconds(days: i32, secs: i32) -> (r: u64)
    ensures
        r == epoch_seconds(days, secs),
{
    let total: i64 = secs as i64 + days as i64 * 86400;
    proof {
        assert(total < 0 ==> total as u64 == total + 0x1_0000_0000_0000_0000) by (bit_vector);
    }
    total as u64
}

/// A certificate's validity in seconds since the epoch.
pub open spec fn certificate_of(validity: Validity) -> CertificateInfo {
    CertificateInfo {
        not_before_timestamp_s: epoch_seconds(
            validity.not_before_days,
            validity.not_before_secs,
        ) as u64,
        not_after_timestamp_s: epoch_seconds(
            validity.not_after_days,
            validity.not_after_secs,
        ) as u64,
    }
}

/// A certificate's validity in seconds since the epoch.
pub fn to_certificate_info(validity: Validity) -> (r: CertificateInfo)
    ensures
        r == certificate_of(validity),
{
    CertificateInfo {
        not_before_timestamp_s: to_epoch_seconds(
            validity.not_before_days,
            validity.not_before_secs,
        ),
        not_after_timestamp_s: to_epoch_seconds(validity.not_after_days, validity.not_after_secs),
    }
}

/// What is told of the certificate of a request.
pub open spec fn certificate_told(der: Option<Vec<u8>>) -> Option<CertificateInfo> {
    match der {
        None => None,
        Some(bytes) => match validity_in(bytes@) {
            None => None,
            Some(validity) => Some(certificate_of(validity)),
        },
    }
}

/// What is told of a request.
pub open spec fn tells(info: RequestInfo, stats: RequestStats, method: RequestMethod) -> bool {
    &&& info.request_type == method
    &&& info.http_status_code == Some(stats.status_code)
    &&& info.url@ == stats.url@
    &&& info.request_body_size_bytes == stats.request_body_size
    &&& info.response_body_size_bytes == 0
    &&& info.request_duration_us == micros_between(stats.request_start, stats.request_end)
    &&& info.durations == stats.durations()
    &&& info.certificate_info == certificate_told(stats.certificate)
}

fn stretch_or(step: Option<Stretch>, request_start: u64) -> (r: Stretch)
    ensures
        r == stretch_or_nothing(step, request_start),
{
    match step {
        Some(stretch) => stretch,
        None => Stretch { start: request_start, end: request_start },
    }
}

fn to_request_info(stats: &RequestStats, method: RequestMethod) -> (r: RequestInfo)
    requires
        stats.can_be_told(),
    ensures
        tells(r, *stats, method),
{
    let steps = match stats.connection {
        Some(steps) => steps,
        None => ConnectionStats { dns_resolve: None, connect: None, tls_connect: None },
    };
    let at = stats.request_start;
    let ts = stats.request_start_timestamp_us;
    let dns = stretch_or(steps.dns_resolve, at);
    let tcp = stretch_or(steps.connect, at);
    let tls = stretch_or(steps.tls_connect, at);
    // When a request goes on the wire cannot be told precisely: it is taken to happen
    // as soon as the connection stands.
    let connected = match steps.tls_connect {
        Some(tls) => tls.end,
        None => tcp.end,
    };
    let sent = match stats.request_sent {
        Some(sent) => sent,
        None => at,
    };
    let answered = match stats.response_start {
        Some(answered) => answered,
        None => at,
    };
    let certificate_info = match &stats.certificate {
        None => None,
        Some(der) => match read_validity(der.as_slice()) {
            None => None,
            Some(validity) => Some(to_certificate_info(validity)),
        },
    };
    RequestInfo {
        request_type: method,
        http_status_code: Some(stats.status_code),
        url: stats.url.clone(),
        request_body_size_bytes: stats.request_body_size,
        response_body_size_bytes: 0,
        request_duration_us: micros(at, stats.request_end),
        durations: RequestDurations {
            dns_lookup: to_timing(ts, at, dns.start, dns.end),
            tcp_connection: to_timing(ts, at, tcp.start, tcp.end),
            tls_handshake: to_timing(ts, at, tls.start, tls.end),
            time_to_first_byte: to_timing(ts, at, sent, answered),
            send_request: to_timing(ts, at, connected, sent),
            receive_response: to_timing(ts, at, answered, stats.request_end),
        },
        certificate_info,
    }
}

/// What is told of the requests of a check, one for each redirect.
pub fn to_request_info_list(stats: &Vec<RequestStats>, method: RequestMethod) -> (r: Vec<
    RequestInfo,
>)
    requires
        forall|i: int| 0 <= i < stats@.len() ==> (#[trigger] stats@[i]).can_be_told(),
    ensures
        r@.len() == stats@.len(),
        forall|i: int| 0 <= i < r@.len() ==> tells(#[trigger] r@[i], stats@[i], method),
{
    let mut list: Vec<RequestInfo> = Vec::new();
    let mut i: usize = 0;
    while i < stats.len()
        invariant
            i <= stats@.len(),
            list@.len() == i,
            forall|j: int| 0 <= j < stats@.len() ==> (#[trigger] stats@[j]).can_be_told(),
            forall|j: int| 0 <= j < i ==> tells(#[trigger] list@[j], stats@[j], method),
        decreases stats.len() - i,
    {
        list.push(to_request_info(&stats[i], method));
        i = i + 1;
    }
    list
}

/// The result of a check.
#[derive(Debug, PartialEq, Eq)]
pub struct CheckResult {
    /// The check.
    pub guid: u128,
    /// The subscription that it belongs to.
    pub subscription_id: u128,
    pub status: CheckStatus,
    pub status_reason: Option<CheckStatusReason>,
    pub trace_id: u128,
    pub span_id: u64,
    /// When the check was to run, to be told in milliseconds and in microseconds.
    pub scheduled_check_time: Timestamp,
    pub scheduled_check_time_us: Timestamp,
    /// When it ran.
    pub actual_check_time: Timestamp,
    pub actual_check_time_us: Timestamp,
    /// How long it took. Empty where it was missed.
    pub duration: Option<TimeDelta>,
    pub duration_us: Option<TimeDelta>,
    /// The last request. Empty where the check was missed.
    pub request_info: Option<RequestInfo>,
    /// All requests, redirects included.
    pub request_info_list: Vec<RequestInfo>,
    /// The region that ran the check.
    pub region: String,
}

/// The steps of a request are told in the order in which they are measured: what
/// begins later is told later.
pub proof fn law_timings_keep_order(reference_ts: u128, reference: u64, a: u64, b: u64, end: u64)
    requires
        a <= b,
        reference_ts + micros_between(reference, b) <= u128::MAX,
    ensures
        timing_of(reference_ts, reference, a, end).start_us <= timing_of(
            reference_ts,
            reference,
            b,
            end,
        ).start_us,
{
    if reference <= a {
        assert((a - reference) / 1000 <= (b - reference) / 1000);
    }
}

/// A step that did not happen takes no time, at the start of the request.
pub proof fn law_missing_steps_are_empty(stats: RequestStats)
    requires
        stats.can_be_told(),
        stats.connection is None,
    ensures
        ({
            let nothing = Timing {
                start_us: stats.request_start_timestamp_us,
                duration_us: 0,
            };
            let d = stats.durations();
            d.dns_lookup == nothing && d.tcp_connection == nothing && d.tls_handshake == nothing
        }),
{
}

/// A timing tells of a stretch on the clock: it starts as many whole microseconds behind
/// the start of the request as the stretch does, and lasts as many as the stretch.
pub open spec fn lasts(timing: Timing, stats: RequestStats, start: u64, end: u64) -> bool {
    &&& timing.start_us == stats.request_start_timestamp_us + (start - stats.request_start) / 1000
    &&& timing.duration_us == (end - start) / 1000
}

/// The lookup, the connection and the handshake of a request are told as they were
/// measured.
pub proof fn law_connection_steps_are_told_as_measured(
    info: RequestInfo,
    stats: RequestStats,
    method: RequestMethod,
)
    requires
        tells(info, stats, method),
        stats.can_be_told(),
    ensures
        stats.connection matches Some(steps) ==> (steps.dns_resolve matches Some(step)
            ==> stats.request_start <= step.start <= step.end ==> lasts(
            info.durations.dns_lookup,
            stats,
            step.start,
            step.end,
        )),
        stats.connection matches Some(steps) ==> (steps.connect matches Some(step)
            ==> stats.request_start <= step.start <= step.end ==> lasts(
            info.durations.tcp_connection,
            stats,
            step.start,
            step.end,
        )),
        stats.connection matches Some(steps) ==> (steps.tls_connect matches Some(step)
            ==> stats.request_start <= step.start <= step.end ==> lasts(
            info.durations.tls_handshake,
            stats,
            step.start,
            step.end,
        )),
{
}

/// A step of making the connection that was not measured is told as taking no time, at
/// the start of the request.
pub proof fn law_unmeasured_steps_take_no_time(
    info: RequestInfo,
    stats: RequestStats,
    method: RequestMethod,
)
    requires
        tells(info, stats, method),
        stats.can_be_told(),
    ensures
        stats.connection is None || stats.connection->0.dns_resolve is None ==> lasts(
            info.durations.dns_lookup,
            stats,
            stats.request_start,
            stats.request_start,
        ),
        stats.connection is None || stats.connection->0.connect is None ==> lasts(
            info.durations.tcp_connection,
            stats,
            stats.request_start,
            stats.request_start,
        ),
        stats.connection is None || stats.connection->0.tls_connect is None ==> lasts(
            info.durations.tls_handshake,
            stats,
            stats.request_start,
            stats.request_start,
        ),
{
}

/// The wait for the first byte is told from when the request was sent until the response
/// began, and receiving the response from then until the end.
pub proof fn law_the_response_is_told_as_measured(
    info: RequestInfo,
    stats: RequestStats,
    method: RequestMethod,
    sent: u64,
    answered: u64,
)
    requires
        tells(info, stats, method),
        stats.can_be_told(),
        stats.request_sent == Some(sent),
        stats.response_start == Some(answered),
        stats.request_start <= sent <= answered <= stats.request_end,
    ensures
        lasts(info.durations.time_to_first_byte, stats, sent, answered),
        lasts(info.durations.receive_response, stats, answered, stats.request_end),
        info.request_duration_us == (stats.request_end - stats.request_start) / 1000,
{
}

/// Sending the request is told from when the connection stood, which is the end of the
/// handshake, or without one the end of the connection, or without either the start of
/// the request.
pub proof fn law_sending_begins_once_connected(
    info: RequestInfo,
    stats: RequestStats,
    method: RequestMethod,
    connected: u64,
    sent: u64,
)
    requires
        tells(info, stats, method),
        stats.can_be_told(),
        stats.request_sent == Some(sent),
        stats.request_start <= connected <= sent,
        match stats.connection {
            None => connected == stats.request_start,
            Some(steps) => match (steps.connect, steps.tls_connect) {
                (_, Some(tls)) => connected == tls.end,
                (Some(tcp), None) => connected == tcp.end,
                (None, None) => connected == stats.request_start,
            },
        },
    ensures
        lasts(info.durations.send_request, stats, connected, sent),
{
}

/// What was not measured of sending and answering is taken to be at the start of the
/// request, and no timing is ever negative.
pub proof fn law_unmeasured_points_are_the_start(
    info: RequestInfo,
    stats: RequestStats,
    method: RequestMethod,
)
    requires
        tells(info, stats, method),
        stats.can_be_told(),
    ensures
        stats.request_sent is None && stats.response_start is None ==> lasts(
            info.durations.time_to_first_byte,
            stats,
            stats.request_start,
            stats.request_start,
        ),
        stats.response_start is None && stats.request_start <= stats.request_end ==> lasts(
            info.durations.receive_response,
            stats,
            stats.request_start,
            stats.request_end,
        ),
        stats.request_end < stats.request_start ==> info.request_duration_us == 0,
        info.durations.dns_lookup.start_us >= stats.request_start_timestamp_us,
        info.durations.tcp_connection.start_us >= stats.request_start_timestamp_us,
        info.durations.tls_handshake.start_us >= stats.request_start_timestamp_us,
        info.durations.time_to_first_byte.start_us >= stats.request_start_timestamp_us,
        info.durations.send_request.start_us >= stats.request_start_timestamp_us,
        info.durations.receive_response.start_us >= stats.request_start_timestamp_us,
{
}

/// Of a request its own address, status, size and method are told.
pub proof fn law_requests_are_told_for_what_they_are(
    info: RequestInfo,
    stats: RequestStats,
    method: RequestMethod,
)
    requires
        tells(info, stats, method),
    ensures
        info.url@ == stats.url@,
        info.http_status_code == Some(stats.status_code),
        info.request_body_size_bytes == stats.request_body_size,
        info.request_type == method,
        info.response_body_size_bytes == 0,
        stats.certificate is None ==> info.certificate_info is None,
{
}

/// The validity of a certificate is told by its two dates, each as its days and seconds
/// from the epoch, a day having as many seconds as it has; the one from which it is valid
/// comes first.
pub proof fn law_certificates_are_told_by_their_dates(validity: Validity)
    requires
        0 <= validity.not_before_days,
        0 <= validity.not_before_secs,
        0 <= validity.not_after_days,
        0 <= validity.not_after_secs,
    ensures
        certificate_of(validity).not_before_timestamp_s == 86400 * validity.not_before_days
            + validity.not_before_secs,
        certificate_of(validity).not_after_timestamp_s == 86400 * validity.not_after_days
            + validity.not_after_secs,
{
}

/// The steps of a request are written as stretches of time from the start of the first one
/// on: where each begins, and where it ends.
pub proof fn law_steps_are_written_from_the_first_on(
    reference: u128,
    timing: Timing,
    offset: nat,
)
    requires
        timing.start_us == reference + offset,
    ensures
        timing_text(reference, timing) == decimal(offset) + " - "@ + decimal(
            offset + timing.duration_us as nat,
        ),
{
}

} // verus!
