use std::sync::Arc;
use uptime_checker::check_executor::{
    complete, is_too_late, result_metrics, will_retry, Completion, ExecutorConfig, ExecutorLoad,
    ScheduledCheck, TaskMode,
};
use uptime_checker::checker::dummy_checker;
use uptime_checker::checker::dummy_checker::{DummyChecker, DummyResult};
use uptime_checker::checker::http_checker;
use uptime_checker::checker::isahc_checker;
use uptime_checker::checker::isahc_checker::{FailureKind, IsahcChecker};
use uptime_checker::checker::reqwest_checker;
use uptime_checker::checker::reqwest_checker::{
    check_robots, failure_status_reason, plan_request, response_status_reason, robots_target,
    robots_time_left, Cause, IoFault, Options, Outcome, ReqwestChecker, RequestFailure, RobotsBody,
};
use uptime_checker::checker::{
    make_trace_header, make_trace_id, robots_due, CHECKER_RESULT_NAMESPACE,
};
use uptime_checker::config_store::{ConfigStore, Tick};
use uptime_checker::scheduler::{
    after_save_fault, latest_of_batch, progress_text, schedule_checks, start_time, tick_after,
    SaveAction,
};
use uptime_checker::time::{TimeDelta, Timestamp};
use uptime_checker::types::check_config::{CheckConfig, CheckInterval};
use uptime_checker::types::result::{
    to_certificate_info, CertificateInfo, CheckResult, CheckStatus, CheckStatusReasonType,
    ConnectionStats, RequestDurations, RequestStats, Stretch, Timing, Validity,
};
use uptime_checker::types::shared::{RegionScheduleMode, RequestMethod};

const NOON: i64 = 1_717_588_800;

fn at(secs: i64) -> Timestamp {
    Timestamp { secs, nanos: 0 }
}

fn config() -> CheckConfig {
    CheckConfig {
        subscription_id: 1,
        interval: CheckInterval::OneMinute,
        timeout_ms: 10_000,
        url: "https://example.com/a?b".to_owned(),
        request_method: RequestMethod::Get,
        request_headers: Vec::new(),
        request_body: String::new(),
        trace_sampling: false,
        active_regions: None,
        region_schedule_mode: None,
    }
}

fn check_at(secs: i64) -> ScheduledCheck {
    ScheduledCheck::new_for_test(Tick::from_time(at(secs)), config())
}

fn failure(causes: Vec<Cause>) -> RequestFailure {
    RequestFailure {
        status: None,
        timeout: false,
        redirect: false,
        causes,
        debug: "something else".to_owned(),
    }
}

fn said(failure: &RequestFailure) -> (CheckStatusReasonType, String) {
    let reason = failure_status_reason(failure);
    (reason.status_type, reason.description)
}

fn stats(url: &str) -> RequestStats {
    RequestStats {
        connection: None,
        request_start: 1_000_000,
        request_start_timestamp_us: 5_000,
        request_sent: Some(1_003_000),
        response_start: Some(1_007_000),
        request_end: 1_020_000,
        status_code: 200,
        request_body_size: 3,
        url: url.to_owned(),
        certificate: None,
    }
}

#[test]
fn a_run_has_an_identifier_of_its_own() {
    let tick = Tick::from_time(at(NOON));
    let id = make_trace_id(&config(), &tick, 0);
    let name = "00000000-0000-0000-0000-000000000001-2024-06-05 12:00:00 UTC-0";
    let expected =
        uuid::Uuid::new_v5(&uuid::Uuid::from_u128(CHECKER_RESULT_NAMESPACE), name.as_bytes());
    assert_eq!(id, expected.as_u128());
    assert_eq!(make_trace_id(&config(), &tick, 0), id);
    assert_ne!(make_trace_id(&config(), &tick, 1), id);
    assert_ne!(make_trace_id(&config(), &Tick::from_time(at(NOON + 1)), 0), id);
}

#[test]
fn traces_are_sampled_only_where_asked_for() {
    let plain = make_trace_header(&config(), 0xabc, 0xdef);
    assert_eq!(plain, "00000000000000000000000000000abc-0000000000000def-0");
    let sampled = make_trace_header(&CheckConfig { trace_sampling: true, ..config() }, 0xabc, 0xdef);
    assert_eq!(sampled, "00000000000000000000000000000abc-0000000000000def");
    let grouped = http_checker::make_trace_header(&config(), 0xabc, 0xdef);
    assert_eq!(grouped, "00000000-0000-0000-0000-000000000abc-0000000000000def-0");
}

#[test]
fn robots_are_looked_at_once_a_day() {
    let five = CheckConfig { subscription_id: 7, interval: CheckInterval::FiveMinutes, ..config() };
    let due: Vec<i64> = (0..288)
        .map(|i| i * 300)
        .filter(|second| robots_due(&five, &Tick::from_time(at(*second))))
        .collect();
    assert_eq!(due, vec![600]);
    let late = CheckConfig { subscription_id: 1439, ..config() };
    assert!(robots_due(&late, &Tick::from_time(at(1439 * 60))));
    assert!(robots_due(&late, &Tick::from_time(at(-60))));
    assert!(!robots_due(&late, &Tick::from_time(at(0))));
    let hourly =
        CheckConfig { subscription_id: 1439, interval: CheckInterval::SixtyMinutes, ..config() };
    let due: Vec<i64> = (0..24)
        .map(|i| 1439 + i * 3600)
        .filter(|second| robots_due(&hourly, &Tick::from_time(at(*second))))
        .collect();
    assert_eq!(due, vec![1439]);
}

#[test]
fn requests_are_planned_from_the_configuration() {
    let asked = CheckConfig {
        request_method: RequestMethod::Post,
        request_headers: vec![
            ("Authorization".to_owned(), "Bearer my-token".to_owned()),
            ("not a name".to_owned(), "x".to_owned()),
            ("X-Bad".to_owned(), "a\nb".to_owned()),
            ("X-My-Custom-Header".to_owned(), "\tvalue".to_owned()),
        ],
        request_body: "{\"key\":\"value\"}".to_owned(),
        ..config()
    };
    let plan = plan_request(&asked, "trace");
    assert_eq!(plan.method, RequestMethod::Post);
    assert_eq!(plan.body, "{\"key\":\"value\"}");
    assert_eq!(plan.timeout_ms, 10_000);
    let headers: Vec<(&str, &str)> =
        plan.headers.iter().map(|(n, v)| (n.as_str(), v.as_str())).collect();
    assert_eq!(
        headers,
        vec![
            ("authorization", "Bearer my-token"),
            ("x-my-custom-header", "\tvalue"),
            ("sentry-trace", "trace"),
        ]
    );
}

#[test]
fn clients_are_made_as_configured() {
    let checker = ReqwestChecker::new_internal(Options::default());
    assert!(checker.external_only);
    assert!(checker.tls_info);
    assert_eq!(checker.pool_max_idle_per_host, None);
    let checker = ReqwestChecker::new(false, true, 5, None, Some("eth0".to_owned()));
    assert!(!checker.external_only);
    assert_eq!(checker.pool_max_idle_per_host, Some(0));
    assert_eq!(
        checker.user_agent,
        "SentryUptimeBot/1.0 (+http://docs.sentry.io/product/alerts/uptime-monitoring/)"
    );
    let checker = IsahcChecker::new(true, false, 90, None);
    assert_eq!(checker.redirect_limit, 9);
    assert_eq!(checker.ipv4_blacklist.len(), 15);
    assert_eq!(checker.connection_cache_size, None);
    assert_eq!(http_checker::HttpChecker::new(true).pool_max_idle_per_host, 0);
}

#[test]
fn every_failure_has_its_reason() {
    let mut timed_out = failure(vec![Cause::Resolve { message: "x".to_owned() }]);
    timed_out.timeout = true;
    assert_eq!(said(&timed_out), (CheckStatusReasonType::Timeout, "Request timed out".to_owned()));
    let mut redirected = failure(vec![]);
    redirected.redirect = true;
    assert_eq!(
        said(&redirected),
        (CheckStatusReasonType::RedirectError, "Too many redirects".to_owned())
    );
    assert_eq!(
        said(&failure(vec![Cause::Other, Cause::Resolve { message: "no host".to_owned() }])),
        (CheckStatusReasonType::DnsError, "no host".to_owned())
    );
    assert_eq!(
        said(&failure(vec![Cause::Tls {
            reasons: vec![Some("certificate verify failed".to_owned()), None]
        }])),
        (
            CheckStatusReasonType::TlsError,
            "certificate verify failed, unknown error".to_owned()
        )
    );
    assert_eq!(
        said(&failure(vec![Cause::Io(IoFault::Other), Cause::Io(IoFault::ConnectionRefused)])),
        (CheckStatusReasonType::ConnectionError, "Connection refused".to_owned())
    );
    assert_eq!(
        said(&failure(vec![
            Cause::Hyper { incomplete_message: true, message: "h".to_owned() },
            Cause::Io(IoFault::ConnectionReset)
        ])),
        (CheckStatusReasonType::ConnectionError, "Connection reset".to_owned())
    );
    assert_eq!(
        said(&failure(vec![Cause::Hyper { incomplete_message: true, message: "h".to_owned() }])),
        (CheckStatusReasonType::ConnectionError, "h".to_owned())
    );
    assert_eq!(
        said(&failure(vec![Cause::Hyper { incomplete_message: false, message: "h".to_owned() }])),
        (CheckStatusReasonType::Failure, "h".to_owned())
    );
    assert_eq!(
        said(&failure(vec![Cause::HyperClient { connect: true, message: "c".to_owned() }])),
        (CheckStatusReasonType::ConnectionError, "c".to_owned())
    );
    assert_eq!(
        said(&failure(vec![Cause::Other])),
        (CheckStatusReasonType::Failure, "something else".to_owned())
    );
    let plain = http_checker::plain_status_reason(&failure(vec![Cause::HyperClient {
        connect: true,
        message: "c".to_owned(),
    }]));
    assert_eq!(plain.description, "something else");
}

#[test]
fn every_kind_of_curl_error_has_its_reason() {
    let said = |kind| {
        let reason = isahc_checker::kind_status_reason(kind, &"m\n".to_owned());
        (reason.status_type, reason.description)
    };
    assert_eq!(said(FailureKind::Timeout), (CheckStatusReasonType::Timeout, "m\n".to_owned()));
    assert_eq!(
        said(FailureKind::TooManyRedirects),
        (CheckStatusReasonType::RedirectError, "Too many redirects".to_owned())
    );
    assert_eq!(said(FailureKind::NameResolution).0, CheckStatusReasonType::DnsError);
    assert_eq!(said(FailureKind::BadClientCertificate).0, CheckStatusReasonType::TlsError);
    assert_eq!(said(FailureKind::BadServerCertificate).0, CheckStatusReasonType::TlsError);
    assert_eq!(said(FailureKind::TlsEngine).0, CheckStatusReasonType::TlsError);
    assert_eq!(said(FailureKind::ConnectionFailed).0, CheckStatusReasonType::ConnectionError);
    assert_eq!(said(FailureKind::Io).0, CheckStatusReasonType::ConnectionError);
    assert_eq!(
        said(FailureKind::Other),
        (CheckStatusReasonType::Failure, "\"m\\n\"".to_owned())
    );
    let outcome = isahc_checker::Outcome::Response { status: 503 };
    let result = isahc_checker::to_check_result(
        &check_at(NOON),
        "us-west",
        &outcome,
        at(NOON),
        1,
        TimeDelta { nanos: 5 },
    );
    assert_eq!(result.status, CheckStatus::Failure);
    assert_eq!(
        result.status_reason.unwrap().description,
        "Got non 2xx status: 503 Service Unavailable"
    );
}

#[test]
fn only_the_two_hundreds_pass() {
    assert!(response_status_reason(200).is_none());
    assert!(response_status_reason(299).is_none());
    let reason = response_status_reason(400).unwrap();
    assert_eq!(reason.status_type, CheckStatusReasonType::Failure);
    assert_eq!(reason.description, "Got non 2xx status: 400 Bad Request");
    assert!(response_status_reason(199).is_some());
}

#[test]
fn responses_are_reported_with_all_their_requests() {
    let outcome = Outcome::Response { status: 200, stats: vec![stats("http://a"), stats("http://b")] };
    let duration = TimeDelta { nanos: 20_000 };
    let result = reqwest_checker::to_check_result(
        &check_at(NOON),
        "us-west",
        &outcome,
        at(NOON + 1),
        9,
        duration,
    );
    assert_eq!(result.status, CheckStatus::Success);
    assert!(result.status_reason.is_none());
    assert_eq!(result.guid, make_trace_id(&config(), &Tick::from_time(at(NOON)), 0));
    assert_eq!(result.region, "us-west");
    assert_eq!(result.duration, Some(duration));
    assert_eq!(result.request_info_list.len(), 2);
    let last = result.request_info.unwrap();
    assert_eq!(last.url, "http://b");
    assert_eq!(last.request_duration_us, 20);
    assert_eq!(last.durations.send_request, Timing { start_us: 5_000, duration_us: 3 });
    assert_eq!(last.durations.time_to_first_byte, Timing { start_us: 5_003, duration_us: 4 });
    assert_eq!(last.durations.receive_response, Timing { start_us: 5_007, duration_us: 13 });
    assert_eq!(last.durations.dns_lookup, Timing { start_us: 5_000, duration_us: 0 });
}

#[test]
fn a_failed_request_is_billed_for_the_step_that_failed() {
    let billed = |causes: Vec<Cause>| {
        let result = reqwest_checker::to_check_result(
            &check_at(NOON),
            "us-west",
            &Outcome::Failed(failure(causes)),
            at(2),
            9,
            TimeDelta { nanos: 7_500 },
        );
        assert_eq!(result.status, CheckStatus::Failure);
        let durations = result.request_info.unwrap().durations;
        [
            durations.dns_lookup.duration_us,
            durations.tcp_connection.duration_us,
            durations.tls_handshake.duration_us,
            durations.send_request.duration_us,
        ]
    };
    assert_eq!(billed(vec![Cause::Resolve { message: "x".to_owned() }]), [7, 0, 0, 0]);
    assert_eq!(billed(vec![Cause::Io(IoFault::ConnectionReset)]), [0, 7, 0, 0]);
    assert_eq!(billed(vec![Cause::Tls { reasons: vec![] }]), [0, 0, 7, 0]);
    assert_eq!(billed(vec![]), [0, 0, 0, 7]);
}

#[test]
fn steps_of_a_connection_are_told_in_order() {
    let mut made = stats("http://a");
    made.connection = Some(ConnectionStats {
        dns_resolve: Some(Stretch { start: 1_000_000, end: 1_001_000 }),
        connect: Some(Stretch { start: 1_001_000, end: 1_002_000 }),
        tls_connect: None,
    });
    let outcome = Outcome::Response { status: 204, stats: vec![made] };
    let result = reqwest_checker::to_check_result(
        &check_at(NOON),
        "r",
        &outcome,
        at(NOON),
        9,
        TimeDelta { nanos: 1 },
    );
    let durations = result.request_info.unwrap().durations;
    assert_eq!(durations.tcp_connection, Timing { start_us: 5_001, duration_us: 1 });
    assert_eq!(durations.send_request, Timing { start_us: 5_002, duration_us: 1 });
    assert_eq!(
        durations.describe(),
        "RequestDurations { dns_lookup: 0 - 1, tcp_connection: 1 - 2, tls_handshake: 0 - 0, \
         send_request: 2 - 3, receive_response: 7 - 20 }"
    );
    assert_eq!(RequestDurations::default().dns_lookup, Timing { start_us: 0, duration_us: 0 });
}

#[test]
fn certificates_are_told_in_seconds() {
    let validity = Validity {
        not_before_days: 1,
        not_before_secs: 5,
        not_after_days: 2,
        not_after_secs: 0,
    };
    assert_eq!(
        to_certificate_info(validity),
        CertificateInfo { not_before_timestamp_s: 86_405, not_after_timestamp_s: 172_800 }
    );
}

#[test]
fn the_validity_of_a_certificate_is_read() {
    let key = openssl::pkey::PKey::from_rsa(openssl::rsa::Rsa::generate(2048).unwrap()).unwrap();
    let mut builder = openssl::x509::X509Builder::new().unwrap();
    builder.set_not_before(&openssl::asn1::Asn1Time::from_unix(86_405).unwrap()).unwrap();
    builder.set_not_after(&openssl::asn1::Asn1Time::from_unix(172_800).unwrap()).unwrap();
    builder.set_pubkey(&key).unwrap();
    builder.sign(&key, openssl::hash::MessageDigest::sha256()).unwrap();
    let mut with_certificate = stats("https://a");
    with_certificate.certificate = Some(builder.build().to_der().unwrap());
    let mut with_garbage = stats("https://a");
    with_garbage.certificate = Some(vec![1, 2, 3]);
    let outcome =
        Outcome::Response { status: 200, stats: vec![with_certificate, with_garbage] };
    let result = reqwest_checker::to_check_result(
        &check_at(NOON),
        "r",
        &outcome,
        at(NOON),
        9,
        TimeDelta { nanos: 1 },
    );
    assert_eq!(
        result.request_info_list[0].certificate_info,
        Some(CertificateInfo { not_before_timestamp_s: 86_405, not_after_timestamp_s: 172_800 })
    );
    assert_eq!(result.request_info_list[1].certificate_info, None);
}

#[test]
fn robots_txt_lies_at_the_root() {
    let target = robots_target(&config()).unwrap();
    assert_eq!(target.robots_url, "https://example.com/robots.txt?b");
    assert_eq!(target.url, "https://example.com/a?b");
    assert!(robots_target(&CheckConfig { url: "nonsense".to_owned(), ..config() }).is_none());
    assert_eq!(robots_time_left(0), 10_000);
    assert_eq!(robots_time_left(20_000), 0);
    let mut body = RobotsBody::new();
    assert!(!body.push(vec![b'a'; 100_000]));
    assert!(body.push(vec![b'b']));
    assert_eq!(body.bytes.len(), 100_001);
}

#[test]
fn disallowed_urls_are_not_checked() {
    let at_url = |url: &str, txt: &str| {
        let asked = CheckConfig { url: url.to_owned(), ..config() };
        let check = ScheduledCheck::new(Tick::from_time(at(NOON)), Arc::new(asked));
        check_robots(&check, "us-west", txt.as_bytes(), at(3), 4)
    };
    let verdict = |txt: &str| at_url("https://example.com/a", txt);
    assert!(at_url("no url", "User-Agent: *\nDisallow: /").is_none());
    assert!(at_url("https://example.com/b", "User-Agent: *\nDisallow: /a").is_none());
    assert!(verdict("User-Agent: *\nDisallow: /a").is_some());
    let denied = verdict("User-Agent: SentryUptimeBot\nDisallow: /").unwrap();
    assert_eq!(denied.status, CheckStatus::DisallowedByRobots);
    assert!(denied.request_info.is_none());
    assert!(verdict("User-Agent: *\nDisallow: /").is_some());
    assert!(verdict("User-Agent: *\nDisallow: /b").is_none());
    assert!(verdict("User-Agent: *\nDisallow: /\nUser-Agent: SentryUptimeBot\nAllow: /").is_none());
    assert!(verdict("").is_none());
}

#[test]
fn late_checks_are_missed() {
    let check = check_at(NOON);
    assert!(!is_too_late(&check, at(NOON + 60)));
    assert!(is_too_late(&check, Timestamp { secs: NOON + 60, nanos: 1 }));
    assert!(is_too_late(&check, at(NOON + 120)));
    let missed = CheckResult::missed_from(&check, "us-west");
    assert_eq!(missed.subscription_id, 1);
    assert_eq!(missed.status, CheckStatus::MissedWindow);
    assert!(missed.duration.is_none());
    assert_ne!(missed.guid, CheckResult::missed_from(&check, "us-west").guid);
    assert_ne!(missed.span_id, CheckResult::missed_from(&check, "us-west").span_id);
    assert!(missed.actual_check_time.secs > NOON);
}

#[test]
fn failures_are_retried_as_often_as_allowed() {
    let mut check = check_at(NOON);
    for round in 0..2 {
        assert_eq!(check.get_retry(), round);
        assert!(will_retry(&check, CheckStatus::Failure, 2));
        assert!(!will_retry(&check, CheckStatus::Success, 2));
        check = match complete(check, CheckStatus::Failure, 2) {
            Completion::Retry(again) => again,
            Completion::Report => panic!("no retry"),
        };
    }
    assert!(matches!(complete(check, CheckStatus::Failure, 2), Completion::Report));
    assert!(matches!(complete(check_at(NOON), CheckStatus::Success, 2), Completion::Report));
    assert!(matches!(complete(check_at(NOON), CheckStatus::MissedWindow, 2), Completion::Report));
}

#[test]
fn the_load_counts_what_waits_and_what_runs() {
    let mut load = ExecutorLoad::new();
    for _ in 0..4 {
        load.queued();
    }
    assert_eq!(load, ExecutorLoad { queue_size: 4, num_running: 0 });
    load.started(2);
    assert!(load.has_room(2));
    load.started(2);
    assert_eq!(load, ExecutorLoad { queue_size: 2, num_running: 2 });
    assert!(!load.has_room(2));
    assert!(load.has_room(3));
    assert!(load.has_room(0));
    load.finished();
    load.started(2);
    assert_eq!(load, ExecutorLoad { queue_size: 1, num_running: 2 });
    load.started(0);
    for _ in 0..3 {
        load.finished();
    }
    assert_eq!(load, ExecutorLoad { queue_size: 0, num_running: 0 });
    let mode = |checker_parallel, record_task_metrics| {
        ExecutorConfig {
            concurrency: 1,
            checker_parallel,
            failure_retries: 0,
            region: "us-west".to_owned(),
            record_task_metrics,
        }
        .task_mode()
    };
    assert_eq!(mode(true, false), TaskMode::Spawned);
    assert_eq!(mode(true, true), TaskMode::SpawnedAndMeasured);
    assert_eq!(mode(false, true), TaskMode::Measured);
}

#[test]
fn results_are_measured_with_their_labels() {
    let outcome = isahc_checker::Outcome::Response { status: 404 };
    let result = isahc_checker::to_check_result(
        &check_at(NOON),
        "us-west",
        &outcome,
        Timestamp { secs: NOON + 1, nanos: 5 },
        1,
        TimeDelta { nanos: 70 },
    );
    let measures = result_metrics(&result, true, false);
    assert_eq!(measures.labels.status, "failure");
    assert_eq!(measures.labels.failure_reason, "failure");
    assert_eq!(measures.labels.status_code, "404");
    assert_eq!(measures.labels.is_retry, "true");
    assert_eq!(measures.labels.will_retry, "false");
    assert_eq!(measures.duration, Some(70));
    assert_eq!(measures.delay, 1_000_000_005);
    let missed = CheckResult::missed_at(&check_at(NOON), "us-west", 1, 2, at(NOON - 5));
    let measures = result_metrics(&missed, false, false);
    assert_eq!(measures.labels.status, "missed_window");
    assert_eq!(measures.labels.failure_reason, "ok");
    assert_eq!(measures.labels.status_code, "none");
    assert_eq!(measures.duration, None);
    assert_eq!(measures.delay, 0);
}

#[test]
fn prepared_results_come_in_order() {
    let mut checker = DummyChecker::new();
    checker.queue_result(DummyResult { delay_ms: Some(1), status: CheckStatus::Failure });
    checker.queue_result(DummyResult::default());
    assert_eq!(
        checker.next_result(),
        Some(DummyResult { delay_ms: Some(1), status: CheckStatus::Failure })
    );
    let prepared = checker.next_result().unwrap();
    assert_eq!(prepared, DummyResult { delay_ms: None, status: CheckStatus::Success });
    assert_eq!(checker.next_result(), None);
    let tick = Tick::from_time(at(NOON));
    let result =
        dummy_checker::to_check_result(&config(), &tick, "r", prepared, 1, 2, 3, at(NOON + 1));
    assert_eq!(result.status, CheckStatus::Success);
    assert_eq!(result.trace_id, 2);
}

#[test]
fn the_plain_check_has_one_identifier_for_all_retries() {
    let guid = http_checker::make_guid(1, at(NOON));
    let name = "00000000-0000-0000-0000-000000000001-2024-06-05 12:00:00 UTC";
    let expected =
        uuid::Uuid::new_v5(&uuid::Uuid::from_u128(CHECKER_RESULT_NAMESPACE), name.as_bytes());
    assert_eq!(guid, expected.as_u128());
    let result = http_checker::to_check_result(
        &config(),
        &Tick::from_time(at(NOON)),
        "us-west",
        &Outcome::Failed(failure(vec![])),
        at(NOON),
        3,
        TimeDelta { nanos: 1 },
    );
    assert_eq!(result.guid, guid);
    assert_eq!(result.status, CheckStatus::Failure);
}

#[test]
fn ticks_go_on_where_they_stopped() {
    let now = Timestamp { secs: NOON, nanos: 250_000_000 };
    assert_eq!(start_time(&None, now), at(NOON));
    let done = progress_text(&Tick::from_time(at(NOON - 10)));
    assert_eq!(done, "1717588790000000000");
    assert_eq!(start_time(&Some(done), now), at(NOON - 9));
    let ahead = progress_text(&Tick::from_time(at(NOON + 10)));
    assert_eq!(start_time(&Some(ahead), now), at(NOON));
    let unreadable = start_time(&Some("soon".to_owned()), now);
    assert_eq!(unreadable, Timestamp { secs: 2, nanos: 717_588_800 });
    assert_eq!(tick_after(at(NOON), 61_000_000_000), Some(Tick::from_time(at(NOON + 61))));
    assert_eq!(latest_of_batch(&Vec::new()), None);
    let ticks = vec![Tick::from_time(at(1)), Tick::from_time(at(2))];
    assert_eq!(latest_of_batch(&ticks), Some(ticks[1]));
    assert_eq!(after_save_fault(true, true), SaveAction::Continue);
    assert_eq!(after_save_fault(false, true), SaveAction::Reconnect);
    assert_eq!(after_save_fault(false, false), SaveAction::Abort);
}

#[test]
fn checks_are_scheduled_where_and_when_they_are_due() {
    let mut store = ConfigStore::new();
    store.add_config(Arc::new(CheckConfig { subscription_id: 60, ..config() }));
    store.add_config(Arc::new(CheckConfig {
        subscription_id: 120,
        active_regions: Some(vec!["elsewhere".to_owned()]),
        region_schedule_mode: Some(RegionScheduleMode::RoundRobin),
        ..config()
    }));
    store.add_config(Arc::new(CheckConfig { subscription_id: 61, ..config() }));
    let tick = Tick::from_time(at(NOON));
    let schedule = schedule_checks(&store, tick, "here");
    assert_eq!(schedule.total_configs, 2);
    assert_eq!(schedule.skipped_configs, 1);
    assert_eq!(schedule.checks.len(), 1);
    assert_eq!(schedule.checks[0].get_config().subscription_id, 60);
    assert_eq!(*schedule.checks[0].get_tick(), tick);
    assert_eq!(schedule_checks(&store, tick, "elsewhere").checks.len(), 2);
}

#[test]
fn every_check_comes_up_once_in_each_interval() {
    let mut store = ConfigStore::new();
    for subscription_id in 100..400 {
        store.add_config(Arc::new(CheckConfig { subscription_id, ..config() }));
    }
    let start = Timestamp { secs: NOON + 17, nanos: 5 };
    let mut seen: Vec<u128> = Vec::new();
    for second in 0..60u64 {
        let tick = tick_after(start, second * 1_000_000_000).unwrap();
        assert_eq!(tick.time, Timestamp { secs: NOON + 17 + second as i64, nanos: 5 });
        for check in schedule_checks(&store, tick, "here").checks {
            seen.push(check.get_config().subscription_id);
        }
    }
    seen.sort();
    assert_eq!(seen, (100..400).collect::<Vec<u128>>());
}
