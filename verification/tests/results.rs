use uptime_checker::assertions::compiled::{Builds, GlobBuild};
use uptime_checker::assertions::{Assertion, Comparison, GlobPattern, HeaderOperand, JSONPathOperand, Op};
use uptime_checker::check_executor::ScheduledCheck;
use uptime_checker::config_store::Tick;
use uptime_checker::endpoint::execute_config;
use uptime_checker::endpoint::validate_check;
use uptime_checker::endpoint::validate_check::Obstacle;
use uptime_checker::producer::dummy_producer::DummyResultsProducer;
use uptime_checker::producer::noop_producer::NoopResultsProducer;
use uptime_checker::producer::vector_producer::{
    after_attempt, request_body, retry_delay_ms, Batcher, PendingItems, SendStep,
    VectorResultsProducer,
};
use uptime_checker::producer::{ExtractCodeError, ResultsProducer};
use uptime_checker::time::Timestamp;
use uptime_checker::types::check_config::{CheckConfig, CheckInterval};
use uptime_checker::types::result::{CheckResult, CheckStatus};
use uptime_checker::types::shared::RequestMethod;
use uptime_checker::types::{
    CheckStatus as MonitorStatus, CheckStatusReasonType as MonitorReason, RequestType,
};

const RESULT: &str = r#"{
    "guid": "54afc7ed9c53491481919c931f75bae1",
    "subscription_id": "23d6048d67c948d9a19c0b47979e9a03",
    "status": "success",
    "status_reason": null,
    "trace_id": "947efba02dac463b9c1d886a44bafc94",
    "span_id": "58e84098e63f42e1",
    "scheduled_check_time_ms": 1717614062978,
    "scheduled_check_time_us": 1717614062978000,
    "actual_check_time_ms": 1717614068008,
    "actual_check_time_us": 1717614068008000,
    "duration_ms": 100,
    "duration_us": 100000,
    "request_info": null,
    "region": "us-west-1"
}"#;

fn config() -> CheckConfig {
    CheckConfig {
        subscription_id: 5,
        interval: CheckInterval::OneMinute,
        timeout_ms: 10_000,
        url: "https://example.com".to_owned(),
        request_method: RequestMethod::Get,
        request_headers: Vec::new(),
        request_body: String::new(),
        trace_sampling: false,
        active_regions: None,
        region_schedule_mode: None,
    }
}

#[test]
fn results_that_fit_the_schema_are_taken() {
    let dummy = DummyResultsProducer::find("any").unwrap();
    assert!(dummy.produce_checker_result(&RESULT.as_bytes().to_vec()).is_ok());
    let err = dummy.produce_checker_result(&b"{}".to_vec()).unwrap_err();
    assert_eq!(err.message(), "Invalid message");
    assert!(matches!(err, ExtractCodeError::Schema(_)));
    assert!(NoopResultsProducer::new().produce_checker_result(&b"{}".to_vec()).is_ok());
    let direct = DummyResultsProducer::new("any");
    assert!(direct.produce_checker_result(&b"[]".to_vec()).is_err());
}

#[test]
fn results_are_counted_until_they_are_taken_up() {
    let mut producer = VectorResultsProducer::find("uptime-results").unwrap();
    assert!(producer.check_result(&RESULT.as_bytes().to_vec()).is_ok());
    assert!(producer.check_result(&b"nothing".to_vec()).is_err());
    assert!(producer.after_send(true).is_ok());
    assert!(producer.after_send(true).is_ok());
    assert!(matches!(producer.after_send(false), Err(ExtractCodeError::VectorError)));
    assert_eq!(producer.taken_up(), 2);
    assert_eq!(producer.taken_up(), 1);
    let missing = VectorResultsProducer::find("no-such-topic").err().unwrap();
    assert_eq!(missing.message(), "Topic not found");
    let mut early = PendingItems::new();
    assert_eq!(early.taken_up(), 0);
    early.handed_over();
    assert_eq!(early.taken_up(), 0);
}

#[test]
fn errors_are_told_in_words() {
    assert_eq!(ExtractCodeError::Serialization("s".to_owned()).message(), "s");
    assert_eq!(ExtractCodeError::Producer("p".to_owned()).message(), "p");
    assert_eq!(ExtractCodeError::VectorRequestError("v".to_owned()).message(), "v");
    assert_eq!(
        ExtractCodeError::VectorRequestStatusError(502).message(),
        "Vector request failed with status: 502 Bad Gateway"
    );
    assert_eq!(ExtractCodeError::VectorError.message(), "Vector request failed");
}

#[test]
fn results_are_sent_in_batches() {
    let mut batcher = Batcher::new(2);
    assert!(batcher.push(b"1".to_vec()).is_none());
    let first = batcher.push(b"2".to_vec()).unwrap();
    assert_eq!(request_body(&first), "1\n2\n");
    assert!(batcher.push(b"3".to_vec()).is_none());
    let last = batcher.finish().unwrap();
    assert_eq!(request_body(&last), "3\n");
    assert!(Batcher::new(2).finish().is_none());
    assert_eq!(Batcher::new(0).push(b"1".to_vec()).unwrap().len(), 1);
    assert_eq!(request_body(&vec![vec![0xff], b"ok".to_vec()]), "ok\n");
    assert_eq!(request_body(&vec!["\u{e9}".as_bytes().to_vec()]), "\u{e9}\n");
}

#[test]
fn batches_keep_every_result_in_order() {
    let mut batcher = Batcher::new(3);
    let mut seen: Vec<Vec<u8>> = Vec::new();
    for n in 0..10u8 {
        if let Some(batch) = batcher.push(vec![n]) {
            assert_eq!(batch.len(), 3);
            seen.extend(batch);
        }
    }
    seen.extend(batcher.finish().unwrap());
    assert_eq!(seen, (0..10u8).map(|n| vec![n]).collect::<Vec<_>>());
}

#[test]
fn repetitions_wait_longer_up_to_a_limit() {
    let delays: Vec<u64> = (0..7).map(retry_delay_ms).collect();
    assert_eq!(delays, vec![100, 200, 400, 800, 1600, 2000, 2000]);
    assert_eq!(retry_delay_ms(u32::MAX), 2000);
    assert_eq!(after_attempt(Some(200), false, 0), SendStep::Done);
    assert_eq!(after_attempt(Some(404), false, 0), SendStep::Done);
    assert_eq!(after_attempt(Some(500), false, 0), SendStep::GiveUp);
    assert_eq!(after_attempt(Some(599), true, 1), SendStep::RetryAfter(200));
    assert_eq!(after_attempt(Some(600), false, 0), SendStep::Done);
    assert_eq!(after_attempt(None, true, 0), SendStep::RetryAfter(100));
    assert_eq!(after_attempt(None, false, 9), SendStep::GiveUp);
}

#[test]
fn checks_that_are_asked_for_run_at_once() {
    let now = Timestamp { secs: 3_661, nanos: 9 };
    let check = execute_config::check_now(config(), now);
    assert_eq!(*check.get_tick(), Tick::from_time(now));
    assert_eq!(check.get_config().subscription_id, 5);
    let scheduled = ScheduledCheck::new_for_test(Tick::from_time(now), config());
    let result = CheckResult::missed_at(&scheduled, "region", 1, 2, now);
    let reply = execute_config::reply(Some(Some(result))).unwrap();
    assert_eq!(reply.check_result.unwrap().status, CheckStatus::MissedWindow);
    assert!(execute_config::reply(Some(None)).unwrap().check_result.is_none());
    let gone = execute_config::reply(None).unwrap_err();
    assert_eq!(gone.status(), 500);
    assert_eq!(gone.as_str(), "checker_shutdown");
    let unread = execute_config::ExecuteError::SerializationError { details: "d".to_owned() };
    assert_eq!(unread.status(), 400);
    assert_eq!(unread.as_str(), "serialization_error");
}

#[test]
fn test_compilation_error() {
    let pattern = "[]]])(".to_owned();
    let assertion = Some(Assertion {
        root: Op::HeaderCheck {
            key_op: Comparison::Equals,
            key_operand: HeaderOperand::Glob { pattern: GlobPattern { value: pattern.clone() } },
            value_op: Comparison::Always,
            value_operand: HeaderOperand::Nothing,
        },
    });
    match validate_check::validate_check(&assertion, 16, &Builds::new()) {
        Err(Obstacle::NeedsBuild { pattern: asked }) => assert_eq!(asked, pattern),
        other => panic!("{:?}", other),
    }
    let build = |error: Option<String>| Builds {
        globs: vec![GlobBuild { pattern: pattern.clone(), error }],
        paths: Vec::new(),
    };
    let broken = build(Some("invalid".to_owned()));
    match validate_check::validate_check(&assertion, 16, &broken) {
        Err(Obstacle::Refused(e)) => {
            assert_eq!(e.status(), 400);
            assert_eq!(e.as_str(), "compilation_error");
        }
        other => panic!("{:?}", other),
    }
    assert!(validate_check::validate_check(&assertion, 16, &build(None)).is_ok());
    assert!(validate_check::validate_check(&None, 0, &Builds::new()).is_ok());
    let query = Some(Assertion {
        root: Op::JsonPath {
            value: "$[?glob(@.a, 'x')]".to_owned(),
            operator: Comparison::Always,
            operand: JSONPathOperand::Nothing,
        },
    });
    match validate_check::validate_check(&query, 16, &Builds::new()) {
        Err(Obstacle::NeedsPath { path }) => assert_eq!(path, "$[?glob(@.a, 'x')]"),
        other => panic!("{:?}", other),
    }
    let unread = validate_check::ExecuteError::SerializationError { details: "d".to_owned() };
    assert_eq!(unread.as_str(), "serialization_error");
}

#[test]
fn monitors_have_names_for_what_they_see() {
    assert_eq!(MonitorStatus::Success.as_str(), "success");
    assert_eq!(MonitorStatus::Failure.as_str(), "failure");
    assert_eq!(MonitorStatus::MissedWindow.as_str(), "missed_window");
    assert_eq!(MonitorReason::Timeout.as_str(), "timeout");
    assert_eq!(MonitorReason::DnsError.as_str(), "dns_error");
    assert_eq!(MonitorReason::Failure.as_str(), "failure");
    assert_eq!(RequestType::Head.as_str(), "HEAD");
    assert_eq!(RequestType::Get.as_str(), "GET");
    assert_eq!(RequestMethod::Options.as_str(), "OPTIONS");
}
