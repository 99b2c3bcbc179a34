use uptime_checker::config_store::Tick;
use uptime_checker::time::Timestamp;
use uptime_checker::types::check_config::{CheckConfig, CheckInterval, MAX_CHECK_INTERVAL_SECS};
use uptime_checker::types::shared::{RegionScheduleMode, RequestMethod};

pub enum TestInterval {
    OneSecond,
    OneMinute,
    TwentyMinutes,
    OneHour,
}

impl TestInterval {
    fn secs(&self) -> i64 {
        match self {
            TestInterval::OneSecond => 1,
            TestInterval::OneMinute => 60,
            TestInterval::TwentyMinutes => 60 * 20,
            TestInterval::OneHour => 60 * 60,
        }
    }
}

fn uuid(id: u128) -> u128 {
    id
}

fn at(secs: i64) -> Timestamp {
    Timestamp { secs, nanos: 0 }
}

fn config() -> CheckConfig {
    CheckConfig {
        subscription_id: 0,
        interval: CheckInterval::OneMinute,
        timeout_ms: 10_000,
        url: "https://example.com".to_owned(),
        request_method: RequestMethod::default(),
        request_headers: Vec::new(),
        request_body: String::new(),
        trace_sampling: false,
        active_regions: None,
        region_schedule_mode: None,
    }
}

fn copy(from: &CheckConfig) -> CheckConfig {
    CheckConfig {
        subscription_id: from.subscription_id,
        interval: from.interval,
        active_regions: from.active_regions.clone(),
        region_schedule_mode: from.region_schedule_mode,
        ..config()
    }
}

#[test]
fn test_slots() {
    let all_slots = 0..MAX_CHECK_INTERVAL_SECS;

    let minute_config = config();

    // Every minute slot includes the config
    assert_eq!(
        minute_config.slots(),
        all_slots.clone().step_by(60).collect::<Vec<usize>>()
    );

    let hour_config = CheckConfig {
        subscription_id: uuid(1),
        interval: CheckInterval::SixtyMinutes,
        ..config()
    };

    // The second slot includes the config because of the subscription_id
    assert_eq!(hour_config.slots(), vec![1]);

    let five_minute_config = CheckConfig {
        interval: CheckInterval::FiveMinutes,
        ..config()
    };

    // Every 5th slot includes the config
    assert_eq!(
        five_minute_config.slots(),
        all_slots.clone().step_by(60 * 5).collect::<Vec<usize>>()
    );

    let five_minute_config_offset = CheckConfig {
        subscription_id: uuid(MAX_CHECK_INTERVAL_SECS as u128 + 15),
        interval: CheckInterval::FiveMinutes,
        ..config()
    };

    // Every 5th slot includes the config starting at the 15th slot
    assert_eq!(
        five_minute_config_offset.slots(),
        all_slots.skip(15).step_by(60 * 5).collect::<Vec<usize>>()
    );
}

#[test]
fn test_should_run() {
    let tick = Tick::from_time(at(1_750_000_000));

    // We should always run if regions aren't configured
    let no_region_config = config();
    assert!(no_region_config.should_run(tick, "us_west"));
    let no_active_regions_config = CheckConfig {
        region_schedule_mode: Some(RegionScheduleMode::RoundRobin),
        ..config()
    };
    assert!(no_active_regions_config.should_run(tick, "us_west"));
    let no_schedule_mode_config = CheckConfig {
        active_regions: Some(vec!["us_west".to_string(), "us_east".to_string()]),
        ..config()
    };
    assert!(no_schedule_mode_config.should_run(tick, "us_west"));

    // Shouldn't error if regions are somehow empty, just return true
    let empty_region_config = CheckConfig {
        subscription_id: uuid(0),
        region_schedule_mode: Some(RegionScheduleMode::RoundRobin),
        active_regions: Some(vec![]),
        ..config()
    };
    let empty_region_config_2 = CheckConfig {
        subscription_id: uuid(1),
        ..copy(&empty_region_config)
    };
    assert!(empty_region_config.should_run(tick, "us_west"));
    assert!(empty_region_config_2.should_run(tick, "us_west"));

    // When there's just one region we should also always run
    let one_region_config = CheckConfig {
        subscription_id: uuid(0),
        active_regions: Some(vec!["us_west".to_string()]),
        region_schedule_mode: Some(RegionScheduleMode::RoundRobin),
        ..config()
    };
    let one_region_config_2 = CheckConfig {
        subscription_id: uuid(1),
        ..copy(&one_region_config)
    };
    assert!(one_region_config.should_run(
        Tick::from_time(at(1)),
        "us_west"
    ));
    assert!(one_region_config.should_run(
        Tick::from_time(at(61)),
        "us_west"
    ));
    assert!(one_region_config_2.should_run(
        Tick::from_time(at(1)),
        "us_west"
    ));
    assert!(one_region_config_2.should_run(
        Tick::from_time(at(61)),
        "us_west"
    ));

    // If configured region doesn't match at all we should never run
    assert!(!one_region_config.should_run(
        Tick::from_time(at(1)),
        "other_region",
    ));
    assert!(!one_region_config.should_run(
        Tick::from_time(at(61)),
        "other_region",
    ));
    // If configured region doesn't match at all we should never run
    assert!(!one_region_config_2.should_run(
        Tick::from_time(at(1)),
        "other_region",
    ));
    assert!(!one_region_config_2.should_run(
        Tick::from_time(at(61)),
        "other_region",
    ));

    let multi_region_config = CheckConfig {
        active_regions: Some(vec![
            "us_west".to_string(),
            "us_east".to_string(),
            "eu_west".to_string(),
        ]),
        region_schedule_mode: Some(RegionScheduleMode::RoundRobin),
        ..config()
    };
    // With 3 regions configured, the US west region should only run once every 3 minutes
    run_interval_test(
        &multi_region_config,
        TestInterval::OneMinute,
        0,
        TestInterval::OneSecond,
        1,
        vec![&"us_west", &"us_east", &"eu_west"],
    );
    run_interval_test(
        &multi_region_config,
        TestInterval::OneMinute,
        1,
        TestInterval::OneSecond,
        1,
        vec![&"us_east", &"eu_west", &"us_west"],
    );
    run_interval_test(
        &multi_region_config,
        TestInterval::OneMinute,
        2,
        TestInterval::OneSecond,
        1,
        vec![&"eu_west", &"us_west", &"us_east"],
    );
    run_interval_test(
        &multi_region_config,
        TestInterval::OneMinute,
        3,
        TestInterval::OneSecond,
        1,
        vec![&"us_west", &"us_east", &"eu_west"],
    );

    // Try different spots in the minute
    run_interval_test(
        &multi_region_config,
        TestInterval::OneMinute,
        0,
        TestInterval::OneSecond,
        29,
        vec![&"us_west", &"us_east", &"eu_west"],
    );
    run_interval_test(
        &multi_region_config,
        TestInterval::OneMinute,
        0,
        TestInterval::OneSecond,
        59,
        vec![&"us_west", &"us_east", &"eu_west"],
    );
    run_interval_test(
        &multi_region_config,
        TestInterval::OneMinute,
        1,
        TestInterval::OneSecond,
        23,
        vec![&"us_east", &"eu_west", &"us_west"],
    );
    run_interval_test(
        &multi_region_config,
        TestInterval::OneMinute,
        1,
        TestInterval::OneSecond,
        59,
        vec![&"us_east", &"eu_west", &"us_west"],
    );
    run_interval_test(
        &multi_region_config,
        TestInterval::OneMinute,
        2,
        TestInterval::OneSecond,
        25,
        vec![&"eu_west", &"us_west", &"us_east"],
    );
    run_interval_test(
        &multi_region_config,
        TestInterval::OneMinute,
        2,
        TestInterval::OneSecond,
        51,
        vec![&"eu_west", &"us_west", &"us_east"],
    );
    run_interval_test(
        &multi_region_config,
        TestInterval::OneMinute,
        3,
        TestInterval::OneSecond,
        20,
        vec![&"us_west", &"us_east", &"eu_west"],
    );
    run_interval_test(
        &multi_region_config,
        TestInterval::OneMinute,
        3,
        TestInterval::OneSecond,
        40,
        vec![&"us_west", &"us_east", &"eu_west"],
    );

    // Try a more complicated start minute
    run_interval_test(
        &multi_region_config,
        TestInterval::OneMinute,
        12345,
        TestInterval::OneMinute,
        0,
        vec![&"us_west", &"us_east", &"eu_west"],
    );
    run_interval_test(
        &multi_region_config,
        TestInterval::OneMinute,
        12345,
        TestInterval::OneMinute,
        1,
        vec![&"us_east", &"eu_west", &"us_west"],
    );
    run_interval_test(
        &multi_region_config,
        TestInterval::OneMinute,
        12345,
        TestInterval::OneMinute,
        2,
        vec![&"eu_west", &"us_west", &"us_east"],
    );
    run_interval_test(
        &multi_region_config,
        TestInterval::OneMinute,
        12345,
        TestInterval::OneMinute,
        3,
        vec![&"us_west", &"us_east", &"eu_west"],
    );

    // Try a larger interval to be sure things work
    let multi_region_config_large_interval = CheckConfig {
        interval: CheckInterval::TwentyMinutes,
        active_regions: Some(vec![
            "us_west".to_string(),
            "us_east".to_string(),
            "eu_west".to_string(),
        ]),
        region_schedule_mode: Some(RegionScheduleMode::RoundRobin),
        ..config()
    };
    // With 3 regions configured, the US west region should only run once every hour
    run_interval_test(
        &multi_region_config_large_interval,
        TestInterval::TwentyMinutes,
        0,
        TestInterval::OneMinute,
        0,
        vec![&"us_west", &"us_east", &"eu_west"],
    );
    run_interval_test(
        &multi_region_config_large_interval,
        TestInterval::TwentyMinutes,
        1,
        TestInterval::OneMinute,
        5,
        vec![&"us_east", &"eu_west", &"us_west"],
    );
    run_interval_test(
        &multi_region_config_large_interval,
        TestInterval::TwentyMinutes,
        2,
        TestInterval::OneMinute,
        10,
        vec![&"eu_west", &"us_west", &"us_east"],
    );
    run_interval_test(
        &multi_region_config_large_interval,
        TestInterval::TwentyMinutes,
        3,
        TestInterval::OneMinute,
        11,
        vec![&"us_west", &"us_east", &"eu_west"],
    );

    // Try more complicated times
    // ((60 * 60) * 13423) Is just selecting a random large hour, then we add minutes to it
    run_interval_test(
        &multi_region_config_large_interval,
        TestInterval::OneHour,
        13423,
        TestInterval::OneMinute,
        15,
        vec![&"us_west", &"us_east", &"eu_west"],
    );
    run_interval_test(
        &multi_region_config_large_interval,
        TestInterval::OneHour,
        13423,
        TestInterval::OneMinute,
        39,
        vec![&"us_east", &"eu_west", &"us_west"],
    );
    run_interval_test(
        &multi_region_config_large_interval,
        TestInterval::OneHour,
        13423,
        TestInterval::OneMinute,
        40,
        vec![&"eu_west", &"us_west", &"us_east"],
    );
    run_interval_test(
        &multi_region_config_large_interval,
        TestInterval::OneHour,
        13423,
        TestInterval::OneMinute,
        59,
        vec![&"eu_west", &"us_west", &"us_east"],
    );
    run_interval_test(
        &multi_region_config_large_interval,
        TestInterval::OneHour,
        13423,
        TestInterval::OneMinute,
        60,
        vec![&"us_west", &"us_east", &"eu_west"],
    );
}

fn run_interval_test(
    base_config: &CheckConfig,
    interval: TestInterval,
    interval_count: i64,
    offset_type: TestInterval,
    offset_count: i64,
    should_run_order: Vec<&str>, // The order regions should run in
) {
    let tick = Tick::from_time(
        at(interval.secs() * interval_count + offset_type.secs() * offset_count),
    );

    // We hardcode ids here. We have to do this so that we have a list of ids that produce a
    // subscription id that results in the order of processing our tests are expecting.
    let test_ids = [
        uuid(9),
        uuid(0),
        uuid(2),
        uuid(1_000_000),
        uuid(1_000_003),
        uuid(1_000_001),
    ];

    for (i, subscription_id) in test_ids.iter().enumerate() {
        let config = CheckConfig {
            subscription_id: *subscription_id,
            ..copy(base_config)
        };
        let expected_region = should_run_order[i.checked_rem(should_run_order.len()).unwrap()];

        // This region should run
        assert!(
            config.should_run(tick, expected_region),
            "Subscription {} should run in region {} at tick {}",
            subscription_id,
            expected_region,
            tick.describe(),
        );

        // All other regions should not run
        for other_region in should_run_order.iter().filter(|&&r| r != expected_region) {
            assert!(
                !config.should_run(tick, other_region),
                "Subscription {} should not run in region {} at tick {}",
                subscription_id,
                other_region,
                tick.describe(),
            );
        }
    }
}

#[test]
fn intervals_are_numbers_of_seconds() {
    for secs in [60, 300, 600, 1200, 1800, 3600] {
        assert_eq!(CheckInterval::from_secs(secs).unwrap().secs(), secs as usize);
    }
    assert_eq!(CheckInterval::from_secs(61), None);
}

#[test]
fn every_region_gets_its_turn() {
    let shared = CheckConfig {
        subscription_id: 77,
        active_regions: Some(vec!["a".to_owned(), "b".to_owned()]),
        region_schedule_mode: Some(RegionScheduleMode::RoundRobin),
        ..config()
    };
    let turn = |secs: i64| {
        let tick = Tick::from_time(at(secs));
        (shared.should_run(tick, "a"), shared.should_run(tick, "b"))
    };
    assert_ne!(turn(600), turn(660));
    assert_eq!(turn(600), turn(659));
    assert_eq!(turn(600), turn(720));
    assert!(turn(600).0 != turn(600).1);
}
