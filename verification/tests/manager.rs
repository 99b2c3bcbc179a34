use std::collections::HashSet;
use std::sync::Arc;
use uptime_checker::app::config::{CheckerMode, Config, ProducerMode};
use uptime_checker::check_config_provider::redis_config_provider::{
    begin_update, begin_update_at, checker_number_of, find_owned_partitions, load_configs,
    load_configs_at, partitions_of_number, split_updates, ConfigUpdate, ConfigUpdateAction,
    OwnershipError, RedisConfigProvider, RedisPartition,
};
use uptime_checker::check_config_provider::redis_config_provider;
use uptime_checker::config_consumer::{register_config, register_config_at, Payload};
use uptime_checker::config_waiter::{boot_step, BootResult, BootStep};
use uptime_checker::ids;
use uptime_checker::manager::{
    build_progress_key, plan_start, CheckerSettings, Manager, PartitionedService, ProducerSettings,
};
use uptime_checker::types::check_config::{CheckConfig, CheckInterval};
use uptime_checker::types::shared::RequestMethod;

fn config(subscription_id: u128) -> CheckConfig {
    CheckConfig {
        subscription_id,
        interval: CheckInterval::FiveMinutes,
        timeout_ms: 500,
        url: "http://sentry.io".to_owned(),
        request_method: RequestMethod::Get,
        request_headers: Vec::new(),
        request_body: String::new(),
        trace_sampling: false,
        active_regions: None,
        region_schedule_mode: None,
    }
}

fn with_partitions(partitions: &[u16]) -> Manager {
    let mut manager = Manager::new();
    for partition in partitions {
        manager.register_partition(*partition);
    }
    manager
}

fn ids_of(manager: &Manager, partition: u16) -> Vec<u128> {
    let mut all: Vec<u128> = manager
        .get_service(partition)
        .get_config_store()
        .all_configs()
        .iter()
        .map(|c| c.subscription_id)
        .collect();
    all.sort();
    all
}

#[test]
fn test_partitioned_service_get_config_store() {
    let service = PartitionedService::start(0);
    assert_eq!(service.get_config_store().all_configs().len(), 0);
}

#[test]
fn test_manager_get_service() {
    let manager = with_partitions(&[0]);
    assert_eq!(manager.get_service(0).get_partition(), 0);
}

#[test]
fn test_manager_register_partition() {
    let manager = with_partitions(&[1]);
    assert_eq!(manager.get_service(1).get_partition(), 1);
    assert!(!manager.has_service(0));
}

#[test]
fn test_manager_double_register_partition() {
    let mut manager = Manager::new();
    assert!(manager.register_partition(1));
    assert!(!manager.register_partition(1));
}

#[test]
fn test_manager_unregister_partition() {
    let mut manager = with_partitions(&[0]);
    assert_eq!(manager.unregister_partition(0).unwrap().get_partition(), 0);
    assert!(!manager.has_service(0));
}

#[test]
fn test_manager_unregister_unregistered_partition() {
    let mut manager = Manager::new();
    assert!(manager.unregister_partition(1).is_none());
}

#[test]
fn test_manager_update_partitions() {
    let mut manager = with_partitions(&[0]);
    manager.add_config(0, Arc::new(config(7)));

    let new_partitions: HashSet<u16> = [0, 1, 2, 3].into_iter().collect();
    let changes = manager.update_partitions(&new_partitions);
    assert_eq!(changes.added.len(), 3);
    assert!(changes.removed.is_empty());
    assert!(new_partitions
        .iter()
        .all(|&partition| manager.get_service(partition).get_partition() == partition));
    assert_eq!(ids_of(&manager, 0), vec![7]);

    let updated_partitions: HashSet<u16> = [1, 3].into_iter().collect();
    let changes = manager.update_partitions(&updated_partitions);
    assert_eq!(changes.removed.len(), 2);
    assert!(changes.added.is_empty());
    assert!(updated_partitions
        .iter()
        .all(|&partition| manager.get_service(partition).get_partition() == partition));
    assert!(new_partitions
        .difference(&updated_partitions)
        .all(|&partition| !manager.has_service(partition)));
}

#[test]
fn test_update_partition() {
    let mut manager = Manager::new();
    manager.update_partitions(&[0].into_iter().collect());
    assert_eq!(manager.get_service(0).get_partition(), 0);
    manager.update_partitions(&[1].into_iter().collect());
    assert!(!manager.has_service(0));
    assert_eq!(manager.get_service(1).get_partition(), 1);
}

#[test]
fn progress_is_kept_by_partition() {
    assert_eq!(build_progress_key(12), "scheduler_process::12");
}

fn run_determine_owned_partition_test(
    total_partitions: u16,
    checker_id: &str,
    total_pods: u16,
    expected_partitions: Vec<u16>,
) {
    let expected: HashSet<u16> = expected_partitions.into_iter().collect();
    assert_eq!(
        redis_config_provider::determine_owned_partitions(checker_id, total_pods, total_partitions),
        expected
    );
    assert_eq!(
        find_owned_partitions(checker_id, total_pods, total_partitions).unwrap(),
        expected
    );
}

#[test]
fn test_determine_owned_partitions() {
    run_determine_owned_partition_test(2, "test-0", 1, vec![0, 1]);
    run_determine_owned_partition_test(2, "test-0", 2, vec![0]);
    run_determine_owned_partition_test(2, "test-1", 2, vec![1]);
    run_determine_owned_partition_test(
        100,
        "test-1",
        10,
        vec![1, 11, 21, 31, 41, 51, 61, 71, 81, 91],
    );
    run_determine_owned_partition_test(
        100,
        "test-9",
        10,
        vec![9, 19, 29, 39, 49, 59, 69, 79, 89, 99],
    );
}

#[test]
fn test_determine_owned_partitions_checker_number_too_high() {
    let err = find_owned_partitions("test-1", 1, 2).unwrap_err();
    assert!(matches!(err, OwnershipError::NumberTooHigh { checker_number: 1, total_checkers: 1 }));
    assert_eq!(err.message(), "checker_number 1 must be less than total_checkers 1");
}

#[test]
fn test_determine_owned_partitions_no_number() {
    let err = find_owned_partitions("test", 1, 2).unwrap_err();
    assert_eq!(err.message(), "checker_id does not contain a valid checker_number");
}

#[test]
fn test_determine_owned_partitions_invalid() {
    let err = find_owned_partitions("test-a", 1, 2).unwrap_err();
    assert_eq!(err.message(), "checker_id does not contain a valid checker_number");
}

#[test]
fn every_partition_has_one_owner() {
    let mut owners = vec![0; 128];
    for number in 0..5 {
        for partition in partitions_of_number(number, 5, 128) {
            owners[partition as usize] += 1;
        }
    }
    assert!(owners.iter().all(|n| *n == 1));
    assert_eq!(checker_number_of("a-b-7"), Some(7));
    assert_eq!(checker_number_of("65536"), None);
    assert!(partitions_of_number(65534, 65535, 65535).contains(&65534));
}

#[test]
fn partitions_have_keys() {
    let partition = RedisPartition::new(3);
    assert_eq!(partition.config_key, "uptime:configs:3");
    assert_eq!(partition.update_key, "uptime:updates:3");
    let provider = RedisConfigProvider::new(
        "redis://127.0.0.1:6379",
        [4, 9].into_iter().collect(),
        250,
    )
    .unwrap();
    let mut numbers: Vec<u16> =
        provider.get_partition_keys().iter().map(|p| p.partition).collect();
    numbers.sort();
    assert_eq!(numbers, vec![4, 9]);
    assert_eq!(provider.get_check_interval_ms(), 250);
    assert_eq!(provider.get_client().get_connection_info().redis.db, 0);
    assert!(RedisConfigProvider::new("nowhere", HashSet::new(), 1).is_err());
}

fn update(action: ConfigUpdateAction, subscription_id: u128) -> ConfigUpdate {
    ConfigUpdate { action, subscription_id }
}

#[test]
fn updates_are_told_apart_in_order() {
    let updates = vec![
        update(ConfigUpdateAction::Upsert, 1),
        update(ConfigUpdateAction::Delete, 2),
        update(ConfigUpdateAction::SetResponseCapture, 3),
        update(ConfigUpdateAction::Upsert, 4),
    ];
    let split = split_updates(&updates);
    assert_eq!(split.upserts, vec![updates[0], updates[3]]);
    assert_eq!(split.deletes, vec![updates[1]]);
    assert_eq!(split.response_capture_toggles, vec![updates[2]]);
}

#[test]
fn updates_delete_first_and_then_fetch() {
    let mut manager = with_partitions(&[0, 1]);
    load_configs(&mut manager, 0, vec![config(1), config(2)]);
    load_configs(&mut manager, 1, vec![config(1)]);
    let updates = vec![update(ConfigUpdateAction::Upsert, 2), update(ConfigUpdateAction::Delete, 2)];
    let keys = begin_update(&mut manager, 0, &updates);
    assert_eq!(keys, Some(vec![ids::to_simple(2)]));
    assert_eq!(ids_of(&manager, 0), vec![1]);
    load_configs(&mut manager, 0, vec![config(2)]);
    assert_eq!(ids_of(&manager, 0), vec![1, 2]);
    assert_eq!(ids_of(&manager, 1), vec![1]);
    let deletes = vec![update(ConfigUpdateAction::Delete, 9)];
    assert_eq!(begin_update(&mut manager, 0, &deletes), None);
    assert_eq!(config(2).redis_key(), "00000000000000000000000000000002");
}

#[test]
fn changes_of_a_partition_are_stamped() {
    let start = tokio::time::Instant::now();
    let after = |seconds: u64| start + std::time::Duration::from_secs(seconds);
    let stamp =
        |manager: &Manager| manager.get_service(0).get_config_store().get_last_update();
    let mut manager = with_partitions(&[0]);
    load_configs_at(&mut manager, 0, Vec::new(), after(1));
    assert_eq!(stamp(&manager), None);
    load_configs_at(&mut manager, 0, vec![config(1), config(2), config(3)], after(2));
    assert_eq!(stamp(&manager), Some(after(2)));
    begin_update_at(&mut manager, 0, &vec![update(ConfigUpdateAction::Delete, 9)], after(3));
    assert_eq!(stamp(&manager), Some(after(2)));
    begin_update_at(&mut manager, 0, &vec![update(ConfigUpdateAction::Delete, 2)], after(4));
    assert_eq!(stamp(&manager), Some(after(4)));
    let key = Some(ids::to_bytes(1));
    assert!(register_config_at(&mut manager, 0, &key, Payload::Config(config(1)), after(5)));
    assert_eq!(stamp(&manager), Some(after(5)));
    assert!(!register_config_at(&mut manager, 0, &key, Payload::Undecodable, after(6)));
    assert_eq!(stamp(&manager), Some(after(5)));
    assert!(register_config_at(&mut manager, 0, &key, Payload::Absent, after(7)));
    assert!(register_config_at(&mut manager, 0, &key, Payload::Absent, after(8)));
    assert_eq!(stamp(&manager), Some(after(7)));
    manager.remove_config_at(0, 3, after(9));
    assert_eq!(stamp(&manager), Some(after(9)));
    manager.add_config_at(0, Arc::new(config(3)), after(10));
    assert_eq!(stamp(&manager), Some(after(10)));
    assert_eq!(ids_of(&manager, 0), vec![3]);
}

#[test]
fn test_update_config_store() {
    let id: u128 = 0xd7629c6c_82be_4f67_9ee7_8a0d977856d2;
    let mut manager = with_partitions(&[0]);
    let key = Some(ids::to_bytes(id));
    assert!(register_config(&mut manager, 0, &key, Payload::Config(config(id))));
    assert_eq!(ids_of(&manager, 0), vec![id]);
}

#[test]
fn test_drop_config() {
    let mut manager = with_partitions(&[0]);
    let example_config = Arc::new(config(0));
    manager.add_config(0, example_config.clone());
    assert!(register_config(&mut manager, 0, &Some(ids::to_bytes(0)), Payload::Absent));
    assert_eq!(ids_of(&manager, 0).len(), 0);
    assert_eq!(Arc::strong_count(&example_config), 1);
}

#[test]
fn invalid_messages_change_nothing() {
    let mut manager = with_partitions(&[0]);
    manager.add_config(0, Arc::new(config(5)));
    assert!(!register_config(&mut manager, 0, &None, Payload::Absent));
    assert!(!register_config(&mut manager, 0, &Some(vec![5]), Payload::Absent));
    let key = Some(ids::to_bytes(5));
    assert!(!register_config(&mut manager, 0, &key, Payload::Undecodable));
    assert!(!register_config(&mut manager, 0, &key, Payload::Config(config(6))));
    assert_eq!(ids_of(&manager, 0), vec![5]);
}

#[test]
fn test_wait_for_boot() {
    // Nothing came yet, right before the longer wait is over.
    assert_eq!(boot_step(9_900, None, false), BootStep::Wait);
    // Something came meanwhile.
    assert_eq!(boot_step(10_100, Some(200), false), BootStep::Wait);
    assert_eq!(boot_step(10_700, Some(500), false), BootStep::Finish(BootResult::Started));
    assert_eq!(boot_step(10_000, None, false), BootStep::Finish(BootResult::Started));
}

#[test]
fn test_wait_for_boot_cancel() {
    assert_eq!(boot_step(9_900, None, false), BootStep::Wait);
    assert_eq!(boot_step(10_100, Some(200), false), BootStep::Wait);
    assert_eq!(boot_step(10_101, Some(201), true), BootStep::Finish(BootResult::Cancelled));
    assert_eq!(BootResult::Cancelled.label(), "config_consumer.partition_boot_cancelled");
    assert_eq!(BootResult::Started.label(), "config_consumer.partition_boot_complete");
}

#[test]
fn what_is_started_follows_from_the_configuration() {
    let plan = plan_start(&Config::default());
    match &plan.checker {
        CheckerSettings::Reqwest(c) => {
            assert!(c.external_only);
            assert_eq!(c.pool_max_idle_per_host, Some(0));
            assert_eq!(c.pool_idle_timeout_secs, 90);
        }
        other => panic!("{:?}", other),
    }
    assert_eq!(plan.executor.concurrency, 200);
    assert_eq!(plan.executor.region, "default");
    match &plan.producer {
        ProducerSettings::Kafka { topic, cluster, compression } => {
            assert_eq!(topic, "uptime-results");
            assert_eq!(*cluster, vec!["127.0.0.1:9092".to_owned()]);
            assert_eq!(compression, "lz4");
        }
        other => panic!("{:?}", other),
    }

    let config = Config {
        checker_mode: CheckerMode::Isahc,
        producer_mode: ProducerMode::Vector,
        allow_internal_ips: true,
        interface: Some("eth0".to_owned()),
        ..Config::default()
    };
    let plan = plan_start(&config);
    match &plan.checker {
        CheckerSettings::Isahc(c) => {
            assert!(c.ipv4_blacklist.is_empty());
            assert_eq!(c.interface.as_deref(), Some("eth0"));
        }
        other => panic!("{:?}", other),
    }
    match &plan.producer {
        ProducerSettings::Vector { endpoint, batch_size, retry_errors_forever, .. } => {
            assert_eq!(endpoint, "http://localhost:8020");
            assert_eq!(*batch_size, 10);
            assert!(!retry_errors_forever);
        }
        other => panic!("{:?}", other),
    }
}

#[test]
fn only_what_changes_a_store_counts_as_an_update() {
    let mut manager = with_partitions(&[0, 1]);
    let updated = |manager: &Manager| {
        manager
            .get_service(0)
            .get_config_store()
            .get_last_update()
            .is_some()
    };
    assert!(!updated(&manager));

    load_configs(&mut manager, 0, Vec::new());
    let unknown = vec![update(ConfigUpdateAction::Delete, 7)];
    assert_eq!(begin_update(&mut manager, 0, &unknown), None);
    let key = Some(ids::to_bytes(7));
    assert!(register_config(&mut manager, 0, &key, Payload::Absent));
    assert!(!updated(&manager));

    load_configs(&mut manager, 1, vec![config(7)]);
    assert!(!updated(&manager));
    load_configs(&mut manager, 0, vec![config(7)]);
    assert!(updated(&manager));
}

#[test]
fn partitions_begin_and_end_once() {
    let mut manager = with_partitions(&[0, 1]);
    load_configs(&mut manager, 1, vec![config(7)]);

    let changes = manager.update_partitions(&HashSet::from([1, 2, 3]));
    let mut added = changes.added;
    added.sort();
    assert_eq!(added, vec![2, 3]);
    assert_eq!(changes.removed.len(), 1);
    assert_eq!(changes.removed[0].get_partition(), 0);
    assert_eq!(ids_of(&manager, 1), vec![7]);

    let again = manager.update_partitions(&HashSet::from([1, 2, 3]));
    assert!(again.added.is_empty());
    assert!(again.removed.is_empty());
}
