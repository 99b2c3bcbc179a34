use std::sync::Arc;
use uptime_checker::config_store::{ConfigStore, Tick};
use uptime_checker::time::Timestamp;
use uptime_checker::types::check_config::{CheckConfig, CheckInterval};
use uptime_checker::types::shared::RequestMethod;

fn at(secs: i64) -> Timestamp {
    Timestamp { secs, nanos: 0 }
}

fn config(subscription_id: u128, interval: CheckInterval) -> Arc<CheckConfig> {
    Arc::new(CheckConfig {
        subscription_id,
        interval,
        timeout_ms: 10_000,
        url: "https://example.com".to_owned(),
        request_method: RequestMethod::Get,
        request_headers: Vec::new(),
        request_body: String::new(),
        trace_sampling: false,
        active_regions: None,
        region_schedule_mode: None,
    })
}

fn bucket(store: &ConfigStore, slot: usize) -> Vec<u128> {
    store.get_configs(Tick::new(slot, at(0))).iter().map(|c| c.subscription_id).collect()
}

#[test]
fn test_tick_for_time() {
    assert_eq!(Tick::from_time(at(0)).index, 0);
    assert_eq!(Tick::from_time(at(60)).index, 60);
    assert_eq!(Tick::from_time(at(60 * 60)).index, 0);
    assert_eq!(Tick::from_time(at(60 * 60 * 24)).index, 0);
}

#[test]
fn ticks_before_the_epoch_wrap_round() {
    let expected = (-1i64 as usize) % 3600;
    assert_eq!(Tick::from_time(at(-1)).index, expected);
    assert_eq!(Tick::from_time(at(61)).describe(), "Tick(slot: 61, ts: 61)");
    assert_eq!(Tick::from_time(at(61)).time(), at(61));
}

#[test]
fn configs_stand_in_the_seconds_at_which_they_run() {
    let mut store = ConfigStore::new();
    store.add_config(config(60, CheckInterval::OneMinute));
    assert_eq!(store.all_configs().len(), 1);
    assert_eq!(bucket(&store, 0).len(), 1);
    assert_eq!(bucket(&store, 60).len(), 1);
    store.add_config(config(9300, CheckInterval::FiveMinutes));
    assert_eq!(store.all_configs().len(), 2);
    for slot in (0..60).map(|c| 60 * c) {
        assert!(bucket(&store, slot).contains(&60));
        if slot % 300 == 0 {
            assert_eq!(bucket(&store, slot).len(), 2);
            assert!(bucket(&store, slot).contains(&9300));
        } else {
            assert_eq!(bucket(&store, slot).len(), 1);
        }
    }
    assert!(bucket(&store, 1).is_empty());
}

#[test]
fn a_second_config_of_a_subscription_replaces_the_first() {
    let mut store = ConfigStore::new();
    store.add_config(config(300, CheckInterval::OneMinute));
    for slot in (0..60).map(|c| 60 * c) {
        assert_eq!(bucket(&store, slot), vec![300]);
    }
    store.add_config(config(300, CheckInterval::FiveMinutes));
    for slot in (0..60).map(|c| 60 * c) {
        let expected: Vec<u128> = if slot % 300 == 0 { vec![300] } else { vec![] };
        assert_eq!(bucket(&store, slot), expected);
    }
    assert_eq!(store.all_configs().len(), 1);
}

#[test]
fn removed_configs_leave_every_second() {
    let mut store = ConfigStore::new();
    store.add_config(config(0, CheckInterval::OneMinute));
    store.add_config(config(9300, CheckInterval::FiveMinutes));
    store.remove_config(0);
    assert_eq!(store.all_configs().len(), 1);
    assert_eq!(bucket(&store, 0).len(), 1);
    assert_eq!(bucket(&store, 60).len(), 0);
    assert_eq!(bucket(&store, 60 * 5).len(), 1);
    store.remove_config(9300);
    store.remove_config(9300);
    assert_eq!(store.all_configs().len(), 0);
    assert_eq!(bucket(&store, 0).len(), 0);
    assert_eq!(bucket(&store, 60 * 5).len(), 0);
}

#[test]
fn the_store_knows_when_it_changed() {
    let mut store = ConfigStore::new();
    assert!(store.get_last_update().is_none());
    store.remove_config(1);
    assert!(store.get_last_update().is_none());
    let before = tokio::time::Instant::now();
    store.add_config(config(1, CheckInterval::OneMinute));
    let added = store.get_last_update().unwrap();
    assert!(before <= added && added <= tokio::time::Instant::now());
    store.remove_config(1);
    assert!(added <= store.get_last_update().unwrap());
}

#[test]
fn every_change_is_stamped_with_its_instant() {
    let start = tokio::time::Instant::now();
    let after = |seconds: u64| start + std::time::Duration::from_secs(seconds);
    let mut store = ConfigStore::new();
    store.add_config_at(config(1, CheckInterval::OneMinute), after(1));
    assert_eq!(store.get_last_update(), Some(after(1)));
    store.add_config_at(config(1, CheckInterval::FiveMinutes), after(2));
    assert_eq!(store.get_last_update(), Some(after(2)));
    store.remove_config_at(2, after(3));
    assert_eq!(store.get_last_update(), Some(after(2)));
    store.remove_config_at(1, after(4));
    assert_eq!(store.get_last_update(), Some(after(4)));
    assert_eq!(store.all_configs().len(), 0);
}
