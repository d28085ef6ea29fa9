use std::collections::VecDeque;

use shamash::traffic::{incident_file_name, incident_report, AdapterLoad, NetworkTrafficHandler, Reading};

fn readings(values: &[(&str, u64)]) -> Vec<Reading> {
    values.iter().map(|(name, received)| Reading { name: name.to_string(), received: *received }).collect()
}

fn window_of(handler: &NetworkTrafficHandler, name: &str) -> Vec<u64> {
    handler.load_map.iter().find(|a| a.name == name).map(|a| a.loads.iter().copied().collect()).unwrap()
}

#[test]
fn new_measures_traffic_between_two_readings() {
    let first = readings(&[("lo", 5), ("eth0", 100), ("wlan0", 50)]);
    let second = readings(&[("lo", 9), ("eth0", 160), ("wlan0", 50)]);
    assert!(NetworkTrafficHandler::covers(&first, &second));
    let handler = NetworkTrafficHandler::new(&first, &second, 3);
    assert_eq!(handler.load_map.len(), 2);
    assert_eq!(window_of(&handler, "eth0"), vec![60]);
    assert_eq!(window_of(&handler, "wlan0"), vec![0]);
    assert_eq!(handler.active_adapters, vec!["eth0".to_string()]);
    assert!(handler.load_map.iter().all(|a| a.name != "lo"));
}

#[test]
fn counter_going_backwards_counts_as_no_traffic() {
    let first = readings(&[("eth0", 100)]);
    let second = readings(&[("eth0", 40)]);
    let handler = NetworkTrafficHandler::new(&first, &second, 3);
    assert_eq!(window_of(&handler, "eth0"), vec![0]);
    assert!(handler.active_adapters.is_empty());
}

#[test]
fn unknown_adapter_is_not_covered() {
    let first = readings(&[("eth0", 1)]);
    let second = readings(&[("eth0", 2), ("eth1", 3)]);
    assert!(!NetworkTrafficHandler::covers(&first, &second));
    assert!(NetworkTrafficHandler::covers(&first, &readings(&[("lo", 3)])));
}

#[test]
fn windows_slide_once_full() {
    let first = readings(&[("eth0", 0)]);
    let mut handler = NetworkTrafficHandler::new(&first, &readings(&[("eth0", 10)]), 3);
    // the last reading kept is the first one, so the first update counts from it
    let round = readings(&[("eth0", 30)]);
    assert!(handler.knows_all(&round));
    handler.update(&round);
    assert_eq!(window_of(&handler, "eth0"), vec![10, 30]);
    handler.update(&readings(&[("eth0", 35)]));
    assert_eq!(window_of(&handler, "eth0"), vec![10, 30, 5]);
    handler.update(&readings(&[("eth0", 45), ("lo", 1000)]));
    assert_eq!(window_of(&handler, "eth0"), vec![30, 5, 10]);
    assert_eq!(handler.active_adapters, vec!["eth0".to_string()]);
}

#[test]
fn update_leaves_unread_adapters_alone() {
    let first = readings(&[("eth0", 0), ("wlan0", 0)]);
    let mut handler = NetworkTrafficHandler::new(&first, &readings(&[("eth0", 4), ("wlan0", 6)]), 3);
    handler.update(&readings(&[("eth0", 10)]));
    assert_eq!(window_of(&handler, "eth0"), vec![4, 10]);
    assert_eq!(window_of(&handler, "wlan0"), vec![6]);
    handler.update(&readings(&[("wlan0", 9)]));
    assert_eq!(window_of(&handler, "eth0"), vec![4, 10]);
    assert_eq!(window_of(&handler, "wlan0"), vec![6, 9]);
}

#[test]
fn adapters_become_active_once() {
    let first = readings(&[("eth0", 0), ("wlan0", 0)]);
    let mut handler = NetworkTrafficHandler::new(&first, &readings(&[("eth0", 0), ("wlan0", 0)]), 2);
    assert!(handler.active_adapters.is_empty());
    handler.update(&readings(&[("wlan0", 5)]));
    handler.update(&readings(&[("wlan0", 9), ("eth0", 1)]));
    handler.update(&readings(&[("wlan0", 19)]));
    assert_eq!(handler.active_adapters, vec!["wlan0".to_string(), "eth0".to_string()]);
}

#[test]
fn update_needs_known_adapters() {
    let first = readings(&[("eth0", 0)]);
    let handler = NetworkTrafficHandler::new(&first, &first, 2);
    assert!(!handler.knows_all(&readings(&[("eth1", 1)])));
    assert!(handler.knows_all(&readings(&[("lo", 1), ("eth0", 2)])));
}

#[test]
fn internet_restored_needs_a_full_window_over_threshold() {
    let first = readings(&[("eth0", 0)]);
    let mut handler = NetworkTrafficHandler::new(&first, &readings(&[("eth0", 100)]), 3);
    let eth0 = "eth0".to_string();
    assert!(!handler.internet_restored(&eth0, 10));
    handler.update(&readings(&[("eth0", 100)]));
    assert!(!handler.internet_restored(&eth0, 10));
    handler.update(&readings(&[("eth0", 100)]));
    // window: [100, 100, 0]
    assert!(handler.internet_restored(&eth0, 200));
    assert!(!handler.internet_restored(&eth0, 201));
    assert!(!handler.internet_restored(&"wlan0".to_string(), 0));
}

#[test]
fn internet_restored_does_not_overflow() {
    let first = readings(&[("eth0", 0)]);
    let mut handler = NetworkTrafficHandler::new(&first, &readings(&[("eth0", u64::MAX)]), 2);
    handler.update(&readings(&[("eth0", u64::MAX)]));
    assert!(handler.internet_restored(&"eth0".to_string(), u64::MAX));
}

#[test]
fn new_with_load_map_replaces_windows() {
    let first = readings(&[("eth0", 0)]);
    let load_map = vec![AdapterLoad { name: "eth0".to_string(), loads: VecDeque::from(vec![1, 2, 3]) }];
    let handler = NetworkTrafficHandler::new_with_load_map(&first, &readings(&[("eth0", 7)]), 3, load_map);
    assert_eq!(window_of(&handler, "eth0"), vec![1, 2, 3]);
    assert_eq!(handler.active_adapters, vec!["eth0".to_string()]);
    assert!(handler.internet_restored(&"eth0".to_string(), 6));
}

#[test]
fn incident_record() {
    assert_eq!(incident_file_name("2024-05-01", "12:00:00"), "2024-05-01-12:00:00.xff");
    let report = incident_report("2024-05-01", "12:00:00", "2024-05-01", "12:05:00", 300000);
    let expected: Vec<(String, String)> = vec![
        ("start-date", "2024-05-01"),
        ("start-time", "12:00:00"),
        ("end-date", "2024-05-01"),
        ("end-time", "12:05:00"),
        ("duration", "300000"),
    ]
    .into_iter()
    .map(|(k, v)| (k.to_string(), v.to_string()))
    .collect();
    assert_eq!(report, expected);
}
