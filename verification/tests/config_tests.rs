use shamash::config::{default_settings, Config, ConfigError, Overrides, Settings, NORMAL_INTERVAL_MS, RECOVERY_INTERVAL_MS};
use shamash::next_index;

fn targets(names: &[&str]) -> Vec<String> {
    names.iter().map(|n| n.to_string()).collect()
}

fn config_with(names: &[&str]) -> Config {
    Config::new("192.168.0.1".to_string(), None, targets(names), "./logs".to_string())
}

#[test]
fn next_index_wraps_around() {
    assert_eq!(next_index(0, 3), 1);
    assert_eq!(next_index(1, 3), 2);
    assert_eq!(next_index(2, 3), 0);
    assert_eq!(next_index(0, 1), 0);
}

#[test]
fn new_config_starts_at_first_target_with_default_intervals() {
    let config = config_with(&["a", "b", "c"]);
    assert_eq!(config.index, 0);
    assert_eq!(config.interval_normal, NORMAL_INTERVAL_MS);
    assert_eq!(config.interval_recovery, RECOVERY_INTERVAL_MS);
    assert_eq!(config.interval_normal, 1000);
    assert_eq!(config.interval_recovery, 333);
    assert_eq!(config.current_target(), "a");
    assert_eq!(config.next_target(), "b");
}

#[test]
fn iterating_targets_is_round_robin() {
    let mut config = config_with(&["a", "b", "c"]);
    let mut seen = Vec::new();
    for _ in 0..3 {
        let next = config.next_target();
        config.iter_targets();
        assert_eq!(config.current_target(), next);
        seen.push(config.current_target());
    }
    assert_eq!(seen, vec!["b", "c", "a"]);
    assert_eq!(config.index, 0);
    assert_eq!(config.next_target(), "b");
}

#[test]
fn next_target_of_last_is_first() {
    let mut config = config_with(&["a", "b"]);
    config.iter_targets();
    assert_eq!(config.current_target(), "b");
    assert_eq!(config.next_target(), "a");
}

fn file_settings() -> Settings {
    Settings {
        router_ip: Some("10.0.0.1".to_string()),
        secondary_internal_target: Some("10.0.0.2".to_string()),
        targets: Some(targets(&["1.1.1.1", "8.8.8.8"])),
        log_dir_path: Some("./file-logs".to_string()),
    }
}

fn no_overrides() -> Overrides {
    Overrides { router_ip: None, secondary_internal_target: None, log_dir_path: None }
}

#[test]
fn settings_from_file_alone() {
    let config = Config::from_settings(no_overrides(), file_settings()).unwrap();
    assert_eq!(config.router_ip, "10.0.0.1");
    assert_eq!(config.secondary_internal_target, Some("10.0.0.2".to_string()));
    assert_eq!(config.targets, targets(&["1.1.1.1", "8.8.8.8"]));
    assert_eq!(config.log_dir_path, "./file-logs");
    assert_eq!(config.index, 0);
}

#[test]
fn environment_overrides_file() {
    let overrides = Overrides {
        router_ip: Some("172.16.0.1".to_string()),
        secondary_internal_target: Some("172.16.0.2".to_string()),
        log_dir_path: Some("/var/log/shamash".to_string()),
    };
    let config = Config::from_settings(overrides, file_settings()).unwrap();
    assert_eq!(config.router_ip, "172.16.0.1");
    assert_eq!(config.secondary_internal_target, Some("172.16.0.2".to_string()));
    assert_eq!(config.log_dir_path, "/var/log/shamash");
    assert_eq!(config.targets, targets(&["1.1.1.1", "8.8.8.8"]));
}

#[test]
fn secondary_target_may_be_missing() {
    let mut file = file_settings();
    file.secondary_internal_target = None;
    let config = Config::from_settings(no_overrides(), file).unwrap();
    assert_eq!(config.secondary_internal_target, None);
}

#[test]
fn missing_settings_are_reported_in_order() {
    let mut file = file_settings();
    file.router_ip = None;
    file.log_dir_path = None;
    assert_eq!(Config::from_settings(no_overrides(), file).err(), Some(ConfigError::MissingRouterIp));

    let mut file = file_settings();
    file.log_dir_path = None;
    file.targets = None;
    assert_eq!(Config::from_settings(no_overrides(), file).err(), Some(ConfigError::MissingLogDirPath));

    let mut file = file_settings();
    file.targets = None;
    assert_eq!(Config::from_settings(no_overrides(), file).err(), Some(ConfigError::MissingTargets));
}

#[test]
fn override_fills_a_missing_file_setting() {
    let mut file = file_settings();
    file.router_ip = None;
    let overrides = Overrides { router_ip: Some("192.168.1.1".to_string()), ..no_overrides() };
    let config = Config::from_settings(overrides, file).unwrap();
    assert_eq!(config.router_ip, "192.168.1.1");
}

#[test]
fn default_settings_hold_twenty_targets() {
    let settings = default_settings();
    assert_eq!(settings.router_ip.as_deref(), Some("192.168.178.1"));
    assert_eq!(settings.secondary_internal_target.as_deref(), Some("192.168.178.2"));
    assert_eq!(settings.log_dir_path.as_deref(), Some("./shamash-logs"));
    let targets = settings.targets.unwrap();
    assert_eq!(targets.len(), 20);
    assert_eq!(targets[0], "1.1.1.1");
    assert_eq!(targets[1], "149.112.112.112");
    assert_eq!(targets[19], "76.76.2.0");
}

#[test]
fn default_targets_have_no_repeated_address() {
    let targets = default_settings().targets.unwrap();
    for i in 0..targets.len() {
        for j in (i + 1)..targets.len() {
            assert_ne!(targets[i], targets[j]);
        }
    }
}

#[test]
fn missing_config_file_gives_the_defaults() {
    let config = Config::from_settings(no_overrides(), default_settings()).unwrap();
    assert_eq!(config.router_ip, "192.168.178.1");
    assert_eq!(config.secondary_internal_target, Some("192.168.178.2".to_string()));
    assert_eq!(config.log_dir_path, "./shamash-logs");
    assert_eq!(config.targets, default_settings().targets.unwrap());
    assert_eq!(config.current_target(), "1.1.1.1");
}
