use shamash::config::Config;
use shamash::log::{EventType, Logger, Moment};
use shamash::probe::{is_answering_ping, PingReply};
use shamash::states::{
    complete_network_outage, diagnosing, isp_outage, local_outage, marker_path, online, shutdown, Command,
    ConnectionState, Marker, MarkerChange, Monitor, Outcome, Probe, Stage, OUTAGE_PAUSE_MS,
};

const NOW: &str = "2024-05-01 12:00:00";

fn moment() -> Moment {
    Moment { now: NOW.to_string(), log_age: "3.5".to_string(), log_age_precise: "3.5001".to_string() }
}

fn config() -> Config {
    let targets = ["t0", "t1", "t2", "t3", "t4", "t5", "t6"].iter().map(|t| t.to_string()).collect();
    Config::new("router".to_string(), Some("secondary".to_string()), targets, "./logs".to_string())
}

fn small() -> String {
    format!("{}-", "- ".repeat(20))
}

fn large() -> Vec<String> {
    vec!["\n".to_string(), format!("{}=", "=-".repeat(20)), "\n".to_string()]
}

fn text(lines: &[String]) -> String {
    let mut out = lines.join("\n");
    out.push('\n');
    out
}

fn ping(command: Command) -> Probe {
    match command {
        Command::Ping(probe) => probe,
        Command::Finish(_) => panic!("expected a ping"),
    }
}

fn finish(command: Command) -> Outcome {
    match command {
        Command::Finish(outcome) => outcome,
        Command::Ping(_) => panic!("expected the end of the round"),
    }
}

#[test]
fn ping_replies_are_logged_by_state() {
    let mut logger = Logger::new("./logs".to_string());
    assert!(is_answering_ping("a", PingReply::Answered, &mut logger, ConnectionState::Online));
    assert!(!logger.has_unsaved_log());
    assert!(is_answering_ping("a", PingReply::Answered, &mut logger, ConnectionState::IspOutage));
    assert!(!is_answering_ping("b", PingReply::Silent, &mut logger, ConnectionState::Online));
    assert!(!is_answering_ping("c", PingReply::Failed("no ping binary".to_string()), &mut logger, ConnectionState::Online));
    assert_eq!(
        logger.make_log(),
        "🟢 Target 'a' is answering\n🔴 Target 'b' is not answering\nno ping binary\n"
    );
}

#[test]
fn marker_paths() {
    assert_eq!(marker_path("./logs", Marker::Diagnosing), "./logs/diagnosing");
    assert_eq!(marker_path("./logs", Marker::IspOutage), "./logs/isp_outage_ongoing");
    assert_eq!(marker_path("./logs", Marker::LocalOutage), "./logs/local_outage_ongoing");
    assert_eq!(marker_path("./logs", Marker::CompleteNetworkOutage), "./logs/complete_network_outage_ongoing");
}

#[test]
fn online_answer_keeps_online() {
    let config = config();
    let mut logger = Logger::new("./logs".to_string());
    let (stage, command) = online(&config, &mut logger, Stage::Begin, None, &moment());
    assert_eq!(stage, Stage::First);
    let probe = ping(command);
    assert_eq!(probe.target, "t0");
    assert_eq!(probe.timeout_ms, 1000);
    assert_eq!(probe.wait_ms, 0);
    let (stage, command) = online(&config, &mut logger, stage, Some(PingReply::Answered), &moment());
    assert_eq!(stage, Stage::Begin);
    let outcome = finish(command);
    assert_eq!(outcome.next_state, None);
    assert_eq!(outcome.wait_ms, 1000);
    assert!(outcome.saved.is_none());
    assert!(outcome.markers.is_empty());
    assert!(!logger.has_unsaved_log());
}

#[test]
fn online_second_target_rescues() {
    let config = config();
    let mut logger = Logger::new("./logs".to_string());
    let (stage, command) = online(&config, &mut logger, Stage::First, Some(PingReply::Silent), &moment());
    assert_eq!(stage, Stage::Second);
    assert_eq!(ping(command).target, "t1");
    let (_, command) = online(&config, &mut logger, stage, Some(PingReply::Answered), &moment());
    let outcome = finish(command);
    assert_eq!(outcome.next_state, None);
    assert_eq!(outcome.wait_ms, 1000);
    assert_eq!(logger.make_log(), "🔴 Target 't0' is not answering\n");
}

#[test]
fn online_both_silent_starts_diagnosis() {
    let config = config();
    let mut logger = Logger::new("./logs".to_string());
    logger.add_log_line("stale".to_string());
    let (stage, _) = online(&config, &mut logger, Stage::First, Some(PingReply::Silent), &moment());
    let (stage, command) = online(&config, &mut logger, stage, Some(PingReply::Silent), &moment());
    assert_eq!(stage, Stage::Begin);
    let outcome = finish(command);
    assert_eq!(outcome.next_state, Some(ConnectionState::Diagnosing));
    assert_eq!(outcome.markers, vec![MarkerChange::Create(Marker::Diagnosing)]);
    assert!(outcome.restart_log_clock);
    let mut expected = large();
    expected.push(format!("Start of log: {NOW}"));
    expected.extend(large());
    expected.push("🟡 Target 't0' and secondary target 't1' failed to answer".to_string());
    expected.extend(large());
    assert_eq!(logger.make_log(), text(&expected));
}

#[test]
fn diagnosing_router_down_declares_local_outage() {
    let mut config = config();
    let mut logger = Logger::new("./logs".to_string());
    let (stage, command) = diagnosing(&mut config, &mut logger, Stage::Begin, None, &moment());
    assert_eq!(stage, Stage::First);
    let probe = ping(command);
    assert_eq!(probe.target, "router");
    assert_eq!(probe.timeout_ms, 333);
    let (stage, command) = diagnosing(&mut config, &mut logger, stage, Some(PingReply::Silent), &moment());
    assert_eq!(stage, Stage::Begin);
    let outcome = finish(command);
    assert_eq!(outcome.next_state, Some(ConnectionState::LocalOutage));
    assert_eq!(
        outcome.markers,
        vec![MarkerChange::Remove(Marker::Diagnosing), MarkerChange::Create(Marker::LocalOutage)]
    );
    assert!(logger.event_type == EventType::LocalOutage);
    let mut expected = vec![
        format!("🟡 Diagnosing - {NOW}"),
        small(),
        "Checking router at router".to_string(),
        "🔴 Target 'router' is not answering".to_string(),
        small(),
        "🔴 Router is down".to_string(),
        format!("🔴 Declaring local outage at {NOW} - Roll the Trucks!"),
    ];
    expected.extend(large());
    assert_eq!(logger.make_log(), text(&expected));
}

#[test]
fn diagnosing_one_answer_suffices() {
    let mut config = config();
    let mut logger = Logger::new("./logs".to_string());
    let (stage, _) = diagnosing(&mut config, &mut logger, Stage::Begin, None, &moment());
    let (stage, command) = diagnosing(&mut config, &mut logger, stage, Some(PingReply::Answered), &moment());
    assert_eq!(stage, Stage::Target(0));
    assert_eq!(ping(command).target, "t0");
    let (stage, command) = diagnosing(&mut config, &mut logger, stage, Some(PingReply::Silent), &moment());
    assert_eq!(stage, Stage::Target(1));
    let probe = ping(command);
    assert_eq!(probe.target, "t1");
    assert_eq!(probe.wait_ms, 333);
    assert_eq!(config.index, 1);
    let (stage, command) = diagnosing(&mut config, &mut logger, stage, Some(PingReply::Answered), &moment());
    assert_eq!(stage, Stage::Begin);
    let outcome = finish(command);
    assert_eq!(outcome.next_state, Some(ConnectionState::Online));
    assert_eq!(outcome.markers, vec![MarkerChange::Remove(Marker::Diagnosing)]);
    assert!(outcome.restart_log_clock);
    assert!(!logger.has_unsaved_log());
}

#[test]
fn diagnosing_all_silent_declares_isp_outage() {
    let mut config = config();
    let mut logger = Logger::new("./logs".to_string());
    let (stage, _) = diagnosing(&mut config, &mut logger, Stage::Begin, None, &moment());
    let (mut stage, _) = diagnosing(&mut config, &mut logger, stage, Some(PingReply::Answered), &moment());
    // seven targets: a third, rounded up, is three
    let mut last = None;
    for _ in 0..3 {
        let (next, command) = diagnosing(&mut config, &mut logger, stage, Some(PingReply::Silent), &moment());
        stage = next;
        last = Some(command);
    }
    assert_eq!(stage, Stage::Begin);
    assert_eq!(config.index, 3);
    let outcome = finish(last.unwrap());
    assert_eq!(outcome.next_state, Some(ConnectionState::IspOutage));
    assert_eq!(outcome.wait_ms, 333);
    assert_eq!(
        outcome.markers,
        vec![MarkerChange::Remove(Marker::Diagnosing), MarkerChange::Create(Marker::IspOutage)]
    );
    assert!(logger.event_type == EventType::IspOutage);
    let log = logger.make_log();
    assert!(log.contains("🔴 Mr. President, 3 more targets have failed to answer\n"));
    assert!(log.contains(&format!("🔴 Declaring ISP outage at {NOW}\n")));
    assert!(log.contains("🔴 Target 't2' is not answering\n"));
}

#[test]
fn isp_outage_goes_on_while_silent() {
    let config = config();
    let mut logger = Logger::new("./logs".to_string());
    let (stage, command) = isp_outage(&config, &mut logger, Stage::Begin, None, &moment());
    assert_eq!(ping(command).timeout_ms, 333);
    let (stage, command) = isp_outage(&config, &mut logger, stage, Some(PingReply::Silent), &moment());
    assert_eq!(stage, Stage::Begin);
    let outcome = finish(command);
    assert_eq!(outcome.next_state, None);
    assert_eq!(outcome.wait_ms, OUTAGE_PAUSE_MS);
}

#[test]
fn isp_outage_needs_two_answers() {
    let config = config();
    let mut logger = Logger::new("./logs".to_string());
    logger.set_event_type(EventType::IspOutage);
    let (stage, command) = isp_outage(&config, &mut logger, Stage::First, Some(PingReply::Answered), &moment());
    assert_eq!(stage, Stage::Second);
    assert_eq!(ping(command).target, "t1");
    let (_, command) = isp_outage(&config, &mut logger, stage, Some(PingReply::Silent), &moment());
    let outcome = finish(command);
    assert_eq!(outcome.next_state, None);
    assert_eq!(outcome.wait_ms, 0);
    let expected = vec![
        "🟢 Target 't0' is answering".to_string(),
        format!("🟢 Connection established with target 't0' at {NOW}"),
        "🔴 Target 't1' is not answering".to_string(),
        format!("🟡 Connection not established with second target 't1' at {NOW}"),
        "🔴 Continuing ISP outage".to_string(),
        small(),
    ];
    assert_eq!(logger.make_log(), text(&expected));
}

#[test]
fn isp_outage_ends_and_saves_its_log() {
    let config = config();
    let mut logger = Logger::new("./logs".to_string());
    logger.set_event_type(EventType::IspOutage);
    let (stage, _) = isp_outage(&config, &mut logger, Stage::First, Some(PingReply::Answered), &moment());
    let (stage, command) = isp_outage(&config, &mut logger, stage, Some(PingReply::Answered), &moment());
    assert_eq!(stage, Stage::Begin);
    let outcome = finish(command);
    assert_eq!(outcome.next_state, Some(ConnectionState::Online));
    assert_eq!(outcome.markers, vec![MarkerChange::Remove(Marker::IspOutage)]);
    let saved = outcome.saved.unwrap();
    assert_eq!(saved.file_name, format!("isp_outage/{NOW}.log"));
    let expected = vec![
        "🟢 Target 't0' is answering".to_string(),
        format!("🟢 Connection established with target 't0' at {NOW}"),
        "🟢 Target 't1' is answering".to_string(),
        format!("🟢 Connection established with second target 't1' at {NOW}"),
        small(),
        "Time from Log creation to saving: 3.5 seconds".to_string(),
        small(),
    ];
    assert_eq!(saved.text, text(&expected));
    assert!(!logger.has_unsaved_log());
}

#[test]
fn local_outage_ends_when_outside_answers_at_once() {
    let config = config();
    let mut logger = Logger::new("./logs".to_string());
    logger.set_event_type(EventType::LocalOutage);
    let (stage, command) = local_outage(&config, &mut logger, Stage::Begin, None, &moment());
    assert_eq!(ping(command).target, "router");
    let (stage, command) = local_outage(&config, &mut logger, stage, Some(PingReply::Answered), &moment());
    assert_eq!(stage, Stage::Second);
    assert_eq!(ping(command).target, "t0");
    let (stage, command) = local_outage(&config, &mut logger, stage, Some(PingReply::Answered), &moment());
    assert_eq!(stage, Stage::Begin);
    let outcome = finish(command);
    assert_eq!(outcome.next_state, Some(ConnectionState::Online));
    assert_eq!(outcome.markers, vec![MarkerChange::Remove(Marker::LocalOutage)]);
    let saved = outcome.saved.unwrap();
    assert_eq!(saved.file_name, format!("local_outage/{NOW}.log"));
    let mut expected = vec![
        "🟢 Target 'router' is answering".to_string(),
        format!("🟢 Connection with Router established at {NOW}"),
        small(),
        "🟢 Local Outage end declared, duration: 3.5001 seconds - checking outside connection".to_string(),
    ];
    expected.extend(large());
    expected.push("🟢 Target 't0' is answering".to_string());
    expected.push(format!("🟢 Outside test connection successful with target 't0' at {NOW}"));
    expected.extend(large());
    expected.push(format!("🟢 Local Outage end at {NOW}"));
    expected.push(small());
    expected.push("Time from Log creation to saving: 3.5 seconds".to_string());
    expected.push(small());
    assert_eq!(saved.text, text(&expected));
    // a large separator is left behind in the fresh log
    assert_eq!(logger.make_log(), text(&large()));
}

#[test]
fn local_outage_turns_into_isp_outage() {
    let config = config();
    let mut logger = Logger::new("./logs".to_string());
    logger.set_event_type(EventType::LocalOutage);
    let (stage, command) = local_outage(&config, &mut logger, Stage::Second, Some(PingReply::Silent), &moment());
    assert_eq!(stage, Stage::Third);
    assert_eq!(ping(command).target, "t0");
    let (stage, command) = local_outage(&config, &mut logger, stage, Some(PingReply::Silent), &moment());
    assert_eq!(stage, Stage::Begin);
    let outcome = finish(command);
    assert_eq!(outcome.next_state, Some(ConnectionState::IspOutage));
    assert_eq!(
        outcome.markers,
        vec![MarkerChange::Remove(Marker::LocalOutage), MarkerChange::Create(Marker::IspOutage)]
    );
    assert!(logger.event_type == EventType::IspOutage);
    let mut expected = vec![
        "🔴 Target 't0' is not answering".to_string(),
        format!("🟡 Outside test connection unsuccessful with target 't0' at {NOW}"),
        small(),
        "🔴 Target 't0' is not answering".to_string(),
        format!("🔴 Outside test connection unsuccessful at {NOW}"),
        format!("🔴 Declaring ISP outage at {NOW}, continuing the outage"),
    ];
    expected.extend(large());
    assert_eq!(logger.make_log(), text(&expected));
}

#[test]
fn local_outage_second_try_saves_log() {
    let config = config();
    let mut logger = Logger::new("./logs".to_string());
    logger.set_event_type(EventType::LocalOutage);
    let (_, command) = local_outage(&config, &mut logger, Stage::Third, Some(PingReply::Answered), &moment());
    let outcome = finish(command);
    assert_eq!(outcome.next_state, Some(ConnectionState::Online));
    let saved = outcome.saved.unwrap();
    assert!(saved.text.contains(&format!("🟢 Outside test connection successful with target 't0' at {NOW}\n")));
    assert!(!logger.has_unsaved_log());
}

#[test]
fn complete_network_outage_paths() {
    let config = config();
    let mut logger = Logger::new("./logs".to_string());
    let (stage, command) = complete_network_outage(&config, &mut logger, Stage::Begin, None, &moment());
    assert_eq!(ping(command).target, "secondary");
    let (_, command) = complete_network_outage(&config, &mut logger, stage, Some(PingReply::Silent), &moment());
    assert_eq!(finish(command).wait_ms, OUTAGE_PAUSE_MS);

    let (stage, command) = complete_network_outage(&config, &mut logger, Stage::First, Some(PingReply::Answered), &moment());
    assert_eq!(stage, Stage::Second);
    assert_eq!(ping(command).target, "router");
    let (stage, command) = complete_network_outage(&config, &mut logger, stage, Some(PingReply::Answered), &moment());
    assert_eq!(stage, Stage::Third);
    assert_eq!(ping(command).target, "t0");
    let (_, command) = complete_network_outage(&config, &mut logger, stage, Some(PingReply::Silent), &moment());
    let outcome = finish(command);
    assert_eq!(outcome.next_state, Some(ConnectionState::IspOutage));
    assert_eq!(
        outcome.markers,
        vec![MarkerChange::Remove(Marker::CompleteNetworkOutage), MarkerChange::Create(Marker::IspOutage)]
    );
    assert!(logger.event_type == EventType::IspOutage);

    let mut logger = Logger::new("./logs".to_string());
    let (_, command) = complete_network_outage(&config, &mut logger, Stage::Second, Some(PingReply::Silent), &moment());
    assert_eq!(finish(command).next_state, Some(ConnectionState::LocalOutage));
    assert!(logger.event_type == EventType::LocalOutage);

    let mut logger = Logger::new("./logs".to_string());
    logger.add_log_line("outage".to_string());
    let (_, command) = complete_network_outage(&config, &mut logger, Stage::Third, Some(PingReply::Answered), &moment());
    let outcome = finish(command);
    assert_eq!(outcome.next_state, Some(ConnectionState::Online));
    assert_eq!(outcome.markers, vec![MarkerChange::Remove(Marker::CompleteNetworkOutage)]);
    assert!(logger.event_type == EventType::Online);
    assert!(!logger.has_unsaved_log());
    let saved = outcome.saved.unwrap();
    assert_eq!(saved.file_name, format!("{NOW}.log"));
    let mut expected = vec![
        "outage".to_string(),
        "🟢 Target 't0' is answering".to_string(),
        small(),
        format!("🟢 Declaring router online at {NOW}"),
    ];
    expected.extend(large());
    expected.push(format!("🟢 Complete network outage end at {NOW}"));
    expected.push(small());
    expected.push("Time from Log creation to saving: 3.5 seconds".to_string());
    expected.push(small());
    assert_eq!(saved.text, text(&expected));
}

/// Plays the monitor against a scripted network and checks that the marker
/// files always tell the state.
#[test]
fn monitor_markers_follow_the_state() {
    let mut config = config();
    let mut logger = Logger::new("./logs".to_string());
    let mut monitor = Monitor::new();
    let mut markers: Vec<Marker> = Vec::new();
    // router answers, every outside target is silent for a while, then all answer
    let mut outside_up = false;
    let mut rounds = 0;
    let mut saved_logs = Vec::new();
    let mut states = Vec::new();
    while rounds < 12 {
        let mut reply = None;
        loop {
            match monitor.step(&mut config, &mut logger, reply.take(), &moment()) {
                Command::Ping(probe) => {
                    let up = probe.target == "router" || outside_up;
                    reply = Some(if up { PingReply::Answered } else { PingReply::Silent });
                },
                Command::Finish(outcome) => {
                    for change in outcome.markers {
                        match change {
                            MarkerChange::Create(m) => markers.push(m),
                            MarkerChange::Remove(m) => markers.retain(|x| *x != m),
                        }
                    }
                    if let Some(saved) = outcome.saved {
                        saved_logs.push(saved);
                    }
                    break;
                },
            }
        }
        let expected: Vec<Marker> = match monitor.state {
            ConnectionState::Online => vec![],
            ConnectionState::Diagnosing => vec![Marker::Diagnosing],
            ConnectionState::IspOutage => vec![Marker::IspOutage],
            ConnectionState::LocalOutage => vec![Marker::LocalOutage],
            ConnectionState::CompleteNetworkOutage => vec![Marker::CompleteNetworkOutage],
        };
        assert_eq!(markers, expected);
        states.push(monitor.state);
        rounds += 1;
        if rounds == 5 {
            outside_up = true;
        }
    }
    assert_eq!(states[0], ConnectionState::Diagnosing);
    assert_eq!(states[1], ConnectionState::IspOutage);
    assert_eq!(states[5], ConnectionState::Online);
    assert_eq!(saved_logs.len(), 1);
    assert!(saved_logs[0].file_name.starts_with("isp_outage/"));
}

#[test]
fn shutdown_saves_only_an_ongoing_incident() {
    let mut logger = Logger::new("./logs".to_string());
    assert!(shutdown(ConnectionState::IspOutage, &mut logger, &moment()).is_none());
    logger.add_log_line("line".to_string());
    assert!(shutdown(ConnectionState::Online, &mut logger, &moment()).is_none());
    assert!(logger.has_unsaved_log());
    logger.set_event_type(EventType::LocalOutage);
    let saved = shutdown(ConnectionState::LocalOutage, &mut logger, &moment()).unwrap();
    assert_eq!(saved.file_name, format!("local_outage/{NOW}.log"));
    assert!(saved.text.starts_with(&format!("line\nShamash shutting down at {NOW}\n")));
    assert!(!logger.has_unsaved_log());
}
