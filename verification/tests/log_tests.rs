use shamash::log::{decimal_text, make_long_repeat, EventType, Logger, Moment};

fn moment() -> Moment {
    Moment {
        now: "2024-05-01 12:00:00".to_string(),
        log_age: "12.5".to_string(),
        log_age_precise: "12.503".to_string(),
    }
}

#[test]
fn long_repeat_repeats() {
    assert_eq!(make_long_repeat("ab", 3), "ababab");
    assert_eq!(make_long_repeat("x", 0), "");
    assert_eq!(make_long_repeat("- ", 2), "- - ");
}

#[test]
fn new_logger_is_empty_and_online() {
    let logger = Logger::new("./logs".to_string());
    assert!(!logger.has_unsaved_log());
    assert!(logger.event_type == EventType::Online);
    assert_eq!(logger.log_dir_path(), "./logs");
    assert_eq!(logger.make_log(), "\n");
}

#[test]
fn lines_are_joined_with_newlines() {
    let mut logger = Logger::new("./logs".to_string());
    logger.add_log_line("first".to_string());
    logger.add_log_line("second".to_string());
    assert!(logger.has_unsaved_log());
    assert_eq!(logger.make_log(), "first\nsecond\n");
}

#[test]
fn separators() {
    let mut logger = Logger::new("./logs".to_string());
    logger.add_small_separator();
    let small = format!("{}-", "- ".repeat(20));
    assert_eq!(logger.make_log(), format!("{}\n", small));
    logger.clear();
    logger.add_large_separator();
    let large = format!("{}=", "=-".repeat(20));
    assert_eq!(logger.make_log(), format!("\n\n{}\n\n\n", large));
}

#[test]
fn clear_and_reset_drop_lines() {
    let mut logger = Logger::new("./logs".to_string());
    logger.add_log_line("x".to_string());
    logger.clear();
    assert!(!logger.has_unsaved_log());
    logger.add_log_line("y".to_string());
    logger.reset();
    assert!(!logger.has_unsaved_log());
}

#[test]
fn log_file_names_follow_the_incident_kind() {
    let mut logger = Logger::new("./logs".to_string());
    assert_eq!(logger.log_file_name("T"), "T.log");
    logger.set_event_type(EventType::IspOutage);
    assert_eq!(logger.log_file_name("T"), "isp_outage/T.log");
    logger.set_event_type(EventType::LocalOutage);
    assert_eq!(logger.log_file_name("T"), "local_outage/T.log");
}

#[test]
fn end_log_closes_and_empties_the_log() {
    let mut logger = Logger::new("./logs".to_string());
    logger.set_event_type(EventType::IspOutage);
    logger.add_log_line("outage".to_string());
    let saved = logger.end_log("back".to_string(), &moment());
    let small = format!("{}-", "- ".repeat(20));
    assert_eq!(
        saved.text,
        format!("outage\nback\n{small}\nTime from Log creation to saving: 12.5 seconds\n{small}\n")
    );
    assert_eq!(saved.file_name, "isp_outage/2024-05-01 12:00:00.log");
    assert!(!logger.has_unsaved_log());
    assert!(logger.event_type == EventType::IspOutage);
}

#[test]
fn decimal_text_writes_numbers() {
    assert_eq!(decimal_text(0), "0");
    assert_eq!(decimal_text(7), "7");
    assert_eq!(decimal_text(10), "10");
    assert_eq!(decimal_text(1234567890), "1234567890");
    assert_eq!(decimal_text(u128::MAX), u128::MAX.to_string());
}
