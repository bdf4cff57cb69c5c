use atem::logging::{log_debug, log_file_name, log_line, LogLevel};

#[test]
fn levels_have_their_tags() {
    assert_eq!(LogLevel::Info.as_str(), "INFO");
    assert_eq!(LogLevel::Warning.as_str(), "WARN");
    assert_eq!(LogLevel::Error.as_str(), "ERROR");
    assert_eq!(LogLevel::Debug.as_str(), "DEBUG");
}

#[test]
fn levels_are_found_by_name() {
    assert_eq!(LogLevel::from_name(Some("warning")), LogLevel::Warning);
    assert_eq!(LogLevel::from_name(Some("error")), LogLevel::Error);
    assert_eq!(LogLevel::from_name(Some("debug")), LogLevel::Debug);
    assert_eq!(LogLevel::from_name(Some("info")), LogLevel::Info);
    assert_eq!(LogLevel::from_name(Some("WARNING")), LogLevel::Info);
    assert_eq!(LogLevel::from_name(Some("")), LogLevel::Info);
    assert_eq!(LogLevel::from_name(None), LogLevel::Info);
}

#[test]
fn debug_lines_are_written_by_debug_builds_only() {
    assert!(LogLevel::Debug.is_written(true));
    assert!(!LogLevel::Debug.is_written(false));
    for level in [LogLevel::Info, LogLevel::Warning, LogLevel::Error] {
        assert!(level.is_written(true));
        assert!(level.is_written(false));
    }
}

#[test]
fn line_has_time_level_category_and_message() {
    assert_eq!(
        log_line("2024-05-01 12:00:00.123", LogLevel::Warning, "Conversion", "crop ignored"),
        "[2024-05-01 12:00:00.123] [WARN] [Conversion] crop ignored\n"
    );
    assert_eq!(log_line("", LogLevel::Info, "", ""), "[] [INFO] [] \n");
}

#[test]
fn file_is_named_by_the_day() {
    assert_eq!(log_file_name("2024-05-01"), "max8videoeditor_2024-05-01.log");
}

#[test]
fn debug_message_leaves_a_line_in_debug_builds_only() {
    assert_eq!(
        log_debug("12:00", "probing", "Conversion", true),
        Some("[12:00] [DEBUG] [Conversion] probing\n".to_string())
    );
    assert_eq!(log_debug("12:00", "probing", "Conversion", false), None);
}
