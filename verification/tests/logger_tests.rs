use lmstudio_rust::logger::{cli_log_level, format_message, LogLevel, Logger};

#[test]
fn test_log_levels() {
    assert!(LogLevel::Error < LogLevel::Warn);
    assert!(LogLevel::Warn < LogLevel::Info);
    assert!(LogLevel::Info < LogLevel::Debug);
}

#[test]
fn test_logger_creation() {
    let logger = Logger::new(LogLevel::Info);
    assert_eq!(logger.level(), LogLevel::Info);
    assert!(logger.is_enabled(LogLevel::Error));
    assert!(logger.is_enabled(LogLevel::Warn));
    assert!(logger.is_enabled(LogLevel::Info));
    assert!(!logger.is_enabled(LogLevel::Debug));
}

#[test]
fn test_format_message() {
    let result = format_message(
        "Hello {0}, you have {1} messages",
        &["Alice".to_string(), 42.to_string()],
    );
    assert_eq!(result, "Hello Alice, you have 42 messages");
}

#[test]
fn log_lines_carry_prefix_and_level() {
    let logger = Logger::new(LogLevel::Warn);
    assert_eq!(logger.prefix(), "[LMStudio]");
    assert_eq!(logger.line(LogLevel::Error, "boom").as_deref(), Some("[LMStudio] [ERROR] boom"));
    assert_eq!(logger.line(LogLevel::Warn, "careful").as_deref(), Some("[LMStudio] [WARN] careful"));
    assert_eq!(logger.line(LogLevel::Info, "fyi"), None);
    assert_eq!(logger.line(LogLevel::Debug, "details"), None);
}

#[test]
fn formatted_log_lines() {
    let logger = Logger::with_prefix(LogLevel::Debug, "[x]");
    assert_eq!(
        logger.line_formatted(LogLevel::Debug, "{0} of {1}", &["3".to_string(), "4".to_string()]).as_deref(),
        Some("[x] [DEBUG] 3 of 4")
    );
    let quiet = Logger::new(LogLevel::Error);
    assert_eq!(quiet.line_formatted(LogLevel::Info, "{0}", &["a".to_string()]), None);
}

#[test]
fn set_level_keeps_the_prefix() {
    let mut logger = Logger::with_prefix(LogLevel::Error, "[p]");
    assert!(!logger.is_enabled(LogLevel::Info));
    logger.set_level(LogLevel::Debug);
    assert_eq!(logger.level(), LogLevel::Debug);
    assert_eq!(logger.prefix(), "[p]");
    assert!(logger.is_enabled(LogLevel::Debug));
}

#[test]
fn default_logger_reports_errors_only() {
    let logger = Logger::default();
    assert_eq!(logger.level(), LogLevel::Error);
    assert_eq!(logger.prefix(), "[LMStudio]");
    assert!(logger.is_enabled(LogLevel::Error));
    assert!(!logger.is_enabled(LogLevel::Warn));
}

#[test]
fn level_names_and_ranks() {
    assert_eq!(LogLevel::Error.to_string(), "ERROR");
    assert_eq!(LogLevel::Warn.to_string(), "WARN");
    assert_eq!(LogLevel::Info.to_string(), "INFO");
    assert_eq!(LogLevel::Debug.to_string(), "DEBUG");
    assert_eq!(
        [LogLevel::Error.rank(), LogLevel::Warn.rank(), LogLevel::Info.rank(), LogLevel::Debug.rank()],
        [0, 1, 2, 3]
    );
}

#[test]
fn more_verbose_loggers_let_more_through() {
    let levels = [LogLevel::Error, LogLevel::Warn, LogLevel::Info, LogLevel::Debug];
    for (i, logger_level) in levels.iter().enumerate() {
        let logger = Logger::new(*logger_level);
        for (j, message_level) in levels.iter().enumerate() {
            assert_eq!(logger.is_enabled(*message_level), j <= i);
        }
    }
}

#[test]
fn cli_levels() {
    assert_eq!(cli_log_level(true, true), LogLevel::Debug);
    assert_eq!(cli_log_level(true, false), LogLevel::Debug);
    assert_eq!(cli_log_level(false, true), LogLevel::Error);
    assert_eq!(cli_log_level(false, false), LogLevel::Info);
}

#[test]
fn format_message_edge_cases() {
    assert_eq!(format_message("no placeholders", &["x".to_string()]), "no placeholders");
    assert_eq!(format_message("{0}{0}", &["ab".to_string()]), "abab");
    assert_eq!(format_message("{1} {0}", &["a".to_string(), "b".to_string()]), "b a");
    assert_eq!(format_message("{2}", &["a".to_string(), "b".to_string()]), "{2}");
    // an argument that holds a later placeholder is itself replaced
    assert_eq!(format_message("{0}", &["{1}".to_string(), "z".to_string()]), "z");
    assert_eq!(format_message("", &[]), "");
    assert_eq!(
        format_message("{10} {1}", &(0..11).map(|i| i.to_string()).collect::<Vec<_>>()),
        "10 1"
    );
}
