use devcontainer::output::{render_log, CommandLogLevel, CommandLogger, LogFormat, TerminalDimensions};

#[test]
fn command_logger_filters_entries_below_configured_level() {
    let logger = CommandLogger::new(LogFormat::Text, CommandLogLevel::Info);

    assert_eq!(logger.render(CommandLogLevel::Trace, "ignored"), None);
    assert_eq!(
        logger.render(CommandLogLevel::Error, "emitted"),
        Some("[error] emitted".to_string())
    );
}

#[test]
fn command_logger_renders_json_entries() {
    let logger = CommandLogger::new(LogFormat::Json, CommandLogLevel::Trace);

    assert_eq!(
        logger.render(CommandLogLevel::Debug, "quoted \"value\""),
        Some("{\"level\":\"debug\",\"message\":\"quoted \\\"value\\\"\"}".to_string())
    );
}

#[test]
fn command_logger_stores_terminal_dimensions() {
    let logger = CommandLogger::new(LogFormat::Text, CommandLogLevel::Trace)
        .with_terminal_dimensions(Some(TerminalDimensions { columns: 120, rows: 40 }));

    assert_eq!(
        logger.terminal_dimensions,
        Some(TerminalDimensions { columns: 120, rows: 40 })
    );
}

#[test]
fn renders_text_logs_without_json_envelope() {
    assert_eq!(render_log(LogFormat::Text, "info", "hello"), "hello");
}

#[test]
fn renders_json_logs_with_level_and_message() {
    assert_eq!(
        render_log(LogFormat::Json, "info", "quoted \"value\""),
        "{\"level\":\"info\",\"message\":\"quoted \\\"value\\\"\"}"
    );
}

#[test]
fn json_log_escapes_control_characters() {
    assert_eq!(
        render_log(LogFormat::Json, "info", "a\\b\nc\u{1}"),
        "{\"level\":\"info\",\"message\":\"a\\\\b\\nc\\u0001\"}"
    );
}

#[test]
fn logger_reports_terminal_dimensions_as_trace() {
    let logger = CommandLogger::new(LogFormat::Text, CommandLogLevel::Trace)
        .with_terminal_dimensions(Some(TerminalDimensions { columns: 120, rows: 40 }));
    assert_eq!(
        logger.trace_terminal_dimensions(),
        Some("[trace] Using terminal dimensions: columns=120 rows=40".to_string())
    );
    let quiet = CommandLogger::new(LogFormat::Text, CommandLogLevel::Info)
        .with_terminal_dimensions(Some(TerminalDimensions { columns: 120, rows: 40 }));
    assert_eq!(quiet.trace_terminal_dimensions(), None);
    assert_eq!(quiet.error("boom"), Some("[error] boom".to_string()));
    assert_eq!(quiet.info("note"), Some("[info] note".to_string()));
    assert_eq!(quiet.debug("detail"), None);
}

#[test]
fn log_levels_have_names_and_order() {
    assert_eq!(CommandLogLevel::Trace.as_str(), "trace");
    assert_eq!(CommandLogLevel::Error.as_str(), "error");
    assert!(CommandLogLevel::Debug.severity() < CommandLogLevel::Info.severity());
}
