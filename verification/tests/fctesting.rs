use firecracker_sdk::parse_log_level;

#[test]
fn test_parse_log_level() {
    assert_eq!(Some(tracing::Level::DEBUG), parse_log_level("debug"));
    assert_eq!(Some(tracing::Level::WARN), parse_log_level("warning"));
    assert_eq!(None, parse_log_level("wat"));
}

#[test]
fn parse_log_level_ignores_ascii_case() {
    assert_eq!(Some(tracing::Level::ERROR), parse_log_level("ERROR"));
    assert_eq!(Some(tracing::Level::TRACE), parse_log_level("Trace"));
    assert_eq!(Some(tracing::Level::INFO), parse_log_level("info"));
    assert_eq!(Some(tracing::Level::WARN), parse_log_level("Warn"));
    assert_eq!(None, parse_log_level(""));
    assert_eq!(None, parse_log_level("debug "));
}
