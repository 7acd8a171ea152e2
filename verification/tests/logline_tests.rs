use subtitle_pipeline::logline::{
    escape_json, log_entry_json_line, make_log_entry, now_rfc3339, parse_task_logs,
};

#[test]
fn escaping_special_characters() {
    assert_eq!(escape_json("plain"), "plain");
    assert_eq!(escape_json("a\"b"), "a\\\"b");
    assert_eq!(escape_json("a\\b"), "a\\\\b");
    assert_eq!(escape_json("a\nb"), "a\\nb");
    assert_eq!(escape_json("a\rb"), "a\\rb");
    assert_eq!(escape_json("a\tb"), "a\\tb");
    assert_eq!(escape_json("a\u{01}b"), "a\\u0001b");
    assert_eq!(escape_json("a\u{1f}b"), "a\\u001fb");
}

#[test]
fn log_line_shape() {
    let e = make_log_entry("2024-01-01T00:00:00+00:00", "metadata", "hello");
    assert_eq!(
        log_entry_json_line(&e),
        "{\"timestamp\":\"2024-01-01T00:00:00+00:00\",\"type\":\"metadata\",\"message\":\"hello\"}"
    );
}

#[test]
fn log_lines_round_trip_through_the_parser() {
    let e = make_log_entry("2024-06-01T10:30:00+00:00", "error", "a \"quoted\"\nmessage\twith\\stuff");
    let line = log_entry_json_line(&e);
    let parsed = parse_task_logs(line.as_str());
    assert_eq!(parsed.len(), 1);
    assert_eq!(parsed[0].timestamp.as_str(), "2024-06-01T10:30:00+00:00");
    assert_eq!(parsed[0].log_type.as_str(), "error");
    assert_eq!(parsed[0].message.as_str(), "a \"quoted\"\nmessage\twith\\stuff");
}

#[test]
fn reading_a_log_skips_blanks_and_garbage() {
    let a = make_log_entry("t1", "metadata", "first");
    let b = make_log_entry("t2", "network", "second");
    let mut content = String::new();
    content.push_str(log_entry_json_line(&a).as_str());
    content.push('\n');
    content.push_str("   \t\r\n");
    content.push_str("not json at all\n");
    content.push_str("{\"timestamp\":\"x\"}\n");
    content.push_str(log_entry_json_line(&b).as_str());
    content.push('\n');
    let parsed = parse_task_logs(content.as_str());
    assert_eq!(parsed.len(), 2);
    assert_eq!(parsed[0].message.as_str(), "first");
    assert_eq!(parsed[1].message.as_str(), "second");
    assert_eq!(parsed[1].log_type.as_str(), "network");
}

#[test]
fn reading_an_empty_log_yields_nothing() {
    assert_eq!(parse_task_logs("").len(), 0);
    assert_eq!(parse_task_logs("\n\n  \n").len(), 0);
}

#[test]
fn timestamps_are_never_empty() {
    assert!(!now_rfc3339().is_empty());
}
