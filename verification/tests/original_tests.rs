use oxitailr::appcore::is_json_like;
use oxitailr::credentials::{generate_random_nonce, get_encryption_key, ENCRYPTION_NONCE_SIZE};
use oxitailr::filter::{Filter, FilterEngine, FilterRule};
use oxitailr::models::{LogEntry, LogLevel};
use oxitailr::palette::{parse_ansi_line, rgb};
use oxitailr::parser::{JsonParser, Parser, PlainParser};
use oxitailr::strmap::StrMap;
use oxitailr::text::{contains_str, sorted_strings};

fn make_entry(message: &str) -> LogEntry {
    LogEntry {
        id: 0,
        timestamp: None,
        source: "test".to_string(),
        level: Some(LogLevel::Info),
        message: message.to_string(),
        raw: message.to_string(),
        fields: Vec::new(),
    }
}

#[test]
fn test_nonce_generation() {
    let nonce1 = generate_random_nonce();
    let nonce2 = generate_random_nonce();
    assert_ne!(nonce1, nonce2);
    assert_eq!(nonce1.len(), ENCRYPTION_NONCE_SIZE);
}

#[test]
fn test_key_derivation_deterministic() {
    let material = "alice/home/alice";
    let key1 = get_encryption_key(material);
    let key2 = get_encryption_key(material);
    assert_eq!(key1, key2);
}

#[test]
fn test_contains_filter() {
    let rule = FilterRule::contains("error");
    assert!(rule.matches(&make_entry("An error occurred")));
    assert!(rule.matches(&make_entry("An ERROR occurred")));
    assert!(!rule.matches(&make_entry("All is well")));
}

#[test]
fn test_regex_filter() {
    let rule = FilterRule::regex(r"\d{3}-\d{4}");
    assert!(rule.matches(&make_entry("Phone: 555-1234")));
    assert!(!rule.matches(&make_entry("No phone")));
}

#[test]
fn test_and_filter() {
    let rule = FilterRule::And {
        rules: vec![FilterRule::contains("error"), FilterRule::contains("database")],
    };
    assert!(rule.matches(&make_entry("Database error occurred")));
    assert!(!rule.matches(&make_entry("Error occurred")));
}

#[test]
fn test_filter_engine() {
    let mut engine = FilterEngine::new();
    engine.add_include_rule(FilterRule::contains("important"));
    engine.add_exclude_rule(FilterRule::contains("spam"));

    assert!(engine.matches(&make_entry("This is important")));
    assert!(!engine.matches(&make_entry("This is spam")));
    assert!(!engine.matches(&make_entry("This is important spam")));
}

#[test]
fn test_parse_json_log() {
    let parser = JsonParser::new();
    let line = r#"{"timestamp":"2024-01-22T10:15:32Z","level":"error","message":"Connection failed","host":"server1"}"#;
    let entry = parser.parse("test", line);

    assert!(entry.timestamp.is_some());
    assert_eq!(entry.level, Some(LogLevel::Error));
    assert_eq!(entry.message, "Connection failed");
    assert!(entry.has_field("host"));
}

#[test]
fn test_parse_json_unix_timestamp() {
    let parser = JsonParser::new();
    let line = r#"{"ts":1705922132,"level":"info","msg":"Started"}"#;
    let entry = parser.parse("test", line);

    assert!(entry.timestamp.is_some());
    assert_eq!(entry.level, Some(LogLevel::Info));
    assert_eq!(entry.message, "Started");
}

#[test]
fn test_parse_invalid_json() {
    let parser = JsonParser::new();
    let line = "Not JSON at all";
    let entry = parser.parse("test", line);

    assert!(entry.timestamp.is_none());
    assert!(entry.level.is_none());
    assert_eq!(entry.raw, line);
}

#[test]
fn test_parse_iso_timestamp() {
    let parser = PlainParser::new();
    let entry = parser.parse("test", "2024-01-22T10:15:32.123Z INFO Starting server");
    assert!(entry.timestamp.is_some());
    assert_eq!(entry.level, Some(LogLevel::Info));
}

#[test]
fn test_parse_common_timestamp() {
    let parser = PlainParser::new();
    let entry = parser.parse("test", "2024-01-22 10:15:32 ERROR Connection failed");
    assert!(entry.timestamp.is_some());
    assert_eq!(entry.level, Some(LogLevel::Error));
}

#[test]
fn test_parse_no_level() {
    let parser = PlainParser::new();
    let entry = parser.parse("test", "Just a plain message");
    assert!(entry.level.is_none());
}

#[test]
fn test_parse_plain_text() {
    let spans = parse_ansi_line("Hello World");
    assert_eq!(spans.len(), 1);
    assert_eq!(spans[0].text, "Hello World");
}

#[test]
fn test_parse_colored_text() {
    let spans = parse_ansi_line("\x1b[31mRed Text\x1b[0m Normal");
    assert_eq!(spans.len(), 2);
    assert_eq!(spans[0].text, "Red Text");
    assert_eq!(spans[0].color, rgb(205, 49, 49));
    assert_eq!(spans[1].text, " Normal");
}

#[test]
fn test_json_log_detection() {
    let json_line = r#"{"timestamp":"2024-01-01T10:00:00Z","level":"INFO","message":"Hello"}"#;
    assert!(json_line.starts_with('{'));
    assert!(json_line.ends_with('}'));
    assert!(is_json_like(json_line));
}

#[test]
fn test_common_log_levels() {
    let levels = ["TRACE", "DEBUG", "INFO", "WARN", "ERROR", "FATAL"];
    let log_line = "2024-01-01 10:00:00 ERROR Something went wrong";

    let found_level = levels.iter().find(|&level| contains_str(log_line, level));
    assert_eq!(found_level, Some(&"ERROR"));
    assert_eq!(PlainParser::new().extract_level(log_line), Some(LogLevel::Error));
}

#[test]
fn test_iso_timestamp_format() {
    let line = "2024-01-15T10:30:45.123Z INFO Message";
    assert!(contains_str(line, "2024-01-15T10:30:45"));
}

#[test]
fn test_common_timestamp_format() {
    let line = "2024-01-15 10:30:45 INFO Message";
    assert!(contains_str(line, "2024-01-15 10:30:45"));
}

#[test]
fn test_level_filter() {
    let levels_to_show = vec!["ERROR", "WARN"];

    let lines = vec![
        ("INFO Starting", "INFO"),
        ("WARN Low memory", "WARN"),
        ("ERROR Failed", "ERROR"),
        ("DEBUG Details", "DEBUG"),
    ];

    let visible: Vec<_> = lines
        .iter()
        .filter(|(_, level)| {
            let parsed = LogLevel::from_str(level);
            levels_to_show.iter().any(|shown| LogLevel::from_str(shown) == parsed)
        })
        .collect();

    assert_eq!(visible.len(), 2);
}

#[test]
fn test_per_source_bookmarks() {
    let mut bookmarks: StrMap<Vec<usize>> = StrMap::new();

    for (source, line) in [("app.log", 50usize), ("app.log", 100), ("server.log", 25)] {
        let mut marks = match bookmarks.get(source) {
            Some(v) => v.clone(),
            None => Vec::new(),
        };
        if !marks.contains(&line) {
            marks.push(line);
        }
        bookmarks.insert(source.to_string(), marks);
    }

    let app_bookmarks = bookmarks.get("app.log").unwrap();
    let server_bookmarks = bookmarks.get("server.log").unwrap();

    assert_eq!(app_bookmarks.len(), 2);
    assert_eq!(server_bookmarks.len(), 1);
    assert!(app_bookmarks.contains(&50));
    assert!(app_bookmarks.contains(&100));
    assert!(server_bookmarks.contains(&25));
    assert!(!server_bookmarks.contains(&50));
}

#[test]
fn test_bookmark_toggle() {
    let mut bookmarks: StrMap<bool> = StrMap::new();
    let line = 42usize.to_string();

    if bookmarks.remove(&line).is_none() {
        bookmarks.insert(line.clone(), true);
    }
    assert!(bookmarks.contains_key("42"));

    if bookmarks.remove(&line).is_none() {
        bookmarks.insert(line.clone(), true);
    }
    assert!(!bookmarks.contains_key("42"));
}

#[test]
fn test_sorted_bookmarks() {
    let bookmarks: Vec<usize> = vec![100, 25, 50];
    let mut sorted = bookmarks.clone();
    sorted.sort();
    assert_eq!(sorted, vec![25, 50, 100]);
}

#[test]
fn test_consistent_source_ordering() {
    let sources: Vec<String> = vec!["zebra.log".to_string(), "alpha.log".to_string(), "beta.log".to_string()];

    let sorted = sorted_strings(&sources);
    assert_eq!(sorted, vec!["alpha.log", "beta.log", "zebra.log"]);

    let sorted2 = sorted_strings(&sources);
    assert_eq!(sorted, sorted2);
}
