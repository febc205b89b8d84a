use oxitailr::alert::{
    webhook_payload, webhook_urls, AlertAction, AlertDispatcher, AlertEvent, AlertRule, DesktopNotifier,
};
use oxitailr::appcore::{convert_alert_config, AppCore, HighlightMatcher, LogState};
use oxitailr::config::{
    default_buffer_size, default_highlight_color, default_ssh_port, AlertConfig, AppConfig, FilterConfig,
    GeneralConfig, HighlightConfig, SourceConfig,
};
use oxitailr::credentials::{open_frame, seal_frame, CredentialError, CredentialStore};
use oxitailr::dialogs::{
    default_highlight_rules, find_matching_highlight, validate_ssh_dialog, AlertDialogState, HighlightRule,
    SavedSshSource, SshDialogState,
};
use oxitailr::filter::{FilterRule, MAX_REGEX_PATTERN_LEN, safe_regex_compile};
use oxitailr::models::{LogEntry, LogLevel, SourceInfo, SourceStatus, SourceType, Timestamp};
use oxitailr::palette::{ansi_to_color, log_level_color, parse_ansi_line, rgb};
use oxitailr::paths::is_glob_pattern;
use oxitailr::appcore::local_source_command;
use oxitailr::source::{SourceAction, SourceCommand, SourceEvent, SourceManager};
use oxitailr::ssh::{
    auth_failure_message, check_server_key, format_host_key, normalize_hostname, HostKeyStatus,
    KnownHostsStore, SshSource,
};
use oxitailr::strmap::StrMap;
use oxitailr::tail::{tail_command, FileState, RotationCheck, SshLineBuffer, ROTATION_NOTICE};
use oxitailr::view::{compute_view_at, handle_key, level_color, scroll_by, sorted_sources, Key, KeyOutcome, Mode, Ui};
use oxitailr::ansi::TermColor;

fn entry(source: &str, message: &str) -> LogEntry {
    LogEntry::new(source.to_string(), message.to_string())
}

fn rule(name: &str, pattern: &str, cooldown: Option<u64>) -> AlertRule {
    AlertRule {
        name: name.to_string(),
        pattern: FilterRule::contains(pattern),
        actions: vec![AlertAction::Sound],
        cooldown_seconds: cooldown,
    }
}

fn now() -> Timestamp {
    Timestamp { secs: 1_700_000_000, nanos: 0 }
}

// ---------------------------------------------------------------- log buffer

#[test]
fn buffer_keeps_the_latest_lines() {
    let mut state = LogState::new(3);
    for i in 0..5 {
        state.add_entry(entry("a", &format!("line {}", i)));
    }
    assert_eq!(state.line_count(), 3);
    assert_eq!(state.total_lines_read(), 5);
    assert_eq!(state.line(0).line_num, 3);
    assert_eq!(state.line(2).line_num, 5);
    assert_eq!(state.line(0).entry.message, "line 2");
    assert_eq!(state.version(), 5);
    state.clear();
    assert_eq!(state.line_count(), 0);
    assert_eq!(state.total_lines_read(), 0);
    assert_eq!(state.version(), 6);
}

#[test]
fn buffer_with_zero_bound_keeps_no_line() {
    let mut state = LogState::new(0);
    state.add_entry(entry("a", "one"));
    state.add_entry(entry("a", "two"));
    assert_eq!(state.line_count(), 0);
    assert_eq!(state.total_lines_read(), 2);
}

#[test]
fn display_line_notes_escape_sequences() {
    let mut state = LogState::new(10);
    state.add_entry(entry("a", "\x1b[31mred\x1b[0m"));
    state.add_entry(entry("a", "plain"));
    assert!(state.line(0).has_ansi);
    assert!(!state.line(1).has_ansi);
}

// ---------------------------------------------------------------- alerts

#[test]
fn cooldown_holds_a_rule_back() {
    let mut d = AlertDispatcher::new();
    d.add_rule(rule("errors", "error", Some(10)));
    let e = entry("app", "an error");
    assert_eq!(d.check_and_alert_at(&e, now(), 0).len(), 1);
    assert_eq!(d.check_and_alert_at(&e, now(), 5_000_000_000).len(), 0);
    assert_eq!(d.check_and_alert_at(&e, now(), 9_999_999_999).len(), 0);
    let fired = d.check_and_alert_at(&e, now(), 10_000_000_000);
    assert_eq!(fired.len(), 1);
    assert_eq!(fired[0].rule_index, 0);
    assert_eq!(fired[0].event.rule_name, "errors");
    assert_eq!(fired[0].event.entry.message, "an error");
}

#[test]
fn rule_without_cooldown_always_fires() {
    let mut d = AlertDispatcher::new();
    d.add_rule(rule("errors", "error", None));
    d.add_rule(rule("warnings", "warn", None));
    let e = entry("app", "an error");
    for t in 0..3u64 {
        let fired = d.check_and_alert_at(&e, now(), t);
        assert_eq!(fired.len(), 1);
        assert_eq!(fired[0].rule_index, 0);
    }
    assert_eq!(d.check_and_alert_at(&entry("app", "fine"), now(), 5).len(), 0);
}

#[test]
fn rules_sharing_a_name_share_a_cooldown() {
    let mut d = AlertDispatcher::new();
    d.add_rule(rule("same", "error", Some(60)));
    d.add_rule(rule("same", "error", Some(60)));
    let fired = d.check_and_alert_at(&entry("app", "error"), now(), 0);
    assert_eq!(fired.len(), 1);
    d.clear_rules();
    assert_eq!(d.rule_count(), 0);
}

#[test]
fn desktop_notification_is_composed() {
    let notifier = DesktopNotifier::new();
    let mut e = entry("app.log", "short message");
    let r = rule("Errors", "error", None);
    let n = notifier.compose(&e, &r);
    assert_eq!(n.app_name, "Tail Logger");
    assert_eq!(n.title, "[app.log] Alert: Errors");
    assert_eq!(n.body, "short message");
    e.message = "x".repeat(250);
    let n = notifier.compose(&e, &r);
    assert_eq!(n.body, format!("{}...", "x".repeat(200)));
    let named = DesktopNotifier::new().with_app_name("Mine".to_string());
    assert_eq!(named.compose(&e, &r).app_name, "Mine");
}

#[test]
fn webhook_payload_carries_the_entry() {
    let e = LogEntry::new("src".to_string(), "boom".to_string())
        .with_level(LogLevel::Error)
        .with_timestamp(Timestamp { secs: 0, nanos: 0 });
    let r = AlertRule {
        name: "r".to_string(),
        pattern: FilterRule::contains("boom"),
        actions: vec![
            AlertAction::Visual,
            AlertAction::Webhook { url: "http://a".to_string() },
            AlertAction::Webhook { url: "http://b".to_string() },
        ],
        cooldown_seconds: None,
    };
    let p = webhook_payload(&e, &r);
    assert_eq!(p.alert_name, "r");
    assert_eq!(p.level.as_deref(), Some("ERROR"));
    assert_eq!(p.timestamp.as_deref(), Some("1970-01-01T00:00:00+00:00"));
    assert_eq!(p.raw, "boom");
    assert_eq!(webhook_urls(&r), vec!["http://a".to_string(), "http://b".to_string()]);
}

#[test]
fn alert_config_becomes_a_regex_rule() {
    let cfg = AlertConfig {
        name: "n".to_string(),
        pattern: "ERR.*".to_string(),
        actions: vec![AlertAction::Sound],
        cooldown_seconds: Some(5),
    };
    let r = convert_alert_config(&cfg).unwrap();
    assert_eq!(r.name, "n");
    assert!(matches!(r.pattern, FilterRule::Regex { ref pattern } if pattern == "ERR.*"));
    assert_eq!(r.cooldown_seconds, Some(5));
}

// ---------------------------------------------------------------- tailing

#[test]
fn partial_line_is_joined() {
    let mut fs = FileState::new(7, 0);
    assert_eq!(fs.take_chunk("hello "), None);
    assert_eq!(fs.partial, "hello ");
    assert_eq!(fs.take_chunk("world\n"), Some("hello world".to_string()));
    assert_eq!(fs.last_position, 12);
    assert_eq!(fs.take_chunk("   \n"), None);
    assert_eq!(fs.take_chunk("tail"), None);
    assert_eq!(fs.flush_partial(), Some("tail".to_string()));
    assert_eq!(fs.flush_partial(), None);
}

#[test]
fn rotation_is_detected() {
    let mut fs = FileState::new(7, 100);
    fs.take_chunk("0123456789\n");
    assert!(matches!(fs.check_rotation(Some(8), Some(200)), RotationCheck::Rotated));
    assert!(matches!(fs.check_rotation(Some(7), Some(5)), RotationCheck::Rotated));
    assert!(matches!(fs.check_rotation(Some(7), Some(50)), RotationCheck::Size(50)));
    assert_eq!(fs.last_size, 50);
    assert!(matches!(fs.check_rotation(None, Some(50)), RotationCheck::Unknown));
    fs.reopen(9, 3);
    assert_eq!(fs.last_position, 0);
    assert!(ROTATION_NOTICE.contains("rotation"));
}

#[test]
fn ssh_buffer_cuts_lines() {
    let mut b = SshLineBuffer::new();
    assert_eq!(b.feed("a\nb"), vec!["a".to_string()]);
    assert_eq!(b.buffer, "b");
    assert_eq!(b.feed("c  \n\n   \nd"), vec!["bc".to_string()]);
    assert_eq!(b.buffer, "d");
    assert_eq!(b.line_count, 2);
}

#[test]
fn tail_command_quotes_the_path() {
    assert_eq!(tail_command("/var/log/app.log").unwrap(), "tail -n +1 -F /var/log/app.log");
    assert_eq!(tail_command("/var/log/my app.log").unwrap(), "tail -n +1 -F '/var/log/my app.log'");
    assert_eq!(tail_command("").unwrap(), "tail -n +1 -F ''");
    assert_eq!(tail_command("a\0b").unwrap_err(), "Invalid path: contains null bytes");
}

#[test]
fn received_bytes_are_decoded() {
    let mut b = SshLineBuffer::new();
    assert_eq!(b.feed_bytes(b"abc\n"), Some(vec!["abc".to_string()]));
    assert_eq!(b.feed_bytes(&[0x61, 0xff, b'\n']), Some(vec!["a\u{fffd}".to_string()]));
    assert_eq!(b.line_count, 2);
}

#[test]
fn received_bytes_refused_near_count_limit() {
    let mut b = SshLineBuffer::new();
    b.line_count = u64::MAX - 2;
    assert_eq!(b.feed_bytes(b"ab\n"), None);
    assert_eq!(b.line_count, u64::MAX - 2);
    assert_eq!(b.buffer, "");
    assert_eq!(b.feed_bytes(b"\n"), Some(vec![]));
}

// ---------------------------------------------------------------- ssh

#[test]
fn known_hosts_are_read() {
    let lines: Vec<String> = vec![
        "# comment".to_string(),
        "".to_string(),
        "server1,10.0.0.1 ssh-ed25519 AAAAkey1 user@host".to_string(),
        "[server2]:2222 ssh-rsa AAAAkey2".to_string(),
        "|1|hashed ssh-rsa AAAAkey3".to_string(),
        "short line".to_string(),
    ];
    let store = KnownHostsStore::from_lines(&lines);
    assert_eq!(store.host_count(), 3);
    assert_eq!(store.is_known("server1", 22, "ssh-ed25519:AAAAkey1"), HostKeyStatus::Known);
    assert_eq!(store.is_known("server1", 22, "ssh-ed25519:other"), HostKeyStatus::Changed);
    assert_eq!(store.is_known("server2", 2222, "ssh-rsa:AAAAkey2"), HostKeyStatus::Known);
    assert_eq!(store.is_known("server2", 2222, "ssh-rsa:forged"), HostKeyStatus::Changed);
    assert_eq!(store.is_known("server2", 22, "ssh-rsa:AAAAkey2"), HostKeyStatus::Unknown);
    assert_eq!(store.is_known("10.0.0.1", 22, "ssh-ed25519:AAAAkey1"), HostKeyStatus::Known);
    assert_eq!(store.is_known("unknown", 22, "x:y"), HostKeyStatus::Unknown);
    assert_eq!(format_host_key("server2", 2222), "[server2]:2222");
    assert_eq!(format_host_key("server1", 22), "server1");
    assert_eq!(normalize_hostname("[server2]:2222"), "server2:2222");
}

#[test]
fn host_key_verdicts() {
    assert_eq!(check_server_key(HostKeyStatus::Known, "h", 22), Ok(true));
    assert_eq!(check_server_key(HostKeyStatus::Unknown, "h", 22), Ok(true));
    let err = check_server_key(HostKeyStatus::Changed, "h", 2222).unwrap_err();
    assert!(err.starts_with("SSH host key has changed for h:2222."));
}

#[test]
fn auth_failure_lists_keys() {
    assert_eq!(auth_failure_message(&vec![], false), "SSH authentication failed. No SSH keys found");
    assert_eq!(
        auth_failure_message(&vec!["/k1".to_string(), "/k2".to_string()], true),
        "SSH authentication failed. Tried keys: /k1, /k2, also tried password"
    );
}

#[test]
fn ssh_source_settings() {
    let s = SshSource::new("n".to_string(), "host".to_string(), "me".to_string(), "/log".to_string())
        .with_port(2200)
        .with_password("pw".to_string());
    assert_eq!(s.port, 2200);
    assert_eq!(s.info.path, "me@host:/log");
    assert_eq!(s.password.as_deref(), Some("pw"));
    assert!(s.key_path.is_none());
}

// ---------------------------------------------------------------- dialogs

#[test]
fn alert_form_round_trip() {
    let original = AlertRule {
        name: "Disk".to_string(),
        pattern: FilterRule::Regex { pattern: "disk (full|error)".to_string() },
        actions: vec![
            AlertAction::Sound,
            AlertAction::Desktop { title: Some("Disk!".to_string()) },
            AlertAction::Webhook { url: "http://hook".to_string() },
        ],
        cooldown_seconds: Some(300),
    };
    let mut form = AlertDialogState::new();
    form.load_rule(4, &original);
    assert_eq!(form.editing_index, Some(4));
    assert_eq!(form.cooldown_seconds, "300");
    let built = form.build_rule().unwrap();
    assert_eq!(built.name, "Disk");
    assert!(matches!(built.pattern, FilterRule::Regex { ref pattern } if pattern == "disk (full|error)"));
    assert_eq!(built.actions.len(), 3);
    assert_eq!(built.cooldown_seconds, Some(300));
    form.reset_form();
    assert!(form.build_rule().is_none());
}

#[test]
fn ssh_form_round_trip() {
    let saved = SavedSshSource {
        name: "prod".to_string(),
        host: "h".to_string(),
        port: 2022,
        user: "u".to_string(),
        remote_path: "/var/log/x".to_string(),
        key_path: None,
        auto_open: true,
    };
    let mut form = SshDialogState::new();
    form.load_from_saved(&saved, Some("secret".to_string()));
    assert_eq!(form.port, "2022");
    assert_eq!(form.password, "secret");
    let back = form.to_saved();
    assert_eq!(back.port, 2022);
    assert!(back.key_path.is_none());
    assert!(back.auto_open);
    form.port = "not a port".to_string();
    assert_eq!(form.to_saved().port, 22);
    form.reset();
    assert_eq!(form.port, "22");
    assert_eq!(validate_ssh_dialog(&form).as_deref(), Some("Name is required"));
    form.name = "n".to_string();
    form.host = "h".to_string();
    assert_eq!(validate_ssh_dialog(&form).as_deref(), Some("User is required"));
}

#[test]
fn highlight_rules_match() {
    let rules = default_highlight_rules();
    assert_eq!(rules.len(), 2);
    assert!(rules[0].matches("an error happened"));
    assert!(!rules[0].matches("all good"));
    let found = find_matching_highlight(&rules, "WARNING: low disk").unwrap();
    assert_eq!(found.pattern, "WARN");
    let mut exact = HighlightRule::default();
    exact.pattern = "Err".to_string();
    exact.ignore_case = false;
    assert!(!exact.matches("ERROR"));
    assert!(exact.matches("Err"));
}

// ---------------------------------------------------------------- credentials

#[test]
fn credential_store_keeps_passwords() {
    let mut store = CredentialStore::new();
    store.store_ssh_password("prod", "pw1");
    store.store_ssh_password("dev", "pw2");
    store.store_ssh_password("prod", "pw3");
    assert_eq!(store.get_ssh_password("prod").as_deref(), Some("pw3"));
    assert_eq!(store.get_ssh_password("dev").as_deref(), Some("pw2"));
    store.delete_ssh_password("prod");
    assert_eq!(store.get_ssh_password("prod"), None);
}

#[test]
fn credential_file_round_trip() {
    let key = [7u8; 32];
    let nonce = [1u8; 12];
    let text = seal_frame(&key, &nonce, b"hello").unwrap();
    assert_eq!(open_frame(&key, &format!("  {}\n", text)).ok().flatten(), Some(b"hello".to_vec()));
    assert!(matches!(open_frame(&[8u8; 32], &text), Err(CredentialError::Decrypt)));
    assert!(matches!(open_frame(&key, "!!!"), Err(CredentialError::Decode)));
    assert!(matches!(open_frame(&key, "AAAA"), Ok(None)));

    let mut store = CredentialStore::new();
    store.store_ssh_password("prod", "pw");
    let file = store.encrypted_text(&key, &nonce).unwrap();
    let back = CredentialStore::from_encrypted_text(&key, &file).ok().unwrap();
    assert_eq!(back.get_ssh_password("prod").as_deref(), Some("pw"));
}

// ---------------------------------------------------------------- palette

#[test]
fn ansi_palette() {
    assert_eq!(ansi_to_color(31), rgb(205, 49, 49));
    assert_eq!(ansi_to_color(97), rgb(255, 255, 255));
    assert_eq!(ansi_to_color(5), rgb(200, 200, 200));
    assert_eq!(log_level_color(Some(&LogLevel::Error), None), rgb(220, 80, 80));
    assert_eq!(log_level_color(None, None), rgb(200, 200, 200));
    let spans = parse_ansi_line("a\x1b[1;32mb\x1b[22mc\x1b[xd");
    assert_eq!(spans.len(), 3);
    assert_eq!(spans[1].text, "b");
    assert!(spans[1].bold);
    assert_eq!(spans[1].color, rgb(13, 188, 121));
    assert_eq!(spans[2].text, "c\x1b[xd");
    assert!(!spans[2].bold);
    let only_codes = parse_ansi_line("\x1b[31m");
    assert_eq!(only_codes.len(), 1);
    assert_eq!(only_codes[0].text, "\x1b[31m");
}

// ---------------------------------------------------------------- core

fn config() -> AppConfig {
    let mut cfg = AppConfig::default();
    cfg.general.buffer_size = 100;
    cfg.highlights.push(HighlightConfig { pattern: "ok".to_string(), regex: false, color: [1, 2, 3] });
    cfg.highlights.push(HighlightConfig { pattern: "(".to_string(), regex: true, color: [1, 2, 3] });
    cfg.sources.push(SourceConfig::Local {
        name: "auto".to_string(),
        path: "/tmp/auto.log".to_string(),
        enabled: true,
        auto_open: true,
    });
    cfg.sources.push(SourceConfig::Local {
        name: "off".to_string(),
        path: "/tmp/off.log".to_string(),
        enabled: false,
        auto_open: true,
    });
    cfg
}

#[test]
fn core_starts_sources() {
    let (core, cmds) = AppCore::new(config(), vec!["/var/log/syslog".to_string()]);
    assert_eq!(cmds.len(), 2);
    assert!(matches!(&cmds[0], SourceCommand::AddLocal { name, path } if name == "syslog" && path == "/var/log/syslog"));
    assert!(matches!(&cmds[1], SourceCommand::AddLocal { name, .. } if name == "auto"));
    assert_eq!(core.highlights().len(), 1);
    assert!(!core.started_empty());
    let (empty, none) = AppCore::new(AppConfig::default(), vec![]);
    assert!(none.is_empty());
    assert!(empty.started_empty());
}

#[test]
fn core_opens_enabled_source_without_auto_open() {
    let mut cfg = AppConfig::default();
    cfg.sources.push(SourceConfig::Local {
        name: "app".to_string(),
        path: "/var/log/myapp/app.log".to_string(),
        enabled: true,
        auto_open: false,
    });
    let (core, cmds) = AppCore::new(cfg, vec![]);
    assert_eq!(cmds.len(), 1);
    assert!(matches!(&cmds[0], SourceCommand::AddLocal { name, path } if name == "app" && path == "/var/log/myapp/app.log"));
    assert!(!core.started_empty());
}

#[test]
fn core_ingests_and_filters() {
    let (mut core, _) = AppCore::new(config(), vec![]);
    let (changed, fired) = core.ingest(
        SourceEvent::Lines {
            source: "a".to_string(),
            lines: vec![
                "2024-01-22 10:15:32 ERROR Connection failed".to_string(),
                r#"{"level":"info","msg":"json line"}"#.to_string(),
            ],
        },
        0,
    );
    assert!(changed);
    assert!(fired.is_empty());
    assert_eq!(core.log_state().line_count(), 2);
    assert_eq!(core.log_state().line(1).entry.message, "json line");
    assert_eq!(core.log_state().line(0).entry.level, Some(LogLevel::Error));
    let (changed, _) = core.ingest(SourceEvent::Error { source: "a".to_string(), error: "x".to_string() }, 0);
    assert!(!changed);
    core.toggle_level(4);
    assert!(!core.passes_filter_at(core.log_state().line(0), now()));
    assert!(core.passes_filter_at(core.log_state().line(1), now()));
    core.push_filter_char('(');
    assert!(core.filter_error().is_some());
    core.pop_filter_char();
    assert!(core.filter_error().is_none());
}

#[test]
fn core_tracks_sources_and_bytes() {
    let (mut core, _) = AppCore::new(AppConfig::default(), vec![]);
    let mut info = SourceInfo::new("b".to_string(), SourceType::Local, "/b".to_string());
    info.file_size = Some(10);
    core.ingest(SourceEvent::StatusChange { source: "b".to_string(), info }, 0);
    let mut info2 = SourceInfo::new("a".to_string(), SourceType::Ssh, "u@h:/a".to_string());
    info2.file_size = Some(5);
    core.ingest(SourceEvent::StatusChange { source: "a".to_string(), info: info2 }, 0);
    assert_eq!(core.total_bytes(), Some(15));
    assert_eq!(core.open_local_paths(), vec!["/b".to_string()]);
    assert_eq!(sorted_sources(&core), vec!["a".to_string(), "b".to_string()]);
    let mut big = SourceInfo::new("c".to_string(), SourceType::Local, "/c".to_string());
    big.file_size = Some(u64::MAX);
    core.ingest(SourceEvent::StatusChange { source: "c".to_string(), info: big }, 0);
    assert_eq!(core.total_bytes(), None);
}

#[test]
fn filter_presets_apply() {
    let mut cfg = AppConfig::default();
    cfg.filters.insert(
        "errors".to_string(),
        FilterConfig { inclusions: vec!["ERROR".to_string()], exclusions: vec!["health".to_string()], rules: vec![] },
    );
    cfg.filters.insert("a-first".to_string(), FilterConfig::default());
    let (mut core, _) = AppCore::new(cfg, vec![]);
    assert_eq!(core.preset_names(), vec!["a-first".to_string(), "errors".to_string()]);
    assert!(!core.apply_filter_preset("missing"));
    assert!(core.apply_filter_preset("errors"));
    core.ingest(SourceEvent::Line { source: "s".to_string(), line: "ERROR db".to_string() }, 0);
    core.ingest(SourceEvent::Line { source: "s".to_string(), line: "ERROR health".to_string() }, 0);
    core.ingest(SourceEvent::Line { source: "s".to_string(), line: "INFO x".to_string() }, 0);
    let mut scroll = 0;
    let (total, window) = compute_view_at(&core, None, true, &mut scroll, 10, now());
    assert_eq!(total, 1);
    assert_eq!(window, vec![0]);
    core.clear_filter_rules();
    let (total, _) = compute_view_at(&core, Some("s"), true, &mut scroll, 10, now());
    assert_eq!(total, 3);
}

#[test]
fn pending_alerts_are_capped() {
    let (mut core, _) = AppCore::new(AppConfig::default(), vec![]);
    for i in 0..25 {
        core.push_alert(AlertEvent { entry: entry("s", &i.to_string()), rule_name: "r".to_string() });
    }
    assert_eq!(core.pending_alerts().len(), 20);
    assert_eq!(core.pending_alerts()[0].entry.message, "5");
}

// ---------------------------------------------------------------- view

#[test]
fn keys_drive_the_interface() {
    let (mut core, _) = AppCore::new(AppConfig::default(), vec![]);
    let mut ui = Ui::default();
    assert!(matches!(handle_key(Key::Char('j'), false, &mut core, &mut ui), KeyOutcome::Continue));
    assert_eq!(ui.scroll, 1);
    assert!(!ui.follow);
    handle_key(Key::Char('k'), false, &mut core, &mut ui);
    handle_key(Key::Char('k'), false, &mut core, &mut ui);
    assert_eq!(ui.scroll, 0);
    handle_key(Key::PageDown, false, &mut core, &mut ui);
    assert_eq!(ui.scroll, 20);
    handle_key(Key::Char('u'), true, &mut core, &mut ui);
    assert_eq!(ui.scroll, 10);
    handle_key(Key::Char('G'), false, &mut core, &mut ui);
    assert!(ui.follow);
    handle_key(Key::Char('f'), false, &mut core, &mut ui);
    assert_eq!(ui.mode, Mode::Filter);
    handle_key(Key::Char('x'), false, &mut core, &mut ui);
    assert_eq!(core.filter_text(), "x");
    handle_key(Key::Enter, false, &mut core, &mut ui);
    assert_eq!(ui.mode, Mode::Normal);
    handle_key(Key::Char('3'), false, &mut core, &mut ui);
    assert!(!core.show_levels()[2]);
    handle_key(Key::Char('?'), false, &mut core, &mut ui);
    assert!(ui.show_help);
    assert!(matches!(handle_key(Key::Char('q'), false, &mut core, &mut ui), KeyOutcome::Continue));
    assert!(!ui.show_help);
    assert!(matches!(handle_key(Key::Char('r'), false, &mut core, &mut ui), KeyOutcome::Send(SourceCommand::Reload { .. })));
    assert!(matches!(handle_key(Key::Char('q'), false, &mut core, &mut ui), KeyOutcome::Quit));
    scroll_by(&mut ui, -100);
    assert_eq!(ui.scroll, 0);
    assert_eq!(level_color(Some(LogLevel::Warn)), Some(TermColor::Yellow));
    assert_eq!(level_color(None), None);
}

#[test]
fn view_window_follows_or_scrolls() {
    let (mut core, _) = AppCore::new(AppConfig::default(), vec![]);
    for i in 0..10 {
        core.ingest(SourceEvent::Line { source: "s".to_string(), line: format!("line {}", i) }, 0);
    }
    let mut scroll = 0;
    let (total, window) = compute_view_at(&core, None, true, &mut scroll, 4, now());
    assert_eq!(total, 10);
    assert_eq!(window, vec![6, 7, 8, 9]);
    assert_eq!(scroll, 6);
    let mut scroll = 2;
    let (_, window) = compute_view_at(&core, None, false, &mut scroll, 4, now());
    assert_eq!(window, vec![2, 3, 4, 5]);
    let mut scroll = 50;
    let (_, window) = compute_view_at(&core, None, false, &mut scroll, 4, now());
    assert_eq!(scroll, 6);
    assert_eq!(window.len(), 4);
}

// ---------------------------------------------------------------- sources

#[test]
fn source_manager_plans_actions() {
    let mut m = SourceManager::new();
    let acts = m.run_command(SourceCommand::AddLocal { name: "a".to_string(), path: "/a".to_string() });
    assert!(matches!(&acts[..], [SourceAction::Start(n)] if n == "a"));
    let acts = m.run_command(SourceCommand::Reload { names: vec!["a".to_string(), "ghost".to_string()] });
    assert!(matches!(&acts[..], [SourceAction::Stop(x), SourceAction::Start(y)] if x == "a" && y == "a"));
    let acts = m.run_command(SourceCommand::Remove { name: "ghost".to_string() });
    assert!(acts.is_empty());
    assert!(m.source("a").is_some());
}

// ---------------------------------------------------------------- misc

#[test]
fn config_defaults() {
    let g = GeneralConfig::default();
    assert_eq!(g.buffer_size, 10000);
    assert_eq!(g.tab_width, 4);
    assert_eq!(g.update_interval_ms, 100);
    assert_eq!(default_buffer_size(), 10000);
    assert_eq!(default_ssh_port(), 22);
    assert_eq!(default_highlight_color(), [255, 214, 0]);
    assert_eq!(g.log_level_colors.fatal, [255, 50, 150]);
    let local = SourceConfig::Local { name: "a".to_string(), path: "b".to_string(), enabled: true, auto_open: false };
    assert!(local.is_enabled());
    assert!(!local.auto_open());
}

#[test]
fn paths_and_globs() {
    assert!(is_glob_pattern("/var/log/*.log"));
    assert!(is_glob_pattern("file?.txt"));
    assert!(!is_glob_pattern("/var/log/syslog"));
    assert!(matches!(local_source_command("/var/log/syslog"), SourceCommand::AddLocal { name, .. } if name == "syslog"));
    assert!(matches!(local_source_command("/var/log/.."), SourceCommand::AddLocal { name, .. } if name == "local"));
}

#[test]
fn regex_length_is_bounded() {
    let long = "a".repeat(MAX_REGEX_PATTERN_LEN + 1);
    let err = safe_regex_compile(&long).err().unwrap();
    assert_eq!(err, "Regex pattern too long (1001 > 1000 chars)");
    assert!(safe_regex_compile("(").err().unwrap().starts_with("Invalid regex: "));
    assert!(safe_regex_compile("a+").is_ok());
}

#[test]
fn time_range_rule() {
    let mut e = entry("s", "m");
    e.timestamp = Some(Timestamp { secs: 1_700_000_000 - 30, nanos: 0 });
    assert!(FilterRule::time_range(1).matches_at(&e, now()));
    e.timestamp = Some(Timestamp { secs: 1_700_000_000 - 120, nanos: 0 });
    assert!(!FilterRule::time_range(1).matches_at(&e, now()));
    let info = SourceInfo::new("n".to_string(), SourceType::Local, "p".to_string());
    assert_eq!(info.status, SourceStatus::Disconnected);
    let _ = HighlightMatcher::compile(&HighlightConfig { pattern: "x".to_string(), regex: false, color: [0, 0, 0] }).unwrap();
    let _ = StrMap::<u8>::new();
}
