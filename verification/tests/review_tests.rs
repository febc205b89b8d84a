use oxitailr::ansi::{ansi_to_spans, apply_sgr_params, StyledSpan, TermColor, TextStyle};
use oxitailr::appcore::{AppCore, LogState};
use oxitailr::config::AppConfig;
use oxitailr::models::LogEntry;
use oxitailr::source::SourceEvent;
use oxitailr::ssh::{next_auth_action, AuthAction, AuthPlan, AuthState};
use oxitailr::text::match_pieces;
use oxitailr::view::{handle_key, refresh_matches, search_next, shown_lines, Key, Ui};

fn spans(raw: &str) -> Vec<(String, Option<TermColor>, bool)> {
    let mut out: Vec<StyledSpan> = Vec::new();
    ansi_to_spans(raw, &mut out);
    out.into_iter().map(|s| (s.text, s.style.fg, s.style.bold)).collect()
}

#[test]
fn ansi_text_keeps_its_characters() {
    assert_eq!(
        spans("caf\u{e9} \x1b[31mrouge\x1b[0m fin"),
        vec![
            ("caf\u{e9} ".to_string(), None, false),
            ("rouge".to_string(), Some(TermColor::Red), false),
            (" fin".to_string(), None, false),
        ]
    );
}

#[test]
fn unlisted_sgr_code_resets() {
    let red = TextStyle { fg: Some(TermColor::Red), bold: true };
    assert_eq!(apply_sgr_params(red, "4"), TextStyle { fg: None, bold: false });
    assert_eq!(apply_sgr_params(red, "1;32"), TextStyle { fg: Some(TermColor::Green), bold: true });
    assert_eq!(spans("\x1b[1;31mA\x1b[4mB"), vec![("A".to_string(), Some(TermColor::Red), true), ("B".to_string(), None, false)]);
}

#[test]
fn zero_bound_buffer_keeps_nothing() {
    let mut log = LogState::new(0);
    log.add_entry(LogEntry::new("s".to_string(), "x".to_string()));
    assert_eq!(log.line_count(), 0);
    assert_eq!(log.total_lines_read(), 1);
    let mut log = LogState::new(2);
    for i in 0..3 {
        log.add_entry(LogEntry::new("s".to_string(), format!("{}", i)));
    }
    assert_eq!(log.line_count(), 2);
    assert_eq!(log.line(0).entry.raw, "1");
    assert_eq!(log.line(1).line_num, 3);
}

fn plan(keys: &[&str], password: Option<&str>) -> AuthPlan {
    AuthPlan { keys: keys.iter().map(|k| k.to_string()).collect(), password: password.map(|p| p.to_string()) }
}

#[test]
fn auth_stops_at_first_working_key() {
    let p = plan(&["a", "b", "c"], Some("pw"));
    let (s, a) = next_auth_action(&p, AuthState::start(), None);
    assert!(matches!(a, AuthAction::TryKey(ref k) if k == "a"));
    let (s, a) = next_auth_action(&p, s, None);
    assert!(matches!(a, AuthAction::TryKey(ref k) if k == "b"));
    let (_, a) = next_auth_action(&p, s, Some(true));
    assert!(matches!(a, AuthAction::Authenticated));
}

#[test]
fn auth_tries_password_after_all_keys_then_fails() {
    let p = plan(&["a", "b"], Some("pw"));
    let (s, _) = next_auth_action(&p, AuthState::start(), None);
    let (s, _) = next_auth_action(&p, s, Some(false));
    let (s, a) = next_auth_action(&p, s, None);
    assert!(matches!(a, AuthAction::TryPassword(ref pw) if pw == "pw"));
    let (_, a) = next_auth_action(&p, s, Some(false));
    match a {
        AuthAction::Fail(m) => assert_eq!(m, "SSH authentication failed. Tried keys: a, also tried password"),
        _ => panic!("expected failure"),
    }
}

#[test]
fn auth_skips_empty_password() {
    let p = plan(&["a"], Some(""));
    let (s, _) = next_auth_action(&p, AuthState::start(), None);
    let (_, a) = next_auth_action(&p, s, None);
    match a {
        AuthAction::Fail(m) => assert_eq!(m, "SSH authentication failed. No SSH keys found, also tried password"),
        _ => panic!("expected failure"),
    }
    let p = plan(&[], None);
    let (_, a) = next_auth_action(&p, AuthState::start(), None);
    assert!(matches!(a, AuthAction::Fail(ref m) if m == "SSH authentication failed. No SSH keys found"));
}

#[test]
fn pieces_cover_text_and_mark_matches() {
    let p = match_pieces("Error then ERROR, err", "error");
    assert_eq!(
        p,
        vec![
            ("Error".to_string(), true),
            (" then ".to_string(), false),
            ("ERROR".to_string(), true),
            (", err".to_string(), false),
        ]
    );
    assert_eq!(match_pieces("aaa", "aa"), vec![("aa".to_string(), true), ("a".to_string(), false)]);
    let t = "İstanbul ist";
    let joined: String = match_pieces(t, "ist").into_iter().map(|(s, _)| s).collect();
    assert_eq!(joined, t);
    assert_eq!(match_pieces("", "x"), vec![]);
}

#[test]
fn search_navigation_moves_between_matches() {
    let (mut core, _) = AppCore::new(AppConfig::default(), vec![]);
    for line in ["alpha", "Beta one", "gamma", "beta two"] {
        core.ingest(SourceEvent::Line { source: "s".to_string(), line: line.to_string() }, 0);
    }
    let mut ui = Ui::default();
    handle_key(Key::Char('/'), false, &mut core, &mut ui);
    for c in "beta".chars() {
        handle_key(Key::Char(c), false, &mut core, &mut ui);
    }
    handle_key(Key::Enter, false, &mut core, &mut ui);
    let shown = shown_lines(&core, None);
    refresh_matches(&core, &shown, &mut ui);
    assert_eq!(ui.matches, vec![1, 3]);
    handle_key(Key::Char('n'), false, &mut core, &mut ui);
    assert_eq!(ui.current_match, Some(0));
    assert_eq!(ui.scroll, 1);
    assert!(!ui.follow);
    handle_key(Key::Char('n'), false, &mut core, &mut ui);
    assert_eq!(ui.current_match, Some(1));
    assert_eq!(ui.scroll, 3);
    handle_key(Key::Char('n'), false, &mut core, &mut ui);
    assert_eq!(ui.current_match, Some(0));
    handle_key(Key::Char('N'), false, &mut core, &mut ui);
    assert_eq!(ui.current_match, Some(1));
    let mut empty = Ui::default();
    search_next(&mut empty, true);
    assert_eq!(empty.current_match, None);
}

#[test]
fn tab_switch_keeps_follow_and_matches() {
    let (mut core, _) = AppCore::new(AppConfig::default(), vec![]);
    let mut ui = Ui::default();
    ui.matches = vec![4];
    handle_key(Key::BackTab, false, &mut core, &mut ui);
    assert!(ui.follow);
    assert_eq!(ui.matches, vec![4]);
    assert_eq!(ui.tab, 0);
}

#[test]
fn level_digit_twice_restores() {
    let (mut core, _) = AppCore::new(AppConfig::default(), vec![]);
    let mut ui = Ui::default();
    let before = core.show_levels();
    handle_key(Key::Char('4'), false, &mut core, &mut ui);
    assert!(!core.show_levels()[3]);
    handle_key(Key::Char('4'), false, &mut core, &mut ui);
    assert_eq!(core.show_levels(), before);
}
