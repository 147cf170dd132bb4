use std::path::PathBuf;

use atextwin::hook::{EventKind, KeyCode, KeyError, KeyEvent};
use atextwin::model::{default_true, AppState, Settings, Snippet, Stats};

fn empty_state() -> AppState {
    AppState::new(
        PathBuf::from("snippets.json"),
        PathBuf::from("stats.json"),
        PathBuf::from("settings.json"),
        None,
        None,
        None,
    )
}

fn snippet(id: &str, abbreviation: &str, expansion: &str, enabled: bool) -> Snippet {
    Snippet {
        id: id.to_string(),
        abbreviation: abbreviation.to_string(),
        expansion: expansion.to_string(),
        enabled,
        group: String::new(),
    }
}

fn all_digits(s: &str) -> bool {
    !s.is_empty() && s.chars().all(|c| c.is_ascii_digit())
}

#[test]
fn default_true_is_true() {
    assert!(default_true());
}

#[test]
fn settings_default_requires_word_boundary_and_empty_blacklist() {
    let s = Settings::default();
    assert!(s.require_word_boundary);
    assert!(s.blacklist.is_empty());
}

#[test]
fn stats_default_is_zero() {
    let s = Stats::default();
    assert_eq!(s.total_expansions, 0);
    assert_eq!(s.chars_saved, 0);
}

#[test]
fn new_state_uses_defaults_when_nothing_loaded() {
    let st = empty_state();
    assert!(st.snippets.is_empty());
    assert!(st.buffer.is_empty());
    assert!(st.active);
    assert!(!st.is_expanding);
    assert_eq!(st.stats.total_expansions, 0);
    assert_eq!(st.stats.chars_saved, 0);
    assert!(st.settings.require_word_boundary);
    assert!(st.settings.blacklist.is_empty());
    assert_eq!(st.data_path, PathBuf::from("snippets.json"));
    assert_eq!(st.stats_path, PathBuf::from("stats.json"));
    assert_eq!(st.settings_path, PathBuf::from("settings.json"));
}

#[test]
fn new_state_keeps_what_was_loaded() {
    let st = AppState::new(
        PathBuf::from("a"),
        PathBuf::from("b"),
        PathBuf::from("c"),
        Some(vec![snippet("1", ";a", "alpha", true)]),
        Some(Stats { total_expansions: 7, chars_saved: 42 }),
        Some(Settings { require_word_boundary: false, blacklist: vec!["x.exe".to_string()] }),
    );
    assert_eq!(st.snippets.len(), 1);
    assert_eq!(st.snippets[0].expansion, "alpha");
    assert_eq!(st.stats.total_expansions, 7);
    assert_eq!(st.stats.chars_saved, 42);
    assert!(!st.settings.require_word_boundary);
    assert_eq!(st.settings.blacklist, vec!["x.exe".to_string()]);
}

#[test]
fn add_snippet_appends_enabled_snippet_with_clock_id() {
    let mut st = empty_state();
    let sn = st.add_snippet(";sig".to_string(), "Best regards".to_string(), "mail".to_string());
    assert!(sn.enabled);
    assert_eq!(sn.abbreviation, ";sig");
    assert_eq!(sn.expansion, "Best regards");
    assert_eq!(sn.group, "mail");
    assert!(all_digits(&sn.id));
    assert_eq!(st.snippets.len(), 1);
    assert_eq!(st.snippets[0].id, sn.id);
    let got = st.get_snippets();
    assert_eq!(got.len(), 1);
    assert_eq!(got[0].abbreviation, ";sig");
}

#[test]
fn update_snippet_changes_first_match_only() {
    let mut st = empty_state();
    st.snippets = vec![
        snippet("1", ";a", "alpha", true),
        snippet("2", ";b", "beta", true),
        snippet("2", ";c", "gamma", true),
    ];
    let found = st.update_snippet("2".to_string(), ";bb".to_string(), "BETA".to_string(), false, "g".to_string());
    assert!(found);
    assert_eq!(st.snippets[1].id, "2");
    assert_eq!(st.snippets[1].abbreviation, ";bb");
    assert_eq!(st.snippets[1].expansion, "BETA");
    assert!(!st.snippets[1].enabled);
    assert_eq!(st.snippets[1].group, "g");
    assert_eq!(st.snippets[2].abbreviation, ";c");
    assert_eq!(st.snippets[0].abbreviation, ";a");
}

#[test]
fn update_snippet_unknown_id_changes_nothing() {
    let mut st = empty_state();
    st.snippets = vec![snippet("1", ";a", "alpha", true)];
    assert!(!st.update_snippet("9".to_string(), "x".to_string(), "y".to_string(), true, String::new()));
    assert_eq!(st.snippets[0].abbreviation, ";a");
    assert_eq!(st.snippets[0].expansion, "alpha");
}

#[test]
fn delete_snippet_removes_every_match_and_keeps_order() {
    let mut st = empty_state();
    st.snippets = vec![
        snippet("1", ";a", "alpha", true),
        snippet("2", ";b", "beta", true),
        snippet("3", ";c", "gamma", true),
        snippet("2", ";d", "delta", true),
    ];
    assert!(st.delete_snippet("2".to_string()));
    let ids: Vec<&str> = st.snippets.iter().map(|s| s.id.as_str()).collect();
    assert_eq!(ids, vec!["1", "3"]);
    assert!(!st.delete_snippet("2".to_string()));
    assert_eq!(st.snippets.len(), 2);
}

#[test]
fn import_snippets_appends_with_indexed_ids() {
    let mut st = empty_state();
    st.snippets = vec![snippet("1", ";a", "alpha", true)];
    let imported = vec![snippet("x", ";b", "beta", false), snippet("y", ";c", "gamma", true)];
    let n = st.import_snippets(imported);
    assert_eq!(n, 2);
    assert_eq!(st.snippets.len(), 3);
    assert_eq!(st.snippets[0].id, "1");
    assert_eq!(st.snippets[1].abbreviation, ";b");
    assert!(!st.snippets[1].enabled);
    assert_eq!(st.snippets[2].expansion, "gamma");
    for (j, s) in st.snippets[1..].iter().enumerate() {
        let (clock, index) = s.id.split_once('-').expect("id has a hyphen");
        assert!(all_digits(clock));
        assert_eq!(index, j.to_string());
    }
}

#[test]
fn import_of_nothing_counts_zero() {
    let mut st = empty_state();
    assert_eq!(st.import_snippets(Vec::new()), 0);
    assert!(st.snippets.is_empty());
}

#[test]
fn set_active_clears_buffer() {
    let mut st = empty_state();
    st.buffer = "abc".to_string();
    st.set_active(false);
    assert!(!st.get_active());
    assert!(st.buffer.is_empty());
    st.set_active(true);
    assert!(st.get_active());
}

#[test]
fn toggle_active_twice_restores_switch() {
    let mut st = empty_state();
    st.buffer = "ab".to_string();
    assert!(!st.toggle_active());
    assert!(st.buffer.is_empty());
    assert!(st.toggle_active());
    assert!(st.active);
}

#[test]
fn reset_stats_zeroes_counters() {
    let mut st = empty_state();
    st.stats = Stats { total_expansions: 5, chars_saved: 30 };
    let s = st.get_stats();
    assert_eq!(s.total_expansions, 5);
    st.reset_stats();
    assert_eq!(st.stats.total_expansions, 0);
    assert_eq!(st.stats.chars_saved, 0);
}

#[test]
fn update_settings_trims_lowercases_and_drops_empty_entries() {
    let mut st = empty_state();
    st.update_settings(
        false,
        vec![" KeePass.EXE ".to_string(), "   ".to_string(), "\tNotepad.exe\n".to_string(), String::new()],
    );
    let s = st.get_settings();
    assert!(!s.require_word_boundary);
    assert_eq!(s.blacklist, vec!["keepass.exe".to_string(), "notepad.exe".to_string()]);
}

fn press(key: KeyCode) -> KeyEvent {
    KeyEvent { kind: EventKind::KeyPress(key), name: None }
}

fn type_char(c: &str) -> KeyEvent {
    KeyEvent { kind: EventKind::KeyPress(KeyCode::Other), name: Some(c.to_string()) }
}

fn type_str(st: &mut AppState, s: &str) -> Option<(usize, String)> {
    let mut last = None;
    for c in s.chars() {
        let ev = type_char(&c.to_string());
        assert!(st.can_accept(&ev));
        last = st.handle_key(&ev);
    }
    last
}

#[test]
fn typing_an_abbreviation_finds_its_expansion() {
    let mut st = empty_state();
    st.snippets = vec![snippet("1", ";sig", "Best regards", true)];
    assert_eq!(type_str(&mut st, ";si"), None);
    let m = type_str(&mut st, "g");
    assert_eq!(m, Some((4, "Best regards".to_string())));
    assert_eq!(st.buffer, ";sig");
    assert!(st.conclude_match(None));
    assert!(st.buffer.is_empty());
}

#[test]
fn longest_abbreviation_wins_and_ties_go_to_the_first() {
    let mut st = empty_state();
    st.settings.require_word_boundary = false;
    st.snippets = vec![
        snippet("1", "ig", "short", true),
        snippet("2", "sig", "first long", true),
        snippet("3", "sig", "second long", true),
    ];
    assert_eq!(type_str(&mut st, "xsig"), Some((3, "first long".to_string())));
}

#[test]
fn disabled_and_empty_abbreviations_never_match() {
    let mut st = empty_state();
    st.snippets = vec![snippet("1", "ab", "off", false), snippet("2", "", "empty", true)];
    assert_eq!(type_str(&mut st, "ab"), None);
}

#[test]
fn word_boundary_blocks_matches_inside_words() {
    let mut st = empty_state();
    st.snippets = vec![snippet("1", "sig", "signature", true)];
    assert_eq!(type_str(&mut st, "xsig"), None);
    st.buffer = String::new();
    assert_eq!(type_str(&mut st, "-sig"), Some((3, "signature".to_string())));
    st.buffer = String::new();
    st.settings.require_word_boundary = false;
    assert_eq!(type_str(&mut st, "xsig"), Some((3, "signature".to_string())));
}

#[test]
fn boundary_and_caret_keys_clear_the_buffer() {
    let keys = [
        KeyCode::Space,
        KeyCode::Return,
        KeyCode::Escape,
        KeyCode::Tab,
        KeyCode::CapsLock,
        KeyCode::LeftArrow,
        KeyCode::RightArrow,
        KeyCode::UpArrow,
        KeyCode::DownArrow,
        KeyCode::Home,
        KeyCode::End,
        KeyCode::Delete,
    ];
    for k in keys {
        let mut st = empty_state();
        type_str(&mut st, "abc");
        assert_eq!(st.handle_key(&press(k)), None);
        assert!(st.buffer.is_empty());
    }
}

#[test]
fn backspace_removes_the_last_character() {
    let mut st = empty_state();
    type_str(&mut st, "abé");
    st.handle_key(&press(KeyCode::Backspace));
    assert_eq!(st.buffer, "ab");
    let mut empty = empty_state();
    empty.handle_key(&press(KeyCode::Backspace));
    assert!(empty.buffer.is_empty());
}

#[test]
fn keys_are_ignored_while_inactive_or_expanding() {
    let mut st = empty_state();
    st.snippets = vec![snippet("1", "a", "A", true)];
    st.active = false;
    assert_eq!(st.handle_key(&type_char("a")), None);
    assert!(st.buffer.is_empty());
    st.active = true;
    st.is_expanding = true;
    st.buffer = "zz".to_string();
    assert_eq!(st.handle_key(&press(KeyCode::Space)), None);
    assert_eq!(st.buffer, "zz");
}

#[test]
fn non_printable_or_long_names_and_other_events_do_not_type() {
    let mut st = empty_state();
    st.handle_key(&type_char("\u{7}"));
    st.handle_key(&type_char("ab"));
    st.handle_key(&KeyEvent { kind: EventKind::KeyPress(KeyCode::Other), name: None });
    st.handle_key(&KeyEvent { kind: EventKind::Other, name: Some("a".to_string()) });
    assert!(st.buffer.is_empty());
}

#[test]
fn buffer_keeps_its_last_128_bytes() {
    let mut st = empty_state();
    let typed: String = (0..130).map(|i| if i == 0 { 'x' } else { 'a' }).collect();
    type_str(&mut st, &typed);
    assert_eq!(st.buffer.len(), 128);
    assert!(st.buffer.chars().all(|c| c == 'a'));
}

#[test]
fn buffer_cut_inside_a_character_is_refused() {
    let mut st = empty_state();
    st.buffer = format!("é{}", "a".repeat(126));
    assert_eq!(st.buffer.len(), 128);
    assert!(!st.can_accept(&type_char("a")));
    assert!(st.can_accept(&press(KeyCode::Space)));
    st.buffer = format!("ab{}", "a".repeat(126));
    assert!(st.can_accept(&type_char("é")));
    st.handle_key(&type_char("é"));
    assert_eq!(st.buffer.len(), 128);
    assert!(st.buffer.ends_with('é'));
}

#[test]
fn blacklisted_application_blocks_dispatch() {
    let mut st = empty_state();
    st.settings.blacklist = vec!["keepass.exe".to_string()];
    assert!(st.settings.needs_process_name());
    st.buffer = "x".to_string();
    assert!(!st.conclude_match(Some("keepass.exe".to_string())));
    assert!(st.buffer.is_empty());
    assert!(st.conclude_match(Some("notepad.exe".to_string())));
    assert!(st.conclude_match(None));
    st.settings.blacklist.clear();
    assert!(!st.settings.needs_process_name());
    assert!(!st.settings.is_blacklisted(&Some("keepass.exe".to_string())));
}

#[test]
fn try_handle_key_refuses_a_cut_inside_a_character() {
    let mut st = empty_state();
    st.buffer = format!("é{}", "a".repeat(126));
    let before = st.buffer.clone();
    assert_eq!(st.try_handle_key(&type_char("a")), Err(KeyError::CutInsideCharacter));
    assert_eq!(st.buffer, before);
    st.snippets = vec![snippet("1", "ab", "AB", true)];
    st.settings.require_word_boundary = false;
    st.buffer = "xa".to_string();
    assert_eq!(st.try_handle_key(&type_char("b")), Ok(Some((2, "AB".to_string()))));
    assert_eq!(st.try_handle_key(&press(KeyCode::Space)), Ok(None));
    assert!(st.buffer.is_empty());
}
