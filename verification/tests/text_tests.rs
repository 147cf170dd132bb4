use atextwin::expansion::{
    finish_with_clipboard, mentions_clipboard, process_variables, split_at_cursor, substitute_clipboard,
    substitute_dates,
};
use atextwin::hook::{bound_chars, drain_front_bytes, find_match, process_name_from_utf16, typed_char_of, utf8_length};
use atextwin::model::{Snippet, Stats};
use atextwin::system::{clipboard_or_empty, clipboard_text, id_from_micros, unique_id};
use atextwin::text::{chars_of, is_control, is_whitespace, decimal_chars, find_first, matches_at, replace_chars, string_of, trim_chars};

fn cs(s: &str) -> Vec<char> {
    s.chars().collect()
}

#[test]
fn chars_and_strings_round_trip() {
    assert_eq!(chars_of("héllo"), cs("héllo"));
    assert_eq!(string_of(&cs("héllo")), "héllo");
    assert_eq!(string_of(&[]), "");
}

#[test]
fn decimal_rendering() {
    assert_eq!(string_of(&decimal_chars(0)), "0");
    assert_eq!(string_of(&decimal_chars(7)), "7");
    assert_eq!(string_of(&decimal_chars(1700000000123456)), "1700000000123456");
    assert_eq!(string_of(&decimal_chars(u128::MAX)), u128::MAX.to_string());
}

#[test]
fn unique_id_is_decimal_digits() {
    let id = unique_id();
    assert!(!id.is_empty());
    assert!(id.chars().all(|c| c.is_ascii_digit()));
}

#[test]
fn pattern_search() {
    assert!(matches_at(&cs("abcabc"), 3, &cs("abc")));
    assert!(!matches_at(&cs("abcabc"), 4, &cs("abc")));
    assert_eq!(find_first(&cs("xx{a}yy{a}"), &cs("{a}")), Some(2));
    assert_eq!(find_first(&cs("xx"), &cs("{a}")), None);
}

#[test]
fn replace_is_left_to_right_and_non_overlapping() {
    assert_eq!(replace_chars(&cs("aaa"), &cs("aa"), &cs("b")), cs("ba"));
    assert_eq!(replace_chars(&cs("x{d}y{d}"), &cs("{d}"), &cs("12")), cs("x12y12"));
    assert_eq!(replace_chars(&cs("none"), &cs("{d}"), &cs("12")), cs("none"));
}

#[test]
fn trim_removes_outer_whitespace_only() {
    assert_eq!(trim_chars(&cs("  a b \t\n")), cs("a b"));
    assert_eq!(trim_chars(&cs("   ")), cs(""));
    assert_eq!(trim_chars(&cs("\u{3000}x\u{a0}")), cs("x"));
}

#[test]
fn date_variables_are_substituted_in_order() {
    let r = substitute_dates("Le {date} à {heure} ({datetime})", "02/04/2017", "12:50", "02/04/2017 12:50");
    assert_eq!(r, "Le 02/04/2017 à 12:50 (02/04/2017 12:50)");
}

#[test]
fn clipboard_variable() {
    assert!(mentions_clipboard("paste: {clipboard}"));
    assert!(!mentions_clipboard("paste: {clip}"));
    assert_eq!(substitute_clipboard("[{clipboard}]", "xyz"), "[xyz]");
}

#[test]
fn cursor_marker_splits_the_text() {
    assert_eq!(
        split_at_cursor("Bonjour {curseur}, à bientôt"),
        Some(("Bonjour ".to_string(), ", à bientôt".to_string()))
    );
    assert_eq!(split_at_cursor("a{curseur}b{curseur}"), Some(("a".to_string(), "b{curseur}".to_string())));
    assert_eq!(split_at_cursor("plain"), None);
    assert_eq!(split_at_cursor("end{curseur}"), Some(("end".to_string(), String::new())));
}

#[test]
fn cursor_marker_is_removed_and_counted() {
    assert_eq!(finish_with_clipboard("Bonjour {curseur}, à bientôt", ""), ("Bonjour , à bientôt".to_string(), Some(11)));
    assert_eq!(finish_with_clipboard("a{curseur}b{curseur}", ""), ("ab{curseur}".to_string(), Some(10)));
    assert_eq!(finish_with_clipboard("plain", "x"), ("plain".to_string(), None));
    assert_eq!(finish_with_clipboard("end{curseur}", ""), ("end".to_string(), Some(0)));
}

#[test]
fn clipboard_text_is_typed_as_is() {
    assert_eq!(finish_with_clipboard("a{clipboard}", "x{curseur}y"), ("ax{curseur}y".to_string(), None));
    assert_eq!(
        finish_with_clipboard("[{clipboard}]{curseur}<{clipboard}>", "é{curseur}"),
        ("[é{curseur}]<é{curseur}>".to_string(), Some(12))
    );
}

#[test]
fn process_variables_without_clock_variables() {
    assert_eq!(process_variables("Cordialement,{curseur}\nJean"), ("Cordialement,\nJean".to_string(), Some(5)));
    assert_eq!(process_variables("no variables"), ("no variables".to_string(), None));
}

#[test]
fn process_variables_fills_date_and_time() {
    let (text, cursor) = process_variables("{date}|{heure}");
    assert_eq!(cursor, None);
    let (date, time) = text.split_once('|').unwrap();
    assert_eq!(date.len(), 10);
    assert_eq!(&date[2..3], "/");
    assert_eq!(&date[5..6], "/");
    assert_eq!(time.len(), 5);
    assert_eq!(&time[2..3], ":");
    let (stamp, _) = process_variables("{datetime}");
    assert_eq!(stamp.len(), 16);
    assert_eq!(&stamp[10..11], " ");
    assert_eq!(&stamp[13..14], ":");
    assert!(stamp.chars().filter(|c| c.is_ascii_digit()).count() == 12);
}

#[test]
fn clipboard_text_never_fails() {
    let _ = clipboard_text();
}

#[test]
fn record_expansion_counts_saved_characters() {
    let mut s = Stats { total_expansions: 0, chars_saved: 0 };
    assert!(s.can_record_expansion("Best regards", 4));
    s.record_expansion("Best regards", 4);
    assert_eq!(s.total_expansions, 1);
    assert_eq!(s.chars_saved, 8);
    s.record_expansion("ok", 4);
    assert_eq!(s.total_expansions, 2);
    assert_eq!(s.chars_saved, 8);
    s.record_expansion("é€", 1);
    assert_eq!(s.chars_saved, 9);
}

#[test]
fn record_expansion_refuses_overflow() {
    let s = Stats { total_expansions: u64::MAX, chars_saved: 0 };
    assert!(!s.can_record_expansion("abc", 1));
    let s = Stats { total_expansions: 0, chars_saved: i64::MAX };
    assert!(!s.can_record_expansion("abc", 1));
    assert!(s.can_record_expansion("a", 1));
}

#[test]
fn utf8_lengths_and_byte_cuts() {
    assert_eq!(utf8_length(&cs("aé€😀")), 1 + 2 + 3 + 4);
    assert_eq!(utf8_length(&cs("aé€😀")), "aé€😀".len() as u128);
    assert_eq!(drain_front_bytes(&cs("éa"), 2), Some(cs("a")));
    assert_eq!(drain_front_bytes(&cs("éa"), 1), None);
    assert_eq!(drain_front_bytes(&cs("a"), 2), None);
    let long: Vec<char> = std::iter::repeat('a').take(130).collect();
    assert_eq!(bound_chars(&long).unwrap().len(), 128);
    assert_eq!(bound_chars(&cs("short")), Some(cs("short")));
}

#[test]
fn typed_character_from_key_name() {
    assert_eq!(typed_char_of(&Some("a".to_string())), Some('a'));
    assert_eq!(typed_char_of(&Some("é".to_string())), Some('é'));
    assert_eq!(typed_char_of(&Some("\r".to_string())), None);
    assert_eq!(typed_char_of(&Some("ab".to_string())), None);
    assert_eq!(typed_char_of(&None), None);
}

#[test]
fn find_match_on_a_buffer() {
    let snips = vec![Snippet {
        id: "1".to_string(),
        abbreviation: "€x".to_string(),
        expansion: "euro".to_string(),
        enabled: true,
        group: String::new(),
    }];
    assert_eq!(find_match(&snips, &cs("a €x"), true), Some((2, "euro".to_string())));
    assert_eq!(find_match(&snips, &cs("a€x"), true), None);
    assert_eq!(find_match(&snips, &cs("a€x"), false), Some((2, "euro".to_string())));
    assert_eq!(find_match(&snips, &cs("€x"), true), Some((2, "euro".to_string())));
}

#[test]
fn process_name_is_decoded_and_lowercased() {
    let units: Vec<u16> = "NotePad.EXE\0\0".encode_utf16().collect();
    assert_eq!(process_name_from_utf16(&units, 11), Some("notepad.exe".to_string()));
    assert_eq!(process_name_from_utf16(&units, 0), None);
    let bad = [0xD800u16, 0x41];
    assert_eq!(process_name_from_utf16(&bad, 2), Some("\u{FFFD}a".to_string()));
}

#[test]
fn clock_reading_becomes_an_identifier() {
    assert_eq!(id_from_micros(Some(1700000000123456)), "1700000000123456");
    assert_eq!(id_from_micros(Some(0)), "0");
    assert_eq!(id_from_micros(None), "0");
}

#[test]
fn clipboard_read_or_empty() {
    assert_eq!(clipboard_or_empty(Ok("copied".to_string())), "copied");
    assert_eq!(clipboard_or_empty(Err(arboard::Error::ContentNotAvailable)), "");
}

#[test]
fn control_characters() {
    for c in ['\0', '\u{1f}', '\u{7f}', '\u{80}', '\u{9f}', '\n'] {
        assert!(is_control(c));
        assert_eq!(is_control(c), c.is_control());
    }
    for c in [' ', ';', 'a', '\u{a0}', '\u{20}', 'é'] {
        assert!(!is_control(c));
        assert_eq!(is_control(c), c.is_control());
    }
}

#[test]
fn surrogate_pairs_decode_to_one_character() {
    let units: Vec<u16> = "A😀b".encode_utf16().collect();
    assert_eq!(process_name_from_utf16(&units, units.len() as u32), Some("a😀b".to_string()));
    let lone_low = [0xDC00u16, 0x42, 0xD83D];
    assert_eq!(process_name_from_utf16(&lone_low, 3), Some("\u{FFFD}b\u{FFFD}".to_string()));
}

#[test]
fn whitespace_and_control_agree_with_std_on_every_character() {
    for u in 0u32..=0x10FFFF {
        if let Some(c) = char::from_u32(u) {
            assert_eq!(is_whitespace(c), c.is_whitespace(), "U+{:04X}", u);
            assert_eq!(is_control(c), c.is_control(), "U+{:04X}", u);
        }
    }
}
