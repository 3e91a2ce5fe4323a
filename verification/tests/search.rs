use tunefold::domain::{Source, Track};
use tunefold::keys::{normalize_shift, KeyCode, KeyEvent, KeyModifiers};
use tunefold::navigation::{step_selection, ListState};
use tunefold::search::{cursor_column, uniseg_width, SearchState};
use tunefold::text::{decimal, join, padded, signed, starts_with, trim};

fn typed(text: &str) -> SearchState {
    let mut s = SearchState::default();
    for c in text.chars() {
        s.insert_char(c);
    }
    s
}

#[test]
fn editing_works_on_characters() {
    let mut s = typed("añó");
    assert_eq!(s.text(), "añó");
    s.move_cursor_left();
    s.backspace();
    assert_eq!((s.text().as_str(), s.cursor), ("aó", 1));
    s.delete();
    assert_eq!((s.text().as_str(), s.cursor), ("a", 1));
    s.delete();
    assert_eq!(s.text(), "a");
    s.move_cursor_home();
    s.backspace();
    assert_eq!((s.text().as_str(), s.cursor), ("a", 0));
    s.insert_char('x');
    assert_eq!((s.text().as_str(), s.cursor), ("xa", 1));
    s.move_cursor_end();
    s.move_cursor_right();
    assert_eq!(s.cursor, 2);
    s.clear();
    assert_eq!((s.text().as_str(), s.cursor, s.editing), ("", 0, true));
}

#[test]
fn backspace_undoes_typing() {
    let mut s = typed("queen");
    s.move_cursor_left();
    let before = (s.text(), s.cursor);
    s.insert_char('ñ');
    s.backspace();
    assert_eq!((s.text(), s.cursor), before);
}

#[test]
fn wide_characters_take_two_cells() {
    assert_eq!(uniseg_width('a'), 1);
    assert_eq!(uniseg_width('ñ'), 1);
    assert_eq!(uniseg_width('漢'), 2);
    assert_eq!(uniseg_width('😀'), 2);
    assert_eq!(uniseg_width('\u{1100}'), 2);
    assert_eq!(uniseg_width('\u{1160}'), 1);
    let mut s = typed("a漢");
    assert_eq!(cursor_column(&s, 10, 80), 10 + 1 + 2 + 3);
    s.move_cursor_home();
    assert_eq!(cursor_column(&s, 10, 80), 13);
    assert_eq!(cursor_column(&typed("aaaaaaaa"), 10, 15), 14, "nunca sale del marco");
}

#[test]
fn selection_goes_round() {
    assert_eq!(step_selection(0, Some(2), true), None);
    assert_eq!(step_selection(3, None, true), Some(0));
    assert_eq!(step_selection(3, Some(2), true), Some(0));
    assert_eq!(step_selection(3, Some(0), false), Some(2));
    for i in 0..3 {
        let there = step_selection(3, Some(i), true);
        assert_eq!(step_selection(3, there, false), Some(i));
    }
    let mut s = SearchState::default();
    s.results = vec![Track::new("x".to_string(), vec![], Source::YouTube)];
    s.select_next();
    assert_eq!(s.list_state, ListState { selected: Some(0) });
    assert_eq!(s.selected().unwrap().title, "x");
    s.select_prev();
    assert_eq!(s.list_state.selected, Some(0));
}

#[test]
fn shifted_letters_become_capitals() {
    let key = KeyEvent::new(KeyCode::Char('h'), KeyModifiers::shift());
    let once = normalize_shift(key);
    assert_eq!(once.code, KeyCode::Char('H'));
    assert_eq!(normalize_shift(once), once);
    let plain = KeyEvent::new(KeyCode::Char('h'), KeyModifiers::none());
    assert_eq!(normalize_shift(plain), plain);
}

#[test]
fn texts_are_built_as_expected() {
    assert_eq!(decimal(0), "0");
    assert_eq!(decimal(u64::MAX), "18446744073709551615");
    assert_eq!(padded(7), "07");
    assert_eq!(padded(123), "123");
    assert_eq!(signed(i64::MIN), "-9223372036854775808");
    assert_eq!(join(&vec!["a".to_string(), "b".to_string()], " · "), "a · b");
    assert_eq!(join(&vec![], ","), "");
    assert_eq!(trim(" \t hola mundo \n"), "hola mundo");
    assert_eq!(trim("   "), "");
    assert!(starts_with("leer stream: x", "leer stream"));
    assert!(!starts_with("leer", "leer stream"));
}
