use tunefold::keys::{KeyCode, KeyEvent, KeyModifiers};
use tunefold::view::View;

fn expect_symbol_maps_to_view(symbol: char, view: View) {
    let key = KeyEvent::new(KeyCode::Char(symbol), KeyModifiers::none());
    assert_eq!(View::from_shift_key(key.code, key.modifiers), Some(view));
}

#[test]
fn us_layout_shift_symbols_navigate() {
    expect_symbol_maps_to_view('!', View::NowPlaying);
    expect_symbol_maps_to_view('@', View::Related);
    expect_symbol_maps_to_view('#', View::Search);
    expect_symbol_maps_to_view('$', View::Sources);
    expect_symbol_maps_to_view('%', View::Metadata);
    expect_symbol_maps_to_view('^', View::History);
    expect_symbol_maps_to_view('*', View::Playlists);
}

#[test]
fn latam_layout_shift_symbols_navigate() {
    expect_symbol_maps_to_view('"', View::Related);
    expect_symbol_maps_to_view('&', View::History);
    expect_symbol_maps_to_view('/', View::Settings);
    expect_symbol_maps_to_view('(', View::Playlists);
}

#[test]
fn spanish_layout_shift_symbols_navigate() {
    expect_symbol_maps_to_view('·', View::Search);
}

#[test]
fn unrelated_symbols_do_not_navigate() {
    assert_eq!(
        View::from_shift_key(KeyCode::Char('?'), KeyModifiers::none()),
        None
    );
    assert_eq!(
        View::from_shift_key(KeyCode::Char('0'), KeyModifiers::none()),
        None
    );
    assert_eq!(
        View::from_shift_key(KeyCode::Char('a'), KeyModifiers::none()),
        None
    );
}

#[test]
fn digits_require_shift() {
    assert_eq!(
        View::from_shift_key(KeyCode::Char('2'), KeyModifiers::none()),
        None
    );
    assert_eq!(
        View::from_shift_key(KeyCode::Char('2'), KeyModifiers::shift()),
        Some(View::Related)
    );
}

#[test]
fn every_view_has_a_shortcut_and_a_label() {
    for (i, view) in View::ALL.iter().enumerate() {
        let digit = char::from_digit(i as u32 + 1, 10).unwrap();
        assert_eq!(View::from_shortcut(KeyCode::Char(digit)), Some(*view));
        assert_eq!(view.shortcut_digit(), digit.to_string());
        assert!(!view.label().is_empty());
    }
    assert_eq!(View::from_shortcut(KeyCode::Char('9')), None);
    assert_eq!(View::from_shortcut(KeyCode::Enter), None);
}
