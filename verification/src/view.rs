//! The screens of the interface and the shortcuts that lead to them
//! (Shift+1 to Shift+8).

use vstd::prelude::*;
use vstd::view::View as _;

use crate::keys::{KeyCode, KeyModifiers};

verus! {

/// A screen.
#[derive(Debug, Clone, Copy, PartialEq, Eq, Structural)]
pub enum View {
    NowPlaying,
    Related,
    Search,
    Sources,
    Metadata,
    History,
    Settings,
    Playlists,
}

/// The screens in the order of their shortcuts.
pub open spec fn all_views() -> Seq<View> {
    seq![
        View::NowPlaying,
        View::Related,
        View::Search,
        View::Sources,
        View::Metadata,
        View::History,
        View::Settings,
        View::Playlists,
    ]
}

/// The number of a screen's shortcut, from 1 to 8.
pub open spec fn view_number(v: View) -> nat {
    match v {
        View::NowPlaying => 1,
        View::Related => 2,
        View::Search => 3,
        View::Sources => 4,
        View::Metadata => 5,
        View::History => 6,
        View::Settings => 7,
        View::Playlists => 8,
    }
}

/// The screen whose shortcut is the digit `c`.
pub open spec fn view_of_digit(c: char) -> Option<View> {
    if '1' <= c <= '8' {
        Some(all_views()[c as int - '1' as int])
    } else {
        None
    }
}

/// The digit that a symbol typed with Shift stands for, on the US, Latin
/// American and Spanish layouts. `&` is read as Shift+6.
pub open spec fn digit_of_symbol(c: char) -> Option<u32> {
    if c == '!' {
        Some(1)
    } else if c == '@' || c == '"' {
        Some(2)
    } else if c == '#' || c == '·' {
        Some(3)
    } else if c == '$' {
        Some(4)
    } else if c == '%' {
        Some(5)
    } else if c == '^' || c == '&' {
        Some(6)
    } else if c == '/' {
        Some(7)
    } else if c == '*' || c == '(' {
        Some(8)
    } else {
        None
    }
}

/// The screen that a key leads to from anywhere: a digit with the Shift
/// modifier, or the symbol that Shift+digit types.
pub open spec fn view_of_key(code: KeyCode, modifiers: KeyModifiers) -> Option<View> {
    match code {
        KeyCode::Char(c) => if '0' <= c <= '9' && modifiers.shift {
            view_of_digit(c)
        } else {
            match digit_of_symbol(c) {
                Some(d) => Some(all_views()[d - 1]),
                None => None,
            }
        },
        _ => None,
    }
}

pub open spec fn label_text(v: View) -> Seq<char> {
    match v {
        View::NowPlaying => "Now Playing"@,
        View::Related => "Related"@,
        View::Search => "Search"@,
        View::Sources => "Sources"@,
        View::Metadata => "Metadata"@,
        View::History => "History"@,
        View::Settings => "Settings"@,
        View::Playlists => "Playlists"@,
    }
}

impl View {
    pub const ALL: [View; 8] = [
        View::NowPlaying,
        View::Related,
        View::Search,
        View::Sources,
        View::Metadata,
        View::History,
        View::Settings,
        View::Playlists,
    ];

    /// The screen of a digit key, whatever its modifiers.
    pub fn from_shortcut(key: KeyCode) -> (r: Option<View>)
        ensures
            r == (match key {
                KeyCode::Char(c) => view_of_digit(c),
                _ => None,
            }),
    {
        match key {
            KeyCode::Char('1') => Some(View::NowPlaying),
            KeyCode::Char('2') => Some(View::Related),
            KeyCode::Char('3') => Some(View::Search),
            KeyCode::Char('4') => Some(View::Sources),
            KeyCode::Char('5') => Some(View::Metadata),
            KeyCode::Char('6') => Some(View::History),
            KeyCode::Char('7') => Some(View::Settings),
            KeyCode::Char('8') => Some(View::Playlists),
            _ => None,
        }
    }

    /// The screen of Shift+digit. Terminals report it either as the digit with
    /// the Shift modifier or as the symbol of the keyboard layout; both are
    /// accepted. A bare digit leads nowhere.
    pub fn from_shift_key(code: KeyCode, modifiers: KeyModifiers) -> (r: Option<View>)
        ensures
            r == view_of_key(code, modifiers),
    {
        let KeyCode::Char(c) = code else {
            return None;
        };
        if c >= '0' && c <= '9' && modifiers.shift {
            return View::from_shortcut(KeyCode::Char(c));
        }
        match symbol_to_digit(c) {
            Some(d) => View::from_shortcut(KeyCode::Char((48u8 + d as u8) as char)),
            None => None,
        }
    }

    /// Name of the screen.
    pub fn label(self) -> (r: &'static str)
        ensures
            r@ == label_text(self),
    {
        match self {
            View::NowPlaying => "Now Playing",
            View::Related => "Related",
            View::Search => "Search",
            View::Sources => "Sources",
            View::Metadata => "Metadata",
            View::History => "History",
            View::Settings => "Settings",
            View::Playlists => "Playlists",
        }
    }

    /// Digit of the shortcut, from 1 to 8.
    pub fn shortcut_digit(self) -> (r: &'static str)
        ensures
            r@ == seq![('0' as int + view_number(self)) as char],
    {
        proof {
            reveal_strlit("1");
            reveal_strlit("2");
            reveal_strlit("3");
            reveal_strlit("4");
            reveal_strlit("5");
            reveal_strlit("6");
            reveal_strlit("7");
            reveal_strlit("8");
        }
        let r: &'static str = match self {
            View::NowPlaying => "1",
            View::Related => "2",
            View::Search => "3",
            View::Sources => "4",
            View::Metadata => "5",
            View::History => "6",
            View::Settings => "7",
            View::Playlists => "8",
        };
        assert(r@ =~= seq![('0' as int + view_number(self)) as char]);
        r
    }
}

/// The digit of the symbol that Shift+digit types.
pub fn symbol_to_digit(c: char) -> (r: Option<u32>)
    ensures
        r == digit_of_symbol(c),
{
    match c {
        '!' => Some(1),
        '@' | '"' => Some(2),
        '#' | '·' => Some(3),
        '$' => Some(4),
        '%' => Some(5),
        '^' | '&' => Some(6),
        '/' => Some(7),
        '*' | '(' => Some(8),
        _ => None,
    }
}

/// Every screen is reached by Shift and its own digit, on any layout.
pub proof fn law_every_view_has_its_shortcut(v: View, control: bool)
    ensures
        1 <= view_number(v) <= 8,
        all_views()[view_number(v) - 1] == v,
        view_of_digit(('0' as int + view_number(v)) as char) == Some(v),
        view_of_key(
            KeyCode::Char(('0' as int + view_number(v)) as char),
            (KeyModifiers { shift: true, control }),
        ) == Some(v),
{
}

/// A digit without Shift never changes the screen.
pub proof fn law_bare_digits_never_navigate(c: char, modifiers: KeyModifiers)
    requires
        '0' <= c <= '9',
        !modifiers.shift,
    ensures
        view_of_key(KeyCode::Char(c), modifiers) is None,
{
}

/// Letters never change the screen, with or without Shift.
pub proof fn law_letters_never_navigate(c: char, modifiers: KeyModifiers)
    requires
        'a' <= c <= 'z' || 'A' <= c <= 'Z',
    ensures
        view_of_key(KeyCode::Char(c), modifiers) is None,
{
}

/// The digit that is shown for a screen is the one that leads there.
pub proof fn law_shown_digits_lead_there(v: View, digit: &'static str, there: Option<View>)
    requires
        call_ensures(View::shortcut_digit, (v,), digit),
        call_ensures(
            View::from_shift_key,
            (
                KeyCode::Char(digit@[0]),
                (KeyModifiers { shift: true, control: false }),
            ),
            there,
        ),
    ensures
        digit@.len() == 1,
        there == Some(v),
{
    law_every_view_has_its_shortcut(v, false);
}

/// No two screens have one name.
pub proof fn law_screens_are_told_apart(v: View, w: View)
    requires
        label_text(v) == label_text(w),
    ensures
        v == w,
{
    reveal_strlit("Now Playing");
    reveal_strlit("Related");
    reveal_strlit("Search");
    reveal_strlit("Sources");
    reveal_strlit("Metadata");
    reveal_strlit("History");
    reveal_strlit("Settings");
    reveal_strlit("Playlists");
    let (a, b) = (label_text(v), label_text(w));
    assert(a[0] == b[0] && a[1] == b[1] && a.len() == b.len());
}

} // verus!
