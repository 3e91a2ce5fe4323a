//! The symbols of the interface, in two themes: Unicode and plain ASCII.
//!
//! No state is told by its symbol alone: every use stands next to a word.

use vstd::prelude::*;
use vstd::string::StrSliceExecFns;

use crate::text::{eq_text, starts_with};

verus! {

/// The set of symbols in use.
#[derive(Debug, Clone, Copy, PartialEq, Eq, Structural)]
pub enum GlyphTheme {
    /// Unicode symbols of one column, found in the usual fonts.
    Unicode,
    /// Plain ASCII, legible on every terminal.
    Ascii,
}

/// The small letter of an ASCII capital; any other character unchanged.
pub open spec fn ascii_lower(c: char) -> char {
    if 'A' <= c <= 'Z' {
        (c as u32 + 32) as char
    } else {
        c
    }
}

/// Whether two texts differ at most in the case of ASCII letters.
pub open spec fn same_ignoring_case(a: Seq<char>, b: Seq<char>) -> bool {
    a.len() == b.len() && forall|i: int|
        0 <= i < a.len() ==> ascii_lower(#[trigger] a[i]) == ascii_lower(b[i])
}

/// The theme for the values of `TUNEFOLD_GLYPHS` and `TERM`.
pub open spec fn theme_for(glyphs: Option<Seq<char>>, term: Option<Seq<char>>) -> GlyphTheme {
    if glyphs is Some && same_ignoring_case(glyphs->0, "ascii"@) {
        GlyphTheme::Ascii
    } else if term is Some && (term->0.len() == 0 || term->0 == "dumb"@ || "linux"@.is_prefix_of(
        term->0,
    )) {
        GlyphTheme::Ascii
    } else {
        GlyphTheme::Unicode
    }
}

fn lower(c: char) -> (r: char)
    ensures
        r == ascii_lower(c),
{
    if c >= 'A' && c <= 'Z' {
        ((c as u8) + 32u8) as char
    } else {
        c
    }
}

fn eq_ignoring_case(a: &str, b: &str) -> (r: bool)
    ensures
        r == same_ignoring_case(a@, b@),
{
    let n: usize = a.unicode_len();
    if n != b.unicode_len() {
        return false;
    }
    let mut i: usize = 0;
    while i < n
        invariant
            0 <= i <= n,
            n == a@.len(),
            n == b@.len(),
            forall|j: int| 0 <= j < i ==> ascii_lower(#[trigger] a@[j]) == ascii_lower(b@[j]),
        decreases n - i,
    {
        if lower(a.get_char(i)) != lower(b.get_char(i)) {
            return false;
        }
        i = i + 1;
    }
    true
}

impl GlyphTheme {
    /// The theme of the session. `glyphs` and `term` are the values of the
    /// variables `TUNEFOLD_GLYPHS` and `TERM`, where they are set and readable:
    /// the first can force ASCII; dumb terminals and the Linux console, whose
    /// fonts lack many symbols, get ASCII too.
    pub fn detect(glyphs: Option<&str>, term: Option<&str>) -> (r: GlyphTheme)
        ensures
            r == theme_for(
                match glyphs {
                    Some(g) => Some(g@),
                    None => None,
                },
                match term {
                    Some(t) => Some(t@),
                    None => None,
                },
            ),
    {
        if let Some(g) = glyphs {
            if eq_ignoring_case(g, "ascii") {
                return GlyphTheme::Ascii;
            }
        }
        match term {
            Some(t) => if t.unicode_len() == 0 || eq_text(t, "dumb")
                || starts_with(t, "linux") {
                GlyphTheme::Ascii
            } else {
                GlyphTheme::Unicode
            },
            None => GlyphTheme::Unicode,
        }
    }
}

/// The symbols of one theme.
#[derive(Debug, Clone, Copy, PartialEq, Eq, Structural)]
pub struct UiGlyphs {
    pub theme: GlyphTheme,
}

/// Phases of the activity spinner.
pub const SPINNER_BRAILLE: [char; 8] = ['⠋', '⠙', '⠹', '⠸', '⠼', '⠴', '⠦', '⠧'];

/// Phases of the activity spinner in ASCII.
pub const SPINNER_ASCII: [char; 4] = ['-', '\\', '|', '/'];

/// The phase of the spinner at a frame.
pub open spec fn spinner_glyph(theme: GlyphTheme, frame: u64) -> char {
    match theme {
        GlyphTheme::Unicode => seq!['⠋', '⠙', '⠹', '⠸', '⠼', '⠴', '⠦', '⠧'][(frame % 8) as int],
        GlyphTheme::Ascii => seq!['-', '\\', '|', '/'][(frame % 4) as int],
    }
}

/// The phase of the playback equalizer at a frame.
pub open spec fn activity_glyph(theme: GlyphTheme, frame: u64) -> Seq<char> {
    match theme {
        GlyphTheme::Unicode => if frame % 4 == 0 {
            "▁▄▁"@
        } else if frame % 4 == 2 {
            "▃▆▅"@
        } else {
            "▂▅▃"@
        },
        GlyphTheme::Ascii => if frame % 4 == 0 {
            "*.."@
        } else if frame % 4 == 2 {
            "..*"@
        } else {
            ".*."@
        },
    }
}

/// The symbol of a theme.
pub open spec fn glyph(theme: GlyphTheme, unicode: Seq<char>, ascii: Seq<char>) -> Seq<char> {
    match theme {
        GlyphTheme::Unicode => unicode,
        GlyphTheme::Ascii => ascii,
    }
}

impl UiGlyphs {
    pub fn new(theme: GlyphTheme) -> (r: UiGlyphs)
        ensures
            r.theme == theme,
    {
        UiGlyphs { theme }
    }

    pub fn theme(self) -> (r: GlyphTheme)
        ensures
            r == self.theme,
    {
        self.theme
    }

    pub fn pick(self, unicode: &'static str, ascii: &'static str) -> (r: &'static str)
        ensures
            r == (if self.theme == GlyphTheme::Unicode { unicode } else { ascii }),
            r@ == glyph(self.theme, unicode@, ascii@),
    {
        match self.theme {
            GlyphTheme::Unicode => unicode,
            GlyphTheme::Ascii => ascii,
        }
    }

    /// Heart of a liked song.
    pub fn heart_liked(self) -> (r: &'static str)
        ensures
            r@ == glyph(self.theme, "♥"@, "*"@),
    {
        self.pick("♥", "*")
    }

    /// Heart of a song that is not liked.
    pub fn heart_empty(self) -> (r: &'static str)
        ensures
            r@ == glyph(self.theme, "♡"@, "o"@),
    {
        self.pick("♡", "o")
    }

    pub fn play(self) -> (r: &'static str)
        ensures
            r@ == glyph(self.theme, "▶"@, ">"@),
    {
        self.pick("▶", ">")
    }

    pub fn pause(self) -> (r: &'static str)
        ensures
            r@ == glyph(self.theme, "‖"@, "||"@),
    {
        self.pick("‖", "||")
    }

    pub fn stop(self) -> (r: &'static str)
        ensures
            r@ == glyph(self.theme, "■"@, "[]"@),
    {
        self.pick("■", "[]")
    }

    /// Phase of the activity spinner: eight of them, or four in ASCII.
    pub fn spinner(self, frame: u64) -> (r: char)
        ensures
            r == spinner_glyph(self.theme, frame),
    {
        match self.theme {
            GlyphTheme::Unicode => {
                let phases = SPINNER_BRAILLE;
                phases[(frame % 8) as usize]
            },
            GlyphTheme::Ascii => {
                let phases = SPINNER_ASCII;
                phases[(frame % 4) as usize]
            },
        }
    }

    /// Stands before the word that says that a jump is under way.
    pub fn seeking(self) -> (r: &'static str)
        ensures
            r@ == glyph(self.theme, "»"@, ">>"@),
    {
        self.pick("»", ">>")
    }

    /// Animated equalizer of three columns.
    pub fn activity(self, frame: u64) -> (r: &'static str)
        ensures
            r@ == activity_glyph(self.theme, frame),
    {
        let f: u64 = frame % 4;
        if f == 0 {
            self.pick("▁▄▁", "*..")
        } else if f == 2 {
            self.pick("▃▆▅", "..*")
        } else {
            self.pick("▂▅▃", ".*.")
        }
    }

    /// Row marker: the song that plays.
    pub fn current(self) -> (r: &'static str)
        ensures
            r@ == glyph(self.theme, "▶ "@, "> "@),
    {
        self.pick("▶ ", "> ")
    }

    /// Row marker: just added to the queue.
    pub fn newly_added(self) -> (r: &'static str)
        ensures
            r@ == glyph(self.theme, "✚ "@, "+ "@),
    {
        self.pick("✚ ", "+ ")
    }

    /// Row marker: added by autoplay.
    pub fn auto(self) -> (r: &'static str)
        ensures
            r@ == glyph(self.theme, "↻ "@, "~ "@),
    {
        self.pick("↻ ", "~ ")
    }

    /// Row marker: chosen by the user.
    pub fn explicit(self) -> (r: &'static str)
        ensures
            r@ == glyph(self.theme, "· "@, "- "@),
    {
        self.pick("· ", "- ")
    }

    /// Marker of the highlighted row.
    pub fn select(self) -> (r: &'static str)
        ensures
            r@ == "> "@,
    {
        "> "
    }

    /// Badge of a song that was heard recently.
    pub fn recent(self) -> (r: &'static str)
        ensures
            r@ == glyph(self.theme, "●"@, "*"@),
    {
        self.pick("●", "*")
    }

    /// Badge of the number of times a song was heard.
    pub fn listens(self) -> (r: &'static str)
        ensures
            r@ == glyph(self.theme, "↻"@, "~"@),
    {
        self.pick("↻", "~")
    }

    /// Badge of a song related to the search.
    pub fn recommended(self) -> (r: &'static str)
        ensures
            r@ == glyph(self.theme, "↳ "@, "-> "@),
    {
        self.pick("↳ ", "-> ")
    }

    /// Playlist of the system.
    pub fn playlist_system(self) -> (r: &'static str)
        ensures
            r@ == glyph(self.theme, "♥ "@, "* "@),
    {
        self.pick("♥ ", "* ")
    }

    /// Playlist of the user.
    pub fn playlist_user(self) -> (r: &'static str)
        ensures
            r@ == glyph(self.theme, "♪ "@, "~ "@),
    {
        self.pick("♪ ", "~ ")
    }

    /// Active source.
    pub fn active_source(self) -> (r: &'static str)
        ensures
            r@ == glyph(self.theme, "● "@, "* "@),
    {
        self.pick("● ", "* ")
    }

    /// Prompt of a text field.
    pub fn prompt(self) -> (r: &'static str)
        ensures
            r@ == glyph(self.theme, "▸ "@, "> "@),
    {
        self.pick("▸ ", "> ")
    }

    /// Text cursor.
    pub fn edit_cursor(self) -> (r: &'static str)
        ensures
            r@ == glyph(self.theme, "▌"@, "|"@),
    {
        self.pick("▌", "|")
    }

    /// Mark of a notice at the foot of the screen.
    pub fn notice(self) -> (r: &'static str)
        ensures
            r@ == "!"@,
    {
        "!"
    }

    /// Start of the status line.
    pub fn status(self) -> (r: &'static str)
        ensures
            r@ == glyph(self.theme, "›"@, ">"@),
    {
        self.pick("›", ">")
    }

    /// Point of the left channel.
    pub fn trace_left(self) -> (r: &'static str)
        ensures
            r@ == glyph(self.theme, "•"@, "*"@),
    {
        self.pick("•", "*")
    }

    /// Point of the right channel.
    pub fn trace_right(self) -> (r: &'static str)
        ensures
            r@ == glyph(self.theme, "•"@, "*"@),
    {
        self.pick("•", "*")
    }

    /// Point where both channels share a cell.
    pub fn trace_both(self) -> (r: &'static str)
        ensures
            r@ == glyph(self.theme, "•"@, "*"@),
    {
        self.pick("•", "*")
    }
}

/// Without a word to the contrary the theme is Unicode.
pub proof fn law_unicode_by_default(term: Option<Seq<char>>)
    requires
        term is Some ==> term->0.len() > 0 && term->0 != "dumb"@ && !("linux"@.is_prefix_of(
            term->0,
        )),
    ensures
        theme_for(None, term) == GlyphTheme::Unicode,
{
}

/// The equalizer is three columns wide at every frame, in both themes, and the
/// animations repeat: it after four frames, the spinner after eight.
pub proof fn law_animations_are_periodic(theme: GlyphTheme, frame: u64)
    ensures
        activity_glyph(theme, frame).len() == 3,
        frame <= u64::MAX - 4 ==> activity_glyph(theme, (frame + 4) as u64) == activity_glyph(
            theme,
            frame,
        ),
        frame <= u64::MAX - 8 ==> spinner_glyph(theme, (frame + 8) as u64) == spinner_glyph(
            theme,
            frame,
        ),
{
    reveal_strlit("▁▄▁");
    reveal_strlit("▃▆▅");
    reveal_strlit("▂▅▃");
    reveal_strlit("*..");
    reveal_strlit("..*");
    reveal_strlit(".*.");
}

/// Plain characters are used exactly if the user asks for them, in whatever case,
/// or the terminal is known to show no others.
pub proof fn law_theme_is_detected(
    wish: Option<&str>,
    term: Option<&str>,
    theme: GlyphTheme,
    upper: Seq<char>,
)
    requires
        call_ensures(GlyphTheme::detect, (wish, term), theme),
        upper == seq!['A', 'S', 'C', 'I', 'I'],
    ensures
        wish is Some && (wish->0@ == upper || wish->0@ == "ascii"@) ==> theme is Ascii,
        wish is Some && wish->0@.len() != 5 && term is None ==> theme is Unicode,
        term is Some && (term->0@.len() == 0 || term->0@ == "dumb"@) ==> theme is Ascii,
        term is Some && term->0@.len() >= 5 && term->0@.take(5) == "linux"@ ==> theme is Ascii,
        wish is None && term is None ==> theme is Unicode,
{
    reveal_strlit("ascii");
    reveal_strlit("linux");
    if term is Some && term->0@.len() >= 5 && term->0@.take(5) == "linux"@ {
        assert(term->0@.subrange(0, 5) =~= term->0@.take(5));
    }
}

/// The spinner turns with every frame.
pub proof fn law_spinner_turns(theme: GlyphTheme, frame: u64)
    requires
        frame < u64::MAX,
    ensures
        spinner_glyph(theme, frame) != spinner_glyph(theme, (frame + 1) as u64),
{
    let (a, b) = (seq!['⠋', '⠙', '⠹', '⠸', '⠼', '⠴', '⠦', '⠧'], seq!['-', '\\', '|', '/']);
    let (i, j) = ((frame % 8) as int, ((frame + 1) as u64 % 8) as int);
    let (k, l) = ((frame % 4) as int, ((frame + 1) as u64 % 4) as int);
    assert(i != j && k != l);
    assert(a[0] != a[1] && a[1] != a[2] && a[2] != a[3] && a[3] != a[4] && a[4] != a[5] && a[5]
        != a[6] && a[6] != a[7] && a[7] != a[0]);
    assert(b[0] != b[1] && b[1] != b[2] && b[2] != b[3] && b[3] != b[0]);
}

} // verus!
