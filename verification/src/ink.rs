//! Pieces of styled text.

use vstd::prelude::*;

verus! {

/// The colour of a piece of text.
#[derive(Debug, Clone, Copy, PartialEq, Eq, Structural)]
pub enum Ink {
    /// The colour of the row that the piece stands in.
    Plain,
    Cyan,
    DarkGray,
    Gray,
    Green,
    /// The colour of the heart, which follows the cover.
    Heart,
    LightRed,
    Magenta,
    Red,
    White,
    Yellow,
}

/// A piece of text of one style.
#[derive(Debug)]
pub struct Span {
    pub text: String,
    pub ink: Ink,
    pub bold: bool,
}

/// What a row of pieces shows.
pub open spec fn shown(row: Seq<Span>) -> Seq<(Seq<char>, Ink, bool)> {
    row.map_values(|s: Span| (s.text@, s.ink, s.bold))
}

/// What a table of rows shows.
pub open spec fn rows_shown(rows: Seq<Vec<Span>>) -> Seq<Seq<(Seq<char>, Ink, bool)>> {
    rows.map_values(|r: Vec<Span>| shown(r@))
}

impl Span {
    pub fn new(text: String, ink: Ink) -> (r: Span)
        ensures
            r.text == text,
            r.ink == ink,
            !r.bold,
    {
        Span { text, ink, bold: false }
    }

    pub fn plain(text: &str) -> (r: Span)
        ensures
            r.text@ == text@,
            r.ink == Ink::Plain,
            !r.bold,
    {
        Span { text: text.to_string(), ink: Ink::Plain, bold: false }
    }

    pub fn inked(text: &str, ink: Ink) -> (r: Span)
        ensures
            r.text@ == text@,
            r.ink == ink,
            !r.bold,
    {
        Span { text: text.to_string(), ink, bold: false }
    }

    pub fn bold(text: String, ink: Ink) -> (r: Span)
        ensures
            r.text == text,
            r.ink == ink,
            r.bold,
    {
        Span { text, ink, bold: true }
    }
}

} // verus!
