//! The rows of the lists and tables.

use vstd::prelude::*;
use vstd::string::*;

use crate::domain::{
    find_stats, HistoryEntry, PlaylistRow, Source, Track, TrackListeningStats, SECOND,
};
#[allow(unused_imports)]
use crate::domain::{first_artist, ident, kind_text, source_text, stats_index};
#[allow(unused_imports)]
use crate::glyphs::glyph;
use crate::glyphs::UiGlyphs;
#[allow(unused_imports)]
use crate::ink::{rows_shown, shown};
use crate::ink::{Ink, Span};
use crate::liked::Liked;
use crate::navigation::ListState;
use crate::playback::QueueItemOrigin;
use crate::related::RelatedState;
use crate::text::{concat2, concat3, decimal, eq_text, join, padded, signed};
#[allow(unused_imports)]
use crate::text::{
    decimal_text, joined, law_texts_mention_their_parts, mentions, opt_text, padded_text,
    signed_text, texts,
};

verus! {

/// A number of seconds as `m:ss`, or `h:mm:ss` from an hour on.
pub open spec fn clock_text(secs: int) -> Seq<char> {
    let (h, m, s) = (secs / 3600, (secs % 3600) / 60, secs % 60);
    if h > 0 {
        decimal_text(h as nat) + ":"@ + padded_text(m as nat) + ":"@ + padded_text(s as nat)
    } else {
        decimal_text(m as nat) + ":"@ + padded_text(s as nat)
    }
}

/// A duration in the same form.
pub open spec fn duration_text(ns: int) -> Seq<char> {
    clock_text(ns / SECOND as int)
}

/// Formats a duration.
pub fn format_duration(ns: u64) -> (r: String)
    ensures
        r@ == duration_text(ns as int),
{
    format_seconds(ns / SECOND)
}

fn format_seconds(secs: u64) -> (r: String)
    ensures
        r@ == clock_text(secs as int),
{
    let h: u64 = secs / 3600;
    let m: u64 = (secs % 3600) / 60;
    let s: u64 = secs % 60;
    let seconds = padded(s);
    if h > 0 {
        let minutes = padded(m);
        let hours = decimal(h);
        let mut text = concat3(hours.as_str(), ":", minutes.as_str());
        text.append(":");
        text.append(seconds.as_str());
        text
    } else {
        let minutes = decimal(m);
        concat3(minutes.as_str(), ":", seconds.as_str())
    }
}

/// What is said of the duration of a song.
pub open spec fn length_text(duration: Option<u64>) -> Seq<char> {
    match duration {
        Some(d) => duration_text(d as int),
        None => "duración pendiente"@,
    }
}

fn length_label(duration: Option<u64>) -> (r: String)
    ensures
        r@ == length_text(duration),
{
    match duration {
        Some(d) => format_duration(d),
        None => "duración pendiente".to_string(),
    }
}

/// The artist and the title of a song.
pub open spec fn song_text(t: Track) -> Seq<char> {
    (match first_artist(t) {
        Some(a) => a,
        None => "Desconocido"@,
    }) + " - "@ + t.title@
}

fn song_label(t: &Track) -> (r: String)
    ensures
        r@ == song_text(*t),
{
    match t.primary_artist_name() {
        Some(a) => concat3(a, " - ", t.title.as_str()),
        None => concat3("Desconocido", " - ", t.title.as_str()),
    }
}

pub open spec fn source_tag(s: Source) -> Seq<char> {
    "["@ + source_text(s) + "] "@
}

/// The heart of a liked song.
pub open spec fn heart_piece(liked: bool, glyphs: UiGlyphs) -> (Seq<char>, Ink, bool) {
    if liked {
        ("   "@ + glyph(glyphs.theme, "♥"@, "*"@), Ink::LightRed, true)
    } else {
        (""@, Ink::Plain, false)
    }
}

fn heart_span(liked: bool, glyphs: UiGlyphs) -> (r: Span)
    ensures
        (r.text@, r.ink, r.bold) == heart_piece(liked, glyphs),
{
    if liked {
        Span::bold(concat2("   ", glyphs.heart_liked()), Ink::LightRed)
    } else {
        Span::plain("")
    }
}

/// How often a song was played.
pub open spec fn plays_text(s: TrackListeningStats, glyphs: UiGlyphs) -> Seq<char> {
    if s.recently_played {
        "  "@ + glyph(glyphs.theme, "●"@, "*"@) + " reciente · "@ + signed_text(s.play_count as int)
            + "×"@
    } else {
        "  "@ + glyph(glyphs.theme, "↻"@, "~"@) + " "@ + signed_text(s.play_count as int) + "×"@
    }
}

pub open spec fn plays_piece(
    stats: Seq<TrackListeningStats>,
    key: Seq<char>,
    glyphs: UiGlyphs,
) -> (Seq<char>, Ink, bool) {
    match stats_index(stats, key) {
        Some(i) => (plays_text(stats[i], glyphs), Ink::Green, false),
        None => (""@, Ink::Plain, false),
    }
}

fn plays_span(stats: &Vec<TrackListeningStats>, t: &Track, glyphs: UiGlyphs) -> (r: Span)
    ensures
        (r.text@, r.ink, r.bold) == plays_piece(stats@, ident(*t), glyphs),
{
    let key = t.identifier();
    match find_stats(stats, &key) {
        Some(s) => {
            let count = signed(s.play_count);
            let mut text: String = "  ".to_string();
            if s.recently_played {
                text.append(glyphs.recent());
                text.append(" reciente · ");
            } else {
                text.append(glyphs.listens());
                text.append(" ");
            }
            text.append(count.as_str());
            text.append("×");
            Span::new(text, Ink::Green)
        },
        None => Span::plain(""),
    }
}

/// A hit of a search is followed by related songs, which are marked.
pub open spec fn is_recommended(i: int, related_from: int) -> bool {
    related_from > 0 && i >= related_from
}

/// The row of the `i`-th song that a search found.
pub open spec fn search_row_shown(
    t: Track,
    i: int,
    related_from: int,
    stats: Seq<TrackListeningStats>,
    liked: bool,
    glyphs: UiGlyphs,
) -> Seq<(Seq<char>, Ink, bool)> {
    let rec = is_recommended(i, related_from);
    seq![
        (
            source_tag(t.source),
            if rec {
                Ink::Yellow
            } else {
                Ink::Cyan
            },
            false,
        ),
        if rec {
            (glyph(glyphs.theme, "↳ "@, "-> "@), Ink::Yellow, false)
        } else {
            (""@, Ink::Plain, false)
        },
        (song_text(t), Ink::Plain, false),
        heart_piece(liked, glyphs),
        ("  ("@ + length_text(t.duration) + ")"@, Ink::DarkGray, false),
        plays_piece(stats, ident(t), glyphs),
    ]
}

/// The row of a song that a search found.
pub fn search_row(
    t: &Track,
    i: usize,
    related_from: usize,
    stats: &Vec<TrackListeningStats>,
    liked: &Liked,
    glyphs: UiGlyphs,
) -> (r: Vec<Span>)
    ensures
        shown(r@) == search_row_shown(
            *t,
            i as int,
            related_from as int,
            stats@,
            liked.has(*t),
            glyphs,
        ),
{
    let rec: bool = i >= related_from && related_from > 0;
    let length = length_label(t.duration);
    let mut row: Vec<Span> = Vec::new();
    row.push(
        Span::new(
            concat3("[", t.source.label(), "] "),
            if rec {
                Ink::Yellow
            } else {
                Ink::Cyan
            },
        ),
    );
    row.push(
        if rec {
            Span::inked(glyphs.recommended(), Ink::Yellow)
        } else {
            Span::plain("")
        },
    );
    row.push(Span::new(song_label(t), Ink::Plain));
    row.push(heart_span(liked.contains(t), glyphs));
    row.push(Span::new(concat3("  (", length.as_str(), ")"), Ink::DarkGray));
    row.push(plays_span(stats, t, glyphs));
    assert(shown(row@) =~= search_row_shown(
        *t,
        i as int,
        related_from as int,
        stats@,
        liked.has(*t),
        glyphs,
    ));
    row
}

/// The title of the results of a search.
pub fn search_title(related_from: usize) -> (r: &'static str)
    ensures
        r@ == if related_from > 0 {
            " Resultados + Recomendadas "@
        } else {
            " Resultados "@
        },
{
    if related_from > 0 {
        " Resultados + Recomendadas "
    } else {
        " Resultados "
    }
}

/// The title of the field for a query.
pub fn query_title(searched: bool) -> (r: &'static str)
    ensures
        r@ == if searched {
            " Consulta  (Enter selecciona el resultado)"@
        } else {
            " Consulta "@
        },
{
    if searched {
        " Consulta  (Enter selecciona el resultado)"
    } else {
        " Consulta "
    }
}

/// The mark of a song of the queue: the one that plays, one just added, one that
/// autoplay added, or one that was asked for.
pub open spec fn marker_piece(
    current: bool,
    fresh: bool,
    auto: bool,
    glyphs: UiGlyphs,
) -> (Seq<char>, Ink, bool) {
    if current {
        (glyph(glyphs.theme, "▶ "@, "> "@), Ink::Green, true)
    } else if fresh {
        (glyph(glyphs.theme, "✚ "@, "+ "@), Ink::Green, false)
    } else if auto {
        (glyph(glyphs.theme, "↻ "@, "~ "@), Ink::DarkGray, false)
    } else {
        (glyph(glyphs.theme, "· "@, "- "@), Ink::DarkGray, false)
    }
}

/// Who added the `i`-th song of the queue; autoplay, where nothing is known.
pub open spec fn origin_of(origins: Seq<QueueItemOrigin>, i: int) -> QueueItemOrigin {
    if i < origins.len() {
        origins[i]
    } else {
        QueueItemOrigin::Recommendation
    }
}

/// The row of the `i`-th song of the queue.
pub open spec fn queue_row_shown(
    state: RelatedState,
    i: int,
    current: Option<Seq<char>>,
    stats: Seq<TrackListeningStats>,
    liked: bool,
    glyphs: UiGlyphs,
) -> Seq<(Seq<char>, Ink, bool)> {
    let t = state.tracks@[i];
    seq![
        marker_piece(
            current == Some(ident(t)),
            state.new_ids@.contains(ident(t)),
            origin_of(state.origins@, i) == QueueItemOrigin::Recommendation,
            glyphs,
        ),
        (source_tag(t.source), Ink::Cyan, false),
        (song_text(t), Ink::Plain, false),
        heart_piece(liked, glyphs),
        ("  ("@ + length_text(t.duration) + ")"@, Ink::DarkGray, false),
        plays_piece(stats, ident(t), glyphs),
    ]
}

/// The row of a song of the queue.
pub fn queue_row(
    state: &RelatedState,
    i: usize,
    current: &Option<String>,
    stats: &Vec<TrackListeningStats>,
    liked: &Liked,
    glyphs: UiGlyphs,
) -> (r: Vec<Span>)
    requires
        i < state.tracks@.len(),
    ensures
        shown(r@) == queue_row_shown(
            *state,
            i as int,
            opt_text(*current),
            stats@,
            liked.has(state.tracks@[i as int]),
            glyphs,
        ),
{
    let t = &state.tracks[i];
    let key = t.identifier();
    let is_current: bool = match current {
        Some(c) => eq_text(c.as_str(), key.as_str()),
        None => false,
    };
    let origin = if i < state.origins.len() {
        state.origins[i]
    } else {
        QueueItemOrigin::Recommendation
    };
    let length = length_label(t.duration);
    let mut row: Vec<Span> = Vec::new();
    row.push(
        if is_current {
            Span::bold(glyphs.current().to_string(), Ink::Green)
        } else if state.new_ids.contains(&key) {
            Span::inked(glyphs.newly_added(), Ink::Green)
        } else if origin.is_auto() {
            Span::inked(glyphs.auto(), Ink::DarkGray)
        } else {
            Span::inked(glyphs.explicit(), Ink::DarkGray)
        },
    );
    row.push(Span::new(concat3("[", t.source.label(), "] "), Ink::Cyan));
    row.push(Span::new(song_label(t), Ink::Plain));
    row.push(heart_span(liked.contains(t), glyphs));
    row.push(Span::new(concat3("  (", length.as_str(), ")"), Ink::DarkGray));
    row.push(plays_span(stats, t, glyphs));
    assert(shown(row@) =~= queue_row_shown(
        *state,
        i as int,
        opt_text(*current),
        stats@,
        liked.has(state.tracks@[i as int]),
        glyphs,
    ));
    row
}

/// The colour of a row: gray under the mouse.
pub fn row_ink(i: usize, hovered: Option<usize>) -> (r: Ink)
    ensures
        r == if hovered == Some(i) {
            Ink::Gray
        } else {
            Ink::Plain
        },
{
    match hovered {
        Some(h) => if h == i {
            Ink::Gray
        } else {
            Ink::Plain
        },
        None => Ink::Plain,
    }
}

/// A pending click selects the row under the mouse, if there is one, and is then
/// spent.
pub fn apply_click(list: &mut ListState, click: &mut bool, hovered: Option<usize>)
    ensures
        final(list).selected == if *old(click) && hovered is Some {
            hovered
        } else {
            old(list).selected
        },
        !*final(click),
{
    if *click {
        if let Some(i) = hovered {
            list.selected = Some(i);
        }
        *click = false;
    }
}

/// The duration of an entry of the history, if the stored one makes sense.
pub open spec fn entry_length(ms: Option<i64>) -> Seq<char> {
    match ms {
        Some(m) if m >= 0 => "  ("@ + clock_text(m / 1000) + ")"@,
        _ => "  (duración pendiente)"@,
    }
}

/// The row of an entry of the history.
pub open spec fn history_row_shown(e: HistoryEntry, liked: bool, glyphs: UiGlyphs) -> Seq<
    (Seq<char>, Ink, bool),
> {
    seq![
        (e.played_at@ + "  "@, Ink::DarkGray, false),
        (source_tag(e.source), Ink::Cyan, false),
        (
            (match e.artist_name {
                Some(a) => a@,
                None => "?"@,
            }) + " - "@ + e.title@,
            Ink::Plain,
            false,
        ),
        heart_piece(liked, glyphs),
        (entry_length(e.duration), Ink::DarkGray, false),
        ("  "@ + signed_text(e.play_count as int) + "×"@, Ink::Green, false),
    ]
}

/// The row of an entry of the history.
pub fn history_row(e: &HistoryEntry, liked: &Liked, glyphs: UiGlyphs) -> (r: Vec<Span>)
    ensures
        shown(r@) == history_row_shown(
            *e,
            e.track_id > 0 && liked.ids@.contains(e.track_id),
            glyphs,
        ),
{
    let count = signed(e.play_count);
    let mut row: Vec<Span> = Vec::new();
    row.push(Span::new(concat2(e.played_at.as_str(), "  "), Ink::DarkGray));
    row.push(Span::new(concat3("[", e.source.label(), "] "), Ink::Cyan));
    row.push(
        Span::new(
            match &e.artist_name {
                Some(a) => concat3(a.as_str(), " - ", e.title.as_str()),
                None => concat3("?", " - ", e.title.as_str()),
            },
            Ink::Plain,
        ),
    );
    row.push(heart_span(liked.contains_id(e.track_id), glyphs));
    row.push(
        match e.duration {
            Some(ms) => if ms >= 0 {
                let length = format_seconds(ms as u64 / 1000);
                Span::new(concat3("  (", length.as_str(), ")"), Ink::DarkGray)
            } else {
                Span::inked("  (duración pendiente)", Ink::DarkGray)
            },
            None => Span::inked("  (duración pendiente)", Ink::DarkGray),
        },
    );
    row.push(Span::new(concat3("  ", count.as_str(), "×"), Ink::Green));
    assert(shown(row@) =~= history_row_shown(
        *e,
        e.track_id > 0 && liked.ids@.contains(e.track_id),
        glyphs,
    ));
    row
}

/// The row of a playlist. Those of the system stand out and are marked as
/// protected.
pub open spec fn playlist_row_shown(p: PlaylistRow, glyphs: UiGlyphs) -> Seq<
    (Seq<char>, Ink, bool),
> {
    let system = p.kind is System;
    seq![
        (
            if system {
                glyph(glyphs.theme, "♥ "@, "* "@)
            } else {
                glyph(glyphs.theme, "♪ "@, "~ "@)
            },
            if system {
                Ink::Magenta
            } else {
                Ink::Cyan
            },
            true,
        ),
        (
            p.name@,
            if system {
                Ink::Magenta
            } else {
                Ink::White
            },
            true,
        ),
        ("  ·  "@ + signed_text(p.track_count as int) + " tracks"@, Ink::DarkGray, false),
        (
            "  ·  "@ + kind_text(p.kind),
            if system {
                Ink::Yellow
            } else {
                Ink::DarkGray
            },
            false,
        ),
        if system {
            ("  (protegida)"@, Ink::DarkGray, false)
        } else {
            (""@, Ink::Plain, false)
        },
    ]
}

/// The row of a playlist.
pub fn playlist_row(p: &PlaylistRow, glyphs: UiGlyphs) -> (r: Vec<Span>)
    ensures
        shown(r@) == playlist_row_shown(*p, glyphs),
{
    let system = p.kind.is_system();
    let count = signed(p.track_count);
    let mut row: Vec<Span> = Vec::new();
    row.push(
        if system {
            Span::bold(glyphs.playlist_system().to_string(), Ink::Magenta)
        } else {
            Span::bold(glyphs.playlist_user().to_string(), Ink::Cyan)
        },
    );
    row.push(
        Span::bold(
            p.name.clone(),
            if system {
                Ink::Magenta
            } else {
                Ink::White
            },
        ),
    );
    row.push(Span::new(concat3("  ·  ", count.as_str(), " tracks"), Ink::DarkGray));
    row.push(
        Span::new(
            concat2("  ·  ", p.kind.label()),
            if system {
                Ink::Yellow
            } else {
                Ink::DarkGray
            },
        ),
    );
    row.push(
        if system {
            Span::inked("  (protegida)", Ink::DarkGray)
        } else {
            Span::plain("")
        },
    );
    assert(shown(row@) =~= playlist_row_shown(*p, glyphs));
    row
}

/// What is said under an open playlist.
pub fn detail_hint(tracks: usize) -> (r: &'static str)
    ensures
        r@ == if tracks == 0 {
            "Playlist vacía. Esc para volver · p para reproducirla."@
        } else {
            "Enter reproduce · x quita · u/D mueve · p reproduce toda."@
        },
{
    if tracks == 0 {
        "Playlist vacía. Esc para volver · p para reproducirla."
    } else {
        "Enter reproduce · x quita · u/D mueve · p reproduce toda."
    }
}

/// The field for the name of a new playlist.
pub open spec fn create_row_shown(draft: Seq<char>, glyphs: UiGlyphs) -> Seq<
    (Seq<char>, Ink, bool),
> {
    seq![
        (glyph(glyphs.theme, "▸ "@, "> "@), Ink::Green, false),
        (draft, Ink::Plain, false),
        (glyph(glyphs.theme, "▌"@, "|"@), Ink::Yellow, false),
    ]
}

/// The field for the name of a new playlist.
pub fn create_row(draft: &String, glyphs: UiGlyphs) -> (r: Vec<Span>)
    ensures
        shown(r@) == create_row_shown(draft@, glyphs),
{
    let mut row: Vec<Span> = Vec::new();
    row.push(Span::inked(glyphs.prompt(), Ink::Green));
    row.push(Span::plain(draft.as_str()));
    row.push(Span::inked(glyphs.edit_cursor(), Ink::Yellow));
    assert(shown(row@) =~= create_row_shown(draft@, glyphs));
    row
}

/// A text, or a dash where there is none.
pub open spec fn or_dash(s: Option<String>) -> Seq<char> {
    match s {
        Some(t) => t@,
        None => "-"@,
    }
}

fn dashed(s: &Option<String>) -> (r: String)
    ensures
        r@ == or_dash(*s),
{
    match s {
        Some(t) => t.clone(),
        None => "-".to_string(),
    }
}

/// The title of an album, with its date of release if that is known.
pub open spec fn album_text(t: Track) -> Seq<char> {
    match t.album {
        Some(a) => a.title@ + (match a.release_date {
            Some(d) => " ("@ + d@ + ")"@,
            None => ""@,
        }),
        None => "-"@,
    }
}

fn album_label(t: &Track) -> (r: String)
    ensures
        r@ == album_text(*t),
{
    match &t.album {
        Some(a) => match &a.release_date {
            Some(d) => {
                let date = concat3(" (", d.as_str(), ")");
                concat2(a.title.as_str(), date.as_str())
            },
            None => concat2(a.title.as_str(), ""),
        },
        None => "-".to_string(),
    }
}

/// The fields of a song and their values, in the order of the table.
pub open spec fn metadata_shown(t: Track, liked: bool, glyphs: UiGlyphs) -> Seq<
    (Seq<char>, Seq<char>, Ink, bool),
> {
    let genres = joined(texts(t.genres@), ", "@);
    seq![
        ("Título"@, t.title@, Ink::Plain, false),
        ("Artistas"@, joined(texts(t.artists@), ", "@), Ink::Plain, false),
        ("Álbum"@, album_text(t), Ink::Plain, false),
        (
            "Duración"@,
            match t.duration {
                Some(d) => duration_text(d as int),
                None => "-"@,
            },
            Ink::Plain,
            false,
        ),
        ("Fuente"@, source_text(t.source), Ink::Plain, false),
        if liked {
            ("L1K3D"@, glyph(glyphs.theme, "♥"@, "*"@) + " En L1K3D"@, Ink::LightRed, true)
        } else {
            ("L1K3D"@, "No en L1K3D · l para marcarla"@, Ink::DarkGray, false)
        },
        ("ISRC"@, or_dash(t.isrc), Ink::Plain, false),
        ("ID externo"@, or_dash(t.external_id), Ink::Plain, false),
        ("URL"@, or_dash(t.url), Ink::Plain, false),
        (
            "Géneros"@,
            if genres.len() == 0 {
                "-"@
            } else {
                genres
            },
            Ink::Plain,
            false,
        ),
    ]
}

/// A field and its value.
#[derive(Debug)]
pub struct Field {
    pub name: &'static str,
    pub value: Span,
}

pub open spec fn fields_shown(v: Seq<Field>) -> Seq<(Seq<char>, Seq<char>, Ink, bool)> {
    v.map_values(|f: Field| (f.name@, f.value.text@, f.value.ink, f.value.bold))
}

fn field(name: &'static str, value: String) -> (r: Field)
    ensures
        r.name == name,
        r.value.text == value,
        r.value.ink == Ink::Plain,
        !r.value.bold,
{
    Field { name, value: Span::new(value, Ink::Plain) }
}

/// The table of a song.
pub fn metadata_rows(t: &Track, liked: &Liked, glyphs: UiGlyphs) -> (r: Vec<Field>)
    ensures
        fields_shown(r@) == metadata_shown(*t, liked.has(*t), glyphs),
{
    let genres = join(&t.genres, ", ");
    let mut rows: Vec<Field> = Vec::new();
    rows.push(field("Título", t.title.clone()));
    rows.push(field("Artistas", join(&t.artists, ", ")));
    rows.push(field("Álbum", album_label(t)));
    rows.push(
        field(
            "Duración",
            match t.duration {
                Some(d) => format_duration(d),
                None => "-".to_string(),
            },
        ),
    );
    rows.push(field("Fuente", t.source.label().to_string()));
    rows.push(
        if liked.contains(t) {
            Field {
                name: "L1K3D",
                value: Span::bold(concat2(glyphs.heart_liked(), " En L1K3D"), Ink::LightRed),
            }
        } else {
            Field {
                name: "L1K3D",
                value: Span::inked("No en L1K3D · l para marcarla", Ink::DarkGray),
            }
        },
    );
    rows.push(field("ISRC", dashed(&t.isrc)));
    rows.push(field("ID externo", dashed(&t.external_id)));
    rows.push(field("URL", dashed(&t.url)));
    rows.push(
        field(
            "Géneros",
            if genres.as_str().is_empty() {
                "-".to_string()
            } else {
                genres
            },
        ),
    );
    assert(fields_shown(rows@) =~= metadata_shown(*t, liked.has(*t), glyphs));
    rows
}

/// The rows of the sources; one that says so where there is none.
pub open spec fn source_rows_shown(sources: Seq<Source>, glyphs: UiGlyphs) -> Seq<
    Seq<(Seq<char>, Ink, bool)>,
> {
    if sources.len() == 0 {
        seq![seq![("Sin fuentes configuradas"@, Ink::Plain, false)]]
    } else {
        sources.map_values(
            |s: Source|
                seq![
                    (glyph(glyphs.theme, "● "@, "* "@), Ink::Green, false),
                    (source_text(s), Ink::Plain, false),
                ],
        )
    }
}

/// The rows of the sources.
pub fn source_rows(sources: &Vec<Source>, glyphs: UiGlyphs) -> (r: Vec<Vec<Span>>)
    ensures
        rows_shown(r@) == source_rows_shown(sources@, glyphs),
{
    let mut rows: Vec<Vec<Span>> = Vec::new();
    if sources.len() == 0 {
        let mut row: Vec<Span> = Vec::new();
        row.push(Span::plain("Sin fuentes configuradas"));
        assert(shown(row@) =~= seq![("Sin fuentes configuradas"@, Ink::Plain, false)]);
        rows.push(row);
        assert(rows_shown(rows@) =~= source_rows_shown(sources@, glyphs));
        return rows;
    }
    let mut i: usize = 0;
    while i < sources.len()
        invariant
            0 < sources@.len(),
            0 <= i <= sources@.len(),
            rows_shown(rows@) == source_rows_shown(sources@, glyphs).take(i as int),
        decreases sources@.len() - i,
    {
        let mut row: Vec<Span> = Vec::new();
        row.push(Span::inked(glyphs.active_source(), Ink::Green));
        row.push(Span::plain(sources[i].label()));
        proof {
            assert(shown(row@) =~= source_rows_shown(sources@, glyphs)[i as int]);
        }
        let ghost before = rows@;
        rows.push(row);
        proof {
            assert(rows_shown(rows@) =~= rows_shown(before).push(shown(row@)));
            assert(source_rows_shown(sources@, glyphs).take(i + 1) =~= source_rows_shown(
                sources@,
                glyphs,
            ).take(i as int).push(source_rows_shown(sources@, glyphs)[i as int]));
        }
        i = i + 1;
    }
    proof {
        assert(source_rows_shown(sources@, glyphs).take(sources@.len() as int)
            =~= source_rows_shown(sources@, glyphs));
    }
    rows
}

/// Only the song that plays has the mark of the song that plays, and it has it
/// whoever added it.
pub proof fn law_current_song_is_marked(
    state: RelatedState,
    i: int,
    current: Seq<char>,
    stats: Seq<TrackListeningStats>,
    liked: bool,
    glyphs: UiGlyphs,
)
    requires
        0 <= i < state.tracks@.len(),
    ensures
        queue_row_shown(state, i, Some(current), stats, liked, glyphs)[0] == (
            glyph(glyphs.theme, "▶ "@, "> "@),
            Ink::Green,
            true,
        ) <==> ident(state.tracks@[i]) == current,
{
}

/// A duration of whole hours, minutes and seconds is written as such: the seconds
/// always with two digits, the minutes with two behind hours, and no hours where
/// there are none.
pub proof fn law_durations_are_written_out(ns: u64, text: String, h: nat, m: nat, s: nat)
    requires
        call_ensures(format_duration, (ns,), text),
        m < 60,
        s < 60,
        ns as int / 1_000_000_000 == 3600 * h + 60 * m + s,
    ensures
        h == 0 ==> text@ == decimal_text(m) + seq![':'] + padded_text(s),
        h > 0 ==> text@ == decimal_text(h) + seq![':'] + padded_text(m) + seq![':'] + padded_text(
            s,
        ),
{
    reveal_strlit(":");
    assert(":"@ =~= seq![':']);
    let secs = (3600 * h + 60 * m + s) as int;
    assert(secs / 3600 == h && secs % 3600 == 60 * m + s) by (nonlinear_arith)
        requires
            secs == 3600 * h + (60 * m + s),
            0 <= 60 * m + s < 3600,
    ;
    let rest = (60 * m + s) as int;
    assert(rest / 60 == m && rest % 60 == s) by (nonlinear_arith)
        requires
            rest == 60 * m + s,
            0 <= s < 60,
    ;
    assert(secs % 60 == s) by (nonlinear_arith)
        requires
            secs == 60 * (60 * h + m) + s,
            0 <= s < 60,
    ;
}

/// A result of a search tells the song and its length. It has a heart if it is
/// liked, a mark and a colour of its own if it is a related song and not a hit,
/// and a count if something is known of how often it was played.
pub proof fn law_results_tell_the_song(
    t: Track,
    i: usize,
    related_from: usize,
    stats: Vec<TrackListeningStats>,
    liked: Liked,
    glyphs: UiGlyphs,
    row: Vec<Span>,
)
    requires
        call_ensures(search_row, (&t, i, related_from, &stats, &liked, glyphs), row),
    ensures
        row@.len() == 6,
        t.artists@.len() > 0 ==> row@[2].text@ == t.artists@[0]@ + " - "@ + t.title@,
        t.artists@.len() == 0 ==> row@[2].text@ == "Desconocido"@ + " - "@ + t.title@,
        row@[3].text@.len() > 0 <==> liked.has(t),
        row@[1].text@.len() > 0 <==> 0 < related_from <= i,
        row@[0].ink is Yellow <==> 0 < related_from <= i,
        t.duration is Some ==> row@[4].text@ == "  ("@ + duration_text(t.duration->0 as int) + ")"@,
        row@[5].text@.len() > 0 <==> exists|k: int|
            0 <= k < stats@.len() && (#[trigger] stats@[k]).key@ == ident(t),
{
    let s = search_row_shown(t, i as int, related_from as int, stats@, liked.has(t), glyphs);
    assert(shown(row@) == s);
    assert(row@.len() == s.len());
    assert forall|k: int| 0 <= k < 6 implies (#[trigger] row@[k]).text@ == s[k].0 && row@[k].ink
        == s[k].1 by {
        assert(shown(row@)[k] == s[k]);
    }
    lemma_marks_have_text(liked.has(t), stats@, ident(t), glyphs);
    reveal_strlit("");
    reveal_strlit("↳ ");
    reveal_strlit("-> ");
}

proof fn lemma_marks_have_text(
    liked: bool,
    stats: Seq<TrackListeningStats>,
    key: Seq<char>,
    glyphs: UiGlyphs,
)
    ensures
        heart_piece(liked, glyphs).0.len() > 0 <==> liked,
        plays_piece(stats, key, glyphs).0.len() > 0 <==> exists|k: int|
            0 <= k < stats.len() && (#[trigger] stats[k]).key@ == key,
{
    reveal_strlit("");
    reveal_strlit("   ");
    reveal_strlit("  ");
    crate::domain::law_last_statistics_count(stats, key);
    if stats_index(stats, key) is Some {
        let k = stats_index(stats, key)->0;
        assert(stats[k].key@ == key);
        assert(plays_text(stats[k], glyphs).len() > 0);
    }
}

/// A song of the queue tells the song and its length, and has a heart if it is
/// liked. The song that plays has a mark of its own; of the others those that
/// were just added, then those that autoplay added, then the rest are marked
/// apart.
pub proof fn law_queue_tells_the_songs(
    state: RelatedState,
    i: usize,
    current: Option<String>,
    stats: Vec<TrackListeningStats>,
    liked: Liked,
    glyphs: UiGlyphs,
    row: Vec<Span>,
)
    requires
        i < state.tracks@.len(),
        call_ensures(queue_row, (&state, i, &current, &stats, &liked, glyphs), row),
    ensures
        ({
            let t = state.tracks@[i as int];
            let plays = current is Some && current->0@ == ident(t);
            let added = state.new_ids@.contains(ident(t));
            let auto = i >= state.origins@.len() || state.origins@[i as int] is Recommendation;
            &&& row@.len() == 6
            &&& row@[0].bold <==> plays
            &&& plays ==> row@[0].text@ == glyph(glyphs.theme, "▶ "@, "> "@)
            &&& !plays && added ==> row@[0].text@ == glyph(glyphs.theme, "✚ "@, "+ "@)
            &&& !plays && !added && auto ==> row@[0].text@ == glyph(glyphs.theme, "↻ "@, "~ "@)
            &&& !plays && !added && !auto ==> row@[0].text@ == glyph(glyphs.theme, "· "@, "- "@)
            &&& t.artists@.len() > 0 ==> row@[2].text@ == t.artists@[0]@ + " - "@ + t.title@
            &&& row@[3].text@.len() > 0 <==> liked.has(t)
            &&& t.duration is Some ==> row@[4].text@ == "  ("@ + duration_text(
                t.duration->0 as int,
            ) + ")"@
            &&& row@[5].text@.len() > 0 <==> exists|k: int|
                0 <= k < stats@.len() && (#[trigger] stats@[k]).key@ == ident(t)
        }),
{
    let t = state.tracks@[i as int];
    let s = queue_row_shown(state, i as int, opt_text(current), stats@, liked.has(t), glyphs);
    assert(shown(row@) == s);
    assert(row@.len() == s.len());
    assert forall|k: int| 0 <= k < 6 implies (#[trigger] row@[k]).text@ == s[k].0 && row@[k].bold
        == s[k].2 by {
        assert(shown(row@)[k] == s[k]);
    }
    lemma_marks_have_text(liked.has(t), stats@, ident(t), glyphs);
}

/// An entry of the history tells when the song was played, artist and title, how
/// long it is if that is known, and how often it was played; it has a heart if
/// the stored song is liked.
pub proof fn law_history_tells_the_entry(e: HistoryEntry, liked: Liked, glyphs: UiGlyphs, row: Vec<Span>)
    requires
        call_ensures(history_row, (&e, &liked, glyphs), row),
    ensures
        row@.len() == 6,
        row@[0].text@ == e.played_at@ + "  "@,
        e.artist_name is Some ==> row@[2].text@ == e.artist_name->0@ + " - "@ + e.title@,
        e.artist_name is None ==> row@[2].text@ == "?"@ + " - "@ + e.title@,
        row@[3].text@.len() > 0 <==> e.track_id > 0 && liked.ids@.contains(e.track_id),
        e.duration is Some && e.duration->0 >= 0 ==> row@[4].text@ == "  ("@ + clock_text(
            e.duration->0 / 1000,
        ) + ")"@,
        row@[5].text@ == "  "@ + signed_text(e.play_count as int) + "×"@,
{
    let on = e.track_id > 0 && liked.ids@.contains(e.track_id);
    let s = history_row_shown(e, on, glyphs);
    assert(shown(row@) == s);
    assert(row@.len() == s.len());
    assert forall|k: int| 0 <= k < 6 implies (#[trigger] row@[k]).text@ == s[k].0 by {
        assert(shown(row@)[k] == s[k]);
    }
    reveal_strlit("");
    reveal_strlit("   ");
}

/// A playlist tells its name and how many songs it holds; those of the system,
/// and only they, are marked as protected.
pub proof fn law_listing_tells_the_playlist(p: PlaylistRow, glyphs: UiGlyphs, row: Vec<Span>)
    requires
        call_ensures(playlist_row, (&p, glyphs), row),
    ensures
        row@.len() == 5,
        row@[1].text@ == p.name@,
        row@[2].text@ == "  ·  "@ + signed_text(p.track_count as int) + " tracks"@,
        row@[4].text@.len() > 0 <==> p.kind is System,
        row@[0].ink is Magenta <==> p.kind is System,
{
    let s = playlist_row_shown(p, glyphs);
    assert(shown(row@) == s);
    assert(row@.len() == s.len());
    assert forall|k: int| 0 <= k < 5 implies (#[trigger] row@[k]).text@ == s[k].0 && row@[k].ink
        == s[k].1 by {
        assert(shown(row@)[k] == s[k]);
    }
    reveal_strlit("");
    reveal_strlit("  (protegida)");
}

/// The table of a song tells its title, all its artists, its album, its duration,
/// whether it is liked, and what its source says of it, with a dash for what is
/// not known.
pub proof fn law_table_tells_the_song(t: Track, liked: Liked, glyphs: UiGlyphs, rows: Vec<Field>)
    requires
        call_ensures(metadata_rows, (&t, &liked, glyphs), rows),
    ensures
        rows@.len() == 10,
        rows@[0].value.text@ == t.title@,
        rows@[1].value.text@ == joined(texts(t.artists@), ", "@),
        t.album is None ==> rows@[2].value.text@ == "-"@,
        t.album is Some && t.album->0.release_date is Some ==> rows@[2].value.text@
            == t.album->0.title@ + (" ("@ + t.album->0.release_date->0@ + ")"@),
        t.duration is Some ==> rows@[3].value.text@ == duration_text(t.duration->0 as int),
        t.duration is None ==> rows@[3].value.text@ == "-"@,
        rows@[5].value.bold <==> liked.has(t),
        t.isrc is Some ==> rows@[6].value.text@ == t.isrc->0@,
        t.isrc is None ==> rows@[6].value.text@ == "-"@,
        t.external_id is Some ==> rows@[7].value.text@ == t.external_id->0@,
        t.external_id is None ==> rows@[7].value.text@ == "-"@,
        t.url is Some ==> rows@[8].value.text@ == t.url->0@,
        t.url is None ==> rows@[8].value.text@ == "-"@,
        joined(texts(t.genres@), ", "@).len() > 0 ==> rows@[9].value.text@ == joined(
            texts(t.genres@),
            ", "@,
        ),
        joined(texts(t.genres@), ", "@).len() == 0 ==> rows@[9].value.text@ == "-"@,
{
    let s = metadata_shown(t, liked.has(t), glyphs);
    assert(fields_shown(rows@) == s);
    assert(rows@.len() == s.len());
    assert forall|k: int| 0 <= k < 10 implies (#[trigger] rows@[k]).value.text@ == s[k].1
        && rows@[k].value.bold == s[k].3 by {
        assert(fields_shown(rows@)[k] == s[k]);
    }
}

/// Each source has its row, in their order; without any there is one row that
/// says so.
pub proof fn law_sources_are_listed(sources: Vec<Source>, glyphs: UiGlyphs, rows: Vec<Vec<Span>>, i: int)
    requires
        call_ensures(source_rows, (&sources, glyphs), rows),
        0 <= i < sources@.len(),
    ensures
        rows@.len() == sources@.len(),
        rows@[i]@.len() == 2,
        rows@[i]@[1].text@ == source_text(sources@[i]),
{
    let s = source_rows_shown(sources@, glyphs);
    assert(rows_shown(rows@) == s);
    assert(rows@.len() == s.len());
    assert(rows_shown(rows@)[i] == s[i]);
    assert(shown(rows@[i]@) == s[i]);
    assert(rows@[i]@.len() == 2);
    assert(shown(rows@[i]@)[1] == s[i][1]);
}

/// A row is gray exactly under the mouse.
pub proof fn law_row_under_the_mouse_stands_out(i: usize, hovered: Option<usize>, ink: Ink)
    requires
        call_ensures(row_ink, (i, hovered), ink),
    ensures
        ink is Gray <==> hovered is Some && hovered->0 == i,
{
}

/// A click selects the row under the mouse, once; without a row there, or without a
/// click, the selection stays.
pub proof fn law_clicks_select_rows(list: &mut ListState, click: &mut bool, hovered: Option<usize>)
    requires
        call_ensures(apply_click, (list, click, hovered), ()),
    ensures
        *old(click) && hovered is Some ==> final(list).selected == hovered,
        !*old(click) || hovered is None ==> final(list).selected == old(list).selected,
        !*final(click),
{
}

/// The field for a new playlist shows the name as far as it is typed, and the title
/// of the results tells whether related songs are among them.
pub proof fn law_fields_show_what_is_typed(
    draft: String,
    glyphs: UiGlyphs,
    row: Vec<Span>,
    related_from: usize,
    title: &'static str,
)
    requires
        call_ensures(create_row, (&draft, glyphs), row),
        call_ensures(search_title, (related_from,), title),
    ensures
        row@.len() == 3,
        row@[1].text@ == draft@,
        title@ == " Resultados "@ <==> related_from == 0,
{
    assert(shown(row@).len() == 3);
    assert(shown(row@)[1].0 == row@[1].text@);
    reveal_strlit(" Resultados ");
    reveal_strlit(" Resultados + Recomendadas ");
    assert(" Resultados "@.len() != " Resultados + Recomendadas "@.len());
}

/// How often a song was played is told by the last that is known of it, and with it
/// whether that was recently.
pub proof fn law_plays_are_told(
    t: Track,
    i: usize,
    related_from: usize,
    stats: Vec<TrackListeningStats>,
    liked: Liked,
    glyphs: UiGlyphs,
    row: Vec<Span>,
    k: int,
)
    requires
        call_ensures(search_row, (&t, i, related_from, &stats, &liked, glyphs), row),
        0 <= k < stats@.len(),
        stats@[k].key@ == ident(t),
        forall|j: int| k < j < stats@.len() ==> (#[trigger] stats@[j]).key@ != ident(t),
    ensures
        row@.len() == 6,
        mentions(row@[5].text@, signed_text(stats@[k].play_count as int)),
        stats@[k].recently_played ==> mentions(row@[5].text@, " reciente · "@),
        !stats@[k].recently_played ==> row@[5].text@ == "  "@ + glyph(glyphs.theme, "↻"@, "~"@)
            + " "@ + signed_text(stats@[k].play_count as int) + "×"@,
{
    let s = search_row_shown(t, i as int, related_from as int, stats@, liked.has(t), glyphs);
    assert(shown(row@) == s);
    assert(row@.len() == s.len());
    assert(shown(row@)[5] == s[5]);
    crate::domain::law_last_statistics_count(stats@, ident(t));
    let found = stats_index(stats@, ident(t));
    assert(found is Some);
    if found->0 < k {
        assert(stats@[k].key@ != ident(t));
    } else if k < found->0 {
        assert(stats@[found->0].key@ != ident(t));
    }
    let count = signed_text(stats@[k].play_count as int);
    let recent = "  "@ + glyph(glyphs.theme, "●"@, "*"@);
    let older = "  "@ + glyph(glyphs.theme, "↻"@, "~"@) + " "@;
    law_texts_mention_their_parts(recent + " reciente · "@, count, "×"@);
    law_texts_mention_their_parts(older, count, "×"@);
    law_texts_mention_their_parts(recent, " reciente · "@, count + "×"@);
    if stats@[k].recently_played {
        assert(row@[5].text@ =~= recent + " reciente · "@ + (count + "×"@));
    }
}

/// What is not known is said to be so: the length of a song, of an entry of the
/// history, and the date of an album.
pub proof fn law_unknown_things_are_told(
    t: Track,
    i: usize,
    related_from: usize,
    stats: Vec<TrackListeningStats>,
    liked: Liked,
    glyphs: UiGlyphs,
    row: Vec<Span>,
    e: HistoryEntry,
    entry: Vec<Span>,
    table: Vec<Field>,
)
    requires
        call_ensures(search_row, (&t, i, related_from, &stats, &liked, glyphs), row),
        call_ensures(history_row, (&e, &liked, glyphs), entry),
        call_ensures(metadata_rows, (&t, &liked, glyphs), table),
        t.duration is None,
        e.duration is None || e.duration->0 < 0,
    ensures
        row@.len() == 6 && entry@.len() == 6 && table@.len() == 10,
        mentions(row@[4].text@, "duración pendiente"@),
        entry@[4].text@ == "  (duración pendiente)"@,
        t.album is Some && t.album->0.release_date is None ==> table@[2].value.text@
            == t.album->0.title@,
        table@[3].value.text@ == "-"@,
        table@[4].value.text@ == source_text(t.source),
{
    let s = search_row_shown(t, i as int, related_from as int, stats@, liked.has(t), glyphs);
    assert(shown(row@) == s);
    assert(row@.len() == s.len());
    assert(shown(row@)[4] == s[4]);
    law_texts_mention_their_parts("  ("@, "duración pendiente"@, ")"@);
    let on = e.track_id > 0 && liked.ids@.contains(e.track_id);
    let h = history_row_shown(e, on, glyphs);
    assert(shown(entry@) == h);
    assert(entry@.len() == h.len());
    assert(shown(entry@)[4] == h[4]);
    let f = metadata_shown(t, liked.has(t), glyphs);
    assert(fields_shown(table@) == f);
    assert(table@.len() == f.len());
    assert(fields_shown(table@)[2] == f[2]);
    assert(fields_shown(table@)[3] == f[3]);
    assert(fields_shown(table@)[4] == f[4]);
    reveal_strlit("");
    if t.album is Some {
        assert(t.album->0.title@ + ""@ =~= t.album->0.title@);
    }
}

} // verus!
