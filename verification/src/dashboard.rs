//! The texts around the song that plays: progress, controls, header and footer.

use vstd::prelude::*;
use vstd::string::*;

#[allow(unused_imports)]
use crate::app::{playback_text, state_text};
use crate::app::{char_and, playback_label, state_label};
#[allow(unused_imports)]
use crate::glyphs::{activity_glyph, glyph, spinner_glyph};
use crate::glyphs::UiGlyphs;
#[allow(unused_imports)]
use crate::ink::{rows_shown, shown};
use crate::ink::{Ink, Span};
use crate::layout::TerminalProfile;
use crate::palette::VisualTheme;
use crate::playback::{PlaybackState, PlaybackStatus, RepeatMode};
#[allow(unused_imports)]
use crate::rows::duration_text;
use crate::rows::format_duration;
use crate::text::{concat2, concat3, decimal, join};
#[allow(unused_imports)]
use crate::text::{
    decimal_text, joined, law_joined_texts_are_mentioned, law_mentions_are_passed_on,
    law_texts_mention_their_parts, mentions, texts,
};
use crate::view::View;
#[allow(unused_imports)]
use crate::view::{all_views, label_text, view_number};
use vstd::view::View as _;

verus! {

/// The share of the song that was played, as two terms.
pub fn progress_share(p: &PlaybackStatus) -> (r: (u64, u64))
    ensures
        p.duration is None || p.duration->0 == 0 ==> r == (0u64, 1u64),
        p.duration is Some && p.duration->0 > 0 ==> r.1 == p.duration->0 && r.0 == (if p.position
            < p.duration->0 {
            p.position
        } else {
            p.duration->0
        }),
{
    match p.duration {
        Some(d) => if d == 0 {
            (0, 1)
        } else if p.position < d {
            (p.position, d)
        } else {
            (d, d)
        },
        None => (0, 1),
    }
}

/// The text in the progress bar.
pub open spec fn progress_text(p: PlaybackStatus, glyphs: UiGlyphs, frame: u64) -> Seq<char> {
    let times = duration_text(p.position as int) + " / "@ + duration_text(
        match p.duration {
            Some(d) => d as int,
            None => 0,
        },
    ) + " "@;
    if p.track is None {
        " sin reproducción (Enter en resultados reproduce) "@
    } else if p.stalled {
        " "@ + seq![spinner_glyph(glyphs.theme, frame)] + " stream lento · rellenando buffer…  "@
            + times
    } else {
        " "@ + times
    }
}

/// The text in the progress bar, and its colour: yellow while the stream is
/// slow.
pub fn progress_label(p: &PlaybackStatus, glyphs: UiGlyphs, frame: u64) -> (r: Span)
    ensures
        r.text@ == progress_text(*p, glyphs, frame),
        r.ink == if p.stalled && p.track is Some {
            Ink::Yellow
        } else {
            Ink::Cyan
        },
        !r.bold,
{
    if p.track.is_none() {
        return Span::inked(" sin reproducción (Enter en resultados reproduce) ", Ink::Cyan);
    }
    let position = format_duration(p.position);
    let duration = format_duration(
        match p.duration {
            Some(d) => d,
            None => 0,
        },
    );
    let mut times = concat3(position.as_str(), " / ", duration.as_str());
    times.append(" ");
    if p.stalled {
        let spin = char_and(
            glyphs.spinner(frame),
            " stream lento · rellenando buffer…  ",
        );
        let text = concat3(" ", spin.as_str(), times.as_str());
        assert(text@ =~= progress_text(*p, glyphs, frame));
        Span::new(text, Ink::Yellow)
    } else {
        Span::new(concat2(" ", times.as_str()), Ink::Cyan)
    }
}

/// The state of the engine in the controls.
pub open spec fn controls_state(p: PlaybackStatus, glyphs: UiGlyphs, frame: u64) -> Seq<char> {
    state_text(p.state, glyphs, frame) + (if p.state is Playing {
        " "@ + activity_glyph(glyphs.theme, frame)
    } else {
        ""@
    }) + (if p.stalled {
        " · "@ + seq![spinner_glyph(glyphs.theme, frame)] + " red lenta: rellenando buffer…"@
    } else {
        ""@
    })
}

fn controls_state_label(p: &PlaybackStatus, glyphs: UiGlyphs, frame: u64) -> (r: String)
    ensures
        r@ == controls_state(*p, glyphs, frame),
{
    let mut text = state_label(p.state, glyphs, frame);
    let activity = match p.state {
        PlaybackState::Playing => concat2(" ", glyphs.activity(frame)),
        _ => "".to_string(),
    };
    text.append(activity.as_str());
    let stall = if p.stalled {
        let spin = char_and(glyphs.spinner(frame), " red lenta: rellenando buffer…");
        let s = concat2(" · ", spin.as_str());
        assert(s@ =~= " · "@ + seq![spinner_glyph(glyphs.theme, frame)]
            + " red lenta: rellenando buffer…"@);
        s
    } else {
        "".to_string()
    };
    text.append(stall.as_str());
    text
}

/// What was played of the song, and its duration if that is known.
pub open spec fn times_text(p: PlaybackStatus) -> Seq<char> {
    duration_text(p.position as int) + " / "@ + (match p.duration {
        Some(d) => duration_text(d as int),
        None => "--:--"@,
    })
}

fn times_label(p: &PlaybackStatus) -> (r: String)
    ensures
        r@ == times_text(*p),
{
    let elapsed = format_duration(p.position);
    let total = match p.duration {
        Some(d) => format_duration(d),
        None => "--:--".to_string(),
    };
    concat3(elapsed.as_str(), " / ", total.as_str())
}

pub open spec fn shuffle_text(shuffle: bool) -> Seq<char> {
    if shuffle {
        "SHUFFLE"@
    } else {
        "orden"@
    }
}

pub open spec fn repeat_text(repeat: RepeatMode) -> Seq<char> {
    match repeat {
        RepeatMode::All => "REPETIR todo"@,
        RepeatMode::Off => "repetir off"@,
        RepeatMode::One => "REPETIR una"@,
    }
}

pub open spec fn on_off(on: bool) -> Seq<char> {
    if on {
        "ON"@
    } else {
        "OFF"@
    }
}

fn shuffle_label(shuffle: bool) -> (r: &'static str)
    ensures
        r@ == shuffle_text(shuffle),
{
    if shuffle {
        "SHUFFLE"
    } else {
        "orden"
    }
}

fn repeat_label(repeat: RepeatMode) -> (r: &'static str)
    ensures
        r@ == repeat_text(repeat),
{
    match repeat {
        RepeatMode::All => "REPETIR todo",
        RepeatMode::Off => "repetir off",
        RepeatMode::One => "REPETIR una",
    }
}

fn on_off_label(on: bool) -> (r: &'static str)
    ensures
        r@ == on_off(on),
{
    if on {
        "ON"
    } else {
        "OFF"
    }
}

/// What the controls tell.
#[derive(Debug, Clone, Copy, PartialEq, Eq)]
pub struct Modes {
    pub shuffle: bool,
    pub repeat: RepeatMode,
    pub autoplay: bool,
    /// Songs in the queue.
    pub queued: usize,
    /// Whether the song that plays is liked.
    pub liked: bool,
}

pub open spec fn heart_text(liked: bool, glyphs: UiGlyphs) -> Seq<char> {
    if liked {
        glyph(glyphs.theme, "♥"@, "*"@)
    } else {
        glyph(glyphs.theme, "♡"@, "o"@)
    }
}

/// The key that likes a song, and its heart.
pub open spec fn like_pieces(liked: bool, glyphs: UiGlyphs) -> Seq<(Seq<char>, Ink, bool)> {
    seq![
        ("l"@, Ink::Cyan, false),
        (" L1K3D "@, Ink::Plain, false),
        (heart_text(liked, glyphs), Ink::Heart, false),
    ]
}

/// The rows of the controls: one in a low panel, three in a higher one. Both
/// tell the state, the times, the modes of the queue and the heart.
pub open spec fn controls_shown(
    p: PlaybackStatus,
    m: Modes,
    glyphs: UiGlyphs,
    frame: u64,
    height: int,
) -> Seq<Seq<(Seq<char>, Ink, bool)>> {
    let state = controls_state(p, glyphs, frame) + "  ·  "@ + times_text(p);
    if height < 5 {
        seq![
            seq![
                (
                    state + "  ·  "@ + shuffle_text(m.shuffle) + " · "@ + repeat_text(m.repeat)
                        + " · autoplay "@ + on_off(m.autoplay),
                    Ink::Plain,
                    false,
                ),
                ("  "@, Ink::Plain, false),
            ] + like_pieces(m.liked, glyphs),
        ]
    } else {
        seq![
            seq![(state, Ink::Plain, false)],
            seq![
                (
                    shuffle_text(m.shuffle) + " · "@ + repeat_text(m.repeat) + " · "@
                        + decimal_text(m.queued as nat) + " en cola"@,
                    Ink::White,
                    false,
                ),
                (" · autoplay "@ + on_off(m.autoplay), Ink::Plain, false),
                (" · "@, Ink::Plain, false),
            ] + like_pieces(m.liked, glyphs),
            seq![("Shift+H: todos los atajos"@, Ink::DarkGray, false)],
        ]
    }
}

fn push_like(row: &mut Vec<Span>, liked: bool, glyphs: UiGlyphs)
    ensures
        shown(final(row)@) == shown(old(row)@) + like_pieces(liked, glyphs),
{
    let ghost before = row@;
    row.push(Span::inked("l", Ink::Cyan));
    row.push(Span::plain(" L1K3D "));
    row.push(
        Span::inked(
            if liked {
                glyphs.heart_liked()
            } else {
                glyphs.heart_empty()
            },
            Ink::Heart,
        ),
    );
    assert(shown(row@) =~= shown(before) + like_pieces(liked, glyphs));
}

/// The rows of the controls.
pub fn controls(p: &PlaybackStatus, m: Modes, glyphs: UiGlyphs, frame: u64, height: u16) -> (r: Vec<
    Vec<Span>,
>)
    ensures
        rows_shown(r@) == controls_shown(*p, m, glyphs, frame, height as int),
{
    let times = times_label(p);
    let mut state = controls_state_label(p, glyphs, frame);
    state.append("  ·  ");
    state.append(times.as_str());
    let mut rows: Vec<Vec<Span>> = Vec::new();
    if height < 5 {
        state.append("  ·  ");
        state.append(shuffle_label(m.shuffle));
        state.append(" · ");
        state.append(repeat_label(m.repeat));
        state.append(" · autoplay ");
        state.append(on_off_label(m.autoplay));
        let mut row: Vec<Span> = Vec::new();
        row.push(Span::new(state, Ink::Plain));
        row.push(Span::plain("  "));
        let ghost head = shown(row@);
        push_like(&mut row, m.liked, glyphs);
        rows.push(row);
        proof {
            let all = controls_shown(*p, m, glyphs, frame, height as int);
            assert(shown(row@) =~= all[0]);
            assert(rows_shown(rows@) =~= all);
        }
        return rows;
    }
    let mut first: Vec<Span> = Vec::new();
    first.push(Span::new(state, Ink::Plain));
    let queued = decimal(m.queued as u64);
    let mut modes = concat3(shuffle_label(m.shuffle), " · ", repeat_label(m.repeat));
    modes.append(" · ");
    modes.append(queued.as_str());
    modes.append(" en cola");
    let mut second: Vec<Span> = Vec::new();
    second.push(Span::new(modes, Ink::White));
    second.push(Span::new(concat2(" · autoplay ", on_off_label(m.autoplay)), Ink::Plain));
    second.push(Span::plain(" · "));
    push_like(&mut second, m.liked, glyphs);
    let mut third: Vec<Span> = Vec::new();
    third.push(Span::inked("Shift+H: todos los atajos", Ink::DarkGray));
    proof {
        let all = controls_shown(*p, m, glyphs, frame, height as int);
        assert(shown(first@) =~= all[0]);
        assert(shown(second@) =~= all[1]);
        assert(shown(third@) =~= all[2]);
    }
    rows.push(first);
    rows.push(second);
    rows.push(third);
    assert(rows_shown(rows@) =~= controls_shown(*p, m, glyphs, frame, height as int));
    rows
}

/// The colour of the heart: of a liked song it alternates between the first and
/// the third colour of the cover every twelve frames, else it is the second.
pub fn heart_color(theme: &VisualTheme, liked: bool, frame: u64) -> (r: [u8; 3])
    ensures
        r == if !liked {
            theme.secondary
        } else if (frame / 12) % 2 == 0 {
            theme.primary
        } else {
            theme.accent
        },
{
    if !liked {
        theme.secondary
    } else if (frame / 12) % 2 == 0 {
        theme.primary
    } else {
        theme.accent
    }
}

/// The title of the queue next to the song that plays.
pub fn queue_title(queued: usize, autoplay: bool) -> (r: String)
    ensures
        r@ == " Recomendaciones · "@ + decimal_text(queued as nat) + " · a: autoplay "@ + on_off(
            autoplay,
        ) + " "@,
{
    let count = decimal(queued as u64);
    let mut text = concat3(" Recomendaciones · ", count.as_str(), " · a: autoplay ");
    text.append(on_off_label(autoplay));
    text.append(" ");
    text
}

/// The title of an open playlist.
pub fn detail_title(name: &String, tracks: usize) -> (r: String)
    ensures
        r@ == " "@ + name@ + "  ·  "@ + decimal_text(tracks as nat) + " tracks  "@,
{
    let count = decimal(tracks as u64);
    let mut text = concat3(" ", name.as_str(), "  ·  ");
    text.append(count.as_str());
    text.append(" tracks  ");
    text
}

/// A screen and its shortcut.
pub open spec fn shortcut_text(v: View) -> Seq<char> {
    "Shift+"@ + seq![('0' as int + view_number(v)) as char] + " "@ + label_text(v)
}

/// All screens and their shortcuts.
pub open spec fn shortcuts_text() -> Seq<char> {
    joined(all_views().map_values(|v: View| shortcut_text(v)), "  "@)
}

fn shortcuts() -> (r: String)
    ensures
        r@ == shortcuts_text(),
{
    let views = View::ALL;
    let mut parts: Vec<String> = Vec::new();
    let mut i: usize = 0;
    let ghost all = all_views().map_values(|v: View| shortcut_text(v));
    proof {
        assert(views@ =~= all_views());
        assert(texts(parts@) =~= all.take(0));
    }
    while i < 8
        invariant
            0 <= i <= 8,
            views@ == all_views(),
            all == all_views().map_values(|v: View| shortcut_text(v)),
            all.len() == 8,
            texts(parts@) == all.take(i as int),
        decreases 8 - i,
    {
        let v = views[i];
        let mut part = concat3("Shift+", v.shortcut_digit(), " ");
        part.append(v.label());
        let ghost before = parts@;
        parts.push(part);
        proof {
            assert(all[i as int] == shortcut_text(v));
            assert(texts(parts@) =~= texts(before).push(part@));
            assert(all.take(i + 1) =~= all.take(i as int).push(all[i as int]));
        }
        i = i + 1;
    }
    proof {
        assert(all.take(8) =~= all);
    }
    join(&parts, "  ")
}

/// The lines of the header: the screen and what plays, then the shortcuts; in a
/// tiny terminal all of it in one line.
pub open spec fn header_text(
    view: View,
    p: PlaybackStatus,
    profile: TerminalProfile,
    glyphs: UiGlyphs,
    frame: u64,
) -> Seq<Seq<char>> {
    let title = " Tunefold — "@ + label_text(view) + " · "@ + playback_text(p, glyphs, frame);
    if profile is Tiny {
        seq![title + "    ["@ + shortcuts_text() + "    · Shift+H Ayuda]"@]
    } else {
        seq![
            title,
            shortcuts_text() + "    ·   Shift+H Ayuda    ·   1..8 sueltos no navegan"@,
        ]
    }
}

/// The lines of the header.
pub fn header_lines(
    view: View,
    p: &PlaybackStatus,
    profile: TerminalProfile,
    glyphs: UiGlyphs,
    frame: u64,
) -> (r: Vec<String>)
    ensures
        texts(r@) == header_text(view, *p, profile, glyphs, frame),
{
    let playing = playback_label(p, glyphs, frame);
    let keys = shortcuts();
    let mut title = concat3(" Tunefold — ", view.label(), " · ");
    title.append(playing.as_str());
    let mut lines: Vec<String> = Vec::new();
    match profile {
        TerminalProfile::Tiny => {
            title.append("    [");
            title.append(keys.as_str());
            title.append("    · Shift+H Ayuda]");
            lines.push(title);
        },
        _ => {
            lines.push(title);
            lines.push(
                concat2(
                    keys.as_str(),
                    "    ·   Shift+H Ayuda    ·   1..8 sueltos no navegan",
                ),
            );
        },
    }
    assert(texts(lines@) =~= header_text(view, *p, profile, glyphs, frame));
    lines
}

/// The status line.
pub fn status_row(status: &Option<String>, glyphs: UiGlyphs) -> (r: Vec<Span>)
    ensures
        shown(r@) == seq![
            (glyph(glyphs.theme, "›"@, ">"@), Ink::Green, false),
            (
                match *status {
                    Some(s) => s@,
                    None => "q: salir · Shift+1..7: cambiar vista"@,
                },
                Ink::Plain,
                false,
            ),
        ],
{
    let mut row: Vec<Span> = Vec::new();
    row.push(Span::inked(glyphs.status(), Ink::Green));
    row.push(
        match status {
            Some(s) => Span::plain(s.as_str()),
            None => Span::plain("q: salir · Shift+1..7: cambiar vista"),
        },
    );
    assert(shown(row@) =~= seq![
        (glyph(glyphs.theme, "›"@, ">"@), Ink::Green, false),
        (
            match *status {
                Some(s) => s@,
                None => "q: salir · Shift+1..7: cambiar vista"@,
            },
            Ink::Plain,
            false,
        ),
    ]);
    row
}

/// The notice at the end of the status line, if there is one.
pub fn notice_label(notice: &String, glyphs: UiGlyphs) -> (r: Option<String>)
    ensures
        r is Some <==> notice@.len() > 0,
        r is Some ==> r->0@ == "!"@ + " "@ + notice@ + " "@,
{
    if notice.as_str().is_empty() {
        None
    } else {
        let mut text = concat3(glyphs.notice(), " ", notice.as_str());
        text.append(" ");
        Some(text)
    }
}

/// Low and high controls tell the same of the song: its state and its times come
/// first in both.
pub proof fn law_low_controls_keep_the_state(
    p: PlaybackStatus,
    m: Modes,
    glyphs: UiGlyphs,
    frame: u64,
)
    ensures
        ({
            let low = controls_shown(p, m, glyphs, frame, 1);
            let high = controls_shown(p, m, glyphs, frame, 5);
            let state = high[0][0].0;
            &&& low.len() == 1
            &&& state.is_prefix_of(low[0][0].0)
            &&& low[0].last() == high[1].last()
        }),
{
    let low = controls_shown(p, m, glyphs, frame, 1);
    let high = controls_shown(p, m, glyphs, frame, 5);
    assert(low[0].last() == (heart_text(m.liked, glyphs), Ink::Heart, false));
    assert(high[1].last() == (heart_text(m.liked, glyphs), Ink::Heart, false));
}

/// The progress bar shows the share of the song that was played: all of it at
/// most, and nothing while the duration is not known.
pub proof fn law_progress_is_a_share(p: PlaybackStatus, share: (u64, u64))
    requires
        call_ensures(progress_share, (&p,), share),
    ensures
        share.0 <= share.1,
        share.1 > 0,
        p.duration is None ==> share.0 == 0,
        p.duration is Some && p.duration->0 > 0 ==> share.1 == p.duration->0,
        p.duration is Some && p.position <= p.duration->0 && p.duration->0 > 0 ==> share.0
            == p.position,
        p.duration is Some && p.position > p.duration->0 && p.duration->0 > 0 ==> share.0
            == share.1,
{
}

/// The text in the progress bar ends with the position and the duration; before
/// them it tells of a slow stream. Without a song it says that nothing plays.
pub proof fn law_progress_tells_the_times(p: PlaybackStatus, glyphs: UiGlyphs, frame: u64, label: Span)
    requires
        call_ensures(progress_label, (&p, glyphs, frame), label),
        p.duration is Some,
    ensures
        ({
            let times = duration_text(p.position as int) + " / "@ + duration_text(
                p.duration->0 as int,
            ) + " "@;
            let text = label.text@;
            &&& p.track is Some && !p.stalled ==> text == " "@ + times
            &&& p.track is Some && p.stalled ==> text.len() > times.len() + 1 && text.skip(
                text.len() - times.len(),
            ) == times
            &&& label.ink is Yellow <==> p.track is Some && p.stalled
        }),
{
    let times = duration_text(p.position as int) + " / "@ + duration_text(p.duration->0 as int)
        + " "@;
    let text = label.text@;
    if p.track is Some && p.stalled {
        reveal_strlit(" stream lento · rellenando buffer…  ");
        let head = " "@ + seq![spinner_glyph(glyphs.theme, frame)]
            + " stream lento · rellenando buffer…  "@;
        assert(text == head + times);
        assert(text.skip(text.len() - times.len()) =~= times);
    }
}

/// The controls tell the modes: whether the songs are shuffled, what repeats,
/// whether autoplay is on, how many songs wait, and whether the song is liked.
pub proof fn law_controls_tell_the_modes(
    p: PlaybackStatus,
    m: Modes,
    glyphs: UiGlyphs,
    frame: u64,
    height: u16,
    rows: Vec<Vec<Span>>,
)
    requires
        call_ensures(controls, (&p, m, glyphs, frame, height), rows),
    ensures
        height < 5 ==> rows@.len() == 1,
        height >= 5 ==> {
            let modes = rows@[1]@;
            &&& rows@.len() == 3
            &&& modes.len() == 6
            &&& modes[0].text@ == (if m.shuffle {
                "SHUFFLE"@
            } else {
                "orden"@
            }) + " · "@ + (match m.repeat {
                RepeatMode::All => "REPETIR todo"@,
                RepeatMode::Off => "repetir off"@,
                RepeatMode::One => "REPETIR una"@,
            }) + " · "@ + decimal_text(m.queued as nat) + " en cola"@
            &&& modes[1].text@ == " · autoplay "@ + (if m.autoplay {
                "ON"@
            } else {
                "OFF"@
            })
            &&& modes[5].text@ == (if m.liked {
                glyph(glyphs.theme, "♥"@, "*"@)
            } else {
                glyph(glyphs.theme, "♡"@, "o"@)
            })
        },
{
    let s = controls_shown(p, m, glyphs, frame, height as int);
    assert(rows_shown(rows@) == s);
    assert(rows@.len() == s.len());
    if height >= 5 {
        assert(rows_shown(rows@)[1] == s[1]);
        let modes = rows@[1]@;
        assert(shown(modes) == s[1]);
        assert(modes.len() == 6);
        assert(shown(modes)[0] == s[1][0]);
        assert(shown(modes)[1] == s[1][1]);
        assert(shown(modes)[5] == s[1][5]);
    }
}

/// The heart of a song that is not liked keeps one colour; that of a liked one
/// changes between two others every twelve frames.
pub proof fn law_heart_beats(
    theme: VisualTheme,
    frame: u64,
    still: [u8; 3],
    now: [u8; 3],
    then: [u8; 3],
)
    requires
        frame <= u64::MAX - 12,
        call_ensures(heart_color, (&theme, false, frame), still),
        call_ensures(heart_color, (&theme, true, frame), now),
        call_ensures(heart_color, (&theme, true, (frame + 12) as u64), then),
    ensures
        still == theme.secondary,
        now == theme.primary && then == theme.accent || now == theme.accent && then
            == theme.primary,
{
    assert((frame + 12) as u64 / 12 == frame / 12 + 1);
}

/// The header tells the screen and what plays; in a tiny terminal in one line, in
/// any other in two.
pub proof fn law_header_tells_the_screen(
    view: View,
    p: PlaybackStatus,
    profile: TerminalProfile,
    glyphs: UiGlyphs,
    frame: u64,
    lines: Vec<String>,
)
    requires
        call_ensures(header_lines, (view, &p, profile, glyphs, frame), lines),
    ensures
        lines@.len() == if profile is Tiny {
            1int
        } else {
            2int
        },
        ({
            let title = " Tunefold — "@ + label_text(view) + " · "@ + playback_text(p, glyphs, frame);
            title.is_prefix_of(lines@[0]@)
        }),
{
    let s = header_text(view, p, profile, glyphs, frame);
    assert(texts(lines@) == s);
    assert(lines@.len() == s.len());
    assert(texts(lines@)[0] == s[0]);
    let title = " Tunefold — "@ + label_text(view) + " · "@ + playback_text(p, glyphs, frame);
    if profile is Tiny {
        assert(title.is_prefix_of(title + "    ["@ + shortcuts_text() + "    · Shift+H Ayuda]"@));
    }
}

/// The status line shows the status as it is, and the notice only if there is one.
pub proof fn law_status_is_shown(
    status: Option<String>,
    notice: String,
    glyphs: UiGlyphs,
    row: Vec<Span>,
    label: Option<String>,
)
    requires
        call_ensures(status_row, (&status, glyphs), row),
        call_ensures(notice_label, (&notice, glyphs), label),
    ensures
        row@.len() == 2,
        status is Some ==> row@[1].text@ == status->0@,
        label is Some <==> notice@.len() > 0,
        label is Some ==> label->0@.len() == notice@.len() + 3 && label->0@.subrange(
            2,
            2int + notice@.len(),
        ) == notice@,
{
    assert(shown(row@).len() == 2);
    assert(shown(row@)[1].0 == row@[1].text@);
    reveal_strlit("!");
    reveal_strlit(" ");
    if label is Some {
        assert(label->0@.subrange(2, 2int + notice@.len()) =~= notice@);
    }
}

/// The controls begin with the state of the engine and the times: the position,
/// and the duration or dashes for it.
pub proof fn law_controls_tell_the_times(
    p: PlaybackStatus,
    m: Modes,
    glyphs: UiGlyphs,
    frame: u64,
    height: u16,
    rows: Vec<Vec<Span>>,
)
    requires
        call_ensures(controls, (&p, m, glyphs, frame, height), rows),
    ensures
        rows@.len() > 0,
        rows@[0]@.len() > 0,
        ({
            let text = rows@[0]@[0].text@;
            &&& state_text(p.state, glyphs, frame).is_prefix_of(text)
            &&& p.duration is Some ==> mentions(
                text,
                duration_text(p.position as int) + " / "@ + duration_text(p.duration->0 as int),
            )
            &&& p.duration is None ==> mentions(
                text,
                duration_text(p.position as int) + " / "@ + "--:--"@,
            )
        }),
{
    let s = controls_shown(p, m, glyphs, frame, height as int);
    assert(rows_shown(rows@) == s);
    assert(rows@.len() == s.len());
    assert(rows_shown(rows@)[0] == s[0]);
    assert(shown(rows@[0]@) == s[0]);
    assert(rows@[0]@.len() == s[0].len());
    assert(shown(rows@[0]@)[0] == s[0][0]);
    let text = rows@[0]@[0].text@;
    let head = controls_state(p, glyphs, frame) + "  ·  "@;
    let times = times_text(p);
    let rest = if height < 5 {
        "  ·  "@ + shuffle_text(m.shuffle) + " · "@ + repeat_text(m.repeat) + " · autoplay "@
            + on_off(m.autoplay)
    } else {
        Seq::empty()
    };
    assert(text =~= head + times + rest);
    law_texts_mention_their_parts(head, times, rest);
    assert(state_text(p.state, glyphs, frame).is_prefix_of(controls_state(p, glyphs, frame)));
}

/// The titles tell how many songs there are, and whether autoplay is on.
pub proof fn law_titles_tell_the_count(
    queued: usize,
    autoplay: bool,
    queue: String,
    name: String,
    tracks: usize,
    list: String,
)
    requires
        call_ensures(queue_title, (queued, autoplay), queue),
        call_ensures(detail_title, (&name, tracks), list),
    ensures
        mentions(queue@, decimal_text(queued as nat)),
        mentions(
            queue@,
            "autoplay "@ + (if autoplay {
                "ON"@
            } else {
                "OFF"@
            }),
        ),
        mentions(list@, name@),
        mentions(list@, decimal_text(tracks as nat)),
{
    let count = decimal_text(queued as nat);
    let mode = on_off(autoplay);
    reveal_strlit(" · a: autoplay ");
    reveal_strlit("autoplay ");
    reveal_strlit(" · a: ");
    assert(" · a: autoplay "@ =~= " · a: "@ + "autoplay "@);
    assert(queue@ =~= " Recomendaciones · "@ + count + (" · a: autoplay "@ + mode + " "@));
    law_texts_mention_their_parts(
        " Recomendaciones · "@,
        count,
        " · a: autoplay "@ + mode + " "@,
    );
    let head = " Recomendaciones · "@ + count + " · a: "@;
    assert(queue@ =~= head + ("autoplay "@ + mode) + " "@);
    law_texts_mention_their_parts(head, "autoplay "@ + mode, " "@);
    let songs = decimal_text(tracks as nat);
    assert(list@ =~= " "@ + name@ + ("  ·  "@ + songs + " tracks  "@));
    law_texts_mention_their_parts(" "@, name@, "  ·  "@ + songs + " tracks  "@);
    assert(list@ =~= (" "@ + name@ + "  ·  "@) + songs + " tracks  "@);
    law_texts_mention_their_parts(" "@ + name@ + "  ·  "@, songs, " tracks  "@);
}

/// A slow stream is told in the controls, and a state that is neither slow nor playing
/// by its name alone; without a song the progress bar says that nothing plays.
pub proof fn law_slow_streams_are_told(
    p: PlaybackStatus,
    m: Modes,
    glyphs: UiGlyphs,
    frame: u64,
    rows: Vec<Vec<Span>>,
    label: Span,
)
    requires
        call_ensures(controls, (&p, m, glyphs, frame, 5), rows),
        call_ensures(progress_label, (&p, glyphs, frame), label),
    ensures
        rows@.len() == 3,
        rows@[0]@.len() == 1,
        p.stalled ==> mentions(rows@[0]@[0].text@, " red lenta: rellenando buffer…"@),
        !p.stalled && !(p.state is Playing) ==> rows@[0]@[0].text@ == state_text(
            p.state,
            glyphs,
            frame,
        ) + "  ·  "@ + times_text(p),
        p.track is None ==> label.text@ == " sin reproducción (Enter en resultados reproduce) "@,
{
    let s = controls_shown(p, m, glyphs, frame, 5);
    assert(rows_shown(rows@) == s);
    assert(rows@.len() == s.len());
    assert(rows_shown(rows@)[0] == s[0]);
    assert(shown(rows@[0]@) == s[0]);
    assert(rows@[0]@.len() == s[0].len());
    assert(shown(rows@[0]@)[0] == s[0][0]);
    let text = rows@[0]@[0].text@;
    let state = state_text(p.state, glyphs, frame);
    let active = if p.state is Playing {
        " "@ + activity_glyph(glyphs.theme, frame)
    } else {
        ""@
    };
    let rest = "  ·  "@ + times_text(p);
    reveal_strlit("");
    if p.stalled {
        let head = state + active + (" · "@ + seq![spinner_glyph(glyphs.theme, frame)]);
        assert(text =~= head + " red lenta: rellenando buffer…"@ + rest);
        law_texts_mention_their_parts(head, " red lenta: rellenando buffer…"@, rest);
    } else if !(p.state is Playing) {
        assert(text =~= state + rest);
        assert(state + rest =~= state + "  ·  "@ + times_text(p));
    }
}

/// The header names every screen with the digit that leads there.
pub proof fn law_header_names_the_screens(
    view: View,
    p: PlaybackStatus,
    profile: TerminalProfile,
    glyphs: UiGlyphs,
    frame: u64,
    lines: Vec<String>,
    there: View,
)
    requires
        call_ensures(header_lines, (view, &p, profile, glyphs, frame), lines),
    ensures
        lines@.len() > 0,
        mentions(
            lines@.last()@,
            "Shift+"@ + seq![('0' as int + view_number(there)) as char] + " "@ + label_text(there),
        ),
{
    let s = header_text(view, p, profile, glyphs, frame);
    assert(texts(lines@) == s);
    assert(lines@.len() == s.len());
    assert(texts(lines@)[s.len() - 1] == s.last());
    let title = " Tunefold — "@ + label_text(view) + " · "@ + playback_text(p, glyphs, frame);
    law_texts_mention_their_parts(title + "    ["@, shortcuts_text(), "    · Shift+H Ayuda]"@);
    let tail = "    ·   Shift+H Ayuda    ·   1..8 sueltos no navegan"@;
    law_texts_mention_their_parts(Seq::empty(), shortcuts_text(), tail);
    assert(Seq::<char>::empty() + shortcuts_text() + tail =~= shortcuts_text() + tail);
    let all = all_views().map_values(|v: View| shortcut_text(v));
    let i = view_number(there) - 1;
    crate::view::law_every_view_has_its_shortcut(there, false);
    assert(all[i] == shortcut_text(there));
    law_joined_texts_are_mentioned(all, "  "@, i);
    law_mentions_are_passed_on(lines@.last()@, shortcuts_text(), shortcut_text(there));
}

} // verus!
