//! Songs and what the screens know about them.
//!
//! Times and durations are whole nanoseconds.

use std::sync::Arc;

use vstd::prelude::*;
use vstd::string::StringExecFns;

use crate::text::{clone_opt, opt_text};

verus! {

/// One second, in nanoseconds.
pub const SECOND: u64 = 1_000_000_000;

/// One millisecond, in nanoseconds.
pub const MILLISECOND: u64 = 1_000_000;

/// Where a song comes from.
#[derive(Debug, Clone, Copy, PartialEq, Eq, Structural)]
pub enum Source {
    YouTube,
}

impl Source {
    /// Name of the source.
    pub fn label(self) -> (r: &'static str)
        ensures
            r@ == source_text(self),
    {
        match self {
            Source::YouTube => "YouTube",
        }
    }
}

pub open spec fn source_text(s: Source) -> Seq<char> {
    match s {
        Source::YouTube => "YouTube"@,
    }
}

/// An album: its title and, when known, the date of its release.
#[derive(Debug)]
pub struct Album {
    pub title: String,
    pub release_date: Option<String>,
}

impl Clone for Album {
    fn clone(&self) -> (r: Self)
        ensures
            r == *self,
    {
        Album { title: self.title.clone(), release_date: clone_opt(&self.release_date) }
    }
}

/// A song. The lists of names are shared between its copies.
#[derive(Debug)]
pub struct Track {
    /// Internal number of a stored song; zero when it is not stored.
    pub id: i64,
    pub title: String,
    pub artists: Arc<Vec<String>>,
    pub album: Option<Album>,
    pub genres: Arc<Vec<String>>,
    pub source: Source,
    pub duration: Option<u64>,
    /// Identifier that the source gave to the song.
    pub external_id: Option<String>,
    pub isrc: Option<String>,
    pub url: Option<String>,
}

impl Clone for Track {
    fn clone(&self) -> (r: Self)
        ensures
            r == *self,
    {
        Track {
            id: self.id,
            title: self.title.clone(),
            artists: self.artists.clone(),
            album: match &self.album {
                Some(a) => Some(a.clone()),
                None => None,
            },
            genres: self.genres.clone(),
            source: self.source,
            duration: self.duration,
            external_id: clone_opt(&self.external_id),
            isrc: clone_opt(&self.isrc),
            url: clone_opt(&self.url),
        }
    }
}

/// The first artist of a song, or nothing.
pub open spec fn first_artist(t: Track) -> Option<Seq<char>> {
    if t.artists@.len() > 0 {
        Some(t.artists@[0]@)
    } else {
        None
    }
}

/// The stable identifier of a song: the one of its source, or the signature
/// `title|artist` when it has none.
pub open spec fn ident(t: Track) -> Seq<char> {
    match t.external_id {
        Some(id) => id@,
        None => t.title@ + "|"@ + (match first_artist(t) {
            Some(a) => a,
            None => Seq::empty(),
        }),
    }
}

/// The identifier of a song that may be missing.
pub open spec fn opt_ident(t: Option<Track>) -> Option<Seq<char>> {
    match t {
        Some(t) => Some(ident(t)),
        None => None,
    }
}

/// `artist - title`, or the title alone.
pub open spec fn display_text(t: Track) -> Seq<char> {
    match first_artist(t) {
        Some(a) => a + " - "@ + t.title@,
        None => t.title@,
    }
}

impl Track {
    /// A song that is not stored, with nothing known but title, artists and source.
    pub fn new(title: String, artists: Vec<String>, source: Source) -> (r: Track)
        ensures
            r.id == 0,
            r.title == title,
            r.artists@ == artists@,
            r.album is None,
            r.genres@ == Seq::<String>::empty(),
            r.source == source,
            r.duration is None,
            r.external_id is None,
            r.isrc is None,
            r.url is None,
    {
        Track {
            id: 0,
            title,
            artists: Arc::new(artists),
            album: None,
            genres: Arc::new(Vec::new()),
            source,
            duration: None,
            external_id: None,
            isrc: None,
            url: None,
        }
    }

    /// Stable identifier of the song.
    pub fn identifier(&self) -> (r: String)
        ensures
            r@ == ident(*self),
    {
        match &self.external_id {
            Some(id) => id.clone(),
            None => {
                let mut s = self.title.clone();
                s.append("|");
                if let Some(a) = self.primary_artist_name() {
                    s.append(a);
                }
                assert(s@ =~= ident(*self));
                s
            },
        }
    }

    /// Name of the first artist.
    pub fn primary_artist_name(&self) -> (r: Option<&str>)
        ensures
            match first_artist(*self) {
                Some(a) => r is Some && r->0@ == a,
                None => r is None,
            },
    {
        if self.artists.len() > 0 {
            Some(self.artists[0].as_str())
        } else {
            None
        }
    }

    /// `artist - title`, or the title alone when no artist is known.
    pub fn display_title(&self) -> (r: String)
        ensures
            r@ == display_text(*self),
    {
        match self.primary_artist_name() {
            Some(a) => {
                let mut s = a.to_string();
                s.append(" - ");
                s.append(&self.title);
                s
            },
            None => self.title.clone(),
        }
    }

    /// Whether the song has this identifier.
    pub fn has_identifier(&self, key: &String) -> (r: bool)
        ensures
            r == (ident(*self) == key@),
    {
        self.identifier() == *key
    }
}

/// Whether an optional song has this identifier.
pub fn is_song(t: &Option<Track>, key: &String) -> (r: bool)
    ensures
        r == (opt_ident(*t) == Some(key@)),
{
    match t {
        Some(t) => t.has_identifier(key),
        None => false,
    }
}

/// A copy of a list of songs.
pub fn clone_tracks(v: &Vec<Track>) -> (r: Vec<Track>)
    ensures
        r@ == v@,
{
    let mut r: Vec<Track> = Vec::new();
    let mut i: usize = 0;
    while i < v.len()
        invariant
            0 <= i <= v.len(),
            r@ == v@.take(i as int),
        decreases v.len() - i,
    {
        r.push(v[i].clone());
        proof {
            assert(v@.take(i + 1) =~= v@.take(i as int).push(v@[i as int]));
        }
        i = i + 1;
    }
    proof {
        assert(v@.take(v.len() as int) =~= v@);
    }
    r
}

/// The first position at which a song with the identifier `key` stands.
#[verifier::opaque]
pub open spec fn first_position(v: Seq<Track>, key: Seq<char>) -> Option<int> {
    if exists|i: int| 0 <= i < v.len() && ident(#[trigger] v[i]) == key {
        Some(
            choose|i: int|
                0 <= i < v.len() && ident(#[trigger] v[i]) == key && (forall|j: int|
                    0 <= j < i ==> ident(#[trigger] v[j]) != key),
        )
    } else {
        None
    }
}

/// Position of the first song with an identifier.
pub fn position_of(v: &Vec<Track>, key: &String) -> (r: Option<usize>)
    ensures
        match r {
            Some(i) => {
                &&& i < v.len()
                &&& ident(v@[i as int]) == key@
                &&& forall|j: int| 0 <= j < i ==> ident(#[trigger] v@[j]) != key@
            },
            None => forall|j: int| 0 <= j < v.len() ==> ident(#[trigger] v@[j]) != key@,
        },
        r is Some ==> first_position(v@, key@) == Some(r->0 as int),
        r is None ==> first_position(v@, key@) is None,
{
    let mut i: usize = 0;
    while i < v.len()
        invariant
            0 <= i <= v.len(),
            forall|j: int| 0 <= j < i ==> ident(#[trigger] v@[j]) != key@,
        decreases v.len() - i,
    {
        if v[i].has_identifier(key) {
            proof {
                reveal(first_position);
                assert(ident(v@[i as int]) == key@);
            }
            return Some(i);
        }
        i = i + 1;
    }
    proof {
        reveal(first_position);
    }
    None
}

/// How often a song was heard, and whether recently.
#[derive(Debug)]
pub struct TrackListeningStats {
    /// Identifier of the song.
    pub key: String,
    pub recently_played: bool,
    pub play_count: i64,
}

/// One entry of the listening history.
#[derive(Debug)]
pub struct HistoryEntry {
    pub track_id: i64,
    pub title: String,
    pub artist_name: Option<String>,
    pub source: Source,
    pub played_at: String,
    /// Duration in milliseconds, as it was stored.
    pub duration: Option<i64>,
    pub play_count: i64,
}

/// Whose playlist it is. The ones of the system cannot be deleted.
#[derive(Debug, Clone, Copy, PartialEq, Eq, Structural)]
pub enum PlaylistKind {
    System,
    User,
}

impl PlaylistKind {
    pub fn is_user(self) -> (r: bool)
        ensures
            r == (self == PlaylistKind::User),
    {
        matches!(self, PlaylistKind::User)
    }

    pub fn is_system(self) -> (r: bool)
        ensures
            r == (self == PlaylistKind::System),
    {
        matches!(self, PlaylistKind::System)
    }

    pub fn label(self) -> (r: &'static str)
        ensures
            r@ == kind_text(self),
    {
        match self {
            PlaylistKind::System => "sistema",
            PlaylistKind::User => "usuario",
        }
    }
}

pub open spec fn kind_text(k: PlaylistKind) -> Seq<char> {
    match k {
        PlaylistKind::System => "sistema"@,
        PlaylistKind::User => "usuario"@,
    }
}

/// A playlist in the listing.
#[derive(Debug)]
pub struct PlaylistRow {
    pub id: i64,
    pub name: String,
    pub kind: PlaylistKind,
    pub track_count: i64,
}

/// What a search gave: hits first, related songs from `related_from` on.
#[derive(Debug)]
pub struct SearchOutcome {
    pub items: Vec<Track>,
    pub errors: Vec<String>,
    pub related_from: usize,
}

/// A decoded cover.
#[derive(Debug)]
pub struct CoverImage {
    pub width: u32,
    pub height: u32,
    /// Four bytes (red, green, blue, alpha) per pixel, row by row.
    pub rgba: Vec<u8>,
    /// The three dominant colours, when the cover has any.
    pub palette: Option<[[u8; 3]; 3]>,
}

/// The state of a song's cover.
#[derive(Debug)]
pub enum ThumbnailState {
    Loading,
    Loaded(Arc<CoverImage>),
    Failed,
    Missing,
}

/// A line of synchronized lyrics.
#[derive(Debug)]
pub struct LyricLine {
    /// When the line starts.
    pub at: u64,
    pub text: String,
}

/// Synchronized lyrics, in the order of their times.
#[derive(Debug)]
pub struct SyncLyrics {
    pub lines: Vec<LyricLine>,
}

/// No line has started at a position.
pub open spec fn none_started(lines: Seq<LyricLine>, position: u64) -> bool {
    forall|j: int| 0 <= j < lines.len() ==> position < (#[trigger] lines[j]).at
}

impl SyncLyrics {
    pub fn is_empty(&self) -> (r: bool)
        ensures
            r == (self.lines@.len() == 0),
    {
        self.lines.len() == 0
    }

    /// The line being sung at a position: the last one that has started.
    pub fn active_index(&self, position: u64) -> (r: Option<usize>)
        ensures
            match r {
                Some(i) => {
                    &&& i < self.lines@.len()
                    &&& self.lines@[i as int].at <= position
                    &&& forall|j: int| i < j < self.lines@.len() ==> position < (#[trigger] self.lines@[j]).at
                },
                None => forall|j: int|
                    0 <= j < self.lines@.len() ==> position < (#[trigger] self.lines@[j]).at,
            },
            r is None ==> none_started(self.lines@, position),
    {
        let mut i: usize = self.lines.len();
        while i > 0
            invariant
                0 <= i <= self.lines.len(),
                forall|j: int| i <= j < self.lines@.len() ==> position < (#[trigger] self.lines@[j]).at,
            decreases i,
        {
            i = i - 1;
            if self.lines[i].at <= position {
                return Some(i);
            }
        }
        None
    }
}

/// Lyrics as they were found: the text, and the lines read from it.
#[derive(Debug)]
pub struct LyricSheet {
    pub text: String,
    pub lyrics: SyncLyrics,
}

/// The statistics of a song: the last entry with its identifier.
pub open spec fn stats_index(stats: Seq<TrackListeningStats>, key: Seq<char>) -> Option<int>
    decreases stats.len(),
{
    if stats.len() == 0 {
        None
    } else if stats.last().key@ == key {
        Some(stats.len() - 1)
    } else {
        stats_index(stats.drop_last(), key)
    }
}

/// Looks up the statistics of a song.
pub fn find_stats<'a>(stats: &'a Vec<TrackListeningStats>, key: &String) -> (r: Option<
    &'a TrackListeningStats,
>)
    ensures
        match stats_index(stats@, key@) {
            Some(i) => r == Some(&stats@[i]),
            None => r is None,
        },
{
    let mut i: usize = stats.len();
    proof {
        assert(stats@.take(stats.len() as int) =~= stats@);
    }
    while i > 0
        invariant
            0 <= i <= stats.len(),
            stats_index(stats@, key@) == stats_index(stats@.take(i as int), key@),
        decreases i,
    {
        proof {
            assert(stats@.take(i as int).drop_last() =~= stats@.take(i - 1));
            assert(stats@.take(i as int).last() == stats@[i - 1]);
        }
        if stats[i - 1].key == *key {
            return Some(&stats[i - 1]);
        }
        i = i - 1;
    }
    None
}

/// A song with an identifier of its source is known by it whatever its other data.
pub proof fn law_external_id_decides(a: Track, b: Track)
    requires
        a.external_id is Some,
        opt_text(a.external_id) == opt_text(b.external_id),
    ensures
        ident(a) == ident(b),
{
}

/// A song without an identifier of its source is known by its title, a bar and
/// its first artist, and is shown as artist, dash and title; without an artist
/// the title alone is shown.
pub proof fn law_songs_are_named(t: Track, key: String, shown: String)
    requires
        call_ensures(Track::identifier, (&t,), key),
        call_ensures(Track::display_title, (&t,), shown),
    ensures
        t.external_id is Some ==> key@ == t.external_id->0@,
        t.external_id is None && t.artists@.len() > 0 ==> key@ == t.title@ + seq!['|']
            + t.artists@[0]@,
        t.external_id is None && t.artists@.len() == 0 ==> key@ == t.title@ + seq!['|'],
        t.artists@.len() > 0 ==> shown@ == t.artists@[0]@ + seq![' ', '-', ' '] + t.title@,
        t.artists@.len() == 0 ==> shown@ == t.title@,
{
    reveal_strlit("|");
    reveal_strlit(" - ");
    assert("|"@ =~= seq!['|']);
    assert(" - "@ =~= seq![' ', '-', ' ']);
    assert(t.title@ + seq!['|'] + Seq::<char>::empty() =~= t.title@ + seq!['|']);
}

/// A new song is not stored, and nothing is known of it but what was given.
pub proof fn law_new_songs_are_not_stored(title: String, artists: Vec<String>, source: Source, t: Track)
    requires
        call_ensures(Track::new, (title, artists, source), t),
    ensures
        t.id == 0,
        t.title@ == title@,
        t.artists@ == artists@,
        t.external_id is None && t.duration is None && t.album is None && t.url is None,
{
}

/// In lyrics ordered by time the line that is sung is the one whose start has
/// come and whose successor's has not; before the first line it is none.
pub proof fn law_sung_line_has_started(
    lyrics: SyncLyrics,
    position: u64,
    line: Option<usize>,
    i: int,
)
    requires
        call_ensures(SyncLyrics::active_index, (&lyrics, position), line),
        forall|a: int, b: int|
            0 <= a < b < lyrics.lines@.len() ==> (#[trigger] lyrics.lines@[a]).at
                <= (#[trigger] lyrics.lines@[b]).at,
        0 <= i < lyrics.lines@.len(),
    ensures
        line == Some(i as usize) <==> lyrics.lines@[i].at <= position && (i + 1
            == lyrics.lines@.len() || position < lyrics.lines@[i + 1].at),
        line is None <==> position < lyrics.lines@[0].at,
{
    assert(lyrics.lines@.len() == lyrics.lines.len());
    if line is Some {
        let k = line->0 as int;
        if k < i {
            assert(position < lyrics.lines@[i].at);
        } else if i < k {
            if i + 1 < k {
                assert(lyrics.lines@[i + 1].at <= lyrics.lines@[k].at);
            }
            assert(lyrics.lines@[i + 1].at <= position);
        }
        if k > 0 {
            assert(lyrics.lines@[0].at <= lyrics.lines@[k].at);
        }
        if k == i && i + 1 < lyrics.lines@.len() {
            assert(position < lyrics.lines@[i + 1].at);
        }
    } else {
        assert(none_started(lyrics.lines@, position));
    }
}

/// The statistics of a song are the last that were noted under its identifier.
pub proof fn law_last_statistics_count(
    stats: Seq<TrackListeningStats>,
    key: Seq<char>,
)
    ensures
        match stats_index(stats, key) {
            Some(i) => {
                &&& 0 <= i < stats.len()
                &&& stats[i].key@ == key
                &&& forall|j: int| i < j < stats.len() ==> (#[trigger] stats[j]).key@ != key
            },
            None => forall|j: int| 0 <= j < stats.len() ==> (#[trigger] stats[j]).key@ != key,
        },
    decreases stats.len(),
{
    if stats.len() > 0 && stats.last().key@ != key {
        law_last_statistics_count(stats.drop_last(), key);
        assert forall|j: int|
            (match stats_index(stats, key) {
                Some(i) => i < j,
                None => 0 <= j,
            }) && j < stats.len() implies (#[trigger] stats[j]).key@ != key by {
            if j < stats.len() - 1 {
                assert(stats.drop_last()[j] == stats[j]);
            }
        }
    }
}

} // verus!
