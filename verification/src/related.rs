//! The Related screen: lyrics or visualizer above, the queue below.

use vstd::prelude::*;

use crate::domain::{ident, SyncLyrics, Track};
use crate::keyset::KeySet;
use crate::layout::Rect;
use crate::navigation::{ListSelection, ListState};
use crate::playback::{QueueItemOrigin, VisualContent};

verus! {

/// The lines of the lyrics that are on the screen, as a window that moves with
/// the song.
#[derive(Debug)]
pub struct KaraokeScroller {
    /// Indices of the lines shown, top to bottom.
    pub lines: Vec<usize>,
}

impl KaraokeScroller {
    /// Rewinds the window: nothing is shown until the next line.
    pub fn reset(&mut self)
        ensures
            final(self).lines@ == Seq::<usize>::empty(),
    {
        self.lines.clear();
    }

    pub fn is_empty(&self) -> (r: bool)
        ensures
            r == (self.lines@.len() == 0),
    {
        self.lines.len() == 0
    }
}

/// The queue as it is shown, and the lyrics of the song that plays.
#[derive(Debug)]
pub struct RelatedState {
    /// The queue: what is going to play. It survives a change of song.
    pub tracks: Vec<Track>,
    /// Who added each song of the queue.
    pub origins: Vec<QueueItemOrigin>,
    /// Length of the queue before it was last replaced.
    pub previous_len: usize,
    /// Identifiers that the last replacement brought in.
    pub new_ids: KeySet,
    /// The recommendations of the current song alone.
    pub fresh: Vec<Track>,
    pub synced: Option<SyncLyrics>,
    /// The lyrics were looked for and there are none.
    pub synced_unavailable: bool,
    pub scroll: KaraokeScroller,
    pub list_state: ListState,
}

impl Default for RelatedState {
    fn default() -> (r: Self)
        ensures
            r.is_blank(),
    {
        let r = RelatedState {
            tracks: Vec::new(),
            origins: Vec::new(),
            previous_len: 0,
            new_ids: KeySet::new(),
            fresh: Vec::new(),
            synced: None,
            synced_unavailable: false,
            scroll: KaraokeScroller { lines: Vec::new() },
            list_state: ListState { selected: None },
        };
        r
    }
}

/// The identifiers of `queue` that `before` does not have.
pub open spec fn added_idents(before: Seq<Track>, queue: Seq<Track>) -> Set<Seq<char>> {
    Set::new(
        |k: Seq<char>|
            {
                &&& exists|i: int| 0 <= i < queue.len() && ident(#[trigger] queue[i]) == k
                &&& forall|j: int| 0 <= j < before.len() ==> ident(#[trigger] before[j]) != k
            },
    )
}

/// `post` is `pre` without lyrics, as before they were asked for.
pub open spec fn lyrics_cleared(pre: RelatedState, post: RelatedState) -> bool {
    &&& post == (RelatedState {
        scroll: post.scroll,
        synced: None,
        synced_unavailable: false,
        ..pre
    })
    &&& post.scroll.lines@ == Seq::<usize>::empty()
}

/// `post` is `pre` with its window of lyrics rewound.
pub open spec fn scroll_rewound(pre: RelatedState, post: RelatedState) -> bool {
    &&& post == (RelatedState { scroll: post.scroll, ..pre })
    &&& post.scroll.lines@ == Seq::<usize>::empty()
}

/// `post` is `pre` with another queue.
pub open spec fn queue_replaced(
    pre: RelatedState,
    queue: Seq<Track>,
    origins: Seq<QueueItemOrigin>,
    post: RelatedState,
) -> bool {
    &&& post == (RelatedState {
        tracks: post.tracks,
        origins: post.origins,
        previous_len: pre.tracks@.len() as usize,
        new_ids: post.new_ids,
        ..pre
    })
    &&& post.tracks@ == queue
    &&& post.origins@ == origins
    &&& post.new_ids.wf()
    &&& post.new_ids@ == added_idents(pre.tracks@, queue)
}

/// `post` is `pre` with the outcome of looking for lyrics.
pub open spec fn lyrics_set(pre: RelatedState, synced: Option<SyncLyrics>, post: RelatedState) -> bool {
    &&& post == (RelatedState {
        scroll: post.scroll,
        synced,
        synced_unavailable: synced is None,
        ..pre
    })
    &&& post.scroll.lines@ == Seq::<usize>::empty()
}

impl RelatedState {
    pub open spec fn wf(&self) -> bool {
        self.new_ids.wf()
    }

    /// Nothing in it.
    pub open spec fn is_blank(&self) -> bool {
        &&& self.wf()
        &&& self.tracks@ == Seq::<Track>::empty()
        &&& self.origins@ == Seq::<QueueItemOrigin>::empty()
        &&& self.previous_len == 0
        &&& self.new_ids@ == Set::<Seq<char>>::empty()
        &&& self.fresh@ == Seq::<Track>::empty()
        &&& self.synced is None
        &&& !self.synced_unavailable
        &&& self.scroll.lines@ == Seq::<usize>::empty()
        &&& self.list_state.selected is None
    }

    pub fn has_tracks(&self) -> (r: bool)
        ensures
            r == (self.tracks@.len() > 0),
    {
        self.tracks.len() > 0
    }

    /// Shows another queue and marks the songs that were not in the last one.
    pub fn set_queue(&mut self, queue: Vec<Track>, origins: Vec<QueueItemOrigin>)
        ensures
            queue_replaced(*old(self), queue@, origins@, *final(self)),
            final(self).tracks == queue,
            final(self).origins == origins,
    {
        let mut new_ids = KeySet::new();
        let mut i: usize = 0;
        let ghost before = self.tracks@;
        proof {
            assert(new_ids@ =~= added_idents(before, queue@.take(0)));
        }
        while i < queue.len()
            invariant
                0 <= i <= queue.len(),
                *self == *old(self),
                before == self.tracks@,
                new_ids.wf(),
                new_ids@ == added_idents(before, queue@.take(i as int)),
            decreases queue.len() - i,
        {
            let key = queue[i].identifier();
            let known = crate::domain::position_of(&self.tracks, &key);
            proof {
                lemma_added_push(before, queue@, i as int);
            }
            if known.is_none() {
                new_ids.insert(key);
            }
            i = i + 1;
        }
        proof {
            assert(queue@.take(queue.len() as int) =~= queue@);
        }
        self.previous_len = self.tracks.len();
        self.tracks = queue;
        self.origins = origins;
        self.new_ids = new_ids;
    }

    /// Another song: its lyrics have not been asked for.
    pub fn clear_lyrics(&mut self)
        ensures
            lyrics_cleared(*old(self), *final(self)),
    {
        self.scroll.reset();
        self.synced = None;
        self.synced_unavailable = false;
    }

    /// The outcome of looking for lyrics: lyrics, or the certainty that there
    /// are none.
    pub fn set_synced(&mut self, synced: Option<SyncLyrics>)
        ensures
            lyrics_set(*old(self), synced, *final(self)),
    {
        self.scroll.reset();
        match synced {
            Some(s) => {
                self.synced = Some(s);
                self.synced_unavailable = false;
            },
            None => {
                self.synced = None;
                self.synced_unavailable = true;
            },
        }
    }

    pub fn select_next(&mut self)
        ensures
            *final(self) == old(self).with_chosen(
                crate::navigation::stepped(old(self).rows(), old(self).chosen(), true),
            ),
    {
        self.step(true);
    }

    pub fn select_prev(&mut self)
        ensures
            *final(self) == old(self).with_chosen(
                crate::navigation::stepped(old(self).rows(), old(self).chosen(), false),
            ),
    {
        self.step(false);
    }

    /// The selected song.
    pub open spec fn picked(&self) -> Option<Track> {
        match self.list_state.selected {
            Some(i) => if i < self.tracks@.len() {
                Some(self.tracks@[i as int])
            } else {
                None
            },
            None => None,
        }
    }

    /// The selected song.
    pub fn selected(&self) -> (r: Option<&Track>)
        ensures
            match self.picked() {
                Some(t) => r == Some(&t),
                None => r is None,
            },
    {
        match self.list_state.selected() {
            Some(i) => if i < self.tracks.len() {
                Some(&self.tracks[i])
            } else {
                None
            },
            None => None,
        }
    }

    /// Lyrics that can be shown.
    pub open spec fn lyrics_ready(&self) -> bool {
        self.synced is Some && self.synced->0.lines@.len() > 0
    }

    /// Whether there are lyrics to show.
    pub fn has_lyrics(&self) -> (r: bool)
        ensures
            r == self.lyrics_ready(),
    {
        match &self.synced {
            Some(s) => !s.is_empty(),
            None => false,
        }
    }
}

proof fn lemma_added_push(before: Seq<Track>, queue: Seq<Track>, i: int)
    requires
        0 <= i < queue.len(),
    ensures
        added_idents(before, queue.take(i + 1)) == (if forall|j: int|
            0 <= j < before.len() ==> ident(#[trigger] before[j]) != ident(queue[i]) {
            added_idents(before, queue.take(i)).insert(ident(queue[i]))
        } else {
            added_idents(before, queue.take(i))
        }),
{
    let a = queue.take(i);
    let b = queue.take(i + 1);
    let fresh = forall|j: int| 0 <= j < before.len() ==> ident(#[trigger] before[j]) != ident(queue[i]);
    let target = if fresh {
        added_idents(before, a).insert(ident(queue[i]))
    } else {
        added_idents(before, a)
    };
    assert(b[i] == queue[i]);
    assert forall|k: Seq<char>| added_idents(before, b).contains(k) == target.contains(k) by {
        if exists|j: int| 0 <= j < a.len() && ident(#[trigger] a[j]) == k {
            let j = choose|j: int| 0 <= j < a.len() && ident(#[trigger] a[j]) == k;
            assert(ident(b[j]) == k);
        }
        if exists|j: int| 0 <= j < b.len() && ident(#[trigger] b[j]) == k {
            let j = choose|j: int| 0 <= j < b.len() && ident(#[trigger] b[j]) == k;
            if j < i {
                assert(ident(a[j]) == k);
            }
        }
        if k == ident(queue[i]) {
            assert(ident(b[i]) == k);
        }
    }
    assert(added_idents(before, b) =~= target);
}

impl ListSelection for RelatedState {
    open spec fn rows(&self) -> nat {
        self.tracks@.len()
    }

    open spec fn chosen(&self) -> Option<usize> {
        self.list_state.selected
    }

    open spec fn with_chosen(&self, index: Option<usize>) -> Self {
        RelatedState { list_state: ListState { selected: index }, ..*self }
    }

    fn list_len(&self) -> usize {
        self.tracks.len()
    }

    fn cursor(&self) -> Option<usize> {
        self.list_state.selected()
    }

    fn set_cursor(&mut self, index: Option<usize>) {
        self.list_state.select(index);
    }
}

/// What the upper band really shows.
#[derive(Debug, Clone, Copy, PartialEq, Eq, Structural)]
pub enum BandContent {
    /// The visualizer.
    Visual,
    /// Lyrics over the subdued scene.
    Lyrics,
    /// A notice that there are no lyrics.
    Unavailable,
    /// A notice that no lyrics were asked for yet.
    Waiting,
}

/// What a mode shows: the visualizer when asked for, and in automatic mode when
/// there are no lyrics; lyrics when there are any; else a notice.
pub open spec fn band_content(mode: VisualContent, has_lyrics: bool, unavailable: bool) -> BandContent {
    if mode == VisualContent::Visual || (mode == VisualContent::Auto && !has_lyrics) {
        BandContent::Visual
    } else if has_lyrics {
        BandContent::Lyrics
    } else if unavailable {
        BandContent::Unavailable
    } else {
        BandContent::Waiting
    }
}

impl BandContent {
    /// What the band shows in a mode.
    pub fn resolve(mode: VisualContent, has_lyrics: bool, unavailable: bool) -> (r: BandContent)
        ensures
            r == band_content(mode, has_lyrics, unavailable),
    {
        match mode {
            VisualContent::Visual => BandContent::Visual,
            VisualContent::Lyrics => {
                if has_lyrics {
                    BandContent::Lyrics
                } else if unavailable {
                    BandContent::Unavailable
                } else {
                    BandContent::Waiting
                }
            },
            VisualContent::Auto => {
                if has_lyrics {
                    BandContent::Lyrics
                } else {
                    BandContent::Visual
                }
            },
        }
    }

    /// The notice of a band without lyrics.
    pub fn message(self) -> (r: Option<&'static str>)
        ensures
            match self {
                BandContent::Unavailable => r is Some && r->0@
                    == "Letras sincronizadas no disponibles"@,
                BandContent::Waiting => r is Some && r->0@
                    == "Sin letras sincronizadas todavía. Reproduce y vuelve aquí."@,
                _ => r is None,
            },
    {
        match self {
            BandContent::Unavailable => Some("Letras sincronizadas no disponibles"),
            BandContent::Waiting => Some(
                "Sin letras sincronizadas todavía. Reproduce y vuelve aquí.",
            ),
            _ => None,
        }
    }
}

/// The line of the lyrics that is sung: none once the song has ended.
pub fn karaoke_line(state: &RelatedState, position: u64, finished: bool) -> (r: Option<usize>)
    ensures
        finished || !state.lyrics_ready() ==> r is None,
        !finished && state.lyrics_ready() ==> {
            let lines = state.synced->0.lines@;
            match r {
                Some(i) => {
                    &&& i < lines.len()
                    &&& lines[i as int].at <= position
                    &&& forall|j: int| i < j < lines.len() ==> position < (#[trigger] lines[j]).at
                },
                None => forall|j: int| 0 <= j < lines.len() ==> position < (#[trigger] lines[j]).at,
            }
        },
{
    if finished {
        return None;
    }
    match &state.synced {
        Some(s) => if s.is_empty() {
            None
        } else {
            s.active_index(position)
        },
        None => None,
    }
}

/// Where a notice of `len` characters goes: in the middle of the inside of a
/// bordered area, if that is at least four columns wide and not empty.
pub fn message_position(area: Rect, len: u16) -> (r: Option<(u16, u16)>)
    requires
        area.wf(),
    ensures
        area.width < 6 || area.height < 3 ==> r is None,
        area.width >= 6 && area.height >= 3 ==> r == Some(
            (
                (area.x + 1 + crate::layout::monus(area.width - 2, len as int) / 2) as u16,
                (area.y + 1 + (area.height - 3) / 2) as u16,
            ),
        ),
{
    if area.width < 6 || area.height < 3 {
        return None;
    }
    let inner_w: u16 = area.width - 2;
    let inner_h: u16 = area.height - 2;
    let y: u16 = area.y + 1 + (inner_h - 1) / 2;
    let pad: u16 = inner_w.saturating_sub(len) / 2;
    Some((area.x + 1 + pad, y))
}

/// Lyrics on the screen do not depend on a mode that asks for them, and a mode
/// that asks for the visualizer always gets it.
pub proof fn law_band_modes(has_lyrics: bool, unavailable: bool)
    ensures
        band_content(VisualContent::Visual, has_lyrics, unavailable) == BandContent::Visual,
        has_lyrics ==> band_content(VisualContent::Auto, has_lyrics, unavailable)
            == BandContent::Lyrics,
        has_lyrics ==> band_content(VisualContent::Lyrics, has_lyrics, unavailable)
            == BandContent::Lyrics,
        band_content(VisualContent::Lyrics, has_lyrics, unavailable) != BandContent::Visual,
{
}

/// A queue that only repeats what was there brings nothing new in.
pub proof fn law_known_songs_are_not_new(before: Seq<Track>, queue: Seq<Track>)
    requires
        forall|i: int|
            0 <= i < queue.len() ==> exists|j: int|
                0 <= j < before.len() && ident(#[trigger] before[j]) == ident(#[trigger] queue[i]),
    ensures
        added_idents(before, queue) == Set::<Seq<char>>::empty(),
{
    assert forall|k: Seq<char>| !added_idents(before, queue).contains(k) by {
        if added_idents(before, queue).contains(k) {
            let i = choose|i: int| 0 <= i < queue.len() && ident(#[trigger] queue[i]) == k;
            let j = choose|j: int|
                0 <= j < before.len() && ident(#[trigger] before[j]) == ident(queue[i]);
            assert(ident(before[j]) == k);
        }
    }
    assert(added_idents(before, queue) =~= Set::<Seq<char>>::empty());
}

/// Without lyrics the automatic mode shows the visualizer, and the mode that asks
/// for lyrics says that there are none, or that none were asked for yet.
pub proof fn law_band_without_lyrics(
    unavailable: bool,
    auto: BandContent,
    lyrics: BandContent,
    notice: Option<&'static str>,
)
    requires
        call_ensures(BandContent::resolve, (VisualContent::Auto, false, unavailable), auto),
        call_ensures(BandContent::resolve, (VisualContent::Lyrics, false, unavailable), lyrics),
        call_ensures(BandContent::message, (lyrics,), notice),
    ensures
        auto is Visual,
        unavailable ==> lyrics is Unavailable,
        !unavailable ==> lyrics is Waiting,
        notice is Some,
{
}

/// The line that is sung is found in the lyrics of the song, and there is none
/// once the song has ended or while there are no lyrics.
pub proof fn law_sung_line(state: RelatedState, position: u64, finished: bool, line: Option<usize>)
    requires
        call_ensures(karaoke_line, (&state, position, finished), line),
    ensures
        finished ==> line is None,
        state.synced is None ==> line is None,
        line is Some ==> {
            &&& state.synced is Some
            &&& line->0 < state.synced->0.lines@.len()
            &&& state.synced->0.lines@[line->0 as int].at <= position
            &&& line->0 + 1 < state.synced->0.lines@.len() ==> position
                < state.synced->0.lines@[line->0 + 1].at
        },
{
}

/// A notice stands in the middle of its frame: the margins on two opposite sides
/// differ by one at most where it fits.
pub proof fn law_notices_are_centred(area: Rect, len: u16, at: Option<(u16, u16)>)
    requires
        area.wf(),
        call_ensures(message_position, (area, len), at),
    ensures
        at is Some <==> area.width >= 6 && area.height >= 3,
        at is Some && len + 2 <= area.width ==> {
            let (left, right) = (
                (at->0).0 - area.x - 1,
                area.x + area.width - 1 - ((at->0).0 + len),
            );
            left <= right <= left + 1
        },
        at is Some ==> {
            let (above, below) = (
                (at->0).1 - area.y - 1,
                area.y + area.height - 2 - (at->0).1,
            );
            above <= below <= above + 1
        },
{
}

/// Lyrics that are set are there, and that there are none is known; for another song
/// neither holds. The queue stays, and nothing of the last lyrics is shown.
pub proof fn law_lyrics_are_set(
    a: &mut RelatedState,
    found: SyncLyrics,
    b: &mut RelatedState,
    c: &mut RelatedState,
)
    requires
        call_ensures(RelatedState::set_synced, (a, Some(found)), ()),
        call_ensures(RelatedState::set_synced, (b, None::<SyncLyrics>), ()),
        call_ensures(RelatedState::clear_lyrics, (c,), ()),
    ensures
        final(a).synced == Some(found),
        !final(a).synced_unavailable,
        final(b).synced is None,
        final(b).synced_unavailable,
        final(c).synced is None,
        !final(c).synced_unavailable,
        final(a).tracks == old(a).tracks && final(b).tracks == old(b).tracks && final(c).tracks
            == old(c).tracks,
        final(a).scroll.lines@.len() == 0 && final(b).scroll.lines@.len() == 0
            && final(c).scroll.lines@.len() == 0,
{
}

/// A queue that is set is shown as it is, and of its songs exactly those are marked
/// as new whose identifier no song of the last one had.
pub proof fn law_new_songs_are_marked(
    state: &mut RelatedState,
    queue: Vec<Track>,
    origins: Vec<QueueItemOrigin>,
    i: int,
)
    requires
        call_ensures(RelatedState::set_queue, (state, queue, origins), ()),
        0 <= i < queue@.len(),
    ensures
        final(state).tracks@ == queue@,
        final(state).origins@ == origins@,
        final(state).new_ids@.contains(ident(queue@[i])) <==> forall|j: int|
            0 <= j < old(state).tracks@.len() ==> ident(#[trigger] old(state).tracks@[j])
                != ident(queue@[i]),
        final(state).list_state == old(state).list_state,
        final(state).synced == old(state).synced,
{
    assert(0 <= i < queue@.len() && ident(queue@[i]) == ident(queue@[i]));
}

} // verus!
