//! What the jobs of the backend come to, from the command to what the screens
//! are told.

use vstd::prelude::*;

use crate::arrivals::ends_with;
use crate::backend::{
    command_begun, engine_event_begun, job_resumed, source_key, Action, AfterStart, Backend, Job,
    PlayContext, RelatedStage, Reply, Signal, SignalKind, StartStage, Step,
};
use crate::domain::{
    ident, opt_ident, HistoryEntry, LyricSheet, PlaylistRow, SearchOutcome, Source,
    ThumbnailState, Track, TrackListeningStats,
};
use crate::event::{BackendCommand, BackendEvent};
use crate::playback::{PlaybackEvent, PlaybackStatus, QueueItemOrigin, RepeatMode};
use crate::text::opt_text;

verus! {

/// A job from its first step on: each step but the last waits for a reply, and
/// the next step is what the reply makes of it. Other jobs may run in between, so
/// the backend before a reply is not tied to the one after the reply before.
pub open spec fn is_run(
    steps: Seq<Step>,
    replies: Seq<Reply>,
    before: Seq<Backend>,
    after: Seq<Backend>,
) -> bool {
    &&& steps.len() == replies.len() + 1
    &&& before.len() == replies.len()
    &&& after.len() == replies.len()
    &&& forall|i: int|
        #![trigger replies[i]]
        0 <= i < replies.len() ==> steps[i].next is Some && job_resumed(
            before[i],
            (steps[i].next->0).1,
            replies[i],
            after[i],
            steps[i + 1],
        )
}

/// The step asks for lyrics, of the service or of the cache.
pub open spec fn asks_lyrics(s: Step) -> bool {
    s.next is Some && ((s.next->0).0 is FetchLyrics || (s.next->0).0 is CachedLyrics)
}

/// The lyrics that the first `n` replies brought.
pub open spec fn lyrics_found(steps: Seq<Step>, replies: Seq<Reply>, n: int) -> Option<LyricSheet>
    decreases n,
{
    if n <= 0 {
        None
    } else if asks_lyrics(steps[n - 1]) && replies[n - 1] is Lyrics && replies[n - 1]->Lyrics_0 is Some {
        replies[n - 1]->Lyrics_0
    } else {
        lyrics_found(steps, replies, n - 1)
    }
}

/// The lyrics that a stage of the search for recommendations carries.
pub open spec fn lyrics_carried(stage: RelatedStage) -> Option<LyricSheet> {
    match stage {
        RelatedStage::Fetching | RelatedStage::Lyrics(_) | RelatedStage::Cached(..) => None,
        RelatedStage::Looking(_, sheet)
        | RelatedStage::Caching(_, sheet)
        | RelatedStage::Rating(sheet)
        | RelatedStage::Appending(_, sheet) => sheet,
    }
}

/// A step of the search for the recommendations of a song: it waits at a stage
/// that carries `sheet`, or it has ended.
pub open spec fn is_related_step(s: Step, track: Track, generation: u64, sheet: Option<LyricSheet>) -> bool {
    &&& s.next is Some ==> {
        &&& (s.next->0).1 is Related
        &&& (s.next->0).1->Related_0 == track
        &&& (s.next->0).1->Related_1 == generation
        &&& lyrics_carried((s.next->0).1->Related_2) == sheet
        &&& s.emit@.len() == 0
        &&& match (s.next->0).1->Related_2 {
            RelatedStage::Lyrics(_) => (s.next->0).0 is FetchLyrics,
            RelatedStage::Cached(..) => (s.next->0).0 is CachedLyrics,
            _ => !asks_lyrics(s),
        }
    }
    &&& s.emit@.len() <= 1
    &&& s.emit@.len() == 1 ==> {
        &&& s.emit@[0] is Related
        &&& *s.emit@[0]->Related_track == track
        &&& s.emit@[0]->generation == generation
        &&& s.emit@[0]->synced == sheet
    }
}

/// Lyrics that were found are never lost: once a reply brought a sheet, of the
/// service or of the cache, every later stage of the search carries that sheet,
/// and so does the answer that ends it. Until then none does.
pub proof fn law_found_lyrics_are_kept(
    pre: Backend,
    post: Backend,
    track: Box<Track>,
    generation: u64,
    steps: Seq<Step>,
    replies: Seq<Reply>,
    before: Seq<Backend>,
    after: Seq<Backend>,
    n: int,
)
    requires
        is_run(steps, replies, before, after),
        command_begun(pre, BackendCommand::LoadRelated(track, generation), post, steps[0]),
        0 <= n < steps.len(),
    ensures
        is_related_step(steps[n], *track, generation, lyrics_found(steps, replies, n)),
    decreases n,
{
    if n > 0 {
        law_found_lyrics_are_kept(
            pre,
            post,
            track,
            generation,
            steps,
            replies,
            before,
            after,
            n - 1,
        );
        let reply = replies[n - 1];
        let job = (steps[n - 1].next->0).1;
        assert(steps[n - 1].next is Some && job_resumed(
            before[n - 1],
            job,
            reply,
            after[n - 1],
            steps[n],
        ));
        lemma_related_step(before[n - 1], steps[n - 1], reply, after[n - 1], steps[n]);
    }
}

#[verifier::rlimit(40)]
proof fn lemma_related_step(pre: Backend, s: Step, reply: Reply, post: Backend, t: Step)
    requires
        s.next is Some,
        (s.next->0).1 is Related,
        is_related_step(
            s,
            (s.next->0).1->Related_0,
            (s.next->0).1->Related_1,
            lyrics_carried((s.next->0).1->Related_2),
        ),
        job_resumed(pre, (s.next->0).1, reply, post, t),
    ensures
        is_related_step(
            t,
            (s.next->0).1->Related_0,
            (s.next->0).1->Related_1,
            if asks_lyrics(s) && reply is Lyrics && reply->Lyrics_0 is Some {
                reply->Lyrics_0
            } else {
                lyrics_carried((s.next->0).1->Related_2)
            },
        ),
{
}

/// The service was asked for the lyrics of the song within the first `n` replies
/// and had none.
pub open spec fn service_had_none(steps: Seq<Step>, replies: Seq<Reply>, track: Track, n: int) -> bool {
    exists|i: int|
        0 <= i < n && i < replies.len() && #[trigger] replies[i] == Reply::Lyrics(None)
            && steps[i].next is Some && (steps[i].next->0).0 == Action::FetchLyrics(track)
}

/// The cache was asked for the lyrics of the song within the first `n` replies
/// and had none, or there was no number to ask it with: the song is not stored,
/// and its source gave it no identifier or one that is not known.
pub open spec fn cache_had_none(steps: Seq<Step>, replies: Seq<Reply>, track: Track, n: int) -> bool {
    ||| exists|i: int|
        0 <= i < n && i < replies.len() && #[trigger] replies[i] == Reply::Lyrics(None)
            && steps[i].next is Some && (steps[i].next->0).0 is CachedLyrics
    ||| track.id <= 0 && source_key(track).len() == 0
    ||| track.id <= 0 && exists|i: int|
        0 <= i < n && i < replies.len() && #[trigger] replies[i] == Reply::MaybeNumber(None)
            && steps[i].next is Some && (steps[i].next->0).0 is LookupExternal
}

/// What must have happened for a step to carry no lyrics.
pub open spec fn looked_enough(steps: Seq<Step>, replies: Seq<Reply>, track: Track, n: int) -> bool {
    let s = steps[n];
    &&& s.next is Some ==> match (s.next->0).1->Related_2 {
        RelatedStage::Fetching => true,
        RelatedStage::Lyrics(_) => (s.next->0).0 == Action::FetchLyrics(track),
        RelatedStage::Looking(_, sheet) => {
            &&& (s.next->0).0 is LookupExternal
            &&& track.id <= 0
            &&& sheet is None ==> service_had_none(steps, replies, track, n)
        },
        RelatedStage::Cached(..) => {
            &&& (s.next->0).0 is CachedLyrics
            &&& service_had_none(steps, replies, track, n)
        },
        RelatedStage::Caching(_, sheet) => sheet is Some,
        RelatedStage::Rating(sheet) | RelatedStage::Appending(_, sheet) => sheet is None ==> {
            &&& service_had_none(steps, replies, track, n)
            &&& cache_had_none(steps, replies, track, n)
        },
    }
    &&& s.emit@.len() == 1 && s.emit@[0]->synced is None ==> {
        &&& service_had_none(steps, replies, track, n)
        &&& cache_had_none(steps, replies, track, n)
    }
}

/// The answer comes without lyrics only if the service had none and the cache had
/// none either, or could not be asked for want of a number.
pub proof fn law_lyrics_are_looked_for_everywhere(
    pre: Backend,
    post: Backend,
    track: Box<Track>,
    generation: u64,
    steps: Seq<Step>,
    replies: Seq<Reply>,
    before: Seq<Backend>,
    after: Seq<Backend>,
    n: int,
)
    requires
        is_run(steps, replies, before, after),
        command_begun(pre, BackendCommand::LoadRelated(track, generation), post, steps[0]),
        0 <= n < steps.len(),
    ensures
        looked_enough(steps, replies, *track, n),
        steps[n].emit@.len() == 1 && steps[n].emit@[0]->synced is None ==> service_had_none(
            steps,
            replies,
            *track,
            n,
        ) && cache_had_none(steps, replies, *track, n),
    decreases n,
{
    if n > 0 {
        law_lyrics_are_looked_for_everywhere(
            pre,
            post,
            track,
            generation,
            steps,
            replies,
            before,
            after,
            n - 1,
        );
        law_found_lyrics_are_kept(
            pre,
            post,
            track,
            generation,
            steps,
            replies,
            before,
            after,
            n - 1,
        );
        lemma_looked(steps, replies, before, after, *track, generation, n);
    }
}

#[verifier::rlimit(40)]
proof fn lemma_looked(
    steps: Seq<Step>,
    replies: Seq<Reply>,
    before: Seq<Backend>,
    after: Seq<Backend>,
    track: Track,
    generation: u64,
    n: int,
)
    requires
        is_run(steps, replies, before, after),
        0 < n < steps.len(),
        looked_enough(steps, replies, track, n - 1),
        is_related_step(
            steps[n - 1],
            track,
            generation,
            lyrics_found(steps, replies, n - 1),
        ),
    ensures
        looked_enough(steps, replies, track, n),
{
    let reply = replies[n - 1];
    let s = steps[n - 1];
    let t = steps[n];
    let m = n - 1;
    assert(steps[m + 1] == t);
    assert(s.next is Some && job_resumed(before[m], (s.next->0).1, reply, after[m], t));
    let stage = (s.next->0).1->Related_2;
    if service_had_none(steps, replies, track, m) {
        let i = choose|i: int|
            0 <= i < m && i < replies.len() && #[trigger] replies[i] == Reply::Lyrics(None)
                && steps[i].next is Some && (steps[i].next->0).0 == Action::FetchLyrics(track);
        assert(replies[i] == Reply::Lyrics(None));
        assert(service_had_none(steps, replies, track, n));
    }
    if cache_had_none(steps, replies, track, m) {
        if exists|i: int|
            0 <= i < m && i < replies.len() && #[trigger] replies[i] == Reply::Lyrics(None)
                && steps[i].next is Some && (steps[i].next->0).0 is CachedLyrics {
            let i = choose|i: int|
                0 <= i < m && i < replies.len() && #[trigger] replies[i] == Reply::Lyrics(None)
                    && steps[i].next is Some && (steps[i].next->0).0 is CachedLyrics;
            assert(replies[i] == Reply::Lyrics(None));
        } else if !(track.id <= 0 && source_key(track).len() == 0) {
            let i = choose|i: int|
                0 <= i < m && i < replies.len() && #[trigger] replies[i] == Reply::MaybeNumber(
                    None,
                ) && steps[i].next is Some && (steps[i].next->0).0 is LookupExternal;
            assert(replies[i] == Reply::MaybeNumber(None));
        }
        assert(cache_had_none(steps, replies, track, n));
    }
    match stage {
        RelatedStage::Lyrics(_) => {
            if reply == Reply::Lyrics(None) {
                assert(replies[m] == Reply::Lyrics(None));
                assert(service_had_none(steps, replies, track, n));
            }
        },
        RelatedStage::Looking(_, _) => {
            if reply == Reply::MaybeNumber(None) {
                assert(replies[m] == Reply::MaybeNumber(None));
                assert(cache_had_none(steps, replies, track, n));
            }
        },
        RelatedStage::Cached(..) => {
            if reply == Reply::Lyrics(None) {
                assert(replies[m] == Reply::Lyrics(None));
                assert(cache_had_none(steps, replies, track, n));
            }
        },
        _ => {},
    }
}

/// The reply is of the kind that the work of the search for recommendations
/// gives.
pub open spec fn answers_work(action: Action, reply: Reply) -> bool {
    match action {
        Action::FetchRelated(_) => reply is Related,
        Action::FetchLyrics(_) | Action::CachedLyrics(_) => reply is Lyrics,
        Action::LookupExternal(_) => reply is MaybeNumber,
        Action::CacheLyrics(..) => true,
        Action::RateCandidates(_) => reply is Unrated || reply is Rated,
        Action::QueueAppend(_) => reply is Queue,
        _ => false,
    }
}

/// The songs of the first recommendations that the replies brought.
pub open spec fn songs_fetched(replies: Seq<Reply>) -> Seq<Track> {
    if replies.len() > 0 && replies[0] is Related {
        replies[0]->Related_0@
    } else {
        Seq::empty()
    }
}

/// The number under which the cache knows the song: its own if it is stored, else
/// one that was looked up within the first `n` replies.
pub open spec fn is_number_of(id: i64, track: Track, replies: Seq<Reply>, n: int) -> bool {
    &&& track.id > 0 ==> id == track.id
    &&& track.id <= 0 ==> exists|i: int|
        0 <= i < n && i < replies.len() && #[trigger] replies[i] == Reply::MaybeNumber(Some(id))
}

/// What the steps of the search do with the recommendations.
pub open spec fn passes_songs_on(steps: Seq<Step>, replies: Seq<Reply>, track: Track, n: int) -> bool {
    let s = steps[n];
    let fetched = songs_fetched(replies);
    &&& s.next is Some ==> match (s.next->0).1->Related_2 {
        RelatedStage::Fetching => {
            &&& n == 0
            &&& (s.next->0).0 matches Action::FetchRelated(key) && key@ == source_key(track)
        },
        RelatedStage::Lyrics(v) => v@ == fetched && (s.next->0).0 is FetchLyrics,
        RelatedStage::Looking(v, _) => v@ == fetched && track.id <= 0
            && ((s.next->0).0 matches Action::LookupExternal(key) && key@ == source_key(track)),
        RelatedStage::Cached(v, id) => v@ == fetched && (s.next->0).0 == Action::CachedLyrics(id)
            && is_number_of(id, track, replies, n),
        RelatedStage::Caching(v, sheet) => {
            &&& v@ == fetched
            &&& sheet is Some
            &&& (s.next->0).0 matches Action::CacheLyrics(id, text) && text@ == sheet->0.text@
                && is_number_of(id, track, replies, n)
        },
        RelatedStage::Rating(_) => (s.next->0).0 matches Action::RateCandidates(v) && v@ == fetched,
        RelatedStage::Appending(v, _) => {
            &&& (s.next->0).0 matches Action::QueueAppend(w) && w@ == v@
            &&& n > 0
            &&& replies[n - 1] matches Reply::Unrated(u) ==> u@ == v@
            &&& replies[n - 1] matches Reply::Rated(c) ==> crate::taste::taste_ordered(c@) == v@
            &&& replies[n - 1] is Unrated || replies[n - 1] is Rated
        },
    }
    &&& s.next is None && s.emit@.len() == 1 ==> {
        &&& n > 0
        &&& steps[n - 1].next is Some
        &&& (steps[n - 1].next->0).0 matches Action::QueueAppend(w) && w@
            == s.emit@[0]->Related_related@
        &&& replies[n - 1] matches Reply::Queue { queue, origins, shuffle, repeat, len } && queue@
            == s.emit@[0]->Related_queue@ && origins@ == s.emit@[0]->Related_origins@
    }
}

/// The recommendations that were fetched are the ones that are rated, what the
/// rating leaves is appended to the queue, and the answer tells both it and the
/// queue that came of it. Found lyrics are handed to the cache, and missing ones
/// looked for there, under the number of the song. As long as the replies fit the
/// work, the search goes on until it answers.
pub proof fn law_recommendations_reach_the_queue(
    pre: Backend,
    post: Backend,
    track: Box<Track>,
    generation: u64,
    steps: Seq<Step>,
    replies: Seq<Reply>,
    before: Seq<Backend>,
    after: Seq<Backend>,
    n: int,
)
    requires
        is_run(steps, replies, before, after),
        command_begun(pre, BackendCommand::LoadRelated(track, generation), post, steps[0]),
        0 <= n < steps.len(),
    ensures
        passes_songs_on(steps, replies, *track, n),
        (forall|i: int|
            0 <= i < n ==> steps[i].next is Some && answers_work(
                (steps[i].next->0).0,
                #[trigger] replies[i],
            )) ==> steps[n].next is Some || steps[n].emit@.len() == 1,
    decreases n,
{
    if n > 0 {
        law_recommendations_reach_the_queue(
            pre,
            post,
            track,
            generation,
            steps,
            replies,
            before,
            after,
            n - 1,
        );
        law_found_lyrics_are_kept(
            pre,
            post,
            track,
            generation,
            steps,
            replies,
            before,
            after,
            n - 1,
        );
        lemma_passes_on(steps, replies, before, after, *track, generation, n);
    }
}

#[verifier::rlimit(40)]
proof fn lemma_passes_on(
    steps: Seq<Step>,
    replies: Seq<Reply>,
    before: Seq<Backend>,
    after: Seq<Backend>,
    track: Track,
    generation: u64,
    n: int,
)
    requires
        is_run(steps, replies, before, after),
        0 < n < steps.len(),
        passes_songs_on(steps, replies, track, n - 1),
        is_related_step(
            steps[n - 1],
            track,
            generation,
            lyrics_found(steps, replies, n - 1),
        ),
    ensures
        passes_songs_on(steps, replies, track, n),
        answers_work((steps[n - 1].next->0).0, replies[n - 1]) ==> steps[n].next is Some
            || steps[n].emit@.len() == 1,
{
    let m = n - 1;
    let reply = replies[m];
    let s = steps[m];
    let t = steps[n];
    assert(steps[m + 1] == t);
    assert(s.next is Some && job_resumed(before[m], (s.next->0).1, reply, after[m], t));
    if (s.next->0).1->Related_2 is Fetching {
        assert(m == 0);
    }
    if (s.next->0).1->Related_2 is Looking && reply is MaybeNumber && reply->MaybeNumber_0 is Some {
        let id = reply->MaybeNumber_0->0;
        assert(replies[m] == Reply::MaybeNumber(Some(id)));
        assert(is_number_of(id, track, replies, n));
    }
    if (s.next->0).1->Related_2 is Cached {
        let id = (s.next->0).1->Related_2->Cached_1;
        if track.id <= 0 {
            let i = choose|i: int|
                0 <= i < m && i < replies.len() && #[trigger] replies[i] == Reply::MaybeNumber(
                    Some(id),
                );
            assert(replies[i] == Reply::MaybeNumber(Some(id)));
        }
        assert(is_number_of(id, track, replies, n));
    }
}

/// The command asks for this work and nothing else, and this reply makes it tell
/// this event and end. The backend stays as it is.
pub open spec fn one_round(cmd: BackendCommand, action: Action, reply: Reply, event: BackendEvent) -> bool {
    forall|pre: Backend, post: Backend, s: Step|
        #[trigger] command_begun(pre, cmd, post, s) ==> {
            &&& post == pre
            &&& s.emit@.len() == 0
            &&& s.next is Some
            &&& (s.next->0).0 == action
            &&& forall|b: Backend, c: Backend, t: Step|
                #[trigger] job_resumed(b, (s.next->0).1, reply, c, t) ==> {
                    &&& c == b
                    &&& t.next is None
                    &&& t.emit@ == seq![event]
                }
        }
}

/// The command ends with an error that ends in `e` when its work is answered by
/// this reply.
pub open spec fn round_fails(cmd: BackendCommand, reply: Reply, e: Seq<char>) -> bool {
    forall|pre: Backend, post: Backend, s: Step, b: Backend, c: Backend, t: Step|
        #[trigger] command_begun(pre, cmd, post, s) && s.next is Some && #[trigger] job_resumed(
            b,
            (s.next->0).1,
            reply,
            c,
            t,
        ) ==> {
            &&& c == b
            &&& t.next is None
            &&& t.emit@.len() == 1
            &&& t.emit@[0] is Error
            &&& ends_with(t.emit@[0]->Error_0@, e)
        }
}

proof fn lemma_ends_with(a: Seq<char>, b: Seq<char>)
    ensures
        ends_with(a + b, b),
{
    assert((a + b).skip((a + b).len() - b.len()) =~= b);
}

/// A search asks the catalogue for the query, for ten results at most, and tells
/// what it found together with the query; saving a song tells the number that it
/// got.
pub proof fn law_search_and_save(
    query: String,
    outcome: SearchOutcome,
    track: Box<Track>,
    id: i64,
)
    ensures
        one_round(
            BackendCommand::Search(query),
            Action::SearchCatalog(query, 10),
            Reply::Found(Some(Ok(outcome))),
            BackendEvent::SearchResults { query, outcome: Box::new(outcome) },
        ),
        one_round(
            BackendCommand::SaveTrack(track),
            Action::StoreTrack(*track),
            Reply::Number(Ok(id)),
            BackendEvent::TrackSaved { track, internal_id: id },
        ),
{
}

/// The requests of the screens are answered with what the store holds.
pub proof fn law_requests_are_answered(
    entries: Vec<HistoryEntry>,
    stats: Vec<TrackListeningStats>,
    sources: Vec<Source>,
    rows: Vec<PlaylistRow>,
    tracks: Vec<Track>,
    id: i64,
)
    ensures
        one_round(
            BackendCommand::LoadHistory,
            Action::RecentHistory(30),
            Reply::History(Ok(entries)),
            BackendEvent::History(entries),
        ),
        one_round(
            BackendCommand::LoadListeningStats,
            Action::LoadStats,
            Reply::Stats(Ok(stats)),
            BackendEvent::ListeningStats(stats),
        ),
        one_round(
            BackendCommand::LoadSources,
            Action::AvailableSources,
            Reply::Sources(sources),
            BackendEvent::Sources(sources),
        ),
        one_round(
            BackendCommand::ListPlaylists,
            Action::ListPlaylists,
            Reply::Rows(Ok(rows)),
            BackendEvent::Playlists(rows),
        ),
        one_round(
            BackendCommand::PlaylistTracks(id),
            Action::PlaylistTracks(id),
            Reply::Tracks(Ok(tracks)),
            BackendEvent::PlaylistTracks { playlist_id: id, tracks },
        ),
        one_round(
            BackendCommand::LoadLiked,
            Action::LikedTracks,
            Reply::Tracks(Ok(tracks)),
            BackendEvent::L1K3D(tracks),
        ),
        one_round(
            BackendCommand::SaveSettings,
            Action::PersistSettings,
            Reply::Unit(Ok(())),
            BackendEvent::Settings,
        ),
{
}

/// The orders to the engine are passed on as they are, and the state after them
/// is told, or the failure.
pub proof fn law_engine_orders(status: PlaybackStatus, e: String, volume: u8)
    ensures
        one_round(
            BackendCommand::Pause,
            Action::Pause,
            Reply::Played(Ok(status)),
            BackendEvent::Playback(status),
        ),
        one_round(
            BackendCommand::Resume,
            Action::Resume,
            Reply::Played(Ok(status)),
            BackendEvent::Playback(status),
        ),
        one_round(
            BackendCommand::Stop,
            Action::Stop,
            Reply::Played(Ok(status)),
            BackendEvent::Playback(status),
        ),
        one_round(
            BackendCommand::Volume(volume),
            Action::SetVolume(volume),
            Reply::Played(Ok(status)),
            BackendEvent::Playback(status),
        ),
        one_round(
            BackendCommand::Pause,
            Action::Pause,
            Reply::Played(Err(e)),
            BackendEvent::PlaybackError(e),
        ),
        one_round(
            BackendCommand::Resume,
            Action::Resume,
            Reply::Played(Err(e)),
            BackendEvent::PlaybackError(e),
        ),
        one_round(
            BackendCommand::Stop,
            Action::Stop,
            Reply::Played(Err(e)),
            BackendEvent::PlaybackError(e),
        ),
        one_round(
            BackendCommand::Volume(volume),
            Action::SetVolume(volume),
            Reply::Played(Err(e)),
            BackendEvent::PlaybackError(e),
        ),
{
}

/// A change of the queue or of its modes is carried out as it was asked for, and
/// told as the queue then is.
pub proof fn law_queue_orders(
    tracks: Vec<Track>,
    on: bool,
    mode: RepeatMode,
    queue: Vec<Track>,
    origins: Vec<QueueItemOrigin>,
    shuffle: bool,
    repeat: RepeatMode,
    len: usize,
)
    ensures
        one_round(
            BackendCommand::ReplaceQueue(tracks),
            Action::QueueReplace(tracks),
            Reply::Queue { queue, origins, shuffle, repeat, len },
            BackendEvent::QueueState { shuffle, repeat, len },
        ),
        one_round(
            BackendCommand::ReplaceAutoplay(tracks),
            Action::QueueReplaceAutoplay(tracks),
            Reply::Queue { queue, origins, shuffle, repeat, len },
            BackendEvent::Queue { queue, origins },
        ),
        one_round(
            BackendCommand::SetShuffle(on),
            Action::QueueShuffle(on),
            Reply::Queue { queue, origins, shuffle, repeat, len },
            BackendEvent::QueueState { shuffle, repeat, len },
        ),
        one_round(
            BackendCommand::SetRepeat(mode),
            Action::QueueRepeat(mode),
            Reply::Queue { queue, origins, shuffle, repeat, len },
            BackendEvent::QueueState { shuffle, repeat, len },
        ),
{
}

/// A failed request is told as an error that ends with the cause.
pub proof fn law_failures_name_their_cause(
    query: String,
    track: Box<Track>,
    id: i64,
    other: i64,
    to: usize,
    name: String,
    e: String,
)
    ensures
        round_fails(BackendCommand::Search(query), Reply::Found(Some(Err(e))), e@),
        round_fails(BackendCommand::SaveTrack(track), Reply::Number(Err(e)), e@),
        round_fails(BackendCommand::SaveSettings, Reply::Unit(Err(e)), e@),
        round_fails(BackendCommand::LoadHistory, Reply::History(Err(e)), e@),
        round_fails(BackendCommand::LoadListeningStats, Reply::Stats(Err(e)), e@),
        round_fails(BackendCommand::ListPlaylists, Reply::Rows(Err(e)), e@),
        round_fails(BackendCommand::PlaylistTracks(id), Reply::Tracks(Err(e)), e@),
        round_fails(BackendCommand::LoadLiked, Reply::Tracks(Err(e)), e@),
        round_fails(BackendCommand::CreatePlaylist(name), Reply::Unit(Err(e)), e@),
        round_fails(BackendCommand::RenamePlaylist(id, name), Reply::Unit(Err(e)), e@),
        round_fails(BackendCommand::DeletePlaylist(id), Reply::Unit(Err(e)), e@),
        round_fails(BackendCommand::AddToPlaylist(id, other), Reply::Unit(Err(e)), e@),
        round_fails(BackendCommand::RemoveFromPlaylist(id, other), Reply::Unit(Err(e)), e@),
        round_fails(BackendCommand::MovePlaylistTrack(id, other, to), Reply::Unit(Err(e)), e@),
        round_fails(BackendCommand::SetArtworkOverride(id, name), Reply::Unit(Err(e)), e@),
        round_fails(BackendCommand::PlayPlaylist(id), Reply::Tracks(Err(e)), e@),
        round_fails(BackendCommand::ToggleLiked(track), Reply::Number(Err(e)), e@),
{
    lemma_ends_with("búsqueda: "@, e@);
    lemma_ends_with("guardar: "@, e@);
    lemma_ends_with("guardar ajustes: "@, e@);
    lemma_ends_with("historial: "@, e@);
    lemma_ends_with("estadísticas: "@, e@);
    lemma_ends_with("playlists: "@, e@);
    lemma_ends_with("tracks playlist: "@, e@);
    lemma_ends_with("L1K3D: "@, e@);
    lemma_ends_with("crear playlist: "@, e@);
    lemma_ends_with("renombrar playlist: "@, e@);
    lemma_ends_with("borrar playlist: "@, e@);
    lemma_ends_with("añadir: "@, e@);
    lemma_ends_with("quitar: "@, e@);
    lemma_ends_with("reordenar: "@, e@);
    lemma_ends_with("portada: "@, e@);
    lemma_ends_with("playlist: "@, e@);
}

/// The reply brings the job to this work, tells nothing and leaves the backend as
/// it is; `then` is the job that waits for it.
pub open spec fn goes_on(job: Job, reply: Reply, action: Action, then: Job) -> bool {
    forall|b: Backend, c: Backend, t: Step|
        #[trigger] job_resumed(b, job, reply, c, t) ==> {
            &&& c == b
            &&& t.emit@.len() == 0
            &&& t.next is Some
            &&& (t.next->0).0 == action
            &&& (t.next->0).1 == then
        }
}

/// The reply ends the job with these events and leaves the backend as it is.
pub open spec fn is_told(job: Job, reply: Reply, events: Seq<BackendEvent>) -> bool {
    forall|b: Backend, c: Backend, t: Step|
        #[trigger] job_resumed(b, job, reply, c, t) ==> {
            &&& c == b
            &&& t.next is None
            &&& t.emit@ == events
        }
}

/// The command begins with this work, tells nothing and leaves the backend as it
/// is; `job` waits for it.
pub open spec fn begins(cmd: BackendCommand, action: Action, job: Job) -> bool {
    forall|pre: Backend, post: Backend, s: Step|
        #[trigger] command_begun(pre, cmd, post, s) ==> {
            &&& post == pre
            &&& s.emit@.len() == 0
            &&& s.next is Some
            &&& (s.next->0).0 == action
            &&& (s.next->0).1 == job
        }
}

/// A change of the playlists is carried out as it was asked for; then they are
/// listed anew and the listing is told.
pub proof fn law_playlist_changes_are_listed(
    cmd: BackendCommand,
    rows: Vec<PlaylistRow>,
    pre: Backend,
    post: Backend,
    s: Step,
    b: Backend,
    c: Backend,
    t: Step,
    d: Backend,
    f: Backend,
    u: Step,
)
    requires
        cmd is CreatePlaylist || cmd is RenamePlaylist || cmd is DeletePlaylist
            || cmd is AddToPlaylist || cmd is RemoveFromPlaylist,
        command_begun(pre, cmd, post, s),
        s.next is Some,
        job_resumed(b, (s.next->0).1, Reply::Unit(Ok(())), c, t),
        t.next is Some,
        job_resumed(d, (t.next->0).1, Reply::Rows(Ok(rows)), f, u),
    ensures
        (s.next->0).0 == (match cmd {
            BackendCommand::CreatePlaylist(name) => Action::CreatePlaylist(name),
            BackendCommand::RenamePlaylist(id, name) => Action::RenamePlaylist(id, name),
            BackendCommand::DeletePlaylist(id) => Action::DeletePlaylist(id),
            BackendCommand::AddToPlaylist(id, song) => Action::AddToPlaylist(id, song),
            BackendCommand::RemoveFromPlaylist(id, song) => Action::RemoveFromPlaylist(id, song),
            _ => Action::Stop,
        }),
        (t.next->0).0 is ListPlaylists,
        u.next is None,
        u.emit@ == seq![BackendEvent::Playlists(rows)],
        post == pre && c == b && f == d,
{
}

/// A move of a song within a playlist is carried out as it was asked for; then
/// the songs of that playlist are loaded and told.
pub proof fn law_moved_songs_are_told(
    id: i64,
    song: i64,
    to: usize,
    tracks: Vec<Track>,
    pre: Backend,
    post: Backend,
    s: Step,
    b: Backend,
    c: Backend,
    t: Step,
    d: Backend,
    f: Backend,
    u: Step,
)
    requires
        command_begun(pre, BackendCommand::MovePlaylistTrack(id, song, to), post, s),
        s.next is Some,
        job_resumed(b, (s.next->0).1, Reply::Unit(Ok(())), c, t),
        t.next is Some,
        job_resumed(d, (t.next->0).1, Reply::Tracks(Ok(tracks)), f, u),
    ensures
        (s.next->0).0 == Action::MovePlaylistTrack(id, song, to),
        (t.next->0).0 == Action::PlaylistTracks(id),
        u.next is None,
        u.emit@.len() == 2,
        u.emit@[0] == (BackendEvent::PlaylistTracks { playlist_id: id, tracks }),
        u.emit@[1] is Message,
        post == pre && c == b && f == d,
{
}

/// The pause key pauses what plays, goes on with what is paused, and else only
/// tells the state. After it the new state is told, or the old one if it failed.
pub proof fn law_toggling(
    pre: Backend,
    post: Backend,
    s: Step,
    status: PlaybackStatus,
    b: Backend,
    c: Backend,
    t: Step,
    result: Result<PlaybackStatus, String>,
    d: Backend,
    f: Backend,
    u: Step,
)
    requires
        command_begun(pre, BackendCommand::Toggle, post, s),
        s.next is Some,
        job_resumed(b, (s.next->0).1, Reply::Status(status), c, t),
        t.next is Some ==> job_resumed(d, (t.next->0).1, Reply::Played(result), f, u),
    ensures
        (s.next->0).0 is EngineStatus,
        status.state is Playing ==> t.next is Some && (t.next->0).0 is Pause && t.emit@.len() == 0,
        status.state is Paused ==> t.next is Some && (t.next->0).0 is Resume && t.emit@.len() == 0,
        status.state is Stopped || status.state is Buffering || status.state is Seeking
            ==> t.next is None && t.emit@ == seq![BackendEvent::Playback(status)],
        t.next is Some ==> u.next is None && u.emit@ == seq![
            BackendEvent::Playback(
                if result is Ok {
                    result->Ok_0
                } else {
                    status
                },
            ),
        ],
{
}

/// Switching the mark of a song over stores the song, reads its mark, writes the
/// opposite under the same number, records that as liking or as not liking any
/// more, and tells the new mark of that song together with the listing.
pub proof fn law_marks_are_switched_over(
    track: Box<Track>,
    id: i64,
    liked: bool,
    noted: Reply,
    rows: Vec<PlaylistRow>,
)
    ensures
        begins(
            BackendCommand::ToggleLiked(track),
            Action::StoreTrack(*track),
            Job::LikeStoring(*track),
        ),
        goes_on(
            Job::LikeStoring(*track),
            Reply::Number(Ok(id)),
            Action::IsLiked(id),
            Job::LikeReading(*track, id),
        ),
        goes_on(
            Job::LikeReading(*track, id),
            Reply::Flag(Ok(liked)),
            Action::SetLiked(id, !liked),
            Job::LikeWriting(*track, id, !liked),
        ),
        goes_on(
            Job::LikeWriting(*track, id, !liked),
            Reply::Unit(Ok(())),
            Action::RecordSignal(
                Signal {
                    track_id: id,
                    kind: if liked {
                        SignalKind::Unlike
                    } else {
                        SignalKind::Like
                    },
                    context: PlayContext::Manual,
                    listened_ms: None,
                    total_ms: None,
                },
            ),
            Job::LikeSignalling(*track, !liked),
        ),
        goes_on(
            Job::LikeSignalling(*track, !liked),
            noted,
            Action::ListPlaylists,
            Job::LikeListing(*track, !liked),
        ),
        is_told(
            Job::LikeListing(*track, !liked),
            Reply::Rows(Ok(rows)),
            seq![
                BackendEvent::L1K3DChanged { track, liked: !liked },
                BackendEvent::Playlists(rows),
            ],
        ),
{
}

/// A song is being started: it is the current one with the way it came to be
/// played, it may be recovered once, and the queue is anchored at it; autoplay
/// stays as it was.
pub open spec fn is_starting(
    pre: Backend,
    track: Track,
    context: PlayContext,
    after: AfterStart,
    post: Backend,
    s: Step,
) -> bool {
    &&& post.current == Some(track)
    &&& post.current_context == Some(context)
    &&& opt_text(post.recovery_budget.armed) == Some(ident(track))
    &&& post.autoplay == pre.autoplay
    &&& s.emit@.len() == 0
    &&& s.next is Some
    &&& (s.next->0).0 is QueueMarkPlayed
    &&& (s.next->0).0->QueueMarkPlayed_0@ == ident(track)
    &&& (s.next->0).1 == Job::Start(track, context, after, StartStage::Marking)
}

/// Playing a song starts it as chosen by hand; a jump on the current song reaches
/// the engine as it is; switching autoplay over only does that; and the settings
/// form is told without further work.
pub proof fn law_first_steps(
    pre: Backend,
    track: Box<Track>,
    played: Backend,
    s: Step,
    second: u64,
    song: String,
    sought: Backend,
    t: Step,
    on: bool,
    switched: Backend,
    u: Step,
    shown: Backend,
    v: Step,
)
    requires
        command_begun(pre, BackendCommand::Play(track), played, s),
        command_begun(pre, BackendCommand::Seek(second, song), sought, t),
        command_begun(pre, BackendCommand::SetAutoplay(on), switched, u),
        command_begun(pre, BackendCommand::LoadSettings, shown, v),
    ensures
        is_starting(pre, *track, PlayContext::Manual, AfterStart::Play, played, s),
        sought == pre,
        t.emit@.len() == 0,
        opt_ident(pre.current) == Some(song@) ==> t.next is Some && (t.next->0).0
            == Action::SeekTo(second),
        opt_ident(pre.current) != Some(song@) ==> t.next is None,
        switched.autoplay == on,
        switched == (Backend { autoplay: on, ..pre }),
        u.next is None && u.emit@.len() == 0,
        shown == pre,
        v.next is None && v.emit@ == seq![BackendEvent::Settings],
{
}

/// The song that the engine reports, or else the one that was asked for, with the
/// duration that the engine reports if its own is unknown.
pub open spec fn is_reported_song(song: Track, asked: Track, status: PlaybackStatus) -> bool {
    let base = if status.track is Some {
        status.track->0
    } else {
        asked
    };
    &&& song == (Track { duration: song.duration, ..base })
    &&& base.duration is Some ==> song.duration == base.duration
    &&& base.duration is None ==> song.duration == status.duration
}

/// The start of a song whose work all succeeds, whatever follows it: once the
/// queue is anchored the song is played, what the engine reports is stored, the
/// listening is recorded under the number it got there, its sound profile begun,
/// its history written, and the statistics loaded. None of these tells anything.
pub proof fn law_started_songs_are_recorded(
    track: Track,
    context: PlayContext,
    after: AfterStart,
    anchored: Reply,
    status: PlaybackStatus,
    song: Track,
    id: i64,
    noted: Reply,
    begun: Reply,
)
    requires
        is_reported_song(song, track, status),
    ensures
        goes_on(
            Job::Start(track, context, after, StartStage::Marking),
            anchored,
            Action::PlayStream(track),
            Job::Start(track, context, after, StartStage::Playing),
        ),
        goes_on(
            Job::Start(track, context, after, StartStage::Playing),
            Reply::Played(Ok(status)),
            Action::StoreTrack(song),
            Job::Start(
                song,
                context,
                after,
                StartStage::Storing(PlaybackStatus { track: Some(song), ..status }),
            ),
        ),
        goes_on(
            Job::Start(song, context, after, StartStage::Storing(status)),
            Reply::Number(Ok(id)),
            Action::RecordSignal(
                Signal {
                    track_id: id,
                    kind: SignalKind::Play,
                    context,
                    listened_ms: None,
                    total_ms: match song.duration {
                        Some(ns) => Some((ns / 1_000_000) as i64),
                        None => None,
                    },
                },
            ),
            Job::Start(song, context, after, StartStage::Signalling(status, id)),
        ),
        goes_on(
            Job::Start(song, context, after, StartStage::Signalling(status, id)),
            noted,
            Action::BeginAcoustic(id),
            Job::Start(song, context, after, StartStage::Profiling(status, id)),
        ),
        goes_on(
            Job::Start(song, context, after, StartStage::Profiling(status, id)),
            begun,
            Action::RecordHistory { track_id: id, source: song.source, duration: song.duration },
            Job::Start(song, context, after, StartStage::Recording(status, id)),
        ),
{
}

/// After the history is written the current song has the number it is stored
/// under, and its duration if that was unknown; the statistics are loaded, and
/// with them the start is told as the engine reported it. A playlist that became
/// the queue is told first.
pub proof fn law_started_songs_are_told(
    song: Track,
    context: PlayContext,
    after: AfterStart,
    status: PlaybackStatus,
    id: i64,
    stats: Vec<TrackListeningStats>,
    b: Backend,
    c: Backend,
    t: Step,
    d: Backend,
    f: Backend,
    u: Step,
)
    requires
        job_resumed(
            b,
            Job::Start(song, context, after, StartStage::Recording(status, id)),
            Reply::Unit(Ok(())),
            c,
            t,
        ),
        t.next is Some ==> job_resumed(d, (t.next->0).1, Reply::Stats(Ok(stats)), f, u),
    ensures
        t.next is Some && (t.next->0).0 is LoadStats && t.emit@.len() == 0,
        b.current is Some ==> {
            &&& c.current is Some
            &&& c.current->0.id == id
            &&& c.current->0 == (Track {
                id,
                duration: c.current->0.duration,
                ..b.current->0
            })
            &&& b.current->0.duration is Some ==> c.current->0.duration == b.current->0.duration
            &&& b.current->0.duration is None ==> c.current->0.duration == song.duration
        },
        b.current is None ==> c.current is None,
        c.autoplay == b.autoplay && c.current_context == b.current_context && c.recovery_budget
            == b.recovery_budget,
        f == d,
        u.next is None,
        u.emit@.len() > 0,
        u.emit@.last() == (BackendEvent::PlaybackStarted { status, stats }),
        match after {
            AfterStart::Playlist { queue, origins, shuffle, repeat, len } => {
                &&& u.emit@.len() == 3
                &&& u.emit@[0] == (BackendEvent::Queue { queue, origins })
                &&& u.emit@[1] == (BackendEvent::QueueState { shuffle, repeat, len })
            },
            _ => u.emit@.len() == 1,
        },
{
}

/// A song that cannot be played ends its start with the cause: after a choice by
/// hand as a playback error, after a skip as a message, after a playlist became
/// the queue behind that queue; after autoplay it is first asked whether another
/// song was played meanwhile, and only if not it is told.
pub proof fn law_failed_starts_name_their_cause(
    track: Track,
    context: PlayContext,
    after: AfterStart,
    e: String,
    b: Backend,
    c: Backend,
    t: Step,
    empty: bool,
    last_played: Option<String>,
    d: Backend,
    f: Backend,
    u: Step,
)
    requires
        job_resumed(
            b,
            Job::Start(track, context, after, StartStage::Playing),
            Reply::Played(Err(e)),
            c,
            t,
        ),
        t.next is Some ==> job_resumed(
            d,
            (t.next->0).1,
            Reply::QueueInfo { empty, last_played },
            f,
            u,
        ),
    ensures
        c == b,
        !(after is Autoplay) ==> t.next is None,
        after is Play ==> t.emit@.len() == 1 && t.emit@[0] is PlaybackError
            && t.emit@[0]->PlaybackError_0@ == e@,
        after is Skip ==> t.emit@.len() == 1 && t.emit@[0] is Message && ends_with(
            t.emit@[0]->Message_0@,
            e@,
        ),
        match after {
            AfterStart::Playlist { queue, origins, shuffle, repeat, len } => {
                &&& t.emit@.len() == 3
                &&& t.emit@[0] == (BackendEvent::Queue { queue, origins })
                &&& t.emit@[1] == (BackendEvent::QueueState { shuffle, repeat, len })
                &&& t.emit@[2] is PlaybackError
                &&& t.emit@[2]->PlaybackError_0@ == e@
            },
            AfterStart::Autoplay(finished) => {
                &&& t.emit@.len() == 0
                &&& t.next is Some
                &&& (t.next->0).0 is QueueInfo
                &&& u.next is None
                &&& opt_text(last_played) != opt_text(finished) ==> u.emit@.len() == 0
                &&& opt_text(last_played) == opt_text(finished) ==> u.emit@.len() == 1
                    && u.emit@[0] is PlaybackError && ends_with(u.emit@[0]->PlaybackError_0@, e@)
            },
            _ => true,
        },
{
    lemma_ends_with("salto: "@, e@);
    lemma_ends_with("autoplay: "@, e@);
}

/// A skip asks the queue for the song after (or before) the anchor. If the song
/// that is left is stored, its skip is recorded with the way it came to be
/// played, and then the neighbour starts, as chosen from the queue. Without a
/// neighbour nothing starts.
pub proof fn law_skips(
    forward: bool,
    next: Track,
    pre: Backend,
    post: Backend,
    s: Step,
    b: Backend,
    c: Backend,
    t: Step,
    noted: Reply,
    d: Backend,
    f: Backend,
    u: Step,
    g: Backend,
    none: Step,
)
    requires
        command_begun(
            pre,
            if forward {
                BackendCommand::NextTrack
            } else {
                BackendCommand::PrevTrack
            },
            post,
            s,
        ),
        s.next is Some,
        job_resumed(b, (s.next->0).1, Reply::Picked(Some(next)), c, t),
        job_resumed(b, (s.next->0).1, Reply::Picked(None), g, none),
        b.current is Some && b.current->0.id > 0 ==> t.next is Some && job_resumed(
            d,
            (t.next->0).1,
            noted,
            f,
            u,
        ),
    ensures
        post == pre,
        (s.next->0).0 == Action::QueuePick(forward, None),
        b.current is None || b.current->0.id <= 0 ==> is_starting(
            b,
            next,
            PlayContext::Queue,
            AfterStart::Skip,
            c,
            t,
        ),
        b.current is Some && b.current->0.id > 0 ==> {
            &&& c == b
            &&& t.emit@.len() == 0
            &&& (t.next->0).0 == Action::RecordSignal(
                Signal {
                    track_id: b.current->0.id,
                    kind: SignalKind::Skip,
                    context: if b.current_context is Some {
                        b.current_context->0
                    } else {
                        PlayContext::Manual
                    },
                    listened_ms: None,
                    total_ms: None,
                },
            )
            &&& is_starting(d, next, PlayContext::Queue, AfterStart::Skip, f, u)
        },
        g == b,
        none.next is None && none.emit@.len() == 1 && none.emit@[0] is Message,
{
}

/// Playing a playlist loads its songs, makes them the queue, and starts the first
/// of them; a playlist without songs changes nothing and says so.
pub proof fn law_playlists_are_played_from_the_start(
    id: i64,
    tracks: Vec<Track>,
    queue: Vec<Track>,
    origins: Vec<QueueItemOrigin>,
    shuffle: bool,
    repeat: RepeatMode,
    len: usize,
    pre: Backend,
    post: Backend,
    s: Step,
    b: Backend,
    c: Backend,
    t: Step,
    d: Backend,
    f: Backend,
    u: Step,
)
    requires
        command_begun(pre, BackendCommand::PlayPlaylist(id), post, s),
        s.next is Some,
        job_resumed(b, (s.next->0).1, Reply::Tracks(Ok(tracks)), c, t),
        t.next is Some ==> job_resumed(
            d,
            (t.next->0).1,
            Reply::Queue { queue, origins, shuffle, repeat, len },
            f,
            u,
        ),
    ensures
        post == pre && c == b,
        (s.next->0).0 == Action::PlaylistTracks(id),
        tracks@.len() == 0 ==> t.next is None && t.emit@.len() == 1 && t.emit@[0] is Message,
        tracks@.len() > 0 ==> {
            &&& t.next is Some
            &&& t.emit@.len() == 0
            &&& (t.next->0).0 == Action::QueueSetPlaylist(tracks)
            &&& is_starting(
                d,
                tracks@[0],
                PlayContext::Manual,
                AfterStart::Playlist { queue, origins, shuffle, repeat, len },
                f,
                u,
            )
        },
{
}

/// When a song ends, silence is told. If it is stored its completion is recorded,
/// as heard in its whole duration if that is known, and its sound profile stored;
/// then it is asked where the queue stands.
pub proof fn law_ended_songs_are_recorded(
    pre: Backend,
    ev: PlaybackEvent,
    post: Backend,
    s: Step,
    noted: Reply,
    kept: Reply,
)
    requires
        engine_event_begun(pre, ev, post, s),
        ev is Finished || ev is Cut,
    ensures
        post == pre,
        s.next is Some,
        s.emit@.len() > 0,
        s.emit@.last() is Playback,
        s.emit@.last()->Playback_0.state is Stopped,
        s.emit@.last()->Playback_0.track is None,
        ev is Finished ==> s.emit@.len() == 1,
        ev is Cut ==> s.emit@.len() == 2 && s.emit@[0] == BackendEvent::StreamError(ev->Cut_0),
        ({
            let stored = pre.current is Some && pre.current->0.id > 0;
            let known = pre.current is Some && pre.current->0.duration is Some;
            let (action, job) = s.next->0;
            &&& stored && known ==> {
                let ms = (pre.current->0.duration->0 / 1_000_000) as i64;
                &&& action == Action::RecordSignal(
                    Signal {
                        track_id: pre.current->0.id,
                        kind: SignalKind::Completed,
                        context: if pre.current_context is Some {
                            pre.current_context->0
                        } else {
                            PlayContext::Manual
                        },
                        listened_ms: Some(ms),
                        total_ms: Some(ms),
                    },
                )
                &&& goes_on(job, noted, Action::PersistAcoustic, Job::Profiled)
            }
            &&& stored && !known ==> action is PersistAcoustic && job is Profiled
            &&& !stored ==> action is QueueInfo && job is Finished
        }),
        goes_on(Job::Profiled, kept, Action::QueueInfo, Job::Finished),
{
}

/// After a song ended autoplay goes on with the song after it in the queue, if
/// autoplay is on, the queue holds anything and no other song was played
/// meanwhile; else nothing happens and nothing is told.
pub proof fn law_autoplay_goes_on(
    ended: Option<String>,
    hollow: bool,
    empty: bool,
    last_played: Option<String>,
    next: Track,
    b: Backend,
    c: Backend,
    t: Step,
    d: Backend,
    f: Backend,
    u: Step,
)
    requires
        job_resumed(
            b,
            Job::Autoplay(ended),
            Reply::QueueInfo { empty, last_played },
            c,
            t,
        ),
        t.next is Some ==> job_resumed(d, (t.next->0).1, Reply::Picked(Some(next)), f, u),
    ensures
        goes_on(
            Job::Finished,
            Reply::QueueInfo { empty: hollow, last_played: ended },
            Action::QueueInfo,
            Job::Autoplay(ended),
        ),
        c == b,
        t.emit@.len() == 0,
        t.next is Some <==> b.autoplay && !empty && opt_text(last_played) == opt_text(ended),
        t.next is Some ==> (t.next->0).0 == Action::QueuePick(true, ended) && is_starting(
            d,
            next,
            PlayContext::Autoplay,
            AfterStart::Autoplay(ended),
            f,
            u,
        ),
{
}

/// A failure of the engine asks for its state, which is told. If reading the
/// stream failed and the current song was not recovered yet, its stream is
/// renewed, and its recovery is spent; that it goes on is told as such, with the
/// state of the engine. Any other failure is told as it is.
pub proof fn law_broken_streams_are_renewed(
    pre: Backend,
    msg: String,
    post: Backend,
    s: Step,
    status: PlaybackStatus,
    b: Backend,
    c: Backend,
    t: Step,
    renewed: PlaybackStatus,
    d: Backend,
    f: Backend,
    u: Step,
)
    requires
        engine_event_begun(pre, PlaybackEvent::Error(msg), post, s),
        s.next is Some,
        job_resumed(b, (s.next->0).1, Reply::Status(status), c, t),
        t.next is Some ==> job_resumed(d, (t.next->0).1, Reply::Played(Ok(renewed)), f, u),
    ensures
        post == pre,
        s.emit@.len() == 0,
        (s.next->0).0 is EngineStatus,
        t.emit@.len() > 0,
        t.emit@[0] == BackendEvent::Playback(status),
        ({
            let read = msg@.len() >= 11 && msg@.take(11) == "leer stream"@;
            let unspent = b.current is Some && opt_text(b.recovery_budget.armed) == Some(
                ident(b.current->0),
            );
            if read && unspent {
                &&& t.emit@.len() == 1
                &&& t.next is Some
                &&& (t.next->0).0 == Action::RefreshStream(b.current->0)
                &&& c.recovery_budget.armed is None
                &&& c == (Backend { recovery_budget: c.recovery_budget, ..b })
                &&& f == d
                &&& u.next is None
                &&& u.emit@.len() == 2
                &&& u.emit@[0] is Message
                &&& u.emit@[1] == BackendEvent::RecoveryResumed(renewed)
            } else {
                &&& c == b
                &&& t.next is None
                &&& t.emit@ == seq![BackendEvent::Playback(status), BackendEvent::StreamError(msg)]
            }
        }),
{
    reveal_strlit("leer stream");
    let word = "leer stream"@;
    assert(word.len() == 11);
    if word.is_prefix_of(msg@) {
        assert(msg@.take(11) =~= word);
    }
    if msg@.len() >= 11 && msg@.take(11) == word {
        assert(msg@.subrange(0, 11) =~= msg@.take(11));
        assert(word.is_prefix_of(msg@));
    }
}

/// Every change of the engine's state is told with the state that it then has,
/// and what becomes of a jump is told as it is.
pub proof fn law_engine_news(
    pre: Backend,
    ev: PlaybackEvent,
    post: Backend,
    s: Step,
    status: PlaybackStatus,
    b: Backend,
    c: Backend,
    t: Step,
)
    requires
        engine_event_begun(pre, ev, post, s),
        s.next is Some ==> job_resumed(b, (s.next->0).1, Reply::Status(status), c, t),
    ensures
        ev is Playing || ev is Paused || ev is Stopped || ev is Buffering ==> {
            &&& s.emit@.len() == 0
            &&& s.next is Some
            &&& (s.next->0).0 is EngineStatus
            &&& t.next is None
            &&& t.emit@ == seq![BackendEvent::Playback(status)]
        },
        ev is SeekStarted ==> s.next is None && s.emit@ == seq![BackendEvent::SeekStarted],
        ev is SeekCompleted ==> s.next is None && s.emit@ == seq![BackendEvent::SeekCompleted],
        ev is SeekFailed ==> s.next is None && s.emit@ == seq![BackendEvent::SeekFailed],
{
}

/// The cover of a song is fetched and told under the identifier of that song. The
/// colours of a loaded one are stored first if the song is stored.
pub proof fn law_covers_are_told(
    track: Box<Track>,
    state: ThumbnailState,
    pre: Backend,
    post: Backend,
    s: Step,
    b: Backend,
    c: Backend,
    t: Step,
    kept: Reply,
    d: Backend,
    f: Backend,
    u: Step,
)
    requires
        command_begun(pre, BackendCommand::Thumbnail(track), post, s),
        s.next is Some,
        job_resumed(b, (s.next->0).1, Reply::Thumbnail(state), c, t),
        t.next is Some ==> job_resumed(d, (t.next->0).1, kept, f, u),
    ensures
        (s.next->0).0 == Action::FetchThumbnail(*track),
        ({
            let coloured = state is Loaded && state->Loaded_0.palette is Some && track.id > 0;
            let last = if coloured {
                u
            } else {
                t
            };
            &&& t.next is Some <==> coloured
            &&& coloured ==> t.emit@.len() == 0 && (t.next->0).0 == Action::StorePalette(
                track.id,
                state->Loaded_0.palette->0,
            )
            &&& last.next is None
            &&& last.emit@.len() == 1
            &&& last.emit@[0] is Thumbnail
            &&& last.emit@[0]->Thumbnail_key@ == ident(*track)
            &&& last.emit@[0]->Thumbnail_state == state
        }),
{
}

/// A tick tells the state of the engine unless it is stopped. While a song plays
/// the one after it in the queue is prepared, with the position and the duration
/// of the song that plays.
pub proof fn law_ticks(
    status: PlaybackStatus,
    b: Backend,
    c: Backend,
    t: Step,
    next: Option<Track>,
    d: Backend,
    f: Backend,
    u: Step,
)
    requires
        job_resumed(b, Job::Ticking, Reply::Status(status), c, t),
        t.next is Some ==> job_resumed(d, (t.next->0).1, Reply::Picked(next), f, u),
    ensures
        c == b,
        status.state is Stopped ==> t.emit@.len() == 0,
        !(status.state is Stopped) ==> t.emit@ == seq![BackendEvent::Playback(status)],
        t.next is Some <==> status.state is Playing && status.track is Some,
        t.next is Some ==> {
            &&& (t.next->0).0 is QueuePick
            &&& (t.next->0).0->QueuePick_0
            &&& opt_text((t.next->0).0->QueuePick_1) == Some(ident(status.track->0))
            &&& f == d
            &&& u.emit@.len() == 0
            &&& u.next is Some
            &&& (u.next->0).0 == (Action::Preload {
                position: status.position,
                duration: status.duration,
                next,
            })
        },
{
}

/// A song that plays but cannot be recorded is told as a failure that ends with
/// the cause, whichever part of the recording failed.
pub proof fn law_failed_recordings_name_their_cause(
    track: Track,
    context: PlayContext,
    status: PlaybackStatus,
    id: i64,
    e: String,
    b: Backend,
    c: Backend,
    t: Step,
)
    requires
        ({
            let stored = Job::Start(track, context, AfterStart::Play, StartStage::Storing(status));
            let written = Job::Start(
                track,
                context,
                AfterStart::Play,
                StartStage::Recording(status, id),
            );
            let counted = Job::Start(
                track,
                context,
                AfterStart::Play,
                StartStage::Counting(status),
            );
            ||| job_resumed(b, stored, Reply::Number(Err(e)), c, t)
            ||| job_resumed(b, written, Reply::Unit(Err(e)), c, t)
            ||| job_resumed(b, counted, Reply::Stats(Err(e)), c, t)
        }),
    ensures
        c == b,
        t.next is None,
        t.emit@.len() == 1,
        t.emit@[0] is PlaybackError,
        ends_with(t.emit@[0]->PlaybackError_0@, e@),
{
    lemma_ends_with("guardar escucha: "@, e@);
    lemma_ends_with("historial: "@, e@);
    lemma_ends_with("estadísticas: "@, e@);
}

/// The work that is done at once: orders to the engine and to the queue, what the
/// configuration holds, and the plain listings of the history.
pub open spec fn is_done_at_once(action: Action) -> bool {
    ||| action is EngineStatus || action is Pause || action is Resume || action is Stop
    ||| action is SetVolume || action is QueueReplace || action is QueueReplaceAutoplay
    ||| action is QueueShuffle || action is QueueRepeat || action is PersistSettings
    ||| action is AvailableSources || action is RecentHistory || action is LoadStats
}

/// A command counts as one that takes long exactly if its work is not done at
/// once; a jump always does.
pub proof fn law_long_work_is_set_apart(
    cmd: BackendCommand,
    long: bool,
    pre: Backend,
    post: Backend,
    s: Step,
)
    requires
        call_ensures(crate::backend::is_heavy, (&cmd,), long),
        command_begun(pre, cmd, post, s),
    ensures
        s.next is Some ==> (long <==> !is_done_at_once((s.next->0).0)),
        s.next is None ==> (long <==> cmd is Seek),
{
}

/// What may start another stream by itself leaves the loop: going on after a
/// song ended and renewing a stream. Neither a command nor news of the engine
/// does so at once.
pub proof fn law_streams_start_beside_the_loop(
    job: Job,
    beside: bool,
    reply: Reply,
    b: Backend,
    c: Backend,
    t: Step,
    next_beside: bool,
)
    requires
        call_ensures(crate::backend::runs_beside, (&job,), beside),
        job_resumed(b, job, reply, c, t),
        t.next is Some,
        call_ensures(crate::backend::runs_beside, (&(t.next->0).1,), next_beside),
    ensures
        (t.next->0).0 is RefreshStream ==> next_beside,
        job is Finished ==> next_beside,
        next_beside ==> job is Finished || (t.next->0).0 is RefreshStream,
        beside ==> job is Autoplay || job is Recovering,
{
}

/// An analysis of the audio is told once, and only where it is wanted.
pub proof fn law_analyses_are_told_once(last: Option<u64>, at: u64, wanted: bool, unwanted: bool)
    requires
        call_ensures(Backend::tells_frame, (true, last, at), wanted),
        call_ensures(Backend::tells_frame, (false, last, at), unwanted),
    ensures
        !unwanted,
        wanted <==> !(last is Some && last->0 == at),
{
}

/// A fresh backend plays on by itself, and nothing was played yet. A jump is void
/// on any song but the current one.
pub proof fn law_fresh_backend(b: Backend, t: Track, song: String, stale: bool, idle: bool)
    requires
        call_ensures(Backend::new, (), b),
        call_ensures(Backend::seek_is_stale, (Some(&t), &song), stale),
        call_ensures(Backend::seek_is_stale, (None::<&Track>, &song), idle),
    ensures
        b.autoplay,
        b.current is None,
        b.recovery_budget.armed is None,
        stale <==> ident(t) != song@,
        idle,
{
}

/// Where a change of a mark fails it is told as an error that ends with the cause;
/// where only the listing fails, the change is told all the same.
pub proof fn law_failed_marks_name_their_cause(
    track: Track,
    id: i64,
    on: bool,
    e: String,
    b: Backend,
    c: Backend,
    t: Step,
)
    requires
        ({
            ||| job_resumed(b, Job::LikeReading(track, id), Reply::Flag(Err(e)), c, t)
            ||| job_resumed(b, Job::LikeWriting(track, id, on), Reply::Unit(Err(e)), c, t)
            ||| job_resumed(b, Job::LikeListing(track, on), Reply::Rows(Err(e)), c, t)
        }),
    ensures
        c == b,
        t.next is None,
        t.emit@.len() == 1 || (t.emit@.len() == 2 && t.emit@[0] == (BackendEvent::L1K3DChanged {
            track: Box::new(track),
            liked: on,
        })),
        t.emit@.last() is Error,
        ends_with(t.emit@.last()->Error_0@, e@),
        job_resumed(b, Job::LikeListing(track, on), Reply::Rows(Err(e)), c, t) ==> t.emit@.len()
            == 2,
{
    lemma_ends_with("L1K3D: "@, e@);
    lemma_ends_with("playlists: "@, e@);
}

/// Where the queue has no song to go on with, that is told, unless another song
/// was played meanwhile.
pub proof fn law_autoplay_tells_its_end(
    ended: Option<String>,
    b: Backend,
    c: Backend,
    t: Step,
    empty: bool,
    last_played: Option<String>,
    d: Backend,
    f: Backend,
    u: Step,
)
    requires
        job_resumed(b, Job::AutoplayPicking(ended), Reply::Picked(None), c, t),
        t.next is Some ==> job_resumed(
            d,
            (t.next->0).1,
            Reply::QueueInfo { empty, last_played },
            f,
            u,
        ),
    ensures
        c == b,
        t.emit@.len() == 0,
        t.next is Some && (t.next->0).0 is QueueInfo,
        f == d,
        u.next is None,
        opt_text(last_played) != opt_text(ended) ==> u.emit@.len() == 0,
        opt_text(last_played) == opt_text(ended) ==> u.emit@.len() == 1 && u.emit@[0]
            is PlaybackError,
{
}

/// Without a catalogue a search ends with a message, and so does a new cover; a
/// playlist that was changed but cannot be read is told as an error that ends with
/// the cause.
pub proof fn law_small_ends(
    query: String,
    id: i64,
    e: String,
    b: Backend,
    c: Backend,
    t: Step,
    d: Backend,
    u: Step,
    f: Backend,
    v: Step,
)
    requires
        job_resumed(b, Job::Searching(query), Reply::Found(None), c, t),
        job_resumed(b, Job::Artwork, Reply::Unit(Ok(())), d, u),
        job_resumed(b, Job::Moved(id), Reply::Tracks(Err(e)), f, v),
    ensures
        c == b && d == b && f == b,
        t.next is None && u.next is None && v.next is None,
        t.emit@.len() == 1 && t.emit@[0] is Message,
        u.emit@.len() == 1 && u.emit@[0] is Message,
        v.emit@.len() == 1 && v.emit@[0] is Error && ends_with(v.emit@[0]->Error_0@, e@),
{
    lemma_ends_with("tracks playlist: "@, e@);
}

/// Whatever is asked of the backend, whatever a job is answered and whatever the
/// engine reports, it does what the rules of the jobs say; a tick asks the engine
/// for its state.
pub proof fn law_backend_follows_the_rules(
    b: &mut Backend,
    cmd: BackendCommand,
    s: Step,
    c: &mut Backend,
    job: Job,
    reply: Reply,
    t: Step,
    d: &mut Backend,
    ev: PlaybackEvent,
    u: Step,
    e: Backend,
    v: Step,
)
    requires
        call_ensures(Backend::handle, (b, cmd), s),
        call_ensures(Backend::resume, (c, job, reply), t),
        call_ensures(Backend::on_engine, (d, ev), u),
        call_ensures(Backend::on_tick, (&e,), v),
    ensures
        command_begun(*old(b), cmd, *final(b), s),
        job_resumed(*old(c), job, reply, *final(c), t),
        engine_event_begun(*old(d), ev, *final(d), u),
        v.emit@.len() == 0,
        v.next is Some,
        (v.next->0).0 is EngineStatus,
        (v.next->0).1 is Ticking,
{
}

} // verus!
