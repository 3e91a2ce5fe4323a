use tunefold::backend::{
    is_heavy, Action, Backend, Job, PlayContext, Reply, SignalKind, Step,
};
use tunefold::domain::{
    CoverImage, LyricSheet, PlaylistKind, PlaylistRow, SearchOutcome, Source, SyncLyrics,
    ThumbnailState, Track, SECOND,
};
use tunefold::event::{BackendCommand, BackendEvent};
use tunefold::playback::{
    PlaybackEvent, PlaybackState, PlaybackStatus, QueueItemOrigin, RepeatMode,
};
use tunefold::taste::Candidate;

fn song(id: &str) -> Track {
    let mut t = Track::new(format!("T-{id}"), vec!["Banda".to_string()], Source::YouTube);
    t.external_id = Some(id.to_string());
    t
}

fn playing(t: Track) -> PlaybackStatus {
    PlaybackStatus {
        track: Some(t),
        state: PlaybackState::Playing,
        position: 0,
        duration: Some(200 * SECOND),
        stalled: false,
    }
}

fn queue(tracks: Vec<Track>) -> Reply {
    let len = tracks.len();
    Reply::Queue {
        queue: tracks,
        origins: vec![QueueItemOrigin::User; len],
        shuffle: false,
        repeat: RepeatMode::All,
        len,
    }
}

/// Answers the waiting job.
fn answer(b: &mut Backend, step: Step, reply: Reply) -> Step {
    let (_, job) = step.next.expect("el trabajo espera una respuesta");
    b.resume(job, reply)
}

fn asked(step: &Step) -> &Action {
    &step.next.as_ref().expect("el trabajo pide algo").0
}

/// Starts a song and answers everything well; the step that ends the start.
fn start(b: &mut Backend, t: Track, number: i64) -> Step {
    let step = b.handle(BackendCommand::Play(Box::new(t.clone())));
    assert!(matches!(asked(&step), Action::QueueMarkPlayed(k) if *k == t.identifier()));
    let step = answer(b, step, Reply::Done);
    assert!(matches!(asked(&step), Action::PlayStream(_)));
    finish_start(b, step, t, number)
}

fn finish_start(b: &mut Backend, step: Step, t: Track, number: i64) -> Step {
    let step = answer(b, step, Reply::Played(Ok(playing(t))));
    assert!(matches!(asked(&step), Action::StoreTrack(s) if s.duration == Some(200 * SECOND)));
    let step = answer(b, step, Reply::Number(Ok(number)));
    match asked(&step) {
        Action::RecordSignal(s) => {
            assert_eq!((s.track_id, s.kind), (number, SignalKind::Play));
            assert_eq!((s.listened_ms, s.total_ms), (None, Some(200_000)));
        }
        other => panic!("esperaba RecordSignal, llegó {other:?}"),
    }
    let step = answer(b, step, Reply::Done);
    assert!(matches!(asked(&step), Action::BeginAcoustic(n) if *n == number));
    let step = answer(b, step, Reply::Done);
    assert!(matches!(asked(&step), Action::RecordHistory { track_id, .. } if *track_id == number));
    let step = answer(b, step, Reply::Unit(Ok(())));
    assert!(matches!(asked(&step), Action::LoadStats));
    answer(b, step, Reply::Stats(Ok(vec![])))
}

#[test]
fn a_song_is_played_stored_and_recorded() {
    let mut b = Backend::new();
    let step = start(&mut b, song("a"), 7);
    assert!(step.next.is_none());
    match &step.emit[..] {
        [BackendEvent::PlaybackStarted { status, .. }] => {
            assert_eq!(status.track.as_ref().unwrap().identifier(), "a");
        }
        other => panic!("esperaba PlaybackStarted, llegó {other:?}"),
    }
    let current = b.current.as_ref().unwrap();
    assert_eq!((current.id, current.duration), (7, Some(200 * SECOND)));
    assert_eq!(b.current_context, Some(PlayContext::Manual));
}

#[test]
fn every_stage_of_a_start_may_fail() {
    for (failing, expected) in [
        (1, "sin red"),
        (2, "guardar escucha: sin red"),
        (5, "historial: sin red"),
        (6, "estadísticas: sin red"),
    ] {
        let mut b = Backend::new();
        let mut step = b.handle(BackendCommand::Play(Box::new(song("a"))));
        for stage in 0..=failing {
            let e = "sin red".to_string();
            let reply = match (stage, stage == failing) {
                (1, true) => Reply::Played(Err(e)),
                (1, false) => Reply::Played(Ok(playing(song("a")))),
                (2, true) => Reply::Number(Err(e)),
                (2, false) => Reply::Number(Ok(7)),
                (5, true) => Reply::Unit(Err(e)),
                (5, false) => Reply::Unit(Ok(())),
                (6, _) => Reply::Stats(Err(e)),
                _ => Reply::Done,
            };
            step = answer(&mut b, step, reply);
        }
        assert!(step.next.is_none());
        assert!(matches!(&step.emit[..], [BackendEvent::PlaybackError(t)] if t == expected));
    }
}

#[test]
fn jumps_of_another_song_are_void() {
    let mut b = Backend::new();
    let step = b.handle(BackendCommand::Seek(30, "a".to_string()));
    assert!(step.next.is_none() && step.emit.is_empty());
    start(&mut b, song("a"), 7);
    let step = b.handle(BackendCommand::Seek(30, "a".to_string()));
    assert!(matches!(asked(&step), Action::SeekTo(30)));
    start(&mut b, song("b"), 8);
    let step = b.handle(BackendCommand::Seek(30, "a".to_string()));
    assert!(step.next.is_none() && step.emit.is_empty());
}

#[test]
fn a_broken_stream_is_renewed_once() {
    let mut b = Backend::new();
    start(&mut b, song("a"), 7);
    let msg = "leer stream: cortado".to_string();
    let step = b.on_engine(PlaybackEvent::Error(msg.clone()));
    assert!(matches!(asked(&step), Action::EngineStatus));
    let step = answer(&mut b, step, Reply::Status(PlaybackStatus::idle()));
    assert!(matches!(&step.emit[..], [BackendEvent::Playback(_)]));
    assert!(matches!(asked(&step), Action::RefreshStream(t) if t.identifier() == "a"));
    let step = answer(&mut b, step, Reply::Played(Ok(playing(song("a")))));
    assert!(matches!(
        &step.emit[..],
        [BackendEvent::Message(_), BackendEvent::RecoveryResumed(_)]
    ));

    let step = b.on_engine(PlaybackEvent::Error(msg.clone()));
    let step = answer(&mut b, step, Reply::Status(PlaybackStatus::idle()));
    assert!(step.next.is_none(), "una sola vez");
    assert!(matches!(
        &step.emit[..],
        [BackendEvent::Playback(_), BackendEvent::StreamError(t)] if *t == msg
    ));

    start(&mut b, song("b"), 8);
    let step = b.on_engine(PlaybackEvent::Error("decodificar: malo".to_string()));
    let step = answer(&mut b, step, Reply::Status(PlaybackStatus::idle()));
    assert!(step.next.is_none(), "no es del transporte");
    let step = b.on_engine(PlaybackEvent::Error(msg.clone()));
    let step = answer(&mut b, step, Reply::Status(PlaybackStatus::idle()));
    let step = answer(&mut b, step, Reply::Played(Err("tampoco".to_string())));
    assert!(matches!(&step.emit[..], [BackendEvent::StreamError(t)] if *t == msg));
}

fn info(last: &str) -> Reply {
    Reply::QueueInfo { empty: false, last_played: Some(last.to_string()) }
}

#[test]
fn autoplay_follows_the_song_that_ended() {
    let mut b = Backend::new();
    start(&mut b, song("a"), 7);
    let step = b.on_engine(PlaybackEvent::Finished);
    assert!(matches!(&step.emit[..], [BackendEvent::Playback(p)] if p.track.is_none()));
    match asked(&step) {
        Action::RecordSignal(s) => assert_eq!(
            (s.kind, s.listened_ms, s.total_ms),
            (SignalKind::Completed, Some(200_000), Some(200_000))
        ),
        other => panic!("esperaba RecordSignal, llegó {other:?}"),
    }
    let step = answer(&mut b, step, Reply::Done);
    assert!(matches!(asked(&step), Action::PersistAcoustic));
    let step = answer(&mut b, step, Reply::Done);
    let step = answer(&mut b, step, info("a"));
    let step = answer(&mut b, step, info("a"));
    assert!(matches!(asked(&step), Action::QueuePick(true, Some(k)) if k == "a"));
    let step = answer(&mut b, step, Reply::Picked(Some(song("b"))));
    assert!(matches!(asked(&step), Action::QueueMarkPlayed(k) if k == "b"));
    assert_eq!(b.current_context, Some(PlayContext::Autoplay));
    let step = answer(&mut b, step, Reply::Done);
    let step = answer(&mut b, step, Reply::Played(Err("caído".to_string())));
    let step = answer(&mut b, step, info("a"));
    assert!(matches!(&step.emit[..], [BackendEvent::PlaybackError(t)] if t == "autoplay: caído"));
}

#[test]
fn autoplay_yields() {
    let mut b = Backend::new();
    start(&mut b, song("a"), 7);
    let step = b.on_engine(PlaybackEvent::Finished);
    let step = answer(&mut b, step, Reply::Done);
    let step = answer(&mut b, step, Reply::Done);
    let step = answer(&mut b, step, info("a"));
    let step = answer(&mut b, step, info("otra"));
    assert!(step.next.is_none() && step.emit.is_empty(), "el usuario eligió otra");

    b.handle(BackendCommand::SetAutoplay(false));
    let step = b.on_engine(PlaybackEvent::Cut("corte".to_string()));
    assert!(matches!(
        &step.emit[..],
        [BackendEvent::StreamError(t), BackendEvent::Playback(_)] if t == "corte"
    ));
    let step = answer(&mut b, step, Reply::Done);
    let step = answer(&mut b, step, Reply::Done);
    let step = answer(&mut b, step, info("a"));
    let step = answer(&mut b, step, info("a"));
    assert!(step.next.is_none() && step.emit.is_empty(), "apagado");
}

#[test]
fn skipping_records_what_is_left() {
    let mut b = Backend::new();
    let step = b.handle(BackendCommand::NextTrack);
    assert!(matches!(asked(&step), Action::QueuePick(true, None)));
    let step = answer(&mut b, step, Reply::Picked(None));
    assert!(matches!(&step.emit[..], [BackendEvent::Message(_)]));
    start(&mut b, song("a"), 7);
    let step = b.handle(BackendCommand::PrevTrack);
    assert!(matches!(asked(&step), Action::QueuePick(false, None)));
    let step = answer(&mut b, step, Reply::Picked(Some(song("b"))));
    assert!(matches!(
        asked(&step),
        Action::RecordSignal(s) if s.kind == SignalKind::Skip && s.track_id == 7
    ));
    let step = answer(&mut b, step, Reply::Done);
    assert!(matches!(asked(&step), Action::QueueMarkPlayed(k) if k == "b"));
    let step = answer(&mut b, step, Reply::Done);
    let step = answer(&mut b, step, Reply::Played(Err("caído".to_string())));
    assert!(matches!(&step.emit[..], [BackendEvent::Message(t)] if t == "salto: caído"));
}

fn sheet(text: &str) -> LyricSheet {
    LyricSheet { text: text.to_string(), lyrics: SyncLyrics { lines: vec![] } }
}

#[test]
fn recommendations_come_with_lyrics_and_taste() {
    let mut b = Backend::new();
    let step = b.handle(BackendCommand::LoadRelated(Box::new(song("a")), 4));
    assert!(matches!(asked(&step), Action::FetchRelated(k) if k == "a"));
    let step = answer(&mut b, step, Reply::Related(vec![song("x"), song("y")]));
    assert!(matches!(asked(&step), Action::FetchLyrics(_)));
    let step = answer(&mut b, step, Reply::Lyrics(Some(sheet("la la"))));
    assert!(matches!(asked(&step), Action::LookupExternal(k) if k == "a"));
    let step = answer(&mut b, step, Reply::MaybeNumber(Some(7)));
    assert!(matches!(asked(&step), Action::CacheLyrics(7, t) if t == "la la"));
    let step = answer(&mut b, step, Reply::Done);
    assert!(matches!(asked(&step), Action::RateCandidates(v) if v.len() == 2));
    let rated = vec![
        Candidate { track: song("x"), rating: 1, negative: 0, plays: 0 },
        Candidate { track: song("y"), rating: 2, negative: 0, plays: 0 },
    ];
    let step = answer(&mut b, step, Reply::Rated(rated));
    match asked(&step) {
        Action::QueueAppend(v) => {
            let ids: Vec<String> = v.iter().map(|t| t.identifier()).collect();
            assert_eq!(ids, vec!["y", "x"]);
        }
        other => panic!("esperaba QueueAppend, llegó {other:?}"),
    }
    let step = answer(&mut b, step, queue(vec![song("a"), song("y"), song("x")]));
    match &step.emit[..] {
        [BackendEvent::Related { related, queue, synced, generation, .. }] => {
            assert_eq!((related.len(), queue.len(), *generation), (2, 3, 4));
            assert!(synced.is_some());
        }
        other => panic!("esperaba Related, llegó {other:?}"),
    }
}

#[test]
fn missing_lyrics_are_looked_for_in_the_cache() {
    let mut b = Backend::new();
    let mut stored = song("a");
    stored.id = 7;
    let step = b.handle(BackendCommand::LoadRelated(Box::new(stored), 1));
    let step = answer(&mut b, step, Reply::Related(vec![]));
    let step = answer(&mut b, step, Reply::Lyrics(None));
    assert!(matches!(asked(&step), Action::CachedLyrics(7)));
    let step = answer(&mut b, step, Reply::Lyrics(None));
    assert!(matches!(asked(&step), Action::RateCandidates(_)));
}

#[test]
fn liking_switches_the_mark() {
    let mut b = Backend::new();
    for before in [false, true] {
        let step = b.handle(BackendCommand::ToggleLiked(Box::new(song("a"))));
        let step = answer(&mut b, step, Reply::Number(Ok(7)));
        assert!(matches!(asked(&step), Action::IsLiked(7)));
        let step = answer(&mut b, step, Reply::Flag(Ok(before)));
        assert!(matches!(asked(&step), Action::SetLiked(7, on) if *on != before));
        let step = answer(&mut b, step, Reply::Unit(Ok(())));
        let kind = if before { SignalKind::Unlike } else { SignalKind::Like };
        assert!(matches!(asked(&step), Action::RecordSignal(s) if s.kind == kind));
        let step = answer(&mut b, step, Reply::Done);
        let step = answer(&mut b, step, Reply::Rows(Ok(vec![])));
        assert!(matches!(
            &step.emit[..],
            [BackendEvent::L1K3DChanged { liked, .. }, BackendEvent::Playlists(_)]
                if *liked != before
        ));
    }
    let step = b.handle(BackendCommand::ToggleLiked(Box::new(song("a"))));
    let step = answer(&mut b, step, Reply::Number(Err("llena".to_string())));
    assert!(matches!(&step.emit[..], [BackendEvent::Error(t)] if t == "guardar: llena"));
}

#[test]
fn playlists_become_the_queue() {
    let mut b = Backend::new();
    let step = b.handle(BackendCommand::PlayPlaylist(3));
    let step = answer(&mut b, step, Reply::Tracks(Ok(vec![])));
    assert!(matches!(
        &step.emit[..],
        [BackendEvent::Message(t)] if t == "La playlist no tiene canciones."
    ));
    let step = b.handle(BackendCommand::PlayPlaylist(3));
    let step = answer(&mut b, step, Reply::Tracks(Ok(vec![song("a"), song("b")])));
    assert!(matches!(asked(&step), Action::QueueSetPlaylist(v) if v.len() == 2));
    let step = answer(&mut b, step, queue(vec![song("a"), song("b")]));
    assert!(matches!(asked(&step), Action::QueueMarkPlayed(k) if k == "a"));
    let step = answer(&mut b, step, Reply::Done);
    let step = finish_start(&mut b, step, song("a"), 7);
    assert!(matches!(
        &step.emit[..],
        [
            BackendEvent::Queue { .. },
            BackendEvent::QueueState { len: 2, .. },
            BackendEvent::PlaybackStarted { .. }
        ]
    ));
}

#[test]
fn changes_of_playlists_show_the_listing_again() {
    let mut b = Backend::new();
    let rows = || {
        vec![PlaylistRow {
            id: 1,
            name: "Viaje".to_string(),
            kind: PlaylistKind::User,
            track_count: 0,
        }]
    };
    for (cmd, word) in [
        (BackendCommand::CreatePlaylist("Viaje".to_string()), "crear playlist: "),
        (BackendCommand::RenamePlaylist(1, "Viaje".to_string()), "renombrar playlist: "),
        (BackendCommand::DeletePlaylist(1), "borrar playlist: "),
        (BackendCommand::AddToPlaylist(1, 2), "añadir: "),
        (BackendCommand::RemoveFromPlaylist(1, 2), "quitar: "),
    ] {
        let step = b.handle(cmd);
        match step.next {
            Some((_, Job::Mutating(w))) => {
                assert_eq!(w, word);
                let failed = b.resume(Job::Mutating(w), Reply::Unit(Err("x".to_string())));
                assert!(matches!(
                    &failed.emit[..],
                    [BackendEvent::Error(t)] if *t == format!("{word}x")
                ));
                let step = b.resume(Job::Mutating(w), Reply::Unit(Ok(())));
                assert!(matches!(asked(&step), Action::ListPlaylists));
                let step = answer(&mut b, step, Reply::Rows(Ok(rows())));
                assert!(matches!(&step.emit[..], [BackendEvent::Playlists(r)] if r.len() == 1));
            }
            other => panic!("esperaba Mutating, llegó {other:?}"),
        }
    }
    let step = b.handle(BackendCommand::MovePlaylistTrack(1, 2, 0));
    let step = answer(&mut b, step, Reply::Unit(Ok(())));
    let step = answer(&mut b, step, Reply::Tracks(Ok(vec![song("a")])));
    assert!(matches!(
        &step.emit[..],
        [BackendEvent::PlaylistTracks { playlist_id: 1, .. }, BackendEvent::Message(_)]
    ));
}

#[test]
fn searches_end_in_results_or_words() {
    let mut b = Backend::new();
    let ask = |b: &mut Backend, reply: Reply| {
        let step = b.handle(BackendCommand::Search("queen".to_string()));
        assert!(matches!(asked(&step), Action::SearchCatalog(q, 10) if q == "queen"));
        answer(b, step, reply)
    };
    let found = SearchOutcome { items: vec![song("a")], errors: vec![], related_from: 1 };
    let step = ask(&mut b, Reply::Found(Some(Ok(found))));
    assert!(matches!(
        &step.emit[..],
        [BackendEvent::SearchResults { query, outcome }]
            if query == "queen" && outcome.items.len() == 1
    ));
    let step = ask(&mut b, Reply::Found(Some(Err("sin red".to_string()))));
    assert!(matches!(&step.emit[..], [BackendEvent::Error(t)] if t == "búsqueda: sin red"));
    let step = ask(&mut b, Reply::Found(None));
    assert!(matches!(&step.emit[..], [BackendEvent::Message(_)]));
}

#[test]
fn covers_of_stored_songs_keep_their_colours() {
    let mut b = Backend::new();
    let image = || {
        std::sync::Arc::new(CoverImage {
            width: 1,
            height: 1,
            rgba: vec![1, 2, 3, 255],
            palette: Some([[1, 2, 3]; 3]),
        })
    };
    let mut stored = song("a");
    stored.id = 7;
    let step = b.handle(BackendCommand::Thumbnail(Box::new(stored)));
    let step = answer(&mut b, step, Reply::Thumbnail(ThumbnailState::Loaded(image())));
    assert!(matches!(asked(&step), Action::StorePalette(7, [[1, 2, 3], _, _])));
    let step = answer(&mut b, step, Reply::Done);
    assert!(matches!(&step.emit[..], [BackendEvent::Thumbnail { key, .. }] if key == "a"));
    let step = b.handle(BackendCommand::Thumbnail(Box::new(song("b"))));
    let step = answer(&mut b, step, Reply::Thumbnail(ThumbnailState::Loaded(image())));
    assert!(step.next.is_none());
    assert!(matches!(&step.emit[..], [BackendEvent::Thumbnail { key, .. }] if key == "b"));
}

#[test]
fn ticks_show_the_state_and_prepare_the_next_song() {
    let mut b = Backend::new();
    let step = b.on_tick();
    let step = answer(&mut b, step, Reply::Status(PlaybackStatus::idle()));
    assert!(step.next.is_none() && step.emit.is_empty());
    let step = b.on_tick();
    let step = answer(&mut b, step, Reply::Status(playing(song("a"))));
    assert!(matches!(&step.emit[..], [BackendEvent::Playback(_)]));
    assert!(matches!(asked(&step), Action::QueuePick(true, Some(k)) if k == "a"));
    let step = answer(&mut b, step, Reply::Picked(Some(song("b"))));
    assert!(matches!(asked(&step), Action::Preload { next: Some(_), .. }));
    let step = answer(&mut b, step, Reply::Done);
    assert!(step.next.is_none() && step.emit.is_empty());
}

#[test]
fn the_state_decides_what_toggling_does() {
    let mut b = Backend::new();
    let step = b.handle(BackendCommand::Toggle);
    let step = answer(&mut b, step, Reply::Status(playing(song("a"))));
    assert!(matches!(asked(&step), Action::Pause));
    let step = answer(&mut b, step, Reply::Played(Err("no".to_string())));
    assert!(matches!(
        &step.emit[..],
        [BackendEvent::Playback(p)] if p.state == PlaybackState::Playing
    ));
    let step = b.handle(BackendCommand::Toggle);
    let step = answer(&mut b, step, Reply::Status(PlaybackStatus::idle()));
    assert!(step.next.is_none());
    assert!(!is_heavy(&BackendCommand::Toggle));
    assert!(is_heavy(&BackendCommand::NextTrack));
}

#[test]
fn frames_are_told_once() {
    assert!(Backend::tells_frame(true, None, 5));
    assert!(!Backend::tells_frame(true, Some(5), 5));
    assert!(Backend::tells_frame(true, Some(5), 6));
    assert!(!Backend::tells_frame(false, None, 5));
}
