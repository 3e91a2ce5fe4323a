use tunefold::domain::{Source, Track, MILLISECOND, SECOND};
use tunefold::keymap::KeyMap;
use tunefold::keyset::KeySet;
use tunefold::playback::{
    clamp_seek_target, fill_duration, ClockEvent, PlaybackState, PlaybackStatus, PositionClock,
    RecommendationSession, RecoveryBudget, RepeatMode, VisualContent,
};
use tunefold::taste::{taste_order, Candidate};

fn key(s: &str) -> String {
    s.to_string()
}

#[test]
fn jumps_stay_in_the_song() {
    assert_eq!(clamp_seek_target(5 * SECOND, -10, Some(200 * SECOND)), 0);
    assert_eq!(clamp_seek_target(190 * SECOND, 15, Some(200 * SECOND)), 200 * SECOND);
    assert_eq!(clamp_seek_target(50 * SECOND, 10, None), 60 * SECOND);
}

#[test]
fn modes_cycle_in_three() {
    for m in [RepeatMode::All, RepeatMode::One, RepeatMode::Off] {
        assert_eq!(m.next().next().next(), m);
    }
    for c in [VisualContent::Auto, VisualContent::Lyrics, VisualContent::Visual] {
        assert_eq!(c.next().next().next(), c);
        assert!(!c.label().is_empty());
    }
}

#[test]
fn clock_follows_samples_and_freezes() {
    let mut c = PositionClock::new();
    let song = key("a");
    assert_eq!(c.update(Some(&song), 10 * SECOND, 0), Some(ClockEvent::NewTrack));
    assert_eq!(c.snapshot(true, false, None, 2 * SECOND), 12 * SECOND);
    assert_eq!(c.snapshot(true, false, Some(11 * SECOND), 2 * SECOND), 11 * SECOND);
    assert_eq!(c.snapshot(false, false, None, 2 * SECOND), 10 * SECOND);
    assert_eq!(c.snapshot(true, true, None, 2 * SECOND), 10 * SECOND);
    assert_eq!(c.update(Some(&song), 10 * SECOND - 499 * MILLISECOND, SECOND), None);
    assert_eq!(c.position, 10 * SECOND, "un rebote pequeño no cuenta");
    assert_eq!(
        c.update(Some(&song), 10 * SECOND - 500 * MILLISECOND, SECOND),
        Some(ClockEvent::Restarted)
    );
    c.begin_seek(50 * SECOND);
    assert_eq!(c.update(Some(&song), 9 * SECOND, SECOND), None);
    assert_eq!(c.pending_seek, Some(50 * SECOND));
    assert_eq!(c.update(Some(&song), 49 * SECOND, SECOND), None);
    assert_eq!(c.pending_seek, None, "llegó al objetivo");
    c.restart_same_track();
    assert_eq!((c.position, c.anchor), (0, None));
    assert_eq!(c.update(None, 3, 4), Some(ClockEvent::Cleared));
    assert_eq!(c.track_key, None);
}

#[test]
fn sessions_tell_late_answers_apart() {
    let mut s = RecommendationSession::new();
    let song = key("a");
    let first = s.request(&song).unwrap();
    assert_eq!(s.request(&song), None, "ya está en vuelo");
    assert!(!s.complete(&song, first + 1));
    assert!(s.complete(&song, first));
    assert_eq!(s.request(&song), None, "ya está cargada");
    s.on_track_changed();
    let second = s.request(&song).unwrap();
    assert!(second > first);
    assert!(!s.complete(&song, first));
    s.abort();
    assert!(!s.is_loading());
}

#[test]
fn recovery_is_spent_once() {
    let mut b = RecoveryBudget::default();
    assert!(!b.try_consume(&key("a")));
    b.arm(&key("a"));
    assert!(!b.try_consume(&key("b")));
    assert!(b.try_consume(&key("a")));
    assert!(!b.try_consume(&key("a")));
}

#[test]
fn songs_learn_their_duration_from_the_engine() {
    let status = |own: Option<u64>| {
        let mut t = Track::new(key("x"), vec![], Source::YouTube);
        t.duration = own;
        PlaybackStatus {
            track: Some(t),
            state: PlaybackState::Playing,
            position: 0,
            duration: Some(9 * SECOND),
            stalled: false,
        }
    };
    assert_eq!(fill_duration(status(None)).track.unwrap().duration, Some(9 * SECOND));
    assert_eq!(fill_duration(status(Some(5))).track.unwrap().duration, Some(5));
    assert!(fill_duration(PlaybackStatus::idle()).track.is_none());
}

#[test]
fn sets_and_maps_hold_each_key_once() {
    let mut set = KeySet::new();
    set.insert(key("a"));
    set.insert(key("a"));
    set.insert(key("b"));
    assert_eq!(set.len(), 2);
    set.remove(&key("a"));
    assert!(!set.contains(&key("a")) && set.contains(&key("b")));
    set.clear();
    assert!(set.is_empty());
    let mut map: KeyMap<u32> = KeyMap::new();
    map.insert(key("a"), 1);
    map.insert(key("a"), 2);
    assert_eq!(map.get(&key("a")), Some(&2));
    assert!(!map.contains_key(&key("b")));
}

fn candidate(id: &str, rating: i64, negative: u64, plays: u64) -> Candidate {
    let mut t = Track::new(key(id), vec![], Source::YouTube);
    t.external_id = Some(key(id));
    Candidate { track: t, rating, negative, plays }
}

#[test]
fn taste_orders_and_drops_clear_refusals() {
    let ordered = taste_order(vec![
        candidate("a", 1, 0, 0),
        candidate("b", 5, 0, 0),
        candidate("c", 9, 2, 1),
        candidate("d", 5, 1, 0),
        candidate("e", 9, 2, 3),
    ]);
    let ids: Vec<String> = ordered.iter().map(|t| t.identifier()).collect();
    assert_eq!(ids, vec!["e", "b", "d", "a"]);
}
