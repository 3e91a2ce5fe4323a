use tunefold::backend::{forwards_real_state, runs_beside, Backend, Job};
use tunefold::domain::{Source, Track};
use tunefold::playback::{decide_recovery, PlaybackEvent, RecoveryAction, RecoveryBudget};

fn rec_track_generic(title: &str) -> Track {
    let mut t = Track::new(
        title.to_string(),
        vec!["Banda".to_string()],
        Source::YouTube,
    );
    t.external_id = Some(title.to_string());
    t
}

#[test]
fn identifier_falls_back_to_title_and_artist() {
    let mut t = Track::new(
        "Canción".to_string(),
        vec!["Banda".to_string()],
        Source::YouTube,
    );
    t.external_id = Some("vid".to_string());
    assert_eq!(t.identifier(), "vid");
    t.external_id = None;
    assert_eq!(t.identifier(), "Canción|Banda");
}

#[test]
fn state_changes_are_forwarded_immediately_but_others_are_not() {
    for ev in [
        PlaybackEvent::Buffering,
        PlaybackEvent::Playing,
        PlaybackEvent::Paused,
        PlaybackEvent::Stopped,
    ] {
        assert!(forwards_real_state(&ev), "se reenvía {ev:?}");
    }
    for ev in [
        PlaybackEvent::Finished,
        PlaybackEvent::Cut("fin".to_string()),
        PlaybackEvent::Error("boom".to_string()),
        PlaybackEvent::SeekStarted,
        PlaybackEvent::SeekCompleted,
        PlaybackEvent::SeekFailed,
    ] {
        assert!(!forwards_real_state(&ev), "tiene reenvío propio {ev:?}");
    }
}

#[test]
fn recovery_decision_and_budget_interplay() {
    let ev_transport = PlaybackEvent::Error("leer stream: roto".to_string());
    let ev_decode = PlaybackEvent::Error("decodificar stream: malo".to_string());

    assert_eq!(decide_recovery(&ev_decode), RecoveryAction::Report);
    assert_eq!(
        decide_recovery(&ev_transport),
        RecoveryAction::RefreshAndResume
    );

    let song = "song".to_string();
    let mut budget = RecoveryBudget::default();
    budget.arm(&song);
    assert!(budget.try_consume(&song));
    assert!(!budget.try_consume(&song), "un solo refresco por track");
}

#[test]
fn stale_seek_after_track_change_is_discarded() {
    let a = rec_track_generic("song-a");
    let b = rec_track_generic("song-b");

    assert!(!Backend::seek_is_stale(Some(&a), &a.identifier()));
    assert!(Backend::seek_is_stale(Some(&b), &a.identifier()));
    assert!(Backend::seek_is_stale(None, &a.identifier()));
    assert!(!Backend::seek_is_stale(Some(&b), &b.identifier()));
}

#[test]
fn only_jobs_that_may_start_a_stream_leave_the_loop() {
    assert!(runs_beside(&Job::Autoplay(None)));
    assert!(runs_beside(&Job::Recovering("corte".to_string())));
    assert!(!runs_beside(&Job::Settings));
    assert!(!runs_beside(&Job::AutoplayPicking(None)));
    assert!(!runs_beside(&Job::Failed("corte".to_string())));
}
