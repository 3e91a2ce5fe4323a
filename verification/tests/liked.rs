use tunefold::domain::{Source, Track};
use tunefold::liked::Liked;

fn track(id: i64, ext: Option<&str>) -> Track {
    let mut t = Track::new(
        "Título".to_string(),
        vec!["Artista".to_string()],
        Source::YouTube,
    );
    t.id = id;
    t.external_id = ext.map(|s| s.to_string());
    t
}

#[test]
fn matches_by_identifier_even_without_internal_id() {
    let mut liked = Liked::default();
    liked.add(&track(0, Some("video-1")));
    assert!(liked.contains(&track(0, Some("video-1"))));
    assert!(!liked.contains(&track(0, Some("video-2"))));
}

#[test]
fn matches_by_internal_id_for_unidentified_tracks() {
    let mut liked = Liked::default();
    liked.add(&track(42, Some("video-1")));
    assert!(liked.contains_id(42));
    assert!(!liked.contains_id(43));
    assert!(liked.contains(&track(42, None)));
}

#[test]
fn remove_cleans_both_key_spaces() {
    let mut liked = Liked::default();
    liked.add(&track(42, Some("video-1")));
    liked.remove(&track(42, Some("video-1")));
    assert!(!liked.contains(&track(42, Some("video-1"))));
    assert!(!liked.contains_id(42));
    assert!(liked.is_empty());
}

#[test]
fn set_tracks_replaces_the_whole_state() {
    let mut liked = Liked::default();
    liked.add(&track(1, Some("a")));
    liked.set_tracks(vec![track(2, Some("b")), track(3, Some("c"))]);
    assert!(liked.contains(&track(2, Some("b"))));
    assert!(!liked.contains(&track(1, Some("a"))));
    assert_eq!(liked.len(), 2);
}

#[test]
fn empty_likes_hold_nothing() {
    let mut liked = Liked::default();
    assert!(liked.is_empty());
    assert_eq!(liked.len(), 0);
    assert!(!liked.contains(&track(7, Some("video-1"))));
    liked.add(&track(7, Some("video-1")));
    assert!(!liked.is_empty());
    assert!(liked.len() > 0);
}
