use tunefold::domain::{PlaylistKind, PlaylistRow, Source, Track};
use tunefold::keys::KeyCode;
use tunefold::playlists::{handle_key, Detail, PlaylistAction, PlaylistState};

fn rows() -> Vec<PlaylistRow> {
    vec![
        PlaylistRow {
            id: 1,
            name: "L1K3D".to_string(),
            kind: PlaylistKind::System,
            track_count: 3,
        },
        PlaylistRow {
            id: 2,
            name: "Viaje".to_string(),
            kind: PlaylistKind::User,
            track_count: 0,
        },
    ]
}

fn stored(id: i64) -> Track {
    let mut t = Track::new(format!("T{id}"), vec![], Source::YouTube);
    t.id = id;
    t
}

fn opened() -> PlaylistState {
    let mut state = PlaylistState::default();
    let mut detail = Detail::open(2, "Viaje".to_string());
    detail.tracks.tracks = vec![stored(10), stored(11), stored(12)];
    detail.tracks.list_state.selected = Some(0);
    state.detail = Some(detail);
    state
}

#[test]
fn system_playlists_are_never_deleted() {
    let mut state = PlaylistState::default();
    state.listing.selected = Some(0);
    assert!(!matches!(
        handle_key(&mut state, KeyCode::Char('d'), &rows()),
        PlaylistAction::Delete(_)
    ));
    state.listing.selected = Some(1);
    assert!(matches!(
        handle_key(&mut state, KeyCode::Char('d'), &rows()),
        PlaylistAction::Delete(2)
    ));
}

#[test]
fn blank_names_create_nothing() {
    let mut state = PlaylistState::default();
    handle_key(&mut state, KeyCode::Char('n'), &rows());
    assert!(state.creating);
    handle_key(&mut state, KeyCode::Char(' '), &rows());
    assert!(!matches!(
        handle_key(&mut state, KeyCode::Enter, &rows()),
        PlaylistAction::Create(_)
    ));
    let mut state = PlaylistState::default();
    handle_key(&mut state, KeyCode::Char('n'), &rows());
    for c in " Mix".chars() {
        handle_key(&mut state, KeyCode::Char(c), &rows());
    }
    handle_key(&mut state, KeyCode::Backspace, &rows());
    match handle_key(&mut state, KeyCode::Enter, &rows()) {
        PlaylistAction::Create(name) => assert_eq!(name, "Mi"),
        other => panic!("esperaba Create, llegó {other:?}"),
    }
}

#[test]
fn opening_playing_and_leaving() {
    let mut state = PlaylistState::default();
    state.listing.selected = Some(1);
    match handle_key(&mut state, KeyCode::Enter, &rows()) {
        PlaylistAction::Open(2, name) => assert_eq!(name, "Viaje"),
        other => panic!("esperaba Open, llegó {other:?}"),
    }
    assert!(matches!(
        handle_key(&mut state, KeyCode::Char('p'), &rows()),
        PlaylistAction::Play(2)
    ));
    assert!(matches!(handle_key(&mut state, KeyCode::Esc, &rows()), PlaylistAction::LeaveView));
}

#[test]
fn songs_move_within_the_playlist() {
    let mut state = opened();
    assert!(matches!(
        handle_key(&mut state, KeyCode::Char('u'), &rows()),
        PlaylistAction::MoveTrack(2, 10, 0)
    ));
    assert!(matches!(
        handle_key(&mut state, KeyCode::Char('D'), &rows()),
        PlaylistAction::MoveTrack(2, 10, 1)
    ));
    state.detail.as_mut().unwrap().tracks.list_state.selected = Some(2);
    assert!(matches!(
        handle_key(&mut state, KeyCode::Char('D'), &rows()),
        PlaylistAction::MoveTrack(2, 12, 2)
    ));
    assert!(matches!(
        handle_key(&mut state, KeyCode::Char('x'), &rows()),
        PlaylistAction::RemoveTrack(2, 12)
    ));
    assert!(matches!(
        handle_key(&mut state, KeyCode::Enter, &rows()),
        PlaylistAction::PlayTrack(_)
    ));
    assert!(matches!(
        handle_key(&mut state, KeyCode::Esc, &rows()),
        PlaylistAction::CloseDetail
    ));
}
