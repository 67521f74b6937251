use vodlib::models::{PendingPlayerOpen, WindowSizeState};
use vodlib::window::{
    initial_window_size, set_pending_player_open, take_pending_player_open,
    window_move_should_save, window_resize_should_save, PendingPlayerOpenState,
};

// =========================================================
// opening geometry
// =========================================================

#[test]
fn initial_size_large_screen_default() {
    let (min_w, min_h, w, h) = initial_window_size(Some((2560, 1440)), None);
    assert_eq!((min_w, min_h), (1280, 720));
    assert_eq!((w, h), (1920, 1080));
}

#[test]
fn initial_size_small_screen_clamps() {
    let (min_w, min_h, w, h) = initial_window_size(Some((1024, 600)), Some((1600, 900)));
    assert_eq!((min_w, min_h), (1024, 600));
    assert_eq!((w, h), (1024, 600));
}

#[test]
fn initial_size_saved_kept_in_range() {
    let (_, _, w, h) = initial_window_size(Some((2560, 1440)), Some((1500, 800)));
    assert_eq!((w, h), (1500, 800));
}

#[test]
fn initial_size_no_screen_uses_minimum_default() {
    let (min_w, min_h, w, h) = initial_window_size(None, None);
    assert_eq!((min_w, min_h), (1280, 720));
    assert_eq!((w, h), (1280, 720));
}

// =========================================================
// resize and move dedup
// =========================================================

#[test]
fn resize_saved_once_per_size() {
    let mut state = WindowSizeState::default();
    assert!(window_resize_should_save(&mut state, 1280, 720));
    assert!(!window_resize_should_save(&mut state, 1280, 720));
    assert!(window_resize_should_save(&mut state, 1300, 720));
    assert!(!window_resize_should_save(&mut state, 0, 720));
}

#[test]
fn move_saved_once_per_position() {
    let mut state = WindowSizeState::default();
    assert!(window_move_should_save(&mut state, 10, 20));
    assert!(!window_move_should_save(&mut state, 10, 20));
    assert!(window_move_should_save(&mut state, -5, 20));
}

// =========================================================
// the pending player-open queue
// =========================================================

#[test]
fn pending_state_insert_and_remove() {
    let mut state = PendingPlayerOpenState::new();
    set_pending_player_open(
        &mut state,
        "player-1",
        "video1".to_string(),
        Some("/v/1.mp4".to_string()),
    );
    {
        let got = state.get("player-1");
        assert!(got.is_some());
        assert_eq!(got.unwrap().id, "video1");
    }
    let removed = take_pending_player_open(&mut state, "player-1");
    assert!(removed.is_some());
    assert_eq!(removed.unwrap().id, "video1");
    assert_eq!(state.len(), 0);
}

#[test]
fn pending_state_remove_nonexistent_returns_none() {
    let mut state = PendingPlayerOpenState::new();
    assert!(take_pending_player_open(&mut state, "no-such-label").is_none());
}

#[test]
fn pending_state_overwrite() {
    let mut state = PendingPlayerOpenState::new();
    state.insert(
        "p1",
        PendingPlayerOpen { id: "v1".to_string(), file_path: None },
    );
    state.insert(
        "p1",
        PendingPlayerOpen { id: "v2".to_string(), file_path: Some("/new".to_string()) },
    );
    assert_eq!(state.get("p1").unwrap().id, "v2");
}

#[test]
fn pending_state_multiple_labels() {
    let mut state = PendingPlayerOpenState::new();
    state.insert("main", PendingPlayerOpen { id: "a".to_string(), file_path: None });
    state.insert("sub", PendingPlayerOpen { id: "b".to_string(), file_path: None });
    assert_eq!(state.len(), 2);
    assert_eq!(state.get("main").unwrap().id, "a");
    assert_eq!(state.get("sub").unwrap().id, "b");
}
