use player::state::{resolve_random_play, Action, KeyInput, PlayerFlags, SelectionState};

fn fresh(n: usize) -> (SelectionState, PlayerFlags) {
    (SelectionState::new(n, 0), PlayerFlags::new())
}

#[test]
fn cursor_wraps_up_to_random_slot() {
    let (mut s, mut f) = fresh(5);
    assert_eq!(s.cursor, 0);
    let a = s.handle_key(&mut f, KeyInput::MoveUp, 1);
    assert_eq!(a, Action::Stay);
    assert_eq!(s.cursor, 5);
}

#[test]
fn cursor_wraps_down_to_first() {
    let (mut s, mut f) = fresh(5);
    s.handle_key(&mut f, KeyInput::MoveUp, 1);
    assert_eq!(s.cursor, 5);
    let a = s.handle_key(&mut f, KeyInput::MoveDown, 2);
    assert_eq!(a, Action::Stay);
    assert_eq!(s.cursor, 0);
}

#[test]
fn cursor_moves_inside_range() {
    let (mut s, mut f) = fresh(3);
    s.handle_key(&mut f, KeyInput::MoveDown, 1);
    s.handle_key(&mut f, KeyInput::MoveDown, 2);
    assert_eq!(s.cursor, 2);
    s.handle_key(&mut f, KeyInput::MoveUp, 3);
    assert_eq!(s.cursor, 1);
}

#[test]
fn confirm_plays_selection_with_current_shuffle_flag() {
    let (mut s, mut f) = fresh(4);
    s.handle_key(&mut f, KeyInput::MoveDown, 1);
    s.handle_key(&mut f, KeyInput::MoveDown, 2);
    let a = s.handle_key(&mut f, KeyInput::Confirm, 3);
    assert_eq!(a, Action::Play { start_index: 2, shuffle: false });
}

#[test]
fn confirm_respects_shuffle_toggle() {
    let (mut s, mut f) = fresh(4);
    s.handle_key(&mut f, KeyInput::ToggleShuffle, 1);
    s.handle_key(&mut f, KeyInput::MoveDown, 2);
    let a = s.handle_key(&mut f, KeyInput::Confirm, 3);
    assert_eq!(a, Action::Play { start_index: 1, shuffle: true });
}

#[test]
fn confirm_on_random_slot_requests_random_play() {
    let (mut s, mut f) = fresh(2);
    s.handle_key(&mut f, KeyInput::MoveUp, 1);
    assert_eq!(s.cursor, 2);
    let a = s.handle_key(&mut f, KeyInput::Confirm, 2);
    assert_eq!(a, Action::PlayRandom);
    let (start, shuffle) = resolve_random_play(2);
    assert!(start < 2);
    assert!(shuffle);
}

#[test]
fn toggles_flip_in_place() {
    let (mut s, mut f) = fresh(3);
    assert!(f.check_auto_play_next());
    assert!(!f.check_shuffle_queue());
    let a = s.handle_key(&mut f, KeyInput::ToggleAutoplay, 1);
    assert_eq!(a, Action::Stay);
    assert!(!f.check_auto_play_next());
    s.handle_key(&mut f, KeyInput::ToggleShuffle, 2);
    assert!(f.check_shuffle_queue());
    f.toggle_auto_play_next();
    assert!(f.check_auto_play_next());
    f.toggle_shuffle_queue();
    assert!(!f.check_shuffle_queue());
}

#[test]
fn cancel_while_browsing_exits() {
    let (mut s, mut f) = fresh(3);
    let a = s.handle_key(&mut f, KeyInput::Cancel, 1);
    assert_eq!(a, Action::Exit);
}

#[test]
fn overlay_opens_cleared_and_edits_text() {
    let (mut s, mut f) = fresh(3);
    s.handle_key(&mut f, KeyInput::OpenOverlay, 1);
    assert!(s.overlay_open);
    assert!(s.overlay_text.is_empty());
    assert_eq!(s.overlay_cursor, 0);
    s.handle_key(&mut f, KeyInput::CharKey('a'), 2);
    s.handle_key(&mut f, KeyInput::CharKey('c'), 3);
    s.handle_key(&mut f, KeyInput::CursorLeft, 4);
    s.handle_key(&mut f, KeyInput::CharKey('b'), 5);
    assert_eq!(s.overlay_text, vec!['a', 'b', 'c']);
    assert_eq!(s.overlay_cursor, 2);
}

#[test]
fn overlay_backspace_and_cursor_bounds() {
    let (mut s, mut f) = fresh(3);
    s.handle_key(&mut f, KeyInput::OpenOverlay, 1);
    s.handle_key(&mut f, KeyInput::CharKey('x'), 2);
    s.handle_key(&mut f, KeyInput::CharKey('y'), 3);
    s.handle_key(&mut f, KeyInput::Home, 4);
    assert_eq!(s.overlay_cursor, 0);
    // Backspace at the left edge is a no-op.
    s.handle_key(&mut f, KeyInput::Backspace, 5);
    assert_eq!(s.overlay_text, vec!['x', 'y']);
    s.handle_key(&mut f, KeyInput::End, 6);
    assert_eq!(s.overlay_cursor, 2);
    s.handle_key(&mut f, KeyInput::Backspace, 7);
    assert_eq!(s.overlay_text, vec!['x']);
    assert_eq!(s.overlay_cursor, 1);
    // The cursor cannot run past either end.
    s.handle_key(&mut f, KeyInput::CursorRight, 8);
    assert_eq!(s.overlay_cursor, 1);
    s.handle_key(&mut f, KeyInput::CursorLeft, 9);
    s.handle_key(&mut f, KeyInput::CursorLeft, 10);
    assert_eq!(s.overlay_cursor, 0);
}

#[test]
fn overlay_cancel_returns_to_browsing() {
    let (mut s, mut f) = fresh(3);
    s.handle_key(&mut f, KeyInput::MoveDown, 1);
    s.handle_key(&mut f, KeyInput::OpenOverlay, 2);
    s.handle_key(&mut f, KeyInput::CharKey('q'), 3);
    let a = s.handle_key(&mut f, KeyInput::Cancel, 4);
    assert_eq!(a, Action::Stay);
    assert!(!s.overlay_open);
    assert!(s.overlay_text.is_empty());
    // The selection cursor was untouched by the overlay.
    assert_eq!(s.cursor, 1);
}

#[test]
fn browsing_keys_are_ignored_while_overlay_open() {
    let (mut s, mut f) = fresh(3);
    s.handle_key(&mut f, KeyInput::OpenOverlay, 1);
    let a = s.handle_key(&mut f, KeyInput::MoveDown, 2);
    assert_eq!(a, Action::Stay);
    assert_eq!(s.cursor, 0);
    let a = s.handle_key(&mut f, KeyInput::Confirm, 3);
    assert_eq!(a, Action::Stay);
}

#[test]
fn idle_timeout_forces_random_shuffled_decision() {
    let (s, _f) = fresh(5);
    assert_eq!(s.on_tick(29), Action::Stay);
    assert_eq!(s.on_tick(30), Action::PlayRandom);
    assert_eq!(s.on_tick(31), Action::PlayRandom);
    let (start, shuffle) = resolve_random_play(5);
    assert!(start < 5);
    assert!(shuffle);
}

#[test]
fn any_input_rearms_the_idle_clock() {
    let (mut s, mut f) = fresh(5);
    s.handle_key(&mut f, KeyInput::MoveDown, 20);
    assert_eq!(s.on_tick(49), Action::Stay);
    assert_eq!(s.on_tick(50), Action::PlayRandom);
}

#[test]
fn idle_timeout_does_not_fire_in_overlay() {
    let (mut s, mut f) = fresh(5);
    s.handle_key(&mut f, KeyInput::OpenOverlay, 0);
    assert_eq!(s.on_tick(100), Action::Stay);
    s.handle_key(&mut f, KeyInput::Cancel, 100);
    assert_eq!(s.on_tick(130), Action::PlayRandom);
}
