use mibar::client::ClientState;
use mibar::window::WindowId;

#[test]
fn client_serves_opened_windows() {
    let mut state = ClientState::new("light");
    assert!(!state.is_open(WindowId(0)));
    state.open(WindowId(0));
    state.open(WindowId(1));
    state.open(WindowId(1));
    assert!(state.is_open(WindowId(0)));
    assert!(state.is_open(WindowId(1)));
    assert_eq!(state.theme_targets(WindowId(0)), vec![WindowId(1)]);
}

#[test]
fn client_keeps_window_whose_channel_took_the_close() {
    let mut state = ClientState::new(0u8);
    state.open(WindowId(3));
    assert!(!state.close(WindowId(3), false));
    assert!(state.is_open(WindowId(3)));
}

#[test]
fn client_stops_when_last_window_is_gone() {
    let mut state = ClientState::new(0u8);
    state.open(WindowId(3));
    state.open(WindowId(4));
    assert!(!state.close(WindowId(3), true));
    assert!(!state.is_open(WindowId(3)));
    assert!(state.close(WindowId(4), true));
    assert!(!state.is_open(WindowId(4)));
}

#[test]
fn client_closing_unknown_window_with_none_open_stops() {
    let mut state = ClientState::new(0u8);
    assert!(state.close(WindowId(9), false));
}

#[test]
fn client_theme_change_skips_sender_and_is_kept() {
    let mut state = ClientState::new(String::from("light"));
    state.open(WindowId(0));
    state.open(WindowId(1));
    state.open(WindowId(2));
    let mut targets = state.theme_targets(WindowId(1));
    targets.sort_by_key(|w| w.0);
    assert_eq!(targets, vec![WindowId(0), WindowId(2)]);
    state.change_theme(String::from("dark"));
    assert_eq!(state.theme(), "dark");
    assert!(state.is_open(WindowId(1)));
}

#[test]
fn client_open_then_failed_close_restores() {
    let mut state = ClientState::new(0u8);
    state.open(WindowId(1));
    state.open(WindowId(2));
    assert!(!state.close(WindowId(2), true));
    assert_eq!(state.theme_targets(WindowId(99)), vec![WindowId(1)]);
}
