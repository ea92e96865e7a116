use mibar::monitor::MonitorState;
use mibar::pulse::{volume_icon, State};

#[test]
fn the_first_subscriber_starts_the_poller() {
    let mut m = MonitorState::new();
    assert!(m.subscribe());
    assert!(!m.subscribe());
    assert_eq!(m.subscribers, Some(2));
}

#[test]
fn the_last_subscriber_stops_the_poller() {
    let mut m = MonitorState::new();
    m.subscribe();
    assert!(m.unsubscribe());
    assert_eq!(m.subscribers, None);
    assert!(!m.unsubscribe());
}

#[test]
fn a_subscriber_leaving_forgets_the_poller() {
    let mut m = MonitorState::new();
    m.subscribe();
    m.subscribe();
    assert!(!m.unsubscribe());
    assert_eq!(m.subscribers, None);
    assert!(m.subscribe());
}

#[test]
fn volume_icons() {
    assert_eq!(volume_icon(State { volume: 50, is_muted: true }), "\u{f075f} ");
    assert_eq!(volume_icon(State { volume: 80, is_muted: false }), "\u{f057e}");
    assert_eq!(volume_icon(State { volume: 20, is_muted: false }), "\u{f0580}");
    assert_eq!(volume_icon(State { volume: 19, is_muted: false }), "\u{f057f}");
}
