use mibar::hyprland::{
    classify_event_line, get_keyboard_layout, keymap_line, parse_u8, parse_workspaces, EventLine,
    ListenerAction, ListenerState, Workspace,
};

const WORKSPACES: &str = "workspace ID 1 (1) on monitor eDP-1:\n\tmonitorID: 0\n\twindows: 2\n\thasfullscreen: 0\n\tlastwindow: 0x1\n\nworkspace ID 3 (3) on monitor eDP-1:\n\tmonitorID: 0\n\twindows: 0\n\thasfullscreen: 0\n\n";

#[test]
fn parses_the_workspace_list() {
    let ws = parse_workspaces(WORKSPACES);
    assert_eq!(
        ws,
        vec![Workspace { id: 1, num_windows: 2 }, Workspace { id: 3, num_windows: 0 }]
    );
}

#[test]
fn workspace_list_stops_at_an_id_that_does_not_parse() {
    let text = "workspace ID 2 (2)\n\twindows: 1\nworkspace ID special (x)\n\twindows: 4\nworkspace ID 5 (5)\n\twindows: 3\n";
    assert_eq!(parse_workspaces(text), vec![Workspace { id: 2, num_windows: 1 }]);
}

#[test]
fn workspace_with_a_bad_window_count_is_skipped() {
    let text = "workspace ID 2 (2)\n\twindows: many\nworkspace ID 4 (4)\n\twindows: 7\n";
    assert_eq!(parse_workspaces(text), vec![Workspace { id: 4, num_windows: 7 }]);
}

#[test]
fn empty_reply_has_no_workspaces() {
    assert!(parse_workspaces("").is_empty());
}

#[test]
fn parse_u8_reads_up_to_the_stop_byte() {
    let mut cursor = 0;
    assert_eq!(parse_u8("id: 42 rest", &mut cursor, b' ', "id: "), Some(42));
    assert_eq!(cursor, 6);
    let mut cursor = 0;
    assert_eq!(parse_u8("n=+7", &mut cursor, b'\n', "n="), Some(7));
    assert_eq!(cursor, 4);
}

#[test]
fn parse_u8_moves_past_a_number_that_does_not_parse() {
    let mut cursor = 0;
    assert_eq!(parse_u8("n=256;", &mut cursor, b';', "n="), None);
    assert_eq!(cursor, 5);
    let mut cursor = 1;
    assert_eq!(parse_u8("x", &mut cursor, b';', "n="), None);
    assert_eq!(cursor, 1);
}

#[test]
fn keyboard_layout_codes() {
    assert_eq!(get_keyboard_layout("Armenian"), Some("am"));
    assert_eq!(get_keyboard_layout("Armenian (phonetic)"), Some("am"));
    assert_eq!(get_keyboard_layout("French (Canada)"), Some("ca"));
    assert_eq!(get_keyboard_layout("French"), Some("fr"));
    assert_eq!(get_keyboard_layout("English (US)"), Some("us"));
    assert_eq!(get_keyboard_layout("English (US, intl.)"), None);
    assert_eq!(get_keyboard_layout("Klingon"), None);
    assert_eq!(get_keyboard_layout("A user-defined custom Layout"), Some("custom"));
}

#[test]
fn event_lines() {
    assert_eq!(classify_event_line("workspace>>3"), EventLine::Workspace(Some(3)));
    assert_eq!(classify_event_line("workspace>>name"), EventLine::Workspace(None));
    assert_eq!(classify_event_line("openwindow>>80e62df0,2,kitty,kitty"), EventLine::WindowsChanged);
    assert_eq!(classify_event_line("closewindow>>80e62df0"), EventLine::WindowsChanged);
    assert_eq!(classify_event_line("destroyworkspace>>2"), EventLine::Other);
    assert_eq!(classify_event_line("no separator"), EventLine::Other);
    assert_eq!(classify_event_line("activelayout>>kbd"), EventLine::MalformedKeyboardLayout);
    let line = "activelayout>>ducky-ducky-one-3-sf-rgb-1,English (US)";
    match classify_event_line(line) {
        EventLine::KeyboardLayout { device_start, device_end, layout_start, layout_end } => {
            assert_eq!(&line[device_start..device_end], "ducky-ducky-one-3-sf-rgb-1");
            assert_eq!(&line[layout_start..layout_end], "English (US)");
        }
        other => panic!("unexpected {:?}", other),
    }
}

#[test]
fn listener_fetches_workspaces_once_per_chunk() {
    let mut state = ListenerState::new();
    assert_eq!(state.current, 1);
    state.read_succeeded();
    assert_eq!(state.on_line(EventLine::Workspace(Some(4))), ListenerAction::FetchWorkspaces);
    assert_eq!(state.current, 4);
    state.workspaces_sent();
    assert_eq!(state.on_line(EventLine::WindowsChanged), ListenerAction::Nothing);
    assert_eq!(state.on_line(EventLine::Workspace(Some(2))), ListenerAction::Nothing);
    assert_eq!(state.current, 2);
    state.read_succeeded();
    assert_eq!(state.on_line(EventLine::WindowsChanged), ListenerAction::FetchWorkspaces);
    assert_eq!(state.on_line(EventLine::Workspace(None)), ListenerAction::Nothing);
    assert_eq!(state.current, 2);
}

#[test]
fn listener_stops_after_three_failed_reads() {
    let mut state = ListenerState::new();
    assert!(!state.read_failed());
    assert!(!state.read_failed());
    assert!(state.read_failed());
    let mut state = ListenerState::new();
    assert!(!state.read_failed());
    state.read_succeeded();
    assert!(!state.read_failed());
    assert!(!state.read_failed());
}

#[test]
fn keymap_line_of_a_device() {
    let resp = "Keyboards:\n\tKeyboard at 55d0:\n\t\tducky-ducky-one-3-sf-rgb-1\n\t\t\trules: r \"\", m \"pc105\", l \"us\", v \"\", o \"\"\n\t\t\tactive keymap: English (US)\n\t\t\tmain: yes\n";
    let (start, end) = keymap_line(resp, "ducky-ducky-one-3-sf-rgb-1").unwrap();
    assert_eq!(&resp[start..end], "active keymap: English (US)");
    assert_eq!(keymap_line(resp, "no-such-device"), None);
    assert_eq!(keymap_line("kbd\nonly one line\n", "kbd"), None);
}
