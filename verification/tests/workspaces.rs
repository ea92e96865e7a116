use mibar::color::Color;
use mibar::hyprland::{Workspace, WorkspacesChanged};
use mibar::widgets::MouseButton;
use mibar::workspaces::{workspace_messages, Style, WorkspaceButton, WorkspaceStatus};

fn status(is_current: bool, num_windows: u8) -> WorkspaceStatus {
    WorkspaceStatus { is_current, num_windows }
}

#[test]
fn messages_for_listed_then_empty_workspaces() {
    let event = WorkspacesChanged {
        current: 2,
        workspaces: vec![
            Workspace { id: 2, num_windows: 3 },
            Workspace { id: 9, num_windows: 1 },
            Workspace { id: 5, num_windows: 1 },
        ],
    };
    let msgs = workspace_messages(&event);
    assert_eq!(
        msgs,
        vec![
            (1, status(true, 3)),
            (4, status(false, 1)),
            (0, status(false, 0)),
            (2, status(false, 0)),
            (3, status(false, 0)),
            (5, status(false, 0)),
            (6, status(false, 0)),
            (7, status(false, 0)),
        ]
    );
}

#[test]
fn current_empty_workspace_is_marked() {
    let event = WorkspacesChanged { current: 8, workspaces: vec![] };
    let msgs = workspace_messages(&event);
    assert_eq!(msgs.len(), 8);
    assert_eq!(msgs[7], (7, status(true, 0)));
}

#[test]
fn pressing_a_workspace_button_selects_it() {
    let mut b = WorkspaceButton::new(3);
    let r = b.mouse_moved(true);
    assert!(r.redraw && !r.change_workspace);
    assert!(b.mouse_pressed(MouseButton::Left, true).redraw);
    let r = b.mouse_released(MouseButton::Left, true);
    assert!(r.change_workspace && r.redraw);
    assert!(!b.is_active);
}

#[test]
fn the_selected_workspace_ignores_presses() {
    let mut b = WorkspaceButton::new(1);
    assert_eq!(b.set_status(status(true, 2)), (true, true));
    assert_eq!(b.set_status(status(true, 2)), (false, false));
    assert!(!b.mouse_moved(true).redraw);
    assert!(!b.mouse_pressed(MouseButton::Left, true).redraw);
    assert!(!b.mouse_released(MouseButton::Left, true).change_workspace);
}

#[test]
fn releasing_off_the_button_does_not_select() {
    let mut b = WorkspaceButton::new(2);
    b.mouse_moved(true);
    b.mouse_pressed(MouseButton::Left, true);
    let r = b.mouse_released(MouseButton::Left, false);
    assert!(!r.change_workspace);
    assert!(r.redraw);
}

#[test]
fn button_colors() {
    let style = Style {
        active: Color::red(),
        empty: Color::blue(),
        text_color: Color::white(),
        selected_text_color: Color::black(),
    };
    let mut b = WorkspaceButton::new(1);
    assert_eq!(b.circle_colors(&style), (Color::transparent(), Color::blue()));
    assert_eq!(b.text_color(&style), None);
    b.set_status(status(false, 2));
    assert_eq!(b.circle_colors(&style), (Color::transparent(), Color::red()));
    assert_eq!(b.text_color(&style), Some(Color::white()));
    b.set_status(status(true, 2));
    assert_eq!(b.circle_colors(&style), (Color::red(), Color::red()));
    assert_eq!(b.text_color(&style), Some(Color::black()));
}
