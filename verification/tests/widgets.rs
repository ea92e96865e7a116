use mibar::widgets::{Axis, ButtonInteraction, ButtonState, MouseButton, Panel, Task};
use mibar::ids::{Id, RawWidgetId};

#[test]
fn mouse_button_codes() {
    assert_eq!(MouseButton::from_code(272), Some(MouseButton::Left));
    assert_eq!(MouseButton::from_code(273), Some(MouseButton::Right));
    assert_eq!(MouseButton::from_code(274), Some(MouseButton::Middle));
    assert_eq!(MouseButton::from_code(275), None);
}

#[test]
fn a_press_and_release_on_the_button_is_a_click() {
    let mut b = ButtonInteraction::new();
    assert_eq!(b.current_state(), ButtonState::Normal);
    assert!(b.mouse_moved(true));
    assert_eq!(b.current_state(), ButtonState::Hovered);
    assert!(!b.mouse_moved(true));
    assert!(b.mouse_pressed(MouseButton::Left, true));
    assert_eq!(b.current_state(), ButtonState::Active);
    assert!(!b.mouse_released(MouseButton::Right));
    assert!(b.mouse_released(MouseButton::Left));
    assert_eq!(b.current_state(), ButtonState::Hovered);
}

#[test]
fn leaving_the_button_cancels_the_press() {
    let mut b = ButtonInteraction::new();
    b.mouse_moved(true);
    b.mouse_pressed(MouseButton::Left, true);
    assert!(b.mouse_moved(false));
    assert_eq!(b.current_state(), ButtonState::Normal);
    assert!(!b.mouse_released(MouseButton::Left));
    assert!(!b.mouse_pressed(MouseButton::Middle, true));
}

#[test]
fn axes_flip() {
    assert_eq!(Axis::Horizontal.flip(), Axis::Vertical);
    assert_eq!(Axis::Vertical.flip(), Axis::Horizontal);
    assert_eq!(Axis::Vertical.flip().flip(), Axis::Vertical);
}

#[test]
fn panels_and_tasks() {
    assert_eq!(Panel::new((300, 200)).size, (300, 200));
    assert_eq!(Task::void(5u8).into_task(), 5);
    let id = Id(RawWidgetId { idx: 3, version: 2 });
    let (got, task) = Task::new::<u32, &str>(id, "work").into_parts();
    assert_eq!(got, id);
    assert_eq!(task, "work");
}
