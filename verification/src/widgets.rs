//! The decisions of the core widgets that do not depend on geometry: mouse
//! buttons, the interaction state of a button, layout axes, panel sizes and
//! the tasks that widgets hand to the runtime.

use vstd::prelude::*;
use std::marker::PhantomData;

use crate::ids::Id;

verus! {

/// A mouse button.
#[derive(Clone, Copy, PartialEq, Eq, Structural, Debug)]
pub enum MouseButton {
    Left,
    Right,
    Middle,
}

impl MouseButton {
    /// The button of a Linux input event code: `BTN_LEFT` (272), `BTN_RIGHT`
    /// (273) or `BTN_MIDDLE` (274).
    pub fn from_code(code: u32) -> (b: Option<Self>)
        ensures
            b == (if code == 272 {
                Some(MouseButton::Left)
            } else if code == 273 {
                Some(MouseButton::Right)
            } else if code == 274 {
                Some(MouseButton::Middle)
            } else {
                None
            }),
    {
        match code {
            272 => Some(MouseButton::Left),
            273 => Some(MouseButton::Right),
            274 => Some(MouseButton::Middle),
            _ => None,
        }
    }
}

/// How a button looks: as it is, under the pointer, or pressed.
#[derive(Clone, Copy, PartialEq, Eq, Structural, Debug)]
pub enum ButtonState {
    Normal,
    Hovered,
    Active,
}

/// Whether a button is under the pointer and whether it is being pressed.
#[derive(Clone, Copy, PartialEq, Eq, Structural, Debug)]
pub struct ButtonInteraction {
    pub is_hovered: bool,
    pub is_active: bool,
}

impl ButtonInteraction {
    /// Neither hovered nor pressed.
    pub fn new() -> (s: Self)
        ensures
            !s.is_hovered,
            !s.is_active,
    {
        ButtonInteraction { is_hovered: false, is_active: false }
    }

    /// How the button looks: pressed before hovered before as it is.
    pub fn current_state(&self) -> (s: ButtonState)
        ensures
            s == (if self.is_active {
                ButtonState::Active
            } else if self.is_hovered {
                ButtonState::Hovered
            } else {
                ButtonState::Normal
            }),
    {
        if self.is_active {
            ButtonState::Active
        } else if self.is_hovered {
            ButtonState::Hovered
        } else {
            ButtonState::Normal
        }
    }

    /// The pointer moved, to within the button or not. Returns whether the
    /// button must be drawn again: when it becomes hovered, or stops being
    /// hovered (which also ends a press).
    pub fn mouse_moved(&mut self, inside: bool) -> (redraw: bool)
        ensures
            inside ==> final(self).is_hovered && final(self).is_active == old(self).is_active
                && redraw == !old(self).is_hovered,
            !inside && old(self).is_hovered ==> !final(self).is_hovered && !final(self).is_active
                && redraw,
            !inside && !old(self).is_hovered ==> *final(self) == *old(self) && !redraw,
    {
        if inside {
            let redraw = !self.is_hovered;
            self.is_hovered = true;
            redraw
        } else if self.is_hovered {
            self.is_hovered = false;
            self.is_active = false;
            true
        } else {
            false
        }
    }

    /// A mouse button was pressed, within the button or not. A left press
    /// within it starts a press; returns whether it must be drawn again.
    pub fn mouse_pressed(&mut self, button: MouseButton, inside: bool) -> (redraw: bool)
        ensures
            redraw == (button == MouseButton::Left && inside),
            final(self).is_hovered == old(self).is_hovered,
            final(self).is_active == (old(self).is_active || redraw),
    {
        if button == MouseButton::Left && inside {
            self.is_active = true;
            true
        } else {
            false
        }
    }

    /// A mouse button was released. Releasing the left button ends a press,
    /// which is a click; returns whether it was one (the button is then
    /// drawn again and its action scheduled).
    pub fn mouse_released(&mut self, button: MouseButton) -> (clicked: bool)
        ensures
            clicked == (button == MouseButton::Left && old(self).is_active),
            final(self).is_hovered == old(self).is_hovered,
            final(self).is_active == (old(self).is_active && !clicked),
    {
        if button == MouseButton::Left && self.is_active {
            self.is_active = false;
            true
        } else {
            false
        }
    }
}

/// A press is a click only when it ends with the pointer having stayed on the
/// button: a press (`pressed`) that the pointer leaves (`moved`, what
/// `mouse_moved(false)` makes of it) is no click when the button is released.
pub proof fn law_moving_off_cancels_click(
    pressed: ButtonInteraction,
    moved: ButtonInteraction,
    button: MouseButton,
    clicked: bool,
)
    requires
        pressed.is_hovered && pressed.is_active,
        pressed.is_hovered ==> !moved.is_hovered && !moved.is_active,
        clicked == (button == MouseButton::Left && moved.is_active),
    ensures
        !clicked,
{
}

/// Where a child is placed along an axis.
#[derive(Clone, Copy, PartialEq, Eq, Structural, Debug)]
pub enum Alignment {
    Start,
    Center,
    End,
}

/// A layout direction.
#[derive(Clone, Copy, PartialEq, Eq, Structural, Debug)]
pub enum Axis {
    Horizontal,
    Vertical,
}

impl Axis {
    /// The other axis.
    pub fn flip(&self) -> (a: Self)
        ensures
            a == (match *self {
                Axis::Horizontal => Axis::Vertical,
                Axis::Vertical => Axis::Horizontal,
            }),
    {
        match self {
            Axis::Horizontal => Axis::Vertical,
            Axis::Vertical => Axis::Horizontal,
        }
    }
}

/// Flipping an axis twice gives it back.
pub proof fn law_flip_involutive(a: Axis)
    ensures
        (match (match a {
            Axis::Horizontal => Axis::Vertical,
            Axis::Vertical => Axis::Horizontal,
        }) {
            Axis::Horizontal => Axis::Vertical,
            Axis::Vertical => Axis::Horizontal,
        }) == a,
{
}

/// A panel window in the top right corner of the screen, of a fixed size.
#[derive(Clone, Copy, Debug)]
pub struct Panel {
    pub size: (u32, u32),
}

impl Panel {
    /// A panel of `size` (width, height).
    pub fn new(size: (u32, u32)) -> (p: Self)
        ensures
            p.size == size,
    {
        Panel { size }
    }
}

/// The ways for a widget to run work in the background.
pub struct Task;

/// Work that produces nothing; no widget is told when it ends.
pub struct Void<F> {
    task: F,
}

/// Work that produces one value, which is handed to the widget `id`.
pub struct Result<T, F> {
    id: Id,
    task: F,
    data: PhantomData<T>,
}

impl<F> Void<F> {
    /// The work to run.
    pub closed spec fn task_view(&self) -> F {
        self.task
    }

    /// The work to run.
    pub fn into_task(self) -> (f: F)
        ensures
            f == self.task_view(),
    {
        self.task
    }
}

impl<T, F> Result<T, F> {
    /// The widget that gets the value.
    pub closed spec fn id_view(&self) -> Id {
        self.id
    }

    /// The work to run.
    pub closed spec fn task_view(&self) -> F {
        self.task
    }

    /// The widget that gets the value, and the work to run.
    pub fn into_parts(self) -> (r: (Id, F))
        ensures
            r.0 == self.id_view(),
            r.1 == self.task_view(),
    {
        (self.id, self.task)
    }
}

impl Task {
    /// Fire and forget work.
    pub fn void<F>(task: F) -> (v: Void<F>)
        ensures
            v.task_view() == task,
    {
        Void { task }
    }

    /// Work whose value is handed to the widget `id` when it ends.
    pub fn new<T, F>(id: Id, task: F) -> (r: Result<T, F>)
        ensures
            r.id_view() == id,
            r.task_view() == task,
    {
        Result { id, task, data: PhantomData }
    }
}

} // verus!
