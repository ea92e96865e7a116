//! The decisions of the workspaces widget: which status each of its buttons
//! gets from a workspace list, how a button reacts to the mouse, and which
//! colors it is drawn with.

use vstd::prelude::*;

use crate::color::Color;
use crate::hyprland::{Workspace, WorkspacesChanged};
use crate::widgets::MouseButton;

verus! {

/// The number of workspace buttons.
pub const WORKSPACE_COUNT: usize = 8;

/// What a workspace button shows: whether its workspace is the selected one,
/// and how many windows are on it.
#[derive(Clone, Copy, PartialEq, Eq, Structural, Default, Debug)]
pub struct WorkspaceStatus {
    pub is_current: bool,
    pub num_windows: u8,
}

/// The colors of the workspace buttons.
#[derive(Clone, Copy, Debug)]
pub struct Style {
    pub active: Color,
    pub empty: Color,
    pub text_color: Color,
    pub selected_text_color: Color,
}

/// The colors of a plain button.
#[derive(Clone, Copy, Debug)]
pub struct ButtonStyle {
    pub color: Color,
    pub hovered: Color,
    pub active: Color,
}

/// The message for the workspace `w` when `current` is selected: for the
/// button at index `id - 1`, if there is such a button.
pub open spec fn present_message(w: Workspace, current: u8) -> Option<(usize, WorkspaceStatus)> {
    if w.id >= 1 && w.id - 1 < WORKSPACE_COUNT {
        Some(((w.id - 1) as usize, WorkspaceStatus { is_current: w.id == current, num_windows: w.num_windows }))
    } else {
        None
    }
}

/// The messages for the listed workspaces, in the order of the list.
pub open spec fn present_messages(ws: Seq<Workspace>, current: u8) -> Seq<(usize, WorkspaceStatus)>
    decreases ws.len(),
{
    if ws.len() == 0 {
        Seq::empty()
    } else {
        present_messages(ws.drop_last(), current) + match present_message(ws.last(), current) {
            Some(m) => seq![m],
            None => Seq::empty(),
        }
    }
}

/// Whether some listed workspace has the button at index `i`.
pub open spec fn listed(ws: Seq<Workspace>, i: int) -> bool {
    exists|k: int| 0 <= k < ws.len() && ws[k].id >= 1 && ws[k].id - 1 == i
}

/// The messages for the buttons from index `i` on whose workspace is not
/// listed: no windows, selected if it is the current one.
pub open spec fn empty_messages(ws: Seq<Workspace>, current: u8, i: int) -> Seq<(usize, WorkspaceStatus)>
    decreases WORKSPACE_COUNT - i,
{
    if i < 0 || i >= WORKSPACE_COUNT {
        Seq::empty()
    } else if listed(ws, i) {
        empty_messages(ws, current, i + 1)
    } else {
        seq![(i as usize, WorkspaceStatus { is_current: i + 1 == current, num_windows: 0 })]
            + empty_messages(ws, current, i + 1)
    }
}

/// The status messages that a workspace list gives the buttons, in order:
/// one for each listed workspace that has a button, then one for each button
/// whose workspace is not listed.
pub fn workspace_messages(event: &WorkspacesChanged) -> (msgs: Vec<(usize, WorkspaceStatus)>)
    requires
        forall|k: int| 0 <= k < event.workspaces@.len() ==> #[trigger] event.workspaces@[k].id >= 1,
    ensures
        msgs@ == present_messages(event.workspaces@, event.current) + empty_messages(
            event.workspaces@,
            event.current,
            0,
        ),
        forall|j: int| 0 <= j < msgs@.len() ==> (#[trigger] msgs@[j]).1.is_current == (msgs@[j].0 + 1
            == event.current),
        forall|k: int| 0 <= k < event.workspaces@.len() && #[trigger] event.workspaces@[k].id <= WORKSPACE_COUNT
            ==> msgs@.contains(
            (
                (event.workspaces@[k].id - 1) as usize,
                WorkspaceStatus {
                    is_current: event.workspaces@[k].id == event.current,
                    num_windows: event.workspaces@[k].num_windows,
                },
            ),
        ),
{
    let ws = &event.workspaces;
    let current = event.current;
    let n = ws.len();
    let mut empty: Vec<bool> = vec![true; WORKSPACE_COUNT];
    let mut msgs: Vec<(usize, WorkspaceStatus)> = Vec::new();
    for j in 0..n
        invariant
            n == ws@.len(),
            current == event.current,
            ws == &event.workspaces,
            forall|k: int| 0 <= k < ws@.len() ==> #[trigger] ws@[k].id >= 1,
            empty@.len() == WORKSPACE_COUNT,
            msgs@ == present_messages(ws@.take(j as int), current),
            forall|i: int| 0 <= i < WORKSPACE_COUNT ==> #[trigger] empty@[i] == !listed(ws@.take(j as int), i),
    {
        let w = ws[j];
        proof {
            let s0 = ws@.take(j as int);
            let s1 = ws@.take(j + 1);
            assert(s1.drop_last() =~= s0);
            assert(s1.last() == w);
            assert forall|i: int| 0 <= i < WORKSPACE_COUNT implies (listed(s1, i) == (listed(s0, i) || w.id - 1 == i)) by {
                if listed(s1, i) {
                    let k = choose|k: int| 0 <= k < s1.len() && s1[k].id >= 1 && s1[k].id - 1 == i;
                    if k < j {
                        assert(s0[k] == s1[k]);
                    }
                }
                if listed(s0, i) {
                    let k = choose|k: int| 0 <= k < s0.len() && s0[k].id >= 1 && s0[k].id - 1 == i;
                    assert(s1[k] == s0[k]);
                }
                if w.id - 1 == i {
                    assert(s1[j as int] == w);
                }
            }
        }
        let index = (w.id - 1) as usize;
        if index < WORKSPACE_COUNT {
            empty.set(index, false);
            let msg = WorkspaceStatus { is_current: w.id == current, num_windows: w.num_windows };
            msgs.push((index, msg));
        }
    }
    assert(ws@.take(n as int) =~= ws@);
    let mut i: usize = 0;
    while i < WORKSPACE_COUNT
        invariant
            i <= WORKSPACE_COUNT,
            current == event.current,
            ws == &event.workspaces,
            empty@.len() == WORKSPACE_COUNT,
            forall|k: int| 0 <= k < WORKSPACE_COUNT ==> #[trigger] empty@[k] == !listed(ws@, k),
            msgs@ + empty_messages(ws@, current, i as int) == present_messages(ws@, current)
                + empty_messages(ws@, current, 0),
        decreases WORKSPACE_COUNT - i,
    {
        if empty[i] {
            let msg = WorkspaceStatus { is_current: i + 1 == current as usize, num_windows: 0 };
            let ghost rest = empty_messages(ws@, current, i + 1);
            assert(empty_messages(ws@, current, i as int) == seq![(i, msg)] + rest);
            assert(msgs@.push((i, msg)) + rest =~= msgs@ + (seq![(i, msg)] + rest));
            msgs.push((i, msg));
        }
        i = i + 1;
    }
    assert(msgs@ + empty_messages(ws@, current, WORKSPACE_COUNT as int) =~= msgs@);
    proof {
        law_current_button_is_selected(ws@, current);
    }
    msgs
}

/// The messages for a listed workspace that has a button include its own.
proof fn lemma_present_message_sent(ws: Seq<Workspace>, current: u8, k: int)
    requires
        0 <= k < ws.len(),
        present_message(ws[k], current) is Some,
    ensures
        present_messages(ws, current).contains(present_message(ws[k], current).unwrap()),
    decreases ws.len(),
{
    let prefix = ws.drop_last();
    let last_msgs = match present_message(ws.last(), current) {
        Some(m) => seq![m],
        None => Seq::<(usize, WorkspaceStatus)>::empty(),
    };
    if k == ws.len() - 1 {
        assert((present_messages(prefix, current) + last_msgs)[present_messages(prefix, current).len() as int]
            == present_message(ws[k], current).unwrap());
    } else {
        assert(prefix[k] == ws[k]);
        lemma_present_message_sent(prefix, current, k);
        let m = present_message(ws[k], current).unwrap();
        let j = choose|j: int| 0 <= j < present_messages(prefix, current).len() && present_messages(prefix, current)[j] == m;
        assert((present_messages(prefix, current) + last_msgs)[j] == m);
    }
}

/// The messages for the buttons from `j` on include the empty status of
/// each one whose workspace is not listed.
proof fn lemma_empty_message_sent(ws: Seq<Workspace>, current: u8, j: int, i: int)
    requires
        0 <= j <= i < WORKSPACE_COUNT,
        !listed(ws, i),
    ensures
        empty_messages(ws, current, j).contains(
            (i as usize, WorkspaceStatus { is_current: i + 1 == current, num_windows: 0 }),
        ),
    decreases WORKSPACE_COUNT - j,
{
    let m = (i as usize, WorkspaceStatus { is_current: i + 1 == current, num_windows: 0 });
    if j == i {
        assert((seq![m] + empty_messages(ws, current, j + 1))[0] == m);
    } else {
        lemma_empty_message_sent(ws, current, j + 1, i);
        let rest = empty_messages(ws, current, j + 1);
        let k = choose|k: int| 0 <= k < rest.len() && rest[k] == m;
        if listed(ws, j) {
        } else {
            let head = seq![(j as usize, WorkspaceStatus { is_current: j + 1 == current, num_windows: 0 })];
            assert((head + rest)[k + 1] == m);
        }
    }
}

/// Every workspace button is told a status by a workspace list: the one of
/// its listed workspace, or that it has no windows.
pub proof fn law_every_button_gets_a_status(ws: Seq<Workspace>, current: u8, i: int)
    requires
        0 <= i < WORKSPACE_COUNT,
        forall|k: int| 0 <= k < ws.len() ==> #[trigger] ws[k].id >= 1,
    ensures
        exists|k: int|
            0 <= k < (present_messages(ws, current) + empty_messages(ws, current, 0)).len() && (
            present_messages(ws, current) + empty_messages(ws, current, 0))[k].0 == i,
{
    let p = present_messages(ws, current);
    let e = empty_messages(ws, current, 0);
    if listed(ws, i) {
        let k = choose|k: int| 0 <= k < ws.len() && ws[k].id >= 1 && ws[k].id - 1 == i;
        lemma_present_message_sent(ws, current, k);
        let m = present_message(ws[k], current).unwrap();
        let j = choose|j: int| 0 <= j < p.len() && p[j] == m;
        assert((p + e)[j] == m);
    } else {
        lemma_empty_message_sent(ws, current, 0, i);
        let m = (i as usize, WorkspaceStatus { is_current: i + 1 == current, num_windows: 0 });
        let j = choose|j: int| 0 <= j < e.len() && e[j] == m;
        assert((p + e)[p.len() + j] == m);
    }
}

/// The message for the button at `index` tells it that it is selected
/// exactly when its workspace, `index + 1`, is the current one.
pub open spec fn selection_right(m: (usize, WorkspaceStatus), current: u8) -> bool {
    m.1.is_current == (m.0 + 1 == current)
}

/// Every message for a listed workspace selects its button exactly when the
/// workspace is the current one.
proof fn lemma_present_selection(ws: Seq<Workspace>, current: u8)
    ensures
        forall|j: int| 0 <= j < present_messages(ws, current).len()
            ==> #[trigger] selection_right(present_messages(ws, current)[j], current),
    decreases ws.len(),
{
    if ws.len() > 0 {
        let prefix = present_messages(ws.drop_last(), current);
        let last = match present_message(ws.last(), current) {
            Some(m) => seq![m],
            None => Seq::<(usize, WorkspaceStatus)>::empty(),
        };
        lemma_present_selection(ws.drop_last(), current);
        assert(present_messages(ws, current) == prefix + last);
        assert forall|j: int| 0 <= j < (prefix + last).len() implies #[trigger] selection_right(
            (prefix + last)[j],
            current,
        ) by {
            if j < prefix.len() {
                assert(selection_right(prefix[j], current));
            } else {
                let w = ws.last();
                assert((prefix + last)[j] == last[0]);
                assert(w.id >= 1 && w.id - 1 < WORKSPACE_COUNT);
                assert(last[0].0 + 1 == w.id);
            }
        }
    }
}

/// Every message for an unlisted workspace selects its button exactly when
/// the workspace is the current one.
proof fn lemma_empty_selection(ws: Seq<Workspace>, current: u8, i: int)
    ensures
        forall|j: int| 0 <= j < empty_messages(ws, current, i).len()
            ==> #[trigger] selection_right(empty_messages(ws, current, i)[j], current),
    decreases WORKSPACE_COUNT - i,
{
    if 0 <= i < WORKSPACE_COUNT {
        let rest = empty_messages(ws, current, i + 1);
        lemma_empty_selection(ws, current, i + 1);
        if !listed(ws, i) {
            let head = seq![(i as usize, WorkspaceStatus { is_current: i + 1 == current, num_windows: 0 })];
            assert(empty_messages(ws, current, i) == head + rest);
            assert forall|j: int| 0 <= j < (head + rest).len() implies #[trigger] selection_right(
                (head + rest)[j],
                current,
            ) by {
                if j > 0 {
                    assert((head + rest)[j] == rest[j - 1]);
                    assert(selection_right(rest[j - 1], current));
                }
            }
        }
    }
}

/// What a workspace list tells the buttons: the button of a workspace is
/// told that it is selected exactly when that workspace is the current one,
/// whether or not it has windows; and each listed workspace that has a
/// button tells it its own window count.
pub proof fn law_current_button_is_selected(ws: Seq<Workspace>, current: u8)
    requires
        forall|k: int| 0 <= k < ws.len() ==> #[trigger] ws[k].id >= 1,
    ensures
        forall|j: int| 0 <= j < (present_messages(ws, current) + empty_messages(ws, current, 0)).len()
            ==> (#[trigger] (present_messages(ws, current) + empty_messages(ws, current, 0))[j]).1.is_current
            == ((present_messages(ws, current) + empty_messages(ws, current, 0))[j].0 + 1 == current),
        forall|k: int| 0 <= k < ws.len() && #[trigger] ws[k].id <= WORKSPACE_COUNT
            ==> (present_messages(ws, current) + empty_messages(ws, current, 0)).contains(
            (
                (ws[k].id - 1) as usize,
                WorkspaceStatus { is_current: ws[k].id == current, num_windows: ws[k].num_windows },
            ),
        ),
{
    let p = present_messages(ws, current);
    let e = empty_messages(ws, current, 0);
    lemma_present_selection(ws, current);
    lemma_empty_selection(ws, current, 0);
    assert forall|j: int| 0 <= j < (p + e).len() implies (#[trigger] (p + e)[j]).1.is_current == ((p
        + e)[j].0 + 1 == current) by {
        if j < p.len() {
            assert(selection_right(p[j], current));
        } else {
            assert(selection_right(e[j - p.len()], current));
        }
    }
    assert forall|k: int| 0 <= k < ws.len() && #[trigger] ws[k].id <= WORKSPACE_COUNT implies (p + e).contains(
        ((ws[k].id - 1) as usize, WorkspaceStatus { is_current: ws[k].id == current, num_windows: ws[k].num_windows }),
    ) by {
        lemma_present_message_sent(ws, current, k);
        let m = present_message(ws[k], current).unwrap();
        let j = choose|j: int| 0 <= j < p.len() && p[j] == m;
        assert((p + e)[j] == m);
    }
}

/// A workspace button: its workspace, how it looks, and whether it is under
/// the pointer or being pressed.
#[derive(Clone, Copy, PartialEq, Eq, Structural, Debug)]
pub struct WorkspaceButton {
    pub id: u8,
    pub status: WorkspaceStatus,
    pub is_hovered: bool,
    pub is_active: bool,
}

/// What a workspace button does after a mouse event.
#[derive(Clone, Copy, PartialEq, Eq, Structural, Debug)]
pub struct ButtonResponse {
    /// The button must be drawn again.
    pub redraw: bool,
    /// The compositor is to select the button's workspace.
    pub change_workspace: bool,
}

impl WorkspaceButton {
    /// The button of workspace `id`, not yet told its status.
    pub fn new(id: u8) -> (b: Self)
        ensures
            b.id == id,
            b.status == (WorkspaceStatus { is_current: false, num_windows: 0 }),
            !b.is_hovered,
            !b.is_active,
    {
        WorkspaceButton {
            id,
            status: WorkspaceStatus { is_current: false, num_windows: 0 },
            is_hovered: false,
            is_active: false,
        }
    }

    /// The pointer moved, to within the button or not. The button of the
    /// selected workspace never changes its look.
    pub fn mouse_moved(&mut self, inside: bool) -> (r: ButtonResponse)
        ensures
            !r.change_workspace,
            final(self).id == old(self).id,
            final(self).status == old(self).status,
            inside ==> final(self).is_hovered && final(self).is_active == old(self).is_active
                && r.redraw == (!old(self).is_hovered && !old(self).status.is_current),
            !inside && old(self).is_hovered ==> !final(self).is_hovered && !final(self).is_active
                && r.redraw == !old(self).status.is_current,
            !inside && !old(self).is_hovered ==> *final(self) == *old(self) && !r.redraw,
    {
        if inside {
            let redraw = !self.is_hovered && !self.status.is_current;
            self.is_hovered = true;
            ButtonResponse { redraw, change_workspace: false }
        } else if self.is_hovered {
            self.is_hovered = false;
            self.is_active = false;
            ButtonResponse { redraw: !self.status.is_current, change_workspace: false }
        } else {
            ButtonResponse { redraw: false, change_workspace: false }
        }
    }

    /// A mouse button was pressed: a left press within the button of a
    /// workspace that is not selected starts a press.
    pub fn mouse_pressed(&mut self, button: MouseButton, inside: bool) -> (r: ButtonResponse)
        ensures
            !r.change_workspace,
            r.redraw == (button == MouseButton::Left && inside && !old(self).status.is_current),
            final(self).id == old(self).id,
            final(self).status == old(self).status,
            final(self).is_hovered == old(self).is_hovered,
            final(self).is_active == (old(self).is_active || r.redraw),
    {
        if button == MouseButton::Left && inside && !self.status.is_current {
            self.is_active = true;
            ButtonResponse { redraw: true, change_workspace: false }
        } else {
            ButtonResponse { redraw: false, change_workspace: false }
        }
    }

    /// A mouse button was released, within the button or not. Releasing the
    /// left button ends a press; within the button of a workspace that is not
    /// selected, it selects that workspace.
    pub fn mouse_released(&mut self, button: MouseButton, inside: bool) -> (r: ButtonResponse)
        ensures
            final(self).id == old(self).id,
            final(self).status == old(self).status,
            final(self).is_hovered == old(self).is_hovered,
            button == MouseButton::Left ==> {
                &&& r.change_workspace == (old(self).is_active && inside && !old(self).status.is_current)
                &&& r.redraw == (old(self).is_active && !old(self).status.is_current)
                &&& !final(self).is_active
            },
            button != MouseButton::Left ==> *final(self) == *old(self) && !r.redraw
                && !r.change_workspace,
    {
        if button != MouseButton::Left {
            return ButtonResponse { redraw: false, change_workspace: false };
        }
        let change_workspace = self.is_active && inside && !self.status.is_current;
        let redraw = self.is_active && !self.status.is_current;
        self.is_active = false;
        ButtonResponse { redraw, change_workspace }
    }

    /// Takes the status `new`. Returns whether the button must be drawn
    /// again (the selection changed) and whether it must be laid out again
    /// (the window count, which it shows as text, changed).
    pub fn set_status(&mut self, new: WorkspaceStatus) -> (r: (bool, bool))
        ensures
            final(self).status == new,
            final(self).id == old(self).id,
            final(self).is_hovered == old(self).is_hovered,
            final(self).is_active == old(self).is_active,
            r.0 == (new.is_current != old(self).status.is_current),
            r.1 == (new.num_windows != old(self).status.num_windows),
    {
        let redraw = new.is_current != self.status.is_current;
        let relayout = new.num_windows != self.status.num_windows;
        self.status = new;
        (redraw, relayout)
    }

    /// The fill and border colors of the button's circle: the selected
    /// workspace is filled; one with windows is outlined, and filled while
    /// pressed; an empty one is outlined in the empty color unless hovered or
    /// pressed.
    pub fn circle_colors(&self, style: &Style) -> (c: (Color, Color))
        ensures
            c == (if self.status.is_current {
                (style.active, style.active)
            } else if self.status.num_windows > 0 {
                (if self.is_active { style.active } else { Color { r: 0, g: 0, b: 0, a: 0 } }, style.active)
            } else if self.is_active {
                (style.active, style.active)
            } else if self.is_hovered {
                (Color { r: 0, g: 0, b: 0, a: 0 }, style.active)
            } else {
                (Color { r: 0, g: 0, b: 0, a: 0 }, style.empty)
            }),
    {
        if self.status.is_current {
            (style.active, style.active)
        } else if self.status.num_windows > 0 {
            let fill = if self.is_active {
                style.active
            } else {
                Color::transparent()
            };
            (fill, style.active)
        } else if self.is_active {
            (style.active, style.active)
        } else if self.is_hovered {
            (Color::transparent(), style.active)
        } else {
            (Color::transparent(), style.empty)
        }
    }

    /// The color of the window count, when it is shown: it is shown for the
    /// selected workspace or one with windows, unless the button is pressed.
    pub fn text_color(&self, style: &Style) -> (c: Option<Color>)
        ensures
            c == (if (self.status.num_windows > 0 || self.status.is_current) && !self.is_active {
                Some(
                    if self.status.is_current {
                        style.selected_text_color
                    } else if self.is_hovered {
                        style.active
                    } else {
                        style.text_color
                    },
                )
            } else {
                None
            }),
    {
        if (self.status.num_windows > 0 || self.status.is_current) && !self.is_active {
            Some(
                if self.status.is_current {
                    style.selected_text_color
                } else if self.is_hovered {
                    style.active
                } else {
                    style.text_color
                },
            )
        } else {
            None
        }
    }
}

} // verus!
