//! The decisions of the loop that serves the windows' requests: which windows
//! are open, when the loop stops, who hears of a new theme, and which theme a
//! new window starts with. The loop itself, with its channels and threads,
//! runs outside; it performs what these functions decide.

use vstd::prelude::*;

use crate::window::WindowId;

verus! {

/// The windows that the loop serves, each with a channel of its own held
/// outside, and the theme that a window opened now starts with.
pub struct ClientState<T> {
    windows: Vec<WindowId>,
    theme: T,
}

impl<T> ClientState<T> {
    /// The windows that the loop serves.
    pub closed spec fn open_windows(&self) -> Set<WindowId> {
        self.windows@.to_set()
    }

    /// The theme that a window opened now starts with.
    pub closed spec fn current_theme(&self) -> T {
        self.theme
    }

    /// No window is listed twice.
    pub closed spec fn wf(&self) -> bool {
        self.windows@.no_duplicates()
    }

    /// No window yet, and `theme` for the first ones.
    pub fn new(theme: T) -> (s: Self)
        ensures
            s.wf(),
            s.open_windows() == Set::<WindowId>::empty(),
            s.current_theme() == theme,
    {
        let s = ClientState { windows: Vec::new(), theme };
        assert(s.open_windows() =~= Set::<WindowId>::empty());
        s
    }

    /// The theme that a window opened now starts with.
    pub fn theme(&self) -> (t: &T)
        ensures
            *t == self.current_theme(),
    {
        &self.theme
    }

    /// Whether `id` is served, so that a request for it goes to its channel.
    pub fn is_open(&self, id: WindowId) -> (b: bool)
        ensures
            b == self.open_windows().contains(id),
    {
        let mut i: usize = 0;
        while i < self.windows.len()
            invariant
                i <= self.windows@.len(),
                forall|j: int| 0 <= j < i ==> self.windows@[j] != id,
            decreases self.windows@.len() - i,
        {
            if self.windows[i] == id {
                assert(self.windows@.contains(id));
                return true;
            }
            i = i + 1;
        }
        false
    }

    /// A window `id` was opened: from now on it is served. A window of the
    /// same identifier that was served already stays served once.
    pub fn open(&mut self, id: WindowId)
        requires
            old(self).wf(),
        ensures
            final(self).wf(),
            final(self).open_windows() == old(self).open_windows().insert(id),
            final(self).current_theme() == old(self).current_theme(),
    {
        if !self.is_open(id) {
            let ghost before = self.windows@;
            self.windows.push(id);
            proof {
                assert(self.windows@ == before.push(id));
                assert forall|x: WindowId| #[trigger] self.windows@.to_set().contains(x)
                    == before.to_set().insert(id).contains(x) by {
                    if before.contains(x) {
                        let j = choose|j: int| 0 <= j < before.len() && before[j] == x;
                        assert(self.windows@[j] == x);
                    }
                    if x == id {
                        assert(self.windows@[before.len() as int] == x);
                    }
                    if self.windows@.contains(x) && x != id {
                        let j = choose|j: int| 0 <= j < self.windows@.len() && self.windows@[j] == x;
                        assert(before[j] == x);
                    }
                }
                assert(self.windows@.to_set() =~= before.to_set().insert(id));
            }
        } else {
            assert(self.open_windows().insert(id) =~= self.open_windows());
        }
    }

    /// The request to close `id` was handed to its channel if `id` is served;
    /// `send_failed` tells whether that channel was gone. A window whose
    /// channel is gone is no longer served. Returns whether the loop stops,
    /// which it does once no window is served.
    pub fn close(&mut self, id: WindowId, send_failed: bool) -> (stop: bool)
        requires
            old(self).wf(),
        ensures
            final(self).wf(),
            final(self).open_windows() == (if send_failed {
                old(self).open_windows().remove(id)
            } else {
                old(self).open_windows()
            }),
            final(self).current_theme() == old(self).current_theme(),
            stop == final(self).open_windows().is_empty(),
    {
        if send_failed {
            self.windows = self.without(id);
        }
        let stop = self.windows.len() == 0;
        proof {
            if stop {
                assert(self.windows@.to_set() =~= Set::<WindowId>::empty());
            } else {
                assert(self.windows@.to_set().contains(self.windows@[0]));
            }
        }
        stop
    }

    /// Every served window but `from`, each once, in the order served.
    fn without(&self, from: WindowId) -> (r: Vec<WindowId>)
        requires
            self.wf(),
        ensures
            r@.no_duplicates(),
            r@.to_set() == self.open_windows().remove(from),
    {
        let mut r: Vec<WindowId> = Vec::new();
        let mut i: usize = 0;
        while i < self.windows.len()
            invariant
                i <= self.windows@.len(),
                self.windows@.no_duplicates(),
                r@.no_duplicates(),
                forall|x: WindowId| #[trigger] r@.contains(x) <==> (x != from && exists|j: int|
                    0 <= j < i && self.windows@[j] == x),
            decreases self.windows@.len() - i,
        {
            let w = self.windows[i];
            if w != from {
                proof {
                    if r@.contains(w) {
                        let j = choose|j: int| 0 <= j < i && self.windows@[j] == w;
                        assert(self.windows@[j] == self.windows@[i as int]);
                    }
                }
                let ghost r0 = r@;
                r.push(w);
                proof {
                    assert forall|x: WindowId| #[trigger] r@.contains(x) <==> (x != from && exists|j: int|
                        0 <= j < i + 1 && self.windows@[j] == x) by {
                        if r@.contains(x) {
                            let m = choose|m: int| 0 <= m < r@.len() && r@[m] == x;
                            if m < r0.len() {
                                assert(r0[m] == x);
                                assert(r0.contains(x));
                            } else {
                                assert(self.windows@[i as int] == x);
                            }
                        }
                        if x != from && exists|j: int| 0 <= j < i + 1 && self.windows@[j] == x {
                            let j = choose|j: int| 0 <= j < i + 1 && self.windows@[j] == x;
                            if j < i {
                                assert(r0.contains(x));
                                let m = choose|m: int| 0 <= m < r0.len() && r0[m] == x;
                                assert(r@[m] == x);
                            } else {
                                assert(r@[r0.len() as int] == x);
                            }
                        }
                    }
                }
            } else {
                proof {
                    assert forall|x: WindowId| #[trigger] r@.contains(x) <==> (x != from && exists|j: int|
                        0 <= j < i + 1 && self.windows@[j] == x) by {
                        if x != from && exists|j: int| 0 <= j < i + 1 && self.windows@[j] == x {
                            let j = choose|j: int| 0 <= j < i + 1 && self.windows@[j] == x;
                            assert(j < i);
                        }
                    }
                }
            }
            i = i + 1;
        }
        proof {
            assert forall|x: WindowId| #[trigger] r@.to_set().contains(x) == self.windows@.to_set().remove(
                from,
            ).contains(x) by {
                if self.windows@.contains(x) {
                    let j = choose|j: int| 0 <= j < self.windows@.len() && self.windows@[j] == x;
                    assert(exists|j: int| 0 <= j < i && self.windows@[j] == x);
                }
            }
            assert(r@.to_set() =~= self.windows@.to_set().remove(from));
        }
        r
    }

    /// The windows that hear of a new theme set by the window `from`: every
    /// served window but `from` itself, each once.
    pub fn theme_targets(&self, from: WindowId) -> (r: Vec<WindowId>)
        requires
            self.wf(),
        ensures
            r@.no_duplicates(),
            r@.to_set() == self.open_windows().remove(from),
    {
        self.without(from)
    }

    /// A window set a new theme: it is kept for the windows opened from now
    /// on, and the served windows stay as they are.
    pub fn change_theme(&mut self, theme: T)
        requires
            old(self).wf(),
        ensures
            final(self).wf(),
            final(self).current_theme() == theme,
            final(self).open_windows() == old(self).open_windows(),
    {
        self.theme = theme;
    }
}

/// Opening a window that was not served and then closing it on a gone channel
/// leaves the served windows as they were: `opened` is what `open` makes of
/// `before` with `id`, and `closed` what `close(id, true)` makes of `opened`.
pub proof fn law_open_then_failed_close<T>(
    before: ClientState<T>,
    opened: ClientState<T>,
    closed: ClientState<T>,
    id: WindowId,
)
    requires
        !before.open_windows().contains(id),
        opened.open_windows() == before.open_windows().insert(id),
        closed.open_windows() == opened.open_windows().remove(id),
    ensures
        closed.open_windows() == before.open_windows(),
{
    assert(closed.open_windows() =~= before.open_windows());
}

} // verus!
