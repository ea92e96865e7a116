//! The registry of open windows: each window gets an identifier that is never
//! handed out again, and may have a surface to draw on.

use vstd::prelude::*;

verus! {

/// The identifier of a window.
#[derive(Clone, Copy, PartialEq, Eq, Structural, Hash, Debug)]
pub struct WindowId(pub u64);

/// A window of the registry and its surface, once it has one.
pub struct WindowInfo<S> {
    pub id: WindowId,
    pub surface: Option<S>,
}

/// The open windows, in no particular order, and the identifier that the
/// next window gets.
pub struct WindowRegistry<S> {
    windows: Vec<WindowInfo<S>>,
    next_id: u64,
}

/// The identifiers of `windows`, in order.
pub open spec fn ids_of<S>(windows: Seq<WindowInfo<S>>) -> Seq<WindowId> {
    windows.map_values(|w: WindowInfo<S>| w.id)
}

impl<S> WindowRegistry<S> {
    /// The open windows.
    pub closed spec fn windows(&self) -> Seq<WindowInfo<S>> {
        self.windows@
    }

    /// The identifier that the next window gets.
    pub closed spec fn next_id(&self) -> u64 {
        self.next_id
    }

    /// Every open window has an identifier handed out before, and no two open
    /// windows share one.
    pub closed spec fn wf(&self) -> bool {
        &&& forall|i: int| 0 <= i < self.windows@.len() ==> #[trigger] self.windows@[i].id.0 < self.next_id
        &&& forall|i: int, j: int|
            0 <= i < j < self.windows@.len() ==> #[trigger] self.windows@[i].id != #[trigger] self.windows@[j].id
    }

    /// Whether `id` is the identifier of an open window.
    pub open spec fn alive(&self, id: WindowId) -> bool {
        ids_of(self.windows()).contains(id)
    }

    /// The surface of the open window `id`: `None` when it is not open or has
    /// no surface yet.
    pub open spec fn surface_of(&self, id: WindowId) -> Option<S> {
        if exists|i: int| 0 <= i < self.windows().len() && self.windows()[i].id == id {
            self.windows()[choose|i: int| 0 <= i < self.windows().len() && self.windows()[i].id == id].surface
        } else {
            None
        }
    }

    /// No window open yet.
    pub fn new() -> (r: Self)
        ensures
            r.wf(),
            r.windows().len() == 0,
            r.next_id() == 0,
    {
        WindowRegistry { windows: Vec::new(), next_id: 0 }
    }

    /// Opens a window with no surface and returns its new identifier.
    pub fn open_window(&mut self) -> (id: WindowId)
        requires
            old(self).wf(),
            old(self).next_id() < u64::MAX,
        ensures
            final(self).wf(),
            id.0 == old(self).next_id(),
            !old(self).alive(id),
            final(self).next_id() == old(self).next_id() + 1,
            final(self).windows() == old(self).windows().push(WindowInfo { id, surface: None }),
    {
        let id = WindowId(self.next_id);
        proof {
            if ids_of(self.windows@).contains(id) {
                let i = choose|i: int| 0 <= i < ids_of(self.windows@).len() && ids_of(self.windows@)[i] == id;
                assert(self.windows@[i].id.0 < self.next_id);
            }
        }
        let ghost before = self.windows@;
        self.windows.push(WindowInfo { id, surface: None });
        self.next_id = self.next_id + 1;
        proof {
            let after = self.windows@;
            assert forall|i: int| 0 <= i < after.len() implies #[trigger] after[i].id.0 < self.next_id by {
                if i < before.len() {
                    assert(after[i] == before[i]);
                }
            }
            assert forall|i: int, j: int| 0 <= i < j < after.len() implies #[trigger] after[i].id != #[trigger] after[j].id by {
                assert(after[i] == before[i]);
                assert(before[i].id.0 < id.0);
                if j < before.len() {
                    assert(after[j] == before[j]);
                }
            }
        }
        id
    }

    /// The index of the open window `id`.
    fn position(&self, id: WindowId) -> (r: Option<usize>)
        ensures
            r matches Some(i) ==> i < self.windows().len() && self.windows()[i as int].id == id,
            r is None ==> !self.alive(id),
    {
        let n = self.windows.len();
        let mut i: usize = 0;
        while i < n
            invariant
                n == self.windows@.len(),
                i <= n,
                forall|j: int| 0 <= j < i ==> self.windows@[j].id != id,
            decreases n - i,
        {
            if self.windows[i].id.0 == id.0 {
                return Some(i);
            }
            i = i + 1;
        }
        proof {
            if ids_of(self.windows@).contains(id) {
                let j = choose|j: int| 0 <= j < ids_of(self.windows@).len() && ids_of(self.windows@)[j] == id;
                assert(self.windows@[j].id == id);
            }
        }
        None
    }

    /// Whether the window `id` is open.
    pub fn is_alive(&self, id: WindowId) -> (b: bool)
        ensures
            b == self.alive(id),
    {
        match self.position(id) {
            Some(i) => {
                assert(ids_of(self.windows@)[i as int] == id);
                true
            },
            None => false,
        }
    }

    /// The surface of the window `id`, if it is open and has one.
    pub fn surface(&self, id: WindowId) -> (r: Option<&S>)
        requires
            self.wf(),
        ensures
            r == match self.surface_of(id) {
                Some(s) => Some(&s),
                None => None::<&S>,
            },
    {
        match self.position(id) {
            Some(i) => {
                proof {
                    let k = choose|k: int| 0 <= k < self.windows().len() && self.windows()[k].id == id;
                    assert(k == i as int);
                }
                match &self.windows[i].surface {
                    Some(s) => Some(s),
                    None => None,
                }
            },
            None => {
                proof {
                    if exists|k: int| 0 <= k < self.windows().len() && self.windows()[k].id == id {
                        let k = choose|k: int| 0 <= k < self.windows().len() && self.windows()[k].id == id;
                        assert(ids_of(self.windows@)[k] == id);
                    }
                }
                None
            },
        }
    }

    /// Gives the open window `id` the surface `surface`.
    pub fn set_surface(&mut self, id: WindowId, surface: S)
        requires
            old(self).wf(),
            old(self).alive(id),
        ensures
            final(self).wf(),
            final(self).next_id() == old(self).next_id(),
            ids_of(final(self).windows()) == ids_of(old(self).windows()),
            final(self).surface_of(id) == Some(surface),
            forall|other: WindowId|
                other != id ==> #[trigger] final(self).surface_of(other) == old(self).surface_of(other),
    {
        let i = match self.position(id) {
            Some(i) => i,
            None => {
                proof {
                    assert(false);
                }
                return;
            },
        };
        let ghost before = self.windows@;
        self.windows.set(i, WindowInfo { id, surface: Some(surface) });
        proof {
            assert(ids_of(self.windows@) =~= ids_of(before));
            assert forall|j: int| 0 <= j < self.windows@.len() implies #[trigger] self.windows@[j].id == before[j].id by {}
            let k = choose|k: int| 0 <= k < self.windows().len() && self.windows()[k].id == id;
            assert(k == i as int);
            assert forall|other: WindowId| other != id implies #[trigger] self.surface_of(other) == surface_in(before, other) by {
                if exists|k: int| 0 <= k < before.len() && before[k].id == other {
                    let k1 = choose|k: int| 0 <= k < before.len() && before[k].id == other;
                    assert(self.windows@[k1].id == other);
                    let k2 = choose|k: int| 0 <= k < self.windows@.len() && self.windows@[k].id == other;
                    assert(k1 == k2);
                }
            }
        }
    }

    /// Closes the window `id`, if it is open; the last window takes its place.
    pub fn kill(&mut self, id: WindowId)
        requires
            old(self).wf(),
        ensures
            final(self).wf(),
            final(self).next_id() == old(self).next_id(),
            !final(self).alive(id),
            forall|other: WindowId|
                other != id ==> (#[trigger] final(self).alive(other) == old(self).alive(other)
                    && final(self).surface_of(other) == old(self).surface_of(other)),
    {
        let ghost before = self.windows@;
        match self.position(id) {
            Some(i) => {
                self.windows.swap_remove(i);
                proof {
                    let after = self.windows@;
                    let last = before.len() - 1;
                    assert forall|j: int| 0 <= j < after.len() implies
                        #[trigger] after[j] == (if j == i { before[last] } else { before[j] }) by {}
                    assert forall|a: int, b: int| 0 <= a < b < after.len() implies #[trigger] after[a].id != #[trigger] after[b].id by {
                        let ia = if a == i { last } else { a };
                        let ib = if b == i { last } else { b };
                        assert(ia != ib);
                        if ia < ib {
                            assert(before[ia].id != before[ib].id);
                        } else {
                            assert(before[ib].id != before[ia].id);
                        }
                    }
                    assert forall|j: int| 0 <= j < after.len() implies #[trigger] after[j].id.0 < self.next_id by {
                        let ij = if j == i { last } else { j };
                        assert(before[ij].id.0 < self.next_id);
                    }
                    if ids_of(after).contains(id) {
                        let j = choose|j: int| 0 <= j < ids_of(after).len() && ids_of(after)[j] == id;
                        let ij = if j == i { last } else { j };
                        assert(before[ij].id == id);
                        assert(before[i as int].id == id);
                        if ij < i {
                            assert(before[ij].id != before[i as int].id);
                        } else if ij > i {
                            assert(before[i as int].id != before[ij].id);
                        }
                    }
                    assert forall|other: WindowId| other != id implies (#[trigger] self.alive(other) == alive_in(before, other)
                        && self.surface_of(other) == surface_in(before, other)) by {
                        if alive_in(before, other) {
                            let k = choose|k: int| 0 <= k < ids_of(before).len() && ids_of(before)[k] == other;
                            assert(k != i);
                            let k2 = if k == last { i as int } else { k };
                            assert(after[k2] == before[k]);
                            assert(ids_of(after)[k2] == other);
                            let c1 = choose|k: int| 0 <= k < before.len() && before[k].id == other;
                            assert(before[k].id == other);
                            if c1 != k {
                                if c1 < k { assert(before[c1].id != before[k].id); } else { assert(before[k].id != before[c1].id); }
                            }
                            let c2 = choose|k: int| 0 <= k < after.len() && after[k].id == other;
                            if c2 != k2 {
                                if c2 < k2 { assert(after[c2].id != after[k2].id); } else { assert(after[k2].id != after[c2].id); }
                            }
                        } else {
                            if ids_of(after).contains(other) {
                                let j = choose|j: int| 0 <= j < ids_of(after).len() && ids_of(after)[j] == other;
                                let ij = if j == i { last } else { j };
                                assert(ids_of(before)[ij] == other);
                            }
                            if exists|k: int| 0 <= k < after.len() && after[k].id == other {
                                let j = choose|k: int| 0 <= k < after.len() && after[k].id == other;
                                assert(ids_of(after)[j] == other);
                            }
                            if exists|k: int| 0 <= k < before.len() && before[k].id == other {
                                let j = choose|k: int| 0 <= k < before.len() && before[k].id == other;
                                assert(ids_of(before)[j] == other);
                            }
                        }
                    }
                }
            },
            None => {},
        }
    }
}

/// An identifier is never handed out twice: once the open window `id` is
/// killed, the next window opened gets another identifier, and `id` stays
/// dead.
pub proof fn law_window_ids_not_reused<S>(
    before: WindowRegistry<S>,
    killed: WindowRegistry<S>,
    reopened: WindowRegistry<S>,
    id: WindowId,
    new_id: WindowId,
)
    requires
        before.wf(),
        before.alive(id),
        !killed.alive(id),
        killed.next_id() == before.next_id(),
        new_id.0 == killed.next_id(),
        reopened.windows() == killed.windows().push(WindowInfo { id: new_id, surface: None }),
    ensures
        new_id != id,
        !reopened.alive(id),
{
    let k = choose|k: int| 0 <= k < ids_of(before.windows()).len() && ids_of(before.windows())[k] == id;
    assert(before.windows()[k].id == id);
    assert(id.0 < before.next_id());
    if reopened.alive(id) {
        let j = choose|j: int| 0 <= j < ids_of(reopened.windows()).len() && ids_of(reopened.windows())[j] == id;
        if j < killed.windows().len() {
            assert(ids_of(killed.windows())[j] == id);
        }
    }
}

/// Opening a window makes it alive and keeps every window that was alive:
/// `opened` is what `open_window` makes of `before`, with the new window `id`.
/// (It stays alive until `kill`, whose contract makes it dead and leaves the
/// other windows as they were.)
pub proof fn law_open_window_alive<S>(before: WindowRegistry<S>, opened: WindowRegistry<S>, id: WindowId)
    requires
        before.wf(),
        opened.windows() == before.windows().push(WindowInfo { id, surface: None }),
    ensures
        opened.alive(id),
        forall|other: WindowId| #[trigger] before.alive(other) ==> opened.alive(other),
{
    let n = before.windows().len() as int;
    assert(ids_of(opened.windows())[n] == id);
    assert forall|other: WindowId| #[trigger] before.alive(other) implies opened.alive(other) by {
        let k = choose|k: int| 0 <= k < ids_of(before.windows()).len() && ids_of(before.windows())[k] == other;
        assert(ids_of(opened.windows())[k] == other);
    }
}

/// Two windows opened one after the other get different identifiers, whatever
/// was opened or killed between them: `first` is what `open_window` makes of
/// `before` with the window `id1`, and `id2` is what `open_window` returns on
/// `between`, a registry reached from `first` by further calls (none of which
/// lowers the next identifier).
pub proof fn law_open_windows_distinct<S>(
    before: WindowRegistry<S>,
    first: WindowRegistry<S>,
    between: WindowRegistry<S>,
    id1: WindowId,
    id2: WindowId,
)
    requires
        id1.0 == before.next_id(),
        first.next_id() == before.next_id() + 1,
        first.next_id() <= between.next_id(),
        id2.0 == between.next_id(),
    ensures
        id1 != id2,
{
}

/// Whether `id` is the identifier of a window of `windows`.
pub open spec fn alive_in<S>(windows: Seq<WindowInfo<S>>, id: WindowId) -> bool {
    ids_of(windows).contains(id)
}

/// The surface of the window `id` of `windows`, as `surface_of` has it.
pub open spec fn surface_in<S>(windows: Seq<WindowInfo<S>>, id: WindowId) -> Option<S> {
    if exists|i: int| 0 <= i < windows.len() && windows[i].id == id {
        windows[choose|i: int| 0 <= i < windows.len() && windows[i].id == id].surface
    } else {
        None
    }
}

impl WindowId {
    /// Whether the window is open in `registry`.
    pub fn is_alive<S>(&self, registry: &WindowRegistry<S>) -> (b: bool)
        ensures
            b == registry.alive(*self),
    {
        registry.is_alive(*self)
    }

    /// Closes the window in `registry`, if it is open.
    pub fn kill<S>(&self, registry: &mut WindowRegistry<S>)
        requires
            old(registry).wf(),
        ensures
            final(registry).wf(),
            !final(registry).alive(*self),
            forall|other: WindowId|
                other != *self ==> (#[trigger] final(registry).alive(other) == old(registry).alive(other)
                    && final(registry).surface_of(other) == old(registry).surface_of(other)),
    {
        registry.kill(*self)
    }
}

} // verus!
