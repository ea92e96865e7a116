//! Identifiers of widgets.

use vstd::prelude::*;
use std::marker::PhantomData;

verus! {

/// The key of a widget in the widget tree: a slot index and the version of the
/// slot, as a slot map key holds them. The null key has index `u32::MAX` and
/// version 1.
#[derive(Clone, Copy, PartialEq, Eq, Hash, Debug, Structural)]
pub struct RawWidgetId {
    pub idx: u32,
    pub version: u32,
}

impl RawWidgetId {
    /// The null key, which names no widget.
    pub fn null() -> (id: Self)
        ensures
            id == (RawWidgetId { idx: u32::MAX, version: 1 }),
    {
        RawWidgetId { idx: u32::MAX, version: 1 }
    }

    /// Whether this is the null key.
    pub fn is_null(&self) -> (b: bool)
        ensures
            b == (self.idx == u32::MAX),
    {
        self.idx == u32::MAX
    }
}

impl Default for RawWidgetId {
    fn default() -> (id: Self)
        ensures
            id == (RawWidgetId { idx: u32::MAX, version: 1 }),
    {
        RawWidgetId::null()
    }
}

/// The identifier of a widget.
#[derive(Clone, Copy, PartialEq, Eq, Hash, Debug, Structural)]
pub struct Id(pub RawWidgetId);

impl Default for Id {
    fn default() -> (id: Self)
        ensures
            id == Id(RawWidgetId { idx: u32::MAX, version: 1 }),
    {
        Id(RawWidgetId::null())
    }
}

/// A handle to the state, of type `T`, of a widget.
pub struct StateHandle<T> {
    id: RawWidgetId,
    data: PhantomData<T>,
}

impl<T> StateHandle<T> {
    /// The key of the widget.
    pub closed spec fn raw_id(&self) -> RawWidgetId {
        self.id
    }

    /// The key of the widget.
    pub fn raw(&self) -> (id: RawWidgetId)
        ensures
            id == self.raw_id(),
    {
        self.id
    }

    /// The handle to the state of the widget with key `id`.
    pub fn new(id: RawWidgetId) -> (h: Self)
        ensures
            h.raw_id() == id,
    {
        StateHandle { id, data: PhantomData }
    }

    /// The identifier of the widget.
    pub fn id(&self) -> (id: Id)
        ensures
            id == Id(self.raw_id()),
    {
        Id(self.id)
    }
}

impl<T> Clone for StateHandle<T> {
    fn clone(&self) -> (h: Self)
        ensures
            h.raw_id() == self.raw_id(),
    {
        StateHandle::new(self.id)
    }
}

impl<T> Copy for StateHandle<T> {}

/// An item that holds the identifier of a widget.
pub trait HasId: Default + Sized {
    /// The identifier the item holds.
    spec fn spec_id(&self) -> Id;

    fn id(&self) -> (id: Id)
        ensures
            id == self.spec_id(),
    ;

    fn set_id(&mut self, id: Id)
        ensures
            final(self).spec_id() == id,
    ;
}

impl HasId for Id {
    open spec fn spec_id(&self) -> Id {
        *self
    }

    fn id(&self) -> (id: Id) {
        *self
    }

    fn set_id(&mut self, id: Id) {
        *self = id;
    }
}

} // verus!
