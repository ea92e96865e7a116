//! The cache policy of the thread that loads images: a request whose image is
//! still around is answered from the cache, any other one is made; what was
//! made is remembered when it succeeded and forgotten when it failed. The
//! thread itself, and the weak handles that say whether an image is still
//! around, live outside; they hand these functions plain values.

use vstd::prelude::*;
use std::collections::HashMap;

verus! {

broadcast use vstd::std_specs::hash::group_hash_axioms;

/// What the loading thread does with a request.
pub enum LoadAction<P> {
    /// Answer with the cached image.
    Reply(P),
    /// Make the image.
    Make,
}

/// What the loading thread answers a request with, given the image that the
/// cache still had for it, if any.
pub fn load_action<P>(cached: Option<P>) -> (a: LoadAction<P>)
    ensures
        match cached {
            Some(p) => a == LoadAction::Reply(p),
            None => a is Make,
        },
{
    match cached {
        Some(p) => LoadAction::Reply(p),
        None => LoadAction::Make,
    }
}

/// A handle of type `W` on each image made, by the key of its request.
pub struct LoaderCache<W> {
    entries: HashMap<u64, W>,
}

impl<W> LoaderCache<W> {
    /// The handle of each request's image, by key.
    pub closed spec fn handles(&self) -> Map<u64, W> {
        self.entries@
    }

    /// Nothing made yet.
    pub fn new() -> (c: Self)
        ensures
            c.handles() == Map::<u64, W>::empty(),
    {
        LoaderCache { entries: HashMap::new() }
    }

    /// The handle of the image made for the request `key`, if it is
    /// remembered.
    pub fn lookup(&self, key: u64) -> (r: Option<&W>)
        ensures
            r == (if self.handles().contains_key(key) {
                Some(&self.handles()[key])
            } else {
                None::<&W>
            }),
    {
        self.entries.get(&key)
    }

    /// The image of the request `key` was made: `made` is the handle on it,
    /// or `None` when making it failed. A success is remembered, in place of
    /// what was there; a failure forgets the request.
    pub fn record(&mut self, key: u64, made: Option<W>)
        ensures
            final(self).handles() == (match made {
                Some(w) => old(self).handles().insert(key, w),
                None => old(self).handles().remove(key),
            }),
    {
        match made {
            Some(w) => {
                self.entries.insert(key, w);
            },
            None => {
                self.entries.remove(&key);
            },
        }
    }
}

/// A request is found again after its image was made: once `record(key,
/// Some(w))` made `after` of `before`, `lookup(key)` gives `w`; once a failure
/// was recorded, it gives nothing, and the next request is made anew.
pub proof fn law_recorded_is_found<W>(
    before: LoaderCache<W>,
    after: LoaderCache<W>,
    key: u64,
    made: Option<W>,
)
    requires
        after.handles() == (match made {
            Some(w) => before.handles().insert(key, w),
            None => before.handles().remove(key),
        }),
    ensures
        made matches Some(w) ==> after.handles().contains_key(key) && after.handles()[key] == w,
        made is None ==> !after.handles().contains_key(key),
        forall|other: u64| other != key ==> (#[trigger] after.handles().contains_key(other)
            == before.handles().contains_key(other)),
{
}

} // verus!
