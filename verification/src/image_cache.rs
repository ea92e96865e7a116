//! The images of the renderer, shared by the widgets that show them: each
//! image is counted by the widgets that use it, and dropped when none does.

use vstd::prelude::*;
use std::collections::HashMap;

use crate::asset_loader::AssetId;

verus! {

broadcast use vstd::std_specs::hash::group_hash_axioms;

/// An image of the cache and the number of widgets that use it. `image` is
/// `None` while the image is being loaded.
pub struct CacheEntry<P> {
    pub ref_count: u8,
    pub image: Option<P>,
}

/// The images of the renderer, by asset.
pub struct ImageCache<P> {
    cache: HashMap<u64, CacheEntry<P>>,
}

impl<P> ImageCache<P> {
    /// For each asset in the cache: the number of widgets that use it, and its
    /// image once loaded.
    pub closed spec fn entries(&self) -> Map<u64, (u8, Option<P>)> {
        self.cache@.map_values(|e: CacheEntry<P>| (e.ref_count, e.image))
    }

    /// Every asset in the cache is used by at least one widget.
    pub closed spec fn wf(&self) -> bool {
        forall|k: u64| #[trigger] self.cache@.contains_key(k) ==> self.cache@[k].ref_count >= 1
    }

    /// An empty cache.
    pub fn new() -> (c: Self)
        ensures
            c.wf(),
            c.entries() == Map::<u64, (u8, Option<P>)>::empty(),
    {
        let c = ImageCache { cache: HashMap::new() };
        assert(c.entries() =~= Map::<u64, (u8, Option<P>)>::empty());
        c
    }

    /// The image of `id`, if it is in the cache and loaded.
    pub fn get(&self, id: AssetId) -> (r: Option<&P>)
        ensures
            r == (if self.entries().contains_key(id.0) {
                match self.entries()[id.0].1 {
                    Some(p) => Some(&p),
                    None => None::<&P>,
                }
            } else {
                None::<&P>
            }),
    {
        match self.cache.get(&id.0) {
            Some(entry) => match &entry.image {
                Some(image) => Some(image),
                None => None,
            },
            None => None,
        }
    }

    /// Stores the loaded image of `id`, for which room was made by
    /// `increase_ref_count` and no image stored yet.
    pub fn allocate(&mut self, id: AssetId, image: P)
        requires
            old(self).wf(),
            old(self).entries().contains_key(id.0),
            old(self).entries()[id.0].1 is None,
        ensures
            final(self).wf(),
            final(self).entries() == old(self).entries().insert(
                id.0,
                (old(self).entries()[id.0].0, Some(image)),
            ),
    {
        let entry = match self.cache.remove(&id.0) {
            Some(e) => e,
            None => {
                proof {
                    assert(false);
                }
                return;
            },
        };
        let ghost before = old(self).cache@;
        self.cache.insert(id.0, CacheEntry { ref_count: entry.ref_count, image: Some(image) });
        proof {
            assert(self.cache@ =~= before.insert(id.0, CacheEntry { ref_count: entry.ref_count, image: Some(image) }));
            assert(self.entries() =~= old(self).entries().insert(id.0, (entry.ref_count, Some(image))));
        }
    }

    /// One more widget uses `id`. Returns whether the cache already had an
    /// entry for it; if not, one is made, and the widget should load the asset.
    pub fn increase_ref_count(&mut self, id: AssetId) -> (had: bool)
        requires
            old(self).wf(),
            old(self).entries().contains_key(id.0) ==> old(self).entries()[id.0].0 < u8::MAX,
        ensures
            final(self).wf(),
            had == old(self).entries().contains_key(id.0),
            had ==> final(self).entries() == old(self).entries().insert(
                id.0,
                ((old(self).entries()[id.0].0 + 1) as u8, old(self).entries()[id.0].1),
            ),
            !had ==> final(self).entries() == old(self).entries().insert(id.0, (1u8, None::<P>)),
    {
        let ghost before = self.cache@;
        match self.cache.remove(&id.0) {
            Some(entry) => {
                self.cache.insert(id.0, CacheEntry { ref_count: entry.ref_count + 1, image: entry.image });
                proof {
                    assert(self.entries() =~= old(self).entries().insert(
                        id.0,
                        ((old(self).entries()[id.0].0 + 1) as u8, old(self).entries()[id.0].1),
                    ));
                }
                true
            },
            None => {
                self.cache.insert(id.0, CacheEntry { ref_count: 1, image: None });
                proof {
                    assert(self.entries() =~= old(self).entries().insert(id.0, (1u8, None::<P>)));
                }
                false
            },
        }
    }

    /// One widget less uses `id`; the entry is dropped when none does.
    pub fn decrease_ref_count(&mut self, id: AssetId)
        requires
            old(self).wf(),
        ensures
            final(self).wf(),
            !old(self).entries().contains_key(id.0) ==> final(self).entries() == old(self).entries(),
            old(self).entries().contains_key(id.0) && old(self).entries()[id.0].0 == 1
                ==> final(self).entries() == old(self).entries().remove(id.0),
            old(self).entries().contains_key(id.0) && old(self).entries()[id.0].0 > 1
                ==> final(self).entries() == old(self).entries().insert(
                id.0,
                ((old(self).entries()[id.0].0 - 1) as u8, old(self).entries()[id.0].1),
            ),
    {
        match self.cache.remove(&id.0) {
            Some(entry) => {
                let count = entry.ref_count - 1;
                if count == 0 {
                    proof {
                        assert(self.entries() =~= old(self).entries().remove(id.0));
                    }
                } else {
                    self.cache.insert(id.0, CacheEntry { ref_count: count, image: entry.image });
                    proof {
                        assert(self.entries() =~= old(self).entries().insert(
                            id.0,
                            ((old(self).entries()[id.0].0 - 1) as u8, old(self).entries()[id.0].1),
                        ));
                    }
                }
            },
            None => {
                proof {
                    assert(self.entries() =~= old(self).entries());
                }
            },
        }
    }
}

/// A widget that starts and then stops using an asset leaves the cache as it
/// was: the count goes up and back down, and an entry made for it is dropped.
/// `increased` is what `increase_ref_count(id)` makes of `before`, and
/// `decreased` what `decrease_ref_count(id)` makes of `increased`.
pub proof fn law_ref_count_round_trip<P>(
    before: ImageCache<P>,
    increased: ImageCache<P>,
    decreased: ImageCache<P>,
    id: AssetId,
)
    requires
        before.wf(),
        before.entries().contains_key(id.0) ==> before.entries()[id.0].0 < u8::MAX,
        before.entries().contains_key(id.0) ==> increased.entries() == before.entries().insert(
            id.0,
            ((before.entries()[id.0].0 + 1) as u8, before.entries()[id.0].1),
        ),
        !before.entries().contains_key(id.0) ==> increased.entries() == before.entries().insert(
            id.0,
            (1u8, None::<P>),
        ),
        increased.entries()[id.0].0 == 1 ==> decreased.entries() == increased.entries().remove(id.0),
        increased.entries()[id.0].0 > 1 ==> decreased.entries() == increased.entries().insert(
            id.0,
            ((increased.entries()[id.0].0 - 1) as u8, increased.entries()[id.0].1),
        ),
    ensures
        decreased.entries() == before.entries(),
{
    assert(decreased.entries() =~= before.entries());
}

} // verus!
