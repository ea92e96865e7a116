//! Keyed list state and the diff between two versions of a keyed list.
//!
//! Each item of a list has a key (`HasUniqueKey`). The list remembers, for every
//! key, the index at which it first occurs. When the list changes, the new
//! key-to-index map is compared with the old one: keys that disappeared are
//! `removed` (by old index), keys that appeared are `added` (by new index) and
//! keys that stayed but changed place are `moved` (old index to new index).

use vstd::prelude::*;
use std::collections::HashMap;
use std::hash::{Hash, Hasher};
use ahash::AHasher;

use crate::small_list::{IndexList, MoveList, DiffMove};
use crate::ids::{Id, HasId};

verus! {

broadcast use vstd::std_specs::hash::group_hash_axioms, vstd::seq_lib::group_seq_properties;

/// An item with a key that tells it apart from the other items of its list.
pub trait HasUniqueKey {
    type Key: Hash;

    fn key(&self) -> &Self::Key;
}

impl HasUniqueKey for u8 {
    type Key = Self;

    /// The value itself is its key.
    fn key(&self) -> (k: &Self::Key)
        ensures
            *k == *self,
    {
        self
    }
}

impl HasUniqueKey for u16 {
    type Key = Self;

    /// The value itself is its key.
    fn key(&self) -> (k: &Self::Key)
        ensures
            *k == *self,
    {
        self
    }
}

impl HasUniqueKey for u32 {
    type Key = Self;

    /// The value itself is its key.
    fn key(&self) -> (k: &Self::Key)
        ensures
            *k == *self,
    {
        self
    }
}

impl HasUniqueKey for u64 {
    type Key = Self;

    /// The value itself is its key.
    fn key(&self) -> (k: &Self::Key)
        ensures
            *k == *self,
    {
        self
    }
}

impl HasUniqueKey for u128 {
    type Key = Self;

    /// The value itself is its key.
    fn key(&self) -> (k: &Self::Key)
        ensures
            *k == *self,
    {
        self
    }
}

impl HasUniqueKey for i8 {
    type Key = Self;

    /// The value itself is its key.
    fn key(&self) -> (k: &Self::Key)
        ensures
            *k == *self,
    {
        self
    }
}

impl HasUniqueKey for i16 {
    type Key = Self;

    /// The value itself is its key.
    fn key(&self) -> (k: &Self::Key)
        ensures
            *k == *self,
    {
        self
    }
}

impl HasUniqueKey for i32 {
    type Key = Self;

    /// The value itself is its key.
    fn key(&self) -> (k: &Self::Key)
        ensures
            *k == *self,
    {
        self
    }
}

impl HasUniqueKey for i64 {
    type Key = Self;

    /// The value itself is its key.
    fn key(&self) -> (k: &Self::Key)
        ensures
            *k == *self,
    {
        self
    }
}

impl HasUniqueKey for i128 {
    type Key = Self;

    /// The value itself is its key.
    fn key(&self) -> (k: &Self::Key)
        ensures
            *k == *self,
    {
        self
    }
}

impl HasUniqueKey for String {
    type Key = Self;

    /// The value itself is its key.
    fn key(&self) -> (k: &Self::Key)
        ensures
            *k == *self,
    {
        self
    }
}

impl<'a> HasUniqueKey for &'a str {
    type Key = Self;

    /// The value itself is its key.
    fn key(&self) -> (k: &Self::Key)
        ensures
            *k == *self,
    {
        self
    }
}

/// `ahash::AHasher::default()` fed with `key`, then `finish()`.
///
/// Nothing is stated of the value: `AHasher::default()` takes its keys from a
/// seed that each process picks on first use.
#[verifier::external_body]
pub(crate) fn key_hash<K: Hash>(key: &K) -> u64 {
    let mut hasher = AHasher::default();
    key.hash(&mut hasher);
    hasher.finish()
}

/// The map from each key of `keys` to the index at which it first occurs.
pub open spec fn key_index_map(keys: Seq<u64>) -> Map<u64, usize>
    decreases keys.len(),
{
    if keys.len() == 0 {
        Map::empty()
    } else {
        let prefix = key_index_map(keys.drop_last());
        if prefix.contains_key(keys.last()) {
            prefix
        } else {
            prefix.insert(keys.last(), (keys.len() - 1) as usize)
        }
    }
}

/// `i` is the index at which `keys[i]` first occurs.
pub open spec fn is_first(keys: Seq<u64>, i: int) -> bool {
    &&& 0 <= i < keys.len()
    &&& key_index_map(keys).contains_key(keys[i])
    &&& key_index_map(keys)[keys[i]] == i
}

/// Old indexes of the keys that are gone.
pub open spec fn removed_indexes(old_keys: Seq<u64>, new_keys: Seq<u64>) -> Set<usize> {
    Set::new(
        |i: usize|
            is_first(old_keys, i as int) && !key_index_map(new_keys).contains_key(
                old_keys[i as int],
            ),
    )
}

/// New indexes of the keys that were not there before.
pub open spec fn added_indexes(old_keys: Seq<u64>, new_keys: Seq<u64>) -> Set<usize> {
    Set::new(
        |j: usize|
            is_first(new_keys, j as int) && !key_index_map(old_keys).contains_key(
                new_keys[j as int],
            ),
    )
}

/// `(old index, new index)` of the keys that stayed but changed place.
pub open spec fn moved_indexes(old_keys: Seq<u64>, new_keys: Seq<u64>) -> Set<(usize, usize)> {
    Set::new(
        |p: (usize, usize)|
            {
                &&& is_first(new_keys, p.1 as int)
                &&& key_index_map(old_keys).contains_key(new_keys[p.1 as int])
                &&& key_index_map(old_keys)[new_keys[p.1 as int]] == p.0
                &&& p.0 != p.1
            },
    )
}

/// What `key_index_map` holds: each key of `keys`, and nothing else, mapped to
/// the index at which it first occurs.
pub proof fn lemma_key_index_map(keys: Seq<u64>)
    requires
        keys.len() <= usize::MAX,
    ensures
        forall|k: u64| #[trigger] key_index_map(keys).contains_key(k) <==> keys.contains(k),
        forall|k: u64|
            #[trigger] key_index_map(keys).contains_key(k) ==> {
                &&& key_index_map(keys)[k] < keys.len()
                &&& keys[key_index_map(keys)[k] as int] == k
                &&& forall|j: int| 0 <= j < key_index_map(keys)[k] ==> keys[j] != k
            },
    decreases keys.len(),
{
    if keys.len() > 0 {
        let prefix = keys.drop_last();
        lemma_key_index_map(prefix);
        assert forall|k: u64| #[trigger] key_index_map(keys).contains_key(k) <==> keys.contains(k) by {
            if keys.contains(k) {
                let j = choose|j: int| 0 <= j < keys.len() && keys[j] == k;
                if j < keys.len() - 1 {
                    assert(prefix[j] == k);
                    assert(prefix.contains(k));
                }
            }
            if key_index_map(prefix).contains_key(k) {
                assert(prefix.contains(k));
                let j = choose|j: int| 0 <= j < prefix.len() && prefix[j] == k;
                assert(keys[j] == k);
            }
        }
        assert forall|k: u64| #[trigger] key_index_map(keys).contains_key(k) implies {
            &&& key_index_map(keys)[k] < keys.len()
            &&& keys[key_index_map(keys)[k] as int] == k
            &&& forall|j: int| 0 <= j < key_index_map(keys)[k] ==> keys[j] != k
        } by {
            if key_index_map(prefix).contains_key(k) {
                let i = key_index_map(prefix)[k];
                assert(key_index_map(keys)[k] == i);
                assert(prefix[i as int] == k);
                assert(keys[i as int] == prefix[i as int]);
                assert forall|j: int| 0 <= j < i implies keys[j] != k by {
                    assert(prefix[j] == keys[j]);
                }
            } else {
                assert(!key_index_map(prefix).contains_key(keys.last()));
                assert(k == keys.last());
                assert(key_index_map(keys)[k] == keys.len() - 1);
                assert forall|j: int| 0 <= j < keys.len() - 1 implies keys[j] != k by {
                    assert(prefix[j] == keys[j]);
                    if keys[j] == k {
                        assert(prefix.contains(k));
                    }
                }
            }
        }
    }
}

/// No two moves of `moves` leave the same index or arrive at the same index.
pub open spec fn moves_injective(moves: Seq<(usize, usize)>) -> bool {
    forall|a: int, b: int|
        0 <= a < moves.len() && 0 <= b < moves.len() && a != b ==> moves[a].0 != moves[b].0
            && moves[a].1 != moves[b].1
}

/// The diff between two versions of a keyed list.
///
/// `clear` is set when the new list is empty; the index lists are then empty.
pub struct Diff {
    clear: bool,
    added: IndexList,
    removed: IndexList,
    moved: MoveList,
}

impl Diff {
    #[verifier::type_invariant]
    spec fn inv(&self) -> bool {
        moves_injective(self.moved@)
    }

    /// Whether the new list is empty.
    pub closed spec fn clear_view(&self) -> bool {
        self.clear
    }

    /// New indexes of the items that are new.
    pub closed spec fn added_view(&self) -> Seq<usize> {
        self.added@
    }

    /// Old indexes of the items that are gone.
    pub closed spec fn removed_view(&self) -> Seq<usize> {
        self.removed@
    }

    /// `(old index, new index)` of the items that changed place.
    pub closed spec fn moved_view(&self) -> Seq<(usize, usize)> {
        self.moved@
    }

    /// Whether the new list is empty.
    pub fn is_clear(&self) -> (b: bool)
        ensures
            b == self.clear_view(),
    {
        self.clear
    }

    /// New indexes of the items that are new.
    pub fn added(&self) -> (l: &IndexList)
        ensures
            l@ == self.added_view(),
    {
        &self.added
    }

    /// Old indexes of the items that are gone.
    pub fn removed(&self) -> (l: &IndexList)
        ensures
            l@ == self.removed_view(),
    {
        &self.removed
    }

    /// `(old index, new index)` of the items that changed place.
    pub fn moved(&self) -> (l: &MoveList)
        ensures
            l@ == self.moved_view(),
    {
        &self.moved
    }

    /// `self` is the diff from a list with keys `old_keys` to one with keys `new_keys`.
    pub open spec fn describes(&self, old_keys: Seq<u64>, new_keys: Seq<u64>) -> bool {
        &&& self.clear_view() == (new_keys.len() == 0)
        &&& self.clear_view() ==> {
            &&& self.added_view().len() == 0
            &&& self.removed_view().len() == 0
            &&& self.moved_view().len() == 0
        }
        &&& !self.clear_view() ==> {
            &&& self.removed_view().no_duplicates()
            &&& self.removed_view().to_set() == removed_indexes(old_keys, new_keys)
            &&& self.added_view().no_duplicates()
            &&& self.added_view().to_set() == added_indexes(old_keys, new_keys)
            &&& self.moved_view().no_duplicates()
            &&& self.moved_view().to_set() == moved_indexes(old_keys, new_keys)
        }
    }
}

/// Some move of `moves` arrives at index `x`.
pub open spec fn arrives_at(moves: Seq<(usize, usize)>, x: int) -> bool {
    exists|a: int| 0 <= a < moves.len() && moves[a].1 == x
}

/// Some move of `moves` leaves index `x`.
pub open spec fn leaves_from(moves: Seq<(usize, usize)>, x: int) -> bool {
    exists|a: int| 0 <= a < moves.len() && moves[a].0 == x
}

/// `after` is what applying a diff with moves `moves` to the children `before`
/// of the old list leaves, the new list having `new_len` items.
pub open spec fn moves_applied<I: HasId>(
    moves: Seq<(usize, usize)>,
    before: Seq<I>,
    after: Seq<I>,
    new_len: nat,
) -> bool {
    &&& after.len() == new_len
    &&& forall|a: int|
        #![trigger moves[a]]
        0 <= a < moves.len() && moves[a].0 < before.len() && moves[a].1 < new_len
            ==> after[moves[a].1 as int].spec_id() == before[moves[a].0 as int].spec_id()
    &&& forall|x: int|
        0 <= x < new_len && x < before.len() && !arrives_at(moves, x) && !leaves_from(moves, x)
            ==> #[trigger] after[x] == before[x]
}

impl Diff {
    /// Applies the diff to `items`, the children that stood for the items of
    /// the old list, one per item, in order, so that they stand for the items
    /// of the new list, which has `new_len` items. Returns the identifiers of
    /// the children to destroy.
    ///
    /// When the new list is empty, every child is to be destroyed and `items`
    /// is emptied. Otherwise the children at the removed indexes are to be
    /// destroyed, `items` is grown with default children to `new_len` if it is
    /// shorter, the identifier of each moved child is carried to its new index
    /// (its old place takes a default child), and `items` is cut to `new_len`.
    /// The children at the added indexes are then for the caller to create.
    pub fn apply<I: HasId>(&self, items: &mut Vec<I>, new_len: usize) -> (destroyed: Vec<Id>)
        requires
            !self.clear_view() ==> forall|i: int|
                0 <= i < self.removed_view().len() ==> #[trigger] self.removed_view()[i] < old(
                    items,
                )@.len(),
            !self.clear_view() ==> forall|a: int|
                #![trigger self.moved_view()[a]]
                0 <= a < self.moved_view().len() ==> {
                    &&& (self.moved_view()[a].0 < old(items)@.len() || self.moved_view()[a].0
                        < new_len)
                    &&& (self.moved_view()[a].1 < old(items)@.len() || self.moved_view()[a].1
                        < new_len)
                },
        ensures
            self.clear_view() ==> {
                &&& final(items)@.len() == 0
                &&& destroyed@ == old(items)@.map_values(|c: I| c.spec_id())
            },
            !self.clear_view() ==> {
                &&& destroyed@ == self.removed_view().map_values(
                    |r: usize| old(items)@[r as int].spec_id(),
                )
                &&& moves_applied(self.moved_view(), old(items)@, final(items)@, new_len as nat)
            },
    {
        proof {
            use_type_invariant(self);
        }
        let mut destroyed: Vec<Id> = Vec::new();
        let len = items.len();
        if self.clear {
            for i in 0..len
                invariant
                    len == items@.len(),
                    items@ == old(items)@,
                    destroyed@ =~= old(items)@.take(i as int).map_values(|c: I| c.spec_id()),
            {
                destroyed.push(items[i].id());
            }
            assert(old(items)@.take(len as int) =~= old(items)@);
            items.clear();
            return destroyed;
        }
        let removed_len = self.removed.len();
        for i in 0..removed_len
            invariant
                removed_len == self.removed_view().len(),
                items@ == old(items)@,
                forall|i: int|
                    0 <= i < self.removed_view().len() ==> #[trigger] self.removed_view()[i]
                        < old(items)@.len(),
                destroyed@ =~= self.removed_view().take(i as int).map_values(
                    |r: usize| old(items)@[r as int].spec_id(),
                ),
        {
            let r = self.removed.get(i);
            destroyed.push(items[r].id());
        }
        assert(self.removed_view().take(removed_len as int) =~= self.removed_view());

        while items.len() < new_len
            invariant
                len <= items@.len() <= if len < new_len { new_len as int } else { len as int },
                items@.take(len as int) == old(items)@,
            decreases new_len - items@.len(),
        {
            let child = I::default();
            proof {
                assert(items@.push(child).take(len as int) =~= items@.take(len as int));
            }
            items.push(child);
        }
        let ghost grown = items@;
        assert(grown.len() == if len < new_len { new_len as int } else { len as int });
        assert forall|b: int|
            #![trigger self.moved_view()[b]]
            0 <= b < self.moved_view().len() implies self.moved_view()[b].0 < grown.len()
                && self.moved_view()[b].1 < grown.len() by {}
        let moves = &self.moved;
        let moves_len = moves.len();
        let mut taken: Vec<Id> = Vec::new();
        for a in 0..moves_len
            invariant
                moves_len == moves@.len(),
                moves@ == self.moved_view(),
                moves_injective(moves@),
                items@.len() == grown.len(),
                forall|b: int|
                    #![trigger moves@[b]]
                    0 <= b < moves@.len() ==> moves@[b].0 < grown.len() && moves@[b].1
                        < grown.len(),
                taken@.len() == a,
                forall|b: int| 0 <= b < a ==> #[trigger] taken@[b] == grown[moves@[b].0 as int].spec_id(),
                forall|x: int|
                    0 <= x < grown.len() && !(exists|b: int| 0 <= b < a && moves@[b].0 == x)
                        ==> #[trigger] items@[x] == grown[x],
        {
            let mv = moves.get(a);
            assert(moves@[a as int] == (mv.from, mv.to));
            let mut child = I::default();
            std::mem::swap(&mut child, &mut items[mv.from]);
            taken.push(child.id());
        }
        let ghost emptied = items@;
        for a in 0..moves_len
            invariant
                moves_len == moves@.len(),
                moves@ == self.moved_view(),
                moves_injective(moves@),
                items@.len() == grown.len(),
                forall|b: int|
                    #![trigger moves@[b]]
                    0 <= b < moves@.len() ==> moves@[b].0 < grown.len() && moves@[b].1
                        < grown.len(),
                taken@.len() == moves_len,
                forall|b: int| 0 <= b < moves_len ==> #[trigger] taken@[b] == grown[moves@[b].0 as int].spec_id(),
                forall|b: int| 0 <= b < a ==> #[trigger] items@[moves@[b].1 as int].spec_id() == taken@[b],
                forall|x: int|
                    0 <= x < grown.len() && !(exists|b: int| 0 <= b < a && moves@[b].1 == x)
                        ==> #[trigger] items@[x] == emptied[x],
                forall|x: int|
                    0 <= x < grown.len() && !(exists|b: int| 0 <= b < moves_len && moves@[b].0 == x)
                        ==> #[trigger] emptied[x] == grown[x],
        {
            let mv = moves.get(a);
            assert(moves@[a as int] == (mv.from, mv.to));
            items[mv.to].set_id(taken[a]);
        }
        if new_len < items.len() {
            items.truncate(new_len);
        }
        destroyed
    }
}

/// Applying the diff between two keyed lists to the children of the old list
/// keeps every child whose key survives: the child that stands at the first
/// index of a key in the new list is the child that stood at the first index of
/// that key in the old list.
pub proof fn law_apply_keeps_surviving_children<I: HasId>(
    d: Diff,
    old_keys: Seq<u64>,
    new_keys: Seq<u64>,
    before: Seq<I>,
    after: Seq<I>,
)
    requires
        old_keys.len() <= usize::MAX,
        new_keys.len() <= usize::MAX,
        d.describes(old_keys, new_keys),
        before.len() == old_keys.len(),
        moves_applied(d.moved_view(), before, after, new_keys.len()),
    ensures
        forall|j: int|
            is_first(new_keys, j) && #[trigger] key_index_map(old_keys).contains_key(new_keys[j])
                ==> after[j].spec_id() == before[key_index_map(old_keys)[new_keys[j]] as int].spec_id(),
{
    lemma_key_index_map(old_keys);
    lemma_key_index_map(new_keys);
    let moves = d.moved_view();
    assert forall|j: int|
        is_first(new_keys, j) && #[trigger] key_index_map(old_keys).contains_key(new_keys[j])
            implies after[j].spec_id() == before[key_index_map(old_keys)[new_keys[j]] as int].spec_id() by {
        let k = new_keys[j];
        let i = key_index_map(old_keys)[k];
        assert(!d.clear_view());
        if i != j {
            let p = (i, j as usize);
            assert(moved_indexes(old_keys, new_keys).contains(p));
            assert(moves.to_set().contains(p));
            assert(moves.contains(p));
            let a = choose|a: int| 0 <= a < moves.len() && moves[a] == p;
            assert(moves[a].0 < before.len());
        } else {
            assert forall|a: int| 0 <= a < moves.len() implies moves[a].1 != j && moves[a].0 != j by {
                let q = moves[a];
                assert(moves.to_set().contains(q));
                assert(moved_indexes(old_keys, new_keys).contains(q));
                if q.0 == j {
                    let k2 = new_keys[q.1 as int];
                    assert(old_keys[key_index_map(old_keys)[k2] as int] == k2);
                    assert(old_keys[key_index_map(old_keys)[k] as int] == k);
                    assert(k2 == k);
                }
            }
            assert(!arrives_at(moves, j));
            assert(!leaves_from(moves, j));
            assert(after[j] == before[j]);
        }
    }
}

/// Appending an item that is not there keeps a sequence free of duplicates.
pub proof fn lemma_push_no_duplicates<A>(s: Seq<A>, x: A)
    requires
        s.no_duplicates(),
        !s.contains(x),
    ensures
        s.push(x).no_duplicates(),
{
    assert forall|a: int, b: int| 0 <= a < b < s.push(x).len() implies s.push(x)[a] != s.push(x)[b] by {
        if b == s.len() {
            assert(s.contains(s[a]));
        }
    }
}

/// The diff from a list with keys `old_keys` to one with keys `new_keys`, given
/// the key-to-first-index map of each.
pub fn diff_keys(
    old_keys: &Vec<u64>,
    old_index: &HashMap<u64, usize>,
    new_keys: &Vec<u64>,
    new_index: &HashMap<u64, usize>,
) -> (d: Diff)
    requires
        old_index@ == key_index_map(old_keys@),
        new_index@ == key_index_map(new_keys@),
    ensures
        d.describes(old_keys@, new_keys@),
{
    if new_keys.len() == 0 {
        return Diff { clear: true, added: IndexList::new(), removed: IndexList::new(), moved: MoveList::new() };
    }
    let old_len = old_keys.len();
    let new_len = new_keys.len();
    proof {
        lemma_key_index_map(old_keys@);
        lemma_key_index_map(new_keys@);
    }

    let mut removed = IndexList::new();
    for i in 0..old_len
        invariant
            old_len == old_keys@.len(),
            old_index@ == key_index_map(old_keys@),
            new_index@ == key_index_map(new_keys@),
            removed@.no_duplicates(),
            forall|x: usize|
                removed@.contains(x) <==> (x < i && is_first(old_keys@, x as int)
                    && !key_index_map(new_keys@).contains_key(old_keys@[x as int])),
    {
        let k = old_keys[i];
        let first = match old_index.get(&k) {
            Some(v) => *v == i,
            None => false,
        };
        if first && !new_index.contains_key(&k) {
            proof {
                lemma_push_no_duplicates(removed@, i);
            }
            removed.push(i);
        }
    }

    let mut added = IndexList::new();
    let mut moved = MoveList::new();
    for j in 0..new_len
        invariant
            new_len == new_keys@.len(),
            old_index@ == key_index_map(old_keys@),
            new_index@ == key_index_map(new_keys@),
            forall|k: u64| #[trigger] key_index_map(new_keys@).contains_key(k) <==> new_keys@.contains(k),
            added@.no_duplicates(),
            forall|x: usize|
                added@.contains(x) <==> (x < j && is_first(new_keys@, x as int)
                    && !key_index_map(old_keys@).contains_key(new_keys@[x as int])),
            moved@.no_duplicates(),
            moves_injective(moved@),
            old_keys@.len() <= usize::MAX,
            forall|p: (usize, usize)|
                moved@.contains(p) <==> (p.1 < j && {
                    &&& is_first(new_keys@, p.1 as int)
                    &&& key_index_map(old_keys@).contains_key(new_keys@[p.1 as int])
                    &&& key_index_map(old_keys@)[new_keys@[p.1 as int]] == p.0
                    &&& p.0 != p.1
                }),
    {
        let k = new_keys[j];
        assert(new_keys@.contains(k));
        let first = match new_index.get(&k) {
            Some(v) => *v == j,
            None => false,
        };
        if first {
            match old_index.get(&k) {
                Some(oi) => {
                    if *oi != j {
                        proof {
                            lemma_push_no_duplicates(moved@, (*oi, j));
                            lemma_key_index_map(old_keys@);
                            assert forall|a: int| 0 <= a < moved@.len() implies moved@[a].1 != j
                                && moved@[a].0 != *oi by {
                                let p = moved@[a];
                                assert(moved@.contains(p));
                                let kp = new_keys@[p.1 as int];
                                assert(key_index_map(old_keys@).contains_key(kp));
                                assert(old_keys@[key_index_map(old_keys@)[kp] as int] == kp);
                                assert(key_index_map(old_keys@).contains_key(k));
                                assert(old_keys@[key_index_map(old_keys@)[k] as int] == k);
                            }
                        }
                        moved.push(DiffMove { from: *oi, to: j });
                    }
                },
                None => {
                    proof {
                        lemma_push_no_duplicates(added@, j);
                    }
                    added.push(j);
                },
            }
        }
    }

    assert(removed@.to_set() =~= removed_indexes(old_keys@, new_keys@));
    assert(added@.to_set() =~= added_indexes(old_keys@, new_keys@));
    assert(moved@.to_set() =~= moved_indexes(old_keys@, new_keys@));
    Diff { clear: false, added, removed, moved }
}

/// The items of a keyed list, the keys of its items as they were last read,
/// and the map from each such key to the index at which it first occurs.
pub struct ListState<T> {
    items: Vec<T>,
    keys: Vec<u64>,
    index: HashMap<u64, usize>,
}

impl<T: HasUniqueKey> ListState<T> {
    /// The items, in order.
    pub closed spec fn items_view(&self) -> Seq<T> {
        self.items@
    }

    /// The keys of the items, as last read.
    pub closed spec fn keys_view(&self) -> Seq<u64> {
        self.keys@
    }

    /// The key-to-first-index map matches the keys, one key per item.
    pub closed spec fn wf(&self) -> bool {
        &&& self.index@ == key_index_map(self.keys@)
        &&& self.keys@.len() == self.items@.len()
    }

    /// A list holding `items`, with the key of each item read.
    pub fn new(items: Vec<T>) -> (s: Self)
        ensures
            s.wf(),
            s.keys_view().len() == s.items_view().len(),
            s.items_view() == items@,
    {
        let (keys, index) = Self::read_keys(&items);
        ListState { items, keys, index }
    }

    /// The number of items.
    pub fn len(&self) -> (n: usize)
        ensures
            n == self.items_view().len(),
    {
        self.items.len()
    }

    /// The items, in order.
    pub fn as_slice(&self) -> (s: &[T])
        ensures
            s@ == self.items_view(),
    {
        self.items.as_slice()
    }

    /// Reads the key of every item again and returns the diff from the keys as
    /// they were last read to the keys as they are now.
    pub fn compute_diff(&mut self) -> (d: Diff)
        requires
            old(self).wf(),
        ensures
            final(self).wf(),
            final(self).keys_view().len() == final(self).items_view().len(),
            final(self).items_view() == old(self).items_view(),
            d.describes(old(self).keys_view(), final(self).keys_view()),
    {
        let (new_keys, new_index) = Self::read_keys(&self.items);
        let d = diff_keys(&self.keys, &self.index, &new_keys, &new_index);
        self.keys = new_keys;
        self.index = new_index;
        d
    }

    /// Appends `item`; the diff names its index as added and nothing else.
    pub fn push(&mut self, item: T) -> (d: Diff)
        requires
            old(self).wf(),
            old(self).items_view().len() < usize::MAX,
        ensures
            final(self).wf(),
            final(self).keys_view().len() == final(self).items_view().len(),
            final(self).items_view() == old(self).items_view().push(item),
            final(self).keys_view().drop_last() == old(self).keys_view(),
            !d.clear_view(),
            d.added_view() == seq![old(self).items_view().len() as usize],
            d.removed_view().len() == 0,
            d.moved_view().len() == 0,
    {
        let k = key_hash(item.key());
        let index = self.items.len();
        self.items.push(item);
        proof {
            assert(self.keys@.push(k).drop_last() =~= self.keys@);
        }
        if !self.index.contains_key(&k) {
            self.index.insert(k, index);
        }
        self.keys.push(k);
        let mut added = IndexList::new();
        added.push(index);
        Diff { clear: false, added, removed: IndexList::new(), moved: MoveList::new() }
    }

    /// Appends clones of the items of `slice`; the diff names the new indexes,
    /// in order, as added and nothing else.
    pub fn extend_from_slice(&mut self, slice: &[T]) -> (d: Diff) where T: Clone
        requires
            old(self).wf(),
            old(self).items_view().len() + slice@.len() <= usize::MAX,
        ensures
            final(self).wf(),
            final(self).keys_view().len() == final(self).items_view().len(),
            final(self).items_view().len() == old(self).items_view().len() + slice@.len(),
            forall|i: int|
                0 <= i < old(self).items_view().len() ==> final(self).items_view()[i] == old(
                    self,
                ).items_view()[i],
            forall|i: int|
                0 <= i < slice@.len() ==> cloned(
                    slice@[i],
                    #[trigger] final(self).items_view()[old(self).items_view().len() + i],
                ),
            final(self).keys_view().take(old(self).keys_view().len() as int) == old(self).keys_view(),
            !d.clear_view(),
            d.added_view() == Seq::new(slice@.len(), |i: int| (old(self).items_view().len() + i) as usize),
            d.removed_view().len() == 0,
            d.moved_view().len() == 0,
    {
        let start = self.items.len();
        let n = slice.len();
        let ghost old_keys = self.keys@;
        for i in 0..n
            invariant
                n == slice@.len(),
                start == old_keys.len(),
                start + n <= usize::MAX,
                self.items@ == old(self).items@,
                self.keys@.len() == start + i,
                self.keys@.take(start as int) == old_keys,
                self.index@ == key_index_map(self.keys@),
        {
            let k = key_hash(slice[i].key());
            proof {
                assert(self.keys@.push(k).drop_last() =~= self.keys@);
                assert(self.keys@.push(k).take(start as int) =~= self.keys@.take(start as int));
            }
            if !self.index.contains_key(&k) {
                self.index.insert(k, start + i);
            }
            self.keys.push(k);
        }
        self.items.extend_from_slice(slice);
        let mut added = IndexList::new();
        let new_len = start + n;
        for j in start..new_len
            invariant
                start <= j <= new_len,
                new_len == start + slice@.len(),
                added@ =~= Seq::new((j - start) as nat, |i: int| (start + i) as usize),
        {
            added.push(j);
        }
        Diff { clear: false, added, removed: IndexList::new(), moved: MoveList::new() }
    }

    /// Applies `f` to the items, then returns the diff from the keys as they
    /// were last read to the keys of the items that `f` left.
    pub fn mutate<F: FnOnce(&mut Vec<T>)>(&mut self, f: F) -> (d: Diff)
        requires
            old(self).wf(),
            forall|v: &mut Vec<T>| #[trigger] f.requires((v,)),
        ensures
            final(self).wf(),
            final(self).keys_view().len() == final(self).items_view().len(),
            exists|v: &mut Vec<T>|
                (*v)@ == old(self).items_view() && (*final(v))@ == final(self).items_view()
                    && f.ensures((v,), ()),
            d.describes(old(self).keys_view(), final(self).keys_view()),
    {
        f(&mut self.items);
        let (new_keys, new_index) = Self::read_keys(&self.items);
        let d = diff_keys(&self.keys, &self.index, &new_keys, &new_index);
        self.keys = new_keys;
        self.index = new_index;
        d
    }

    /// Reads the key of every item and builds the key-to-first-index map.
    fn read_keys(items: &Vec<T>) -> (r: (Vec<u64>, HashMap<u64, usize>))
        ensures
            r.0@.len() == items@.len(),
            r.1@ == key_index_map(r.0@),
    {
        let n = items.len();
        let mut keys: Vec<u64> = Vec::new();
        let mut index: HashMap<u64, usize> = HashMap::new();
        for j in 0..n
            invariant
                n == items@.len(),
                keys@.len() == j,
                index@ == key_index_map(keys@),
        {
            let k = key_hash(items[j].key());
            proof {
                assert(keys@.push(k).drop_last() =~= keys@);
            }
            if !index.contains_key(&k) {
                index.insert(k, j);
            }
            keys.push(k);
        }
        (keys, index)
    }
}

} // verus!
