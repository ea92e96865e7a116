//! Short lists of indexes and index moves, stored inline (on the stack) up to
//! eight items by `smallvec::SmallVec`.

use vstd::prelude::*;
use smallvec::SmallVec;

verus! {

/// A move of one list entry from index `from` to index `to`.
#[derive(Clone, Copy, PartialEq, Eq, Debug, Structural)]
pub struct DiffMove {
    pub from: usize,
    pub to: usize,
}

/// A list of indexes held in a `SmallVec<[usize; 8]>`.
#[verifier::external_body]
pub struct IndexList {
    inner: SmallVec<[usize; 8]>,
}

/// A list of index moves held in a `SmallVec<[DiffMove; 8]>`.
#[verifier::external_body]
pub struct MoveList {
    inner: SmallVec<[DiffMove; 8]>,
}

/// The indexes an `IndexList` holds, in order.
pub uninterp spec fn index_list_items(l: IndexList) -> Seq<usize>;

/// The moves a `MoveList` holds, in order, each as the pair `(from, to)`.
pub uninterp spec fn move_list_items(l: MoveList) -> Seq<(usize, usize)>;

impl View for IndexList {
    type V = Seq<usize>;

    open spec fn view(&self) -> Seq<usize> {
        index_list_items(*self)
    }
}

impl View for MoveList {
    type V = Seq<(usize, usize)>;

    open spec fn view(&self) -> Seq<(usize, usize)> {
        move_list_items(*self)
    }
}

impl IndexList {
    /// `SmallVec::new`: an empty list.
    #[verifier::external_body]
    pub(crate) fn new() -> (l: Self)
        ensures
            index_list_items(l) == Seq::<usize>::empty(),
    {
        IndexList { inner: SmallVec::new() }
    }

    /// `SmallVec::push`: appends `index` at the end.
    #[verifier::external_body]
    pub(crate) fn push(&mut self, index: usize)
        ensures
            index_list_items(*final(self)) == index_list_items(*old(self)).push(index),
    {
        self.inner.push(index)
    }

    /// `SmallVec::len`: the number of indexes held.
    #[verifier::external_body]
    pub(crate) fn len(&self) -> (n: usize)
        ensures
            n == index_list_items(*self).len(),
    {
        self.inner.len()
    }

    /// Indexing a `SmallVec`: the index held at position `i`.
    #[verifier::external_body]
    pub(crate) fn get(&self, i: usize) -> (x: usize)
        requires
            i < index_list_items(*self).len(),
        ensures
            x == index_list_items(*self)[i as int],
    {
        self.inner[i]
    }

    /// The indexes held, in order.
    pub fn to_vec(&self) -> (v: Vec<usize>)
        ensures
            v@ == self@,
    {
        let n = self.len();
        let mut v: Vec<usize> = Vec::new();
        for i in 0..n
            invariant
                n == self@.len(),
                v@ == self@.take(i as int),
        {
            v.push(self.get(i));
            assert(self@.take(i + 1) =~= self@.take(i as int).push(self@[i as int]));
        }
        assert(self@.take(n as int) =~= self@);
        v
    }
}

impl MoveList {
    /// `SmallVec::new`: an empty list.
    #[verifier::external_body]
    pub(crate) fn new() -> (l: Self)
        ensures
            move_list_items(l) == Seq::<(usize, usize)>::empty(),
    {
        MoveList { inner: SmallVec::new() }
    }

    /// `SmallVec::push`: appends the move `from -> to` at the end.
    #[verifier::external_body]
    pub(crate) fn push(&mut self, mv: DiffMove)
        ensures
            move_list_items(*final(self)) == move_list_items(*old(self)).push((mv.from, mv.to)),
    {
        self.inner.push(mv)
    }

    /// `SmallVec::len`: the number of moves held.
    #[verifier::external_body]
    pub(crate) fn len(&self) -> (n: usize)
        ensures
            n == move_list_items(*self).len(),
    {
        self.inner.len()
    }

    /// Indexing a `SmallVec`: the move held at position `i`.
    #[verifier::external_body]
    pub(crate) fn get(&self, i: usize) -> (mv: DiffMove)
        requires
            i < move_list_items(*self).len(),
        ensures
            (mv.from, mv.to) == move_list_items(*self)[i as int],
    {
        self.inner[i]
    }

    /// The moves held, in order.
    pub fn to_vec(&self) -> (v: Vec<DiffMove>)
        ensures
            v@.map_values(|m: DiffMove| (m.from, m.to)) == self@,
    {
        let n = self.len();
        let mut v: Vec<DiffMove> = Vec::new();
        for i in 0..n
            invariant
                n == self@.len(),
                v@.map_values(|m: DiffMove| (m.from, m.to)) == self@.take(i as int),
        {
            let mv = self.get(i);
            let ghost before = v@;
            v.push(mv);
            assert(v@.map_values(|m: DiffMove| (m.from, m.to)) =~= before.map_values(
                |m: DiffMove| (m.from, m.to),
            ).push((mv.from, mv.to)));
            assert(self@.take(i + 1) =~= self@.take(i as int).push(self@[i as int]));
        }
        assert(self@.take(n as int) =~= self@);
        v
    }
}

} // verus!
