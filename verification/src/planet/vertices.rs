//! The vertex store: positions addressed by their global vertex index.

use crate::location::vector3d::Vector3d;
use vstd::prelude::*;

verus! {

/// Whether slot `index` of a store has been written.
pub open spec fn holds<P>(store: Seq<Option<P>>, index: int) -> bool {
    0 <= index < store.len() && store[index] is Some
}

/// The store after `position` is written to slot `index`: the backing
/// sequence is first extended with unwritten slots as far as needed.
pub open spec fn stored<P>(store: Seq<Option<P>>, index: int, position: P) -> Seq<Option<P>> {
    if index < store.len() {
        store.update(index, Some(position))
    } else {
        Seq::new(
            (index + 1) as nat,
            |i: int|
                if i < store.len() {
                    store[i]
                } else if i == index {
                    Some(position)
                } else {
                    None
                },
        )
    }
}

/// Whether `later` keeps everything that `earlier` holds: it is at least as
/// long, and every written slot of `earlier` has the same position in it.
pub open spec fn keeps<P>(later: Seq<Option<P>>, earlier: Seq<Option<P>>) -> bool {
    &&& earlier.len() <= later.len()
    &&& forall|i: int| holds(earlier, i) ==> later[i] == earlier[i]
}

/// What is kept over one step and kept over the next is kept over both.
pub proof fn lemma_keeps_transitive<P>(
    first: Seq<Option<P>>,
    second: Seq<Option<P>>,
    third: Seq<Option<P>>,
)
    requires
        keeps(second, first),
        keeps(third, second),
    ensures
        keeps(third, first),
{
    assert forall|i: int| holds(first, i) implies third[i] == first[i] by {
        assert(holds(second, i));
    }
}

/// Writing to a slot changes no other slot.
pub proof fn lemma_stored<P>(store: Seq<Option<P>>, index: int, position: P)
    requires
        0 <= index,
    ensures
        holds(stored(store, index, position), index),
        stored(store, index, position)[index] == Some(position),
        stored(store, index, position).len() == if index < store.len() {
            store.len() as int
        } else {
            index + 1
        },
        forall|i: int|
            0 <= i < store.len() && i != index ==> stored(store, index, position)[i] == store[i],
        forall|i: int|
            store.len() <= i < index ==> (#[trigger] stored(store, index, position)[i]) is None,
{
}

/// Whether a store ends in a written slot, or is empty. Writing extends a
/// store only as far as the slot written, so a store that starts like that
/// stays like that.
pub open spec fn ends_written<P>(store: Seq<Option<P>>) -> bool {
    store.len() == 0 || store.last() is Some
}

/// A growable store of positions. A slot is either written or not; reading
/// tells the two apart.
pub struct Vertices<T> {
    data: Vec<Option<Vector3d<T>>>,
}

impl<T> View for Vertices<T> {
    type V = Seq<Option<Vector3d<T>>>;

    closed spec fn view(&self) -> Seq<Option<Vector3d<T>>> {
        self.data@
    }
}

impl<T: Copy> Vertices<T> {
    /// An empty store.
    pub fn new() -> (store: Vertices<T>)
        ensures
            store@ == Seq::<Option<Vector3d<T>>>::empty(),
    {
        Vertices { data: Vec::new() }
    }

    /// A store whose slots `0..vec.len()` hold the positions of `vec`.
    pub fn from(vec: Vec<Vector3d<T>>) -> (store: Vertices<T>)
        ensures
            store@.len() == vec@.len(),
            forall|i: int| 0 <= i < vec@.len() ==> store@[i] == Some(vec@[i]),
    {
        let mut data: Vec<Option<Vector3d<T>>> = Vec::new();
        let mut i: usize = 0;
        while i < vec.len()
            invariant
                i <= vec.len(),
                data@.len() == i,
                forall|j: int| 0 <= j < i ==> data@[j] == Some(vec@[j]),
            decreases vec.len() - i,
        {
            data.push(Some(vec[i]));
            i = i + 1;
        }
        Vertices { data }
    }

    /// The number of slots, written or not.
    pub fn len(&self) -> (length: usize)
        ensures
            length == self@.len(),
    {
        self.data.len()
    }

    /// The position in slot `index`, if that slot has been written.
    pub fn get(&self, index: u64) -> (position: Option<&Vector3d<T>>)
        ensures
            match position {
                Some(p) => holds(self@, index as int) && self@[index as int] == Some(*p),
                None => !holds(self@, index as int),
            },
    {
        if index >= self.data.len() as u64 {
            return None;
        }
        match &self.data[index as usize] {
            Some(p) => Some(p),
            None => None,
        }
    }

    /// Writes `v` to slot `index`, extending the store if the slot is
    /// beyond its end.
    pub fn set(&mut self, index: u64, v: Vector3d<T>)
        requires
            index < usize::MAX,
        ensures
            final(self)@ == stored(old(self)@, index as int, v),
    {
        let index = index as usize;
        while self.data.len() <= index
            invariant
                index < usize::MAX,
                old(self).data@.len() <= self.data@.len(),
                self.data@.len() <= index + 1 || self.data@.len() == old(self).data@.len(),
                forall|i: int| 0 <= i < old(self).data@.len() ==> self.data@[i] == old(self).data@[i],
                forall|i: int| old(self).data@.len() <= i < self.data@.len() ==> self.data@[i] is None,
            decreases index + 1 - self.data@.len(),
        {
            self.data.push(None);
        }
        self.data[index] = Some(v);
        assert(self.data@ =~= stored(old(self).data@, index as int, v));
    }
}

} // verus!
