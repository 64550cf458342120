//! The innermost layer: one backing buffer with a fixed capacity.
//!
//! A buffer is created with the capacity it will keep for its whole life;
//! writes are only permitted while they fit under that capacity, so a
//! buffer is never grown (and its contents never move) once it has been
//! written into. The layers above rely on exactly this discipline for
//! their stability guarantees.

use vstd::prelude::*;

verus! {

/// One backing allocation of `T`, either absent or a buffer with a fixed
/// capacity.
pub(crate) enum Region<T> {
    /// An empty region, not backed by anything.
    Nil,
    /// A buffer of `T`. `cap` is the capacity the buffer was created with;
    /// every write is checked against it, so the buffer never reallocates.
    Heap { vec: Vec<T>, cap: usize },
}

impl<T> View for Region<T> {
    type V = Seq<T>;

    closed spec fn view(&self) -> Seq<T> {
        match self {
            Region::Nil => Seq::empty(),
            Region::Heap { vec, cap } => vec@,
        }
    }
}

impl<T> Region<T> {
    /// The capacity of the underlying allocation.
    pub(crate) closed spec fn spec_cap(&self) -> nat {
        match self {
            Region::Nil => 0,
            Region::Heap { vec, cap } => *cap as nat,
        }
    }

    /// The contents always fit under the fixed capacity.
    pub(crate) open spec fn wf(&self) -> bool {
        self@.len() <= self.spec_cap()
    }

    /// Create a new empty region.
    pub(crate) fn new_nil() -> (r: Self)
        ensures
            r@ == Seq::<T>::empty(),
            r.spec_cap() == 0,
    {
        Region::Nil
    }

    /// Create a new heap-allocated region of a specific capacity.
    pub(crate) fn new_heap(capacity: usize) -> (r: Self)
        ensures
            r@ == Seq::<T>::empty(),
            r.spec_cap() == capacity,
    {
        Region::Heap { vec: Vec::with_capacity(capacity), cap: capacity }
    }

    /// Create a region depending on the capacity: nothing is allocated for
    /// an empty capacity.
    pub(crate) fn new_auto(capacity: usize) -> (r: Self)
        ensures
            r@ == Seq::<T>::empty(),
            r.spec_cap() == capacity,
    {
        if capacity == 0 {
            Self::new_nil()
        } else {
            Self::new_heap(capacity)
        }
    }

    /// Discard the contents of the region, keeping the allocation.
    pub(crate) fn clear(&mut self)
        ensures
            final(self)@ == Seq::<T>::empty(),
            final(self).spec_cap() == old(self).spec_cap(),
    {
        match self {
            Region::Nil => {},
            Region::Heap { vec, cap } => vec.clear(),
        }
    }

    /// The capacity of the underlying allocation.
    pub(crate) fn capacity(&self) -> (r: usize)
        ensures
            r as nat == self.spec_cap(),
    {
        match self {
            Region::Nil => 0,
            Region::Heap { vec, cap } => *cap,
        }
    }

    /// The number of elements in the allocation.
    pub(crate) fn len(&self) -> (r: usize)
        ensures
            r as nat == self@.len(),
    {
        match self {
            Region::Nil => 0,
            Region::Heap { vec, cap } => vec.len(),
        }
    }

    /// Whether the region holds no elements.
    pub(crate) fn is_empty(&self) -> (r: bool)
        ensures
            r <==> self@.len() == 0,
    {
        match self {
            Region::Nil => true,
            Region::Heap { vec, cap } => vec.len() == 0,
        }
    }

    /// Append one element; the fixed capacity must leave room for it.
    pub(crate) fn push(&mut self, value: T)
        requires
            old(self)@.len() < old(self).spec_cap(),
        ensures
            final(self)@ == old(self)@.push(value),
            final(self).spec_cap() == old(self).spec_cap(),
    {
        match self {
            Region::Nil => {
                proof {
                    assert(false);
                }
            },
            Region::Heap { vec, cap } => vec.push(value),
        }
    }

    /// Move every element of `other` to the end of the region; the fixed
    /// capacity must leave room for all of them.
    pub(crate) fn append_from(&mut self, other: &mut Vec<T>)
        requires
            old(self)@.len() + old(other)@.len() <= old(self).spec_cap(),
        ensures
            final(self)@ == old(self)@ + old(other)@,
            final(other)@ == Seq::<T>::empty(),
            final(self).spec_cap() == old(self).spec_cap(),
    {
        match self {
            Region::Nil => {
                proof {
                    assert(old(other)@.len() == 0);
                }
                other.clear();
                proof {
                    assert(old(self)@ + old(other)@ =~= Seq::<T>::empty());
                }
            },
            Region::Heap { vec, cap } => vec.append(other),
        }
    }
}

impl<T: Copy> Region<T> {
    /// Copy every element of the slice to the end of the region; the fixed
    /// capacity must leave room for all of them.
    pub(crate) fn extend_from_slice(&mut self, items: &[T])
        requires
            old(self)@.len() + items@.len() <= old(self).spec_cap(),
        ensures
            final(self)@ == old(self)@ + items@,
            final(self).spec_cap() == old(self).spec_cap(),
    {
        let mut i: usize = 0;
        while i < items.len()
            invariant
                i <= items@.len(),
                self@ == old(self)@ + items@.subrange(0, i as int),
                self.spec_cap() == old(self).spec_cap(),
                old(self)@.len() + items@.len() <= old(self).spec_cap(),
            decreases items@.len() - i,
        {
            proof {
                assert(self@.len() < self.spec_cap());
            }
            self.push(items[i]);
            proof {
                assert(self@ =~= old(self)@ + items@.subrange(0, (i + 1) as int));
            }
            i = i + 1;
        }
        proof {
            assert(items@.subrange(0, items@.len() as int) =~= items@);
        }
    }
}

} // verus!
