//! An append-only vector that stores records as columns.
//!
//! The container pairs a surface buffer of records with the record type's
//! region; `copy` absorbs a record's owned interior into the region and
//! appends an equivalent surface replica. Records can be read by index;
//! earlier records keep their position and value until `clear`.

use vstd::layout::size_of;
use vstd::prelude::*;

use crate::region::{
    byte_pair, caps_total, lemma_totals_concat, lemma_totals_nonneg, lemma_totals_push,
    lemma_used_le_caps, sat_mul, used_total, Columnation, Region,
};

verus! {

/// Filter a sequence by a same-length sequence of flags, keeping order.
pub open spec fn seq_filter_by<T>(s: Seq<T>, kept: Seq<bool>) -> Seq<T>
    recommends
        s.len() == kept.len(),
    decreases s.len(),
{
    if s.len() == 0 || kept.len() == 0 {
        Seq::empty()
    } else {
        seq_filter_by(s.drop_last(), kept.drop_last()) + if kept.last() {
            seq![s.last()]
        } else {
            Seq::empty()
        }
    }
}

/// A filtered sequence is never longer than the sequence it came from.
pub proof fn lemma_seq_filter_by_len<T>(s: Seq<T>, kept: Seq<bool>)
    ensures
        seq_filter_by(s, kept).len() <= s.len(),
    decreases s.len(),
{
    if s.len() > 0 && kept.len() > 0 {
        lemma_seq_filter_by_len(s.drop_last(), kept.drop_last());
    }
}

/// The summed record count of a run of stacks.
pub open spec fn total_records<T: Columnation>(regions: Seq<ColumnStack<T>>) -> int
    decreases regions.len(),
{
    if regions.len() == 0 {
        0
    } else {
        total_records(regions.drop_last()) + regions.last()@.len()
    }
}

proof fn lemma_total_records_nonneg<T: Columnation>(regions: Seq<ColumnStack<T>>)
    ensures
        total_records(regions) >= 0,
    decreases regions.len(),
{
    if regions.len() > 0 {
        lemma_total_records_nonneg(regions.drop_last());
    }
}

/// An append-only vector that stores records as columns.
///
/// Its view is the sequence of surface records, in insertion order. Every
/// record appended by `copy` is equivalent (under the record type's region
/// equivalence) to the record it was copied from.
pub struct ColumnStack<T: Columnation> {
    /// The surface buffer of records.
    local: Vec<T>,
    /// The capacity the surface buffer was grown to.
    local_cap: usize,
    /// The region absorbing what the records own.
    inner: T::InnerRegion,
}

impl<T: Columnation> View for ColumnStack<T> {
    type V = Seq<T>;

    closed spec fn view(&self) -> Seq<T> {
        self.local@
    }
}

impl<T: Columnation> ColumnStack<T> {
    /// The capacity accounting of the surface buffer and the region is
    /// intact.
    pub closed spec fn wf(&self) -> bool {
        self@.len() <= self.local_cap && self.inner.wf()
    }

    /// The capacity the surface buffer was grown to.
    pub closed spec fn surface_capacity(&self) -> nat {
        self.local_cap as nat
    }

    /// The region absorbing what the records own.
    pub closed spec fn spec_inner(&self) -> T::InnerRegion {
        self.inner
    }

    /// One (used bytes, capacity bytes) pair per allocation: the surface
    /// buffer, then whatever the region owns.
    pub closed spec fn heap_pairs(&self) -> Seq<(usize, usize)> {
        seq![byte_pair(self@.len(), self.local_cap as nat, size_of::<T>())]
            + self.inner.heap_pairs()
    }

    /// Every reported allocation uses no more than its capacity.
    pub proof fn lemma_heap_pairs_wf(&self)
        requires
            self.wf(),
        ensures
            forall|i: int|
                0 <= i < self.heap_pairs().len() ==> (#[trigger] self.heap_pairs()[i]).0
                    <= self.heap_pairs()[i].1,
    {
        self.inner.lemma_heap_pairs_wf();
        let b = self.inner.heap_pairs();
        assert forall|i: int|
            0 <= i < self.heap_pairs().len() implies (#[trigger] self.heap_pairs()[i]).0
            <= self.heap_pairs()[i].1 by {
            if i == 0 {
                crate::region::lemma_byte_pair_le(self@.len(), self.local_cap as nat, size_of::<T>());
            } else {
                assert(self.heap_pairs()[i] == b[i - 1]);
            }
        }
    }

    proof fn lemma_caps_split(&self)
        ensures
            caps_total(self.heap_pairs()) == byte_pair(
                self@.len(),
                self.local_cap as nat,
                size_of::<T>(),
            ).1 + caps_total(self.inner.heap_pairs()),
            used_total(self.heap_pairs()) == byte_pair(
                self@.len(),
                self.local_cap as nat,
                size_of::<T>(),
            ).0 + used_total(self.inner.heap_pairs()),
    {
        let p = byte_pair(self@.len(), self.local_cap as nat, size_of::<T>());
        lemma_totals_concat(seq![p], self.inner.heap_pairs());
        lemma_totals_push(Seq::<(usize, usize)>::empty(), p);
        assert(seq![p] =~= Seq::<(usize, usize)>::empty().push(p));
    }

    /// A fresh, empty stack owning no storage: its report has neither used
    /// bytes nor capacity.
    pub fn new() -> (r: Self)
        ensures
            r.wf(),
            r@ == Seq::<T>::empty(),
            used_total(r.heap_pairs()) == 0,
            caps_total(r.heap_pairs()) == 0,
    {
        let r = ColumnStack {
            local: Vec::new(),
            local_cap: 0,
            inner: <T::InnerRegion as Region>::new(),
        };
        proof {
            r.lemma_caps_split();
        }
        r
    }

    /// A fresh, empty stack whose surface buffer holds `capacity` records
    /// before it grows.
    fn with_capacity(capacity: usize) -> (r: Self)
        ensures
            r.wf(),
            r@ == Seq::<T>::empty(),
    {
        ColumnStack {
            local: Vec::with_capacity(capacity),
            local_cap: capacity,
            inner: <T::InnerRegion as Region>::new(),
        }
    }

    /// The number of records in the stack.
    pub fn len(&self) -> (r: usize)
        ensures
            r == self@.len(),
    {
        self.local.len()
    }

    /// Whether the stack holds no records.
    pub fn is_empty(&self) -> (r: bool)
        ensures
            r <==> self@.len() == 0,
    {
        self.local.is_empty()
    }

    /// Read one record.
    pub fn get(&self, index: usize) -> (r: &T)
        requires
            index < self@.len(),
        ensures
            *r == self@[index as int],
    {
        &self.local[index]
    }

    /// The records as a read-only slice, in insertion order.
    pub fn as_slice(&self) -> (r: &[T])
        ensures
            r@ == self@,
    {
        self.local.as_slice()
    }

    /// Append an already-absorbed surface replica, growing the surface
    /// buffer by doubling when it is full.
    fn push_replica(&mut self, r: T)
        requires
            old(self).wf(),
        ensures
            final(self).wf(),
            final(self)@ == old(self)@.push(r),
            final(self).inner == old(self).inner,
            caps_total(final(self).heap_pairs()) >= caps_total(old(self).heap_pairs()),
    {
        let ghost pre = *self;
        if self.local.len() == self.local_cap {
            // Double the surface capacity, starting from a small floor.
            let newcap = if self.local_cap < 4 {
                4
            } else if self.local_cap > usize::MAX / 2 {
                usize::MAX
            } else {
                2 * self.local_cap
            };
            self.local.reserve(newcap - self.local.len());
            self.local_cap = newcap;
        }
        self.local.push(r);
        proof {
            vstd::std_specs::vec::axiom_spec_len(&self.local);
            assert(pre == *old(self));
            self.lemma_caps_split();
            pre.lemma_caps_split();
            vstd::arithmetic::mul::lemma_mul_inequality(
                pre@.len() as int,
                self.local_cap as int,
                size_of::<T>() as int,
            );
            vstd::arithmetic::mul::lemma_mul_inequality(
                pre.local_cap as int,
                self.local_cap as int,
                size_of::<T>() as int,
            );
        }
    }

    /// Copies a record onto the stack.
    ///
    /// The record's owned interior is absorbed by the region; an equivalent
    /// surface record is appended. Records appended earlier keep their
    /// position and value, and the reported capacity never shrinks.
    pub fn copy(&mut self, item: &T)
        requires
            old(self).wf(),
        ensures
            final(self).wf(),
            final(self)@.len() == old(self)@.len() + 1,
            forall|i: int| 0 <= i < old(self)@.len() ==> final(self)@[i] == old(self)@[i],
            <T::InnerRegion as Region>::eqv(
                final(self)@[old(self)@.len() as int],
                *item,
            ),
            caps_total(final(self).heap_pairs()) >= caps_total(old(self).heap_pairs()),
    {
        let ghost pre = *self;
        let r = self.inner.copy(item);
        let ghost mid = *self;
        proof {
            pre.lemma_caps_split();
            mid.lemma_caps_split();
        }
        self.push_replica(r);
    }

    /// Empties the stack. The stack stays well formed and re-usable, and
    /// the surface buffer keeps its capacity; clearing an already empty
    /// stack leaves it empty.
    pub fn clear(&mut self)
        requires
            old(self).wf(),
        ensures
            final(self).wf(),
            final(self)@ == Seq::<T>::empty(),
            final(self).surface_capacity() == old(self).surface_capacity(),
    {
        self.local.clear();
        self.inner.clear();
    }

    /// Retain the records that pass a predicate, from a specified offset.
    ///
    /// The prefix `[0, index)` is untouched; of the suffix, exactly the
    /// records the predicate approved survive, in their original order.
    /// The region is not compacted.
    pub fn retain_from<P: Fn(&T) -> bool>(&mut self, index: usize, predicate: P)
        requires
            old(self).wf(),
            forall|j: int|
                index <= j < old(self)@.len() ==> #[trigger] predicate.requires(
                    (&old(self)@[j],),
                ),
        ensures
            final(self).wf(),
            final(self).spec_inner() == old(self).spec_inner(),
            final(self).surface_capacity() == old(self).surface_capacity(),
            index as int <= old(self)@.len() ==> index <= final(self)@.len() <= old(self)@.len(),
            index as int > old(self)@.len() ==> final(self)@ == old(self)@,
            index as int <= old(self)@.len() ==> exists|kept: Seq<bool>|
                {
                    &&& kept.len() == old(self)@.len() - index
                    &&& final(self)@ == old(self)@.subrange(0, index as int) + seq_filter_by(
                        old(self)@.subrange(index as int, old(self)@.len() as int),
                        kept,
                    )
                    &&& forall|j: int|
                        0 <= j < kept.len() ==> predicate.ensures(
                            (&old(self)@.subrange(index as int, old(self)@.len() as int)[j],),
                            kept[j],
                        )
                },
    {
        if index <= self.local.len() {
            let mut suffix = self.local.split_off(index);
            let ghost orig = suffix@;
            let ghost mut kept: Seq<bool> = Seq::empty();
            proof {
                assert(orig.subrange(0, 0) =~= Seq::<T>::empty());
                assert(seq_filter_by(orig.subrange(0, 0), kept) =~= Seq::<T>::empty());
                assert(self.local@ =~= old(self)@.subrange(0, index as int) + seq_filter_by(
                    orig.subrange(0, 0),
                    kept,
                ));
                assert(orig =~= old(self)@.subrange(index as int, old(self)@.len() as int));
            }
            while suffix.len() > 0
                invariant
                    self.inner == old(self).inner,
                    self.local_cap == old(self).local_cap,
                    old(self).wf(),
                    index <= old(self)@.len(),
                    kept.len() + suffix@.len() == orig.len(),
                    orig == old(self)@.subrange(index as int, old(self)@.len() as int),
                    suffix@ == orig.subrange(kept.len() as int, orig.len() as int),
                    self.local@ == old(self)@.subrange(0, index as int) + seq_filter_by(
                        orig.subrange(0, kept.len() as int),
                        kept,
                    ),
                    self.local@.len() <= index + kept.len(),
                    forall|j: int|
                        0 <= j < kept.len() ==> predicate.ensures((&orig[j],), kept[j]),
                    forall|j: int|
                        index <= j < old(self)@.len() ==> #[trigger] predicate.requires(
                            (&old(self)@[j],),
                        ),
                decreases suffix@.len(),
            {
                let ghost n = kept.len() as int;
                let e = suffix.remove(0);
                proof {
                    assert(e == orig[n]);
                }
                let b = predicate(&e);
                if b {
                    self.local.push(e);
                }
                proof {
                    let kept0 = kept;
                    kept = kept.push(b);
                    assert(kept.drop_last() =~= kept0);
                    assert(orig.subrange(0, n + 1).drop_last() =~= orig.subrange(0, n));
                    assert(orig.subrange(0, n + 1).last() == orig[n]);
                    assert(seq_filter_by(orig.subrange(0, n + 1), kept) == seq_filter_by(
                        orig.subrange(0, n),
                        kept0,
                    ) + if b {
                        seq![orig[n]]
                    } else {
                        Seq::<T>::empty()
                    });
                    assert(self.local@ =~= old(self)@.subrange(0, index as int) + seq_filter_by(
                        orig.subrange(0, n + 1),
                        kept,
                    ));
                    assert(suffix@ =~= orig.subrange(kept.len() as int, orig.len() as int));
                }
            }
            proof {
                assert(orig.subrange(0, kept.len() as int) =~= orig);
                assert(kept.len() == old(self)@.len() - index);
                lemma_seq_filter_by_len(orig, kept);
            }
        }
    }

    /// Ensures the stack can absorb `items` without growing again: the
    /// records do not change, the surface buffer gains room for that many
    /// more records, and the region is pre-sized for what the items own.
    pub fn reserve_items(&mut self, items: &[T])
        requires
            old(self).wf(),
        ensures
            final(self).wf(),
            final(self)@ == old(self)@,
            caps_total(final(self).heap_pairs()) >= caps_total(old(self).heap_pairs()),
            final(self).surface_capacity() as int >= vstd::math::min(
                old(self)@.len() + items@.len() as int,
                usize::MAX as int,
            ),
            final(self).spec_inner().fits_items(items@),
    {
        let ghost pre = *self;
        let wanted = self.local.len().saturating_add(items.len());
        if wanted > self.local_cap {
            self.local.reserve(wanted - self.local.len());
            self.local_cap = wanted;
        }
        let ghost mid = *self;
        let mut refs: Vec<&T> = Vec::new();
        let mut i: usize = 0;
        while i < items.len()
            invariant
                i <= items@.len(),
                *self == mid,
                refs@.map_values(|x: &T| *x) == items@.subrange(0, i as int),
            decreases items@.len() - i,
        {
            let ghost refs0 = refs@;
            refs.push(&items[i]);
            proof {
                assert(refs@.map_values(|x: &T| *x) =~= refs0.map_values(|x: &T| *x).push(
                    *refs@.last(),
                ));
                assert(refs@.map_values(|x: &T| *x) =~= items@.subrange(0, (i + 1) as int));
            }
            i = i + 1;
        }
        self.inner.reserve_items(refs.as_slice());
        proof {
            assert(items@.subrange(0, items@.len() as int) =~= items@);
            assert(refs@.map_values(|x: &T| *x) == items@);
            assert(pre == *old(self));
            self.lemma_caps_split();
            pre.lemma_caps_split();
            mid.lemma_caps_split();
            vstd::arithmetic::mul::lemma_mul_inequality(
                pre.local_cap as int,
                mid.local_cap as int,
                size_of::<T>() as int,
            );
        }
    }

    /// Ensures the stack can absorb the contents of `regions` without
    /// growing again: the records do not change, the surface buffer gains
    /// room for their summed record count, and the region is pre-sized
    /// across theirs.
    pub fn reserve_regions(&mut self, regions: &[&Self])
        requires
            old(self).wf(),
            forall|i: int| 0 <= i < regions@.len() ==> (#[trigger] regions@[i]).wf(),
        ensures
            final(self).wf(),
            final(self)@ == old(self)@,
            caps_total(final(self).heap_pairs()) >= caps_total(old(self).heap_pairs()),
            final(self).surface_capacity() as int >= vstd::math::min(
                old(self)@.len() + total_records(regions@.map_values(|x: &Self| *x)),
                usize::MAX as int,
            ),
            final(self).spec_inner().fits_regions(
                regions@.map_values(|x: &Self| x.spec_inner()),
            ),
    {
        let ghost pre = *self;
        let ghost mregions = regions@.map_values(|x: &ColumnStack<T>| *x);
        let mut total: usize = 0;
        let mut i: usize = 0;
        while i < regions.len()
            invariant
                i <= regions@.len(),
                *self == pre,
                mregions == regions@.map_values(|x: &ColumnStack<T>| *x),
                total as int == vstd::math::min(
                    total_records(mregions.subrange(0, i as int)),
                    usize::MAX as int,
                ),
            decreases regions@.len() - i,
        {
            proof {
                lemma_total_records_nonneg(mregions.subrange(0, i as int));
                assert(mregions.subrange(0, (i + 1) as int).drop_last() =~= mregions.subrange(
                    0,
                    i as int,
                ));
            }
            total = total.saturating_add(regions[i].local.len());
            i = i + 1;
        }
        proof {
            assert(mregions.subrange(0, mregions.len() as int) =~= mregions);
        }
        let wanted = self.local.len().saturating_add(total);
        if wanted > self.local_cap {
            self.local.reserve(wanted - self.local.len());
            self.local_cap = wanted;
        }
        let ghost mid = *self;
        let mut refs: Vec<&T::InnerRegion> = Vec::new();
        let mut j: usize = 0;
        while j < regions.len()
            invariant
                j <= regions@.len(),
                *self == mid,
                mregions == regions@.map_values(|x: &ColumnStack<T>| *x),
                forall|k: int| 0 <= k < regions@.len() ==> (#[trigger] regions@[k]).wf(),
                forall|k: int| 0 <= k < refs@.len() ==> (#[trigger] refs@[k]).wf(),
                refs@.map_values(|x: &T::InnerRegion| *x) == mregions.subrange(
                    0,
                    j as int,
                ).map_values(|r: ColumnStack<T>| r.spec_inner()),
            decreases regions@.len() - j,
        {
            let ghost refs0 = refs@;
            refs.push(&regions[j].inner);
            proof {
                assert(refs@.map_values(|x: &T::InnerRegion| *x) =~= refs0.map_values(
                    |x: &T::InnerRegion| *x,
                ).push(*refs@.last()));
                assert(refs@.map_values(|x: &T::InnerRegion| *x) =~= mregions.subrange(
                    0,
                    (j + 1) as int,
                ).map_values(|r: ColumnStack<T>| r.spec_inner()));
            }
            j = j + 1;
        }
        self.inner.reserve_regions(refs.as_slice());
        proof {
            assert(refs@.map_values(|x: &T::InnerRegion| *x) == mregions.map_values(
                |r: ColumnStack<T>| r.spec_inner(),
            ));
            assert(regions@.map_values(|x: &ColumnStack<T>| x.spec_inner()) =~= mregions.map_values(
                |r: ColumnStack<T>| r.spec_inner(),
            ));
            assert(pre == *old(self));
            self.lemma_caps_split();
            pre.lemma_caps_split();
            mid.lemma_caps_split();
            vstd::arithmetic::mul::lemma_mul_inequality(
                pre.local_cap as int,
                mid.local_cap as int,
                size_of::<T>() as int,
            );
        }
    }

    /// Copies each record of a slice onto the stack, in order.
    pub fn extend(&mut self, items: &[T])
        requires
            old(self).wf(),
        ensures
            final(self).wf(),
            final(self)@.len() == old(self)@.len() + items@.len(),
            forall|i: int| 0 <= i < old(self)@.len() ==> final(self)@[i] == old(self)@[i],
            forall|i: int|
                0 <= i < items@.len() ==> <T::InnerRegion as Region>::eqv(
                    #[trigger] final(self)@[old(self)@.len() + i],
                    items@[i],
                ),
            caps_total(final(self).heap_pairs()) >= caps_total(old(self).heap_pairs()),
    {
        let mut i: usize = 0;
        while i < items.len()
            invariant
                i <= items@.len(),
                self.wf(),
                self@.len() == old(self)@.len() + i,
                forall|k: int| 0 <= k < old(self)@.len() ==> self@[k] == old(self)@[k],
                forall|k: int|
                    0 <= k < i ==> <T::InnerRegion as Region>::eqv(
                        #[trigger] self@[old(self)@.len() + k],
                        items@[k],
                    ),
                caps_total(self.heap_pairs()) >= caps_total(old(self).heap_pairs()),
            decreases items@.len() - i,
        {
            self.copy(&items[i]);
            i = i + 1;
        }
    }

    /// Builds a stack by copying each record of a slice, in order.
    pub fn from_iter(items: &[T]) -> (r: Self)
        ensures
            r.wf(),
            r@.len() == items@.len(),
            forall|i: int|
                0 <= i < items@.len() ==> <T::InnerRegion as Region>::eqv(
                    #[trigger] r@[i],
                    items@[i],
                ),
    {
        let mut c = Self::with_capacity(items.len());
        c.extend(items);
        proof {
            assert forall|i: int|
                0 <= i < items@.len() implies <T::InnerRegion as Region>::eqv(
                #[trigger] c@[i],
                items@[i],
            ) by {
                assert(<T::InnerRegion as Region>::eqv(c@[0 + i], items@[i]));
            }
        }
        c
    }

    /// Report the stack's memory use: the surface buffer, then whatever the
    /// region owns. Every appended pair uses no more than its capacity.
    pub fn heap_size(&self, acc: &mut Vec<(usize, usize)>)
        requires
            self.wf(),
        ensures
            final(acc)@ == old(acc)@ + self.heap_pairs(),
            forall|i: int|
                old(acc)@.len() <= i < final(acc)@.len() ==> (#[trigger] final(acc)@[i]).0
                    <= final(acc)@[i].1,
    {
        let sz = core::mem::size_of::<T>();
        acc.push((sat_mul(self.local.len(), sz), sat_mul(self.local_cap, sz)));
        self.inner.heap_size(acc);
        proof {
            assert(acc@ =~= old(acc)@ + self.heap_pairs());
            self.lemma_heap_pairs_wf();
            assert forall|i: int|
                old(acc)@.len() <= i < acc@.len() implies (#[trigger] acc@[i]).0 <= acc@[i].1 by {
                assert(acc@[i] == self.heap_pairs()[i - old(acc)@.len()]);
            }
        }
    }

    /// The memory use summed over all allocations, as (used bytes, capacity
    /// bytes), each saturating at `usize::MAX`. The used bytes never exceed
    /// the capacity bytes.
    pub fn summed_heap_size(&self) -> (r: (usize, usize))
        requires
            self.wf(),
        ensures
            r.0 as int == vstd::math::min(used_total(self.heap_pairs()), usize::MAX as int),
            r.1 as int == vstd::math::min(caps_total(self.heap_pairs()), usize::MAX as int),
            r.0 <= r.1,
    {
        let mut acc: Vec<(usize, usize)> = Vec::new();
        self.heap_size(&mut acc);
        proof {
            assert(acc@ =~= self.heap_pairs());
        }
        let mut length: usize = 0;
        let mut capacity: usize = 0;
        let mut i: usize = 0;
        proof {
            assert(acc@.subrange(0, 0) =~= Seq::<(usize, usize)>::empty());
        }
        while i < acc.len()
            invariant
                i <= acc@.len(),
                acc@ == self.heap_pairs(),
                length as int == vstd::math::min(
                    used_total(acc@.subrange(0, i as int)),
                    usize::MAX as int,
                ),
                capacity as int == vstd::math::min(
                    caps_total(acc@.subrange(0, i as int)),
                    usize::MAX as int,
                ),
            decreases acc@.len() - i,
        {
            proof {
                lemma_totals_nonneg(acc@.subrange(0, i as int));
                assert(acc@.subrange(0, (i + 1) as int).drop_last() =~= acc@.subrange(0, i as int));
            }
            length = length.saturating_add(acc[i].0);
            capacity = capacity.saturating_add(acc[i].1);
            i = i + 1;
        }
        proof {
            assert(acc@.subrange(0, acc@.len() as int) =~= acc@);
            self.lemma_heap_pairs_wf();
            lemma_used_le_caps(self.heap_pairs());
            lemma_totals_nonneg(self.heap_pairs());
        }
        (length, capacity)
    }
}

impl<A: Columnation> ColumnStack<(A,)> {
    /// Copies a one-component tuple given by a reference to its component,
    /// for callers that never hold the assembled tuple.
    pub fn copy_destructured(&mut self, a: &A)
        requires
            old(self).wf(),
        ensures
            final(self).wf(),
            final(self)@.len() == old(self)@.len() + 1,
            forall|i: int| 0 <= i < old(self)@.len() ==> final(self)@[i] == old(self)@[i],
            <A::InnerRegion as Region>::eqv(final(self)@[old(self)@.len() as int].0, *a),
            caps_total(final(self).heap_pairs()) >= caps_total(old(self).heap_pairs()),
    {
        let ghost pre = *self;
        let r = self.inner.copy_destructured(a);
        let ghost mid = *self;
        proof {
            pre.lemma_caps_split();
            mid.lemma_caps_split();
        }
        self.push_replica(r);
    }
}

impl<A: Columnation, B: Columnation> ColumnStack<(A, B)> {
    /// Copies a pair given by references to its components, for callers
    /// that never hold the assembled tuple.
    pub fn copy_destructured(&mut self, a: &A, b: &B)
        requires
            old(self).wf(),
        ensures
            final(self).wf(),
            final(self)@.len() == old(self)@.len() + 1,
            forall|i: int| 0 <= i < old(self)@.len() ==> final(self)@[i] == old(self)@[i],
            <A::InnerRegion as Region>::eqv(final(self)@[old(self)@.len() as int].0, *a),
            <B::InnerRegion as Region>::eqv(final(self)@[old(self)@.len() as int].1, *b),
            caps_total(final(self).heap_pairs()) >= caps_total(old(self).heap_pairs()),
    {
        let ghost pre = *self;
        let r = self.inner.copy_destructured(a, b);
        let ghost mid = *self;
        proof {
            pre.lemma_caps_split();
            mid.lemma_caps_split();
        }
        self.push_replica(r);
    }
}

impl<A: Columnation, B: Columnation, C: Columnation> ColumnStack<(A, B, C)> {
    /// Copies a triple given by references to its components, for callers
    /// that never hold the assembled tuple.
    pub fn copy_destructured(&mut self, a: &A, b: &B, c: &C)
        requires
            old(self).wf(),
        ensures
            final(self).wf(),
            final(self)@.len() == old(self)@.len() + 1,
            forall|i: int| 0 <= i < old(self)@.len() ==> final(self)@[i] == old(self)@[i],
            <A::InnerRegion as Region>::eqv(final(self)@[old(self)@.len() as int].0, *a),
            <B::InnerRegion as Region>::eqv(final(self)@[old(self)@.len() as int].1, *b),
            <C::InnerRegion as Region>::eqv(final(self)@[old(self)@.len() as int].2, *c),
            caps_total(final(self).heap_pairs()) >= caps_total(old(self).heap_pairs()),
    {
        let ghost pre = *self;
        let r = self.inner.copy_destructured(a, b, c);
        let ghost mid = *self;
        proof {
            pre.lemma_caps_split();
            mid.lemma_caps_split();
        }
        self.push_replica(r);
    }
}

impl<A: Columnation, B: Columnation, C: Columnation, D: Columnation> ColumnStack<(A, B, C, D)> {
    /// Copies a quadruple given by references to its components, for
    /// callers that never hold the assembled tuple.
    pub fn copy_destructured(&mut self, a: &A, b: &B, c: &C, d: &D)
        requires
            old(self).wf(),
        ensures
            final(self).wf(),
            final(self)@.len() == old(self)@.len() + 1,
            forall|i: int| 0 <= i < old(self)@.len() ==> final(self)@[i] == old(self)@[i],
            <A::InnerRegion as Region>::eqv(final(self)@[old(self)@.len() as int].0, *a),
            <B::InnerRegion as Region>::eqv(final(self)@[old(self)@.len() as int].1, *b),
            <C::InnerRegion as Region>::eqv(final(self)@[old(self)@.len() as int].2, *c),
            <D::InnerRegion as Region>::eqv(final(self)@[old(self)@.len() as int].3, *d),
            caps_total(final(self).heap_pairs()) >= caps_total(old(self).heap_pairs()),
    {
        let ghost pre = *self;
        let r = self.inner.copy_destructured(a, b, c, d);
        let ghost mid = *self;
        proof {
            pre.lemma_caps_split();
            mid.lemma_caps_split();
        }
        self.push_replica(r);
    }
}

impl<
    A: Columnation,
    B: Columnation,
    C: Columnation,
    D: Columnation,
    E: Columnation,
> ColumnStack<(A, B, C, D, E)> {
    /// Copies a quintuple given by references to its components, for
    /// callers that never hold the assembled tuple.
    pub fn copy_destructured(&mut self, a: &A, b: &B, c: &C, d: &D, e: &E)
        requires
            old(self).wf(),
        ensures
            final(self).wf(),
            final(self)@.len() == old(self)@.len() + 1,
            forall|i: int| 0 <= i < old(self)@.len() ==> final(self)@[i] == old(self)@[i],
            <A::InnerRegion as Region>::eqv(final(self)@[old(self)@.len() as int].0, *a),
            <B::InnerRegion as Region>::eqv(final(self)@[old(self)@.len() as int].1, *b),
            <C::InnerRegion as Region>::eqv(final(self)@[old(self)@.len() as int].2, *c),
            <D::InnerRegion as Region>::eqv(final(self)@[old(self)@.len() as int].3, *d),
            <E::InnerRegion as Region>::eqv(final(self)@[old(self)@.len() as int].4, *e),
            caps_total(final(self).heap_pairs()) >= caps_total(old(self).heap_pairs()),
    {
        let ghost pre = *self;
        let r = self.inner.copy_destructured(a, b, c, d, e);
        let ghost mid = *self;
        proof {
            pre.lemma_caps_split();
            mid.lemma_caps_split();
        }
        self.push_replica(r);
    }
}

impl<T: Columnation> ColumnStack<T> {
    /// Re-fill this stack by replaying `copy` for every record of
    /// `source` against the cleared region.
    pub fn clone_from(&mut self, source: &Self)
        requires
            old(self).wf(),
        ensures
            final(self).wf(),
            final(self)@.len() == source@.len(),
            forall|i: int|
                0 <= i < source@.len() ==> <T::InnerRegion as Region>::eqv(
                    #[trigger] final(self)@[i],
                    source@[i],
                ),
    {
        self.clear();
        self.extend(source.as_slice());
        proof {
            assert forall|i: int|
                0 <= i < source@.len() implies <T::InnerRegion as Region>::eqv(
                #[trigger] self@[i],
                source@[i],
            ) by {
                assert(<T::InnerRegion as Region>::eqv(self@[0 + i], source@[i]));
            }
        }
    }
}

impl<T: Columnation> Clone for ColumnStack<T> {
    /// Cloning rebuilds the stack by replaying `copy` for every record
    /// against a fresh region.
    fn clone(&self) -> (r: Self)
        ensures
            r.wf(),
            r@.len() == self@.len(),
            forall|i: int|
                0 <= i < self@.len() ==> <T::InnerRegion as Region>::eqv(
                    #[trigger] r@[i],
                    self@[i],
                ),
    {
        let mut fresh = Self::new();
        fresh.extend(self.as_slice());
        proof {
            assert forall|i: int|
                0 <= i < self@.len() implies <T::InnerRegion as Region>::eqv(
                #[trigger] fresh@[i],
                self@[i],
            ) by {
                assert(<T::InnerRegion as Region>::eqv(fresh@[0 + i], self@[i]));
            }
        }
        fresh
    }
}

impl<T: Columnation> Default for ColumnStack<T> {
    /// A fresh, empty stack owning no storage.
    fn default() -> (r: Self)
        ensures
            r.wf(),
            r@ == Seq::<T>::empty(),
            used_total(r.heap_pairs()) == 0,
            caps_total(r.heap_pairs()) == 0,
    {
        Self::new()
    }
}

impl<T: Columnation + vstd::std_specs::cmp::PartialEqSpec> PartialEq for ColumnStack<T> {
    /// Two stacks are equal when their surface records are, index by index.
    fn eq(&self, other: &Self) -> (r: bool) {
        let n = self.local.len();
        if n != other.local.len() {
            return false;
        }
        let mut i: usize = 0;
        while i < n
            invariant
                i <= n,
                n == self.local@.len(),
                n == other.local@.len(),
                T::obeys_eq_spec() ==> forall|j: int|
                    #![auto]
                    0 <= j < i ==> self.local@[j].eq_spec(&other.local@[j]),
            decreases n - i,
        {
            if !(self.local[i].eq(&other.local[i])) {
                return false;
            }
            i = i + 1;
        }
        true
    }
}

impl<T: Columnation + vstd::std_specs::cmp::PartialEqSpec + Eq> Eq for ColumnStack<T> {

}

impl<T: Columnation + vstd::std_specs::cmp::PartialEqSpec> vstd::std_specs::cmp::PartialEqSpecImpl for ColumnStack<T> {
    open spec fn obeys_eq_spec() -> bool {
        T::obeys_eq_spec()
    }

    open spec fn eq_spec(&self, other: &Self) -> bool {
        &&& self@.len() == other@.len()
        &&& forall|i: int| #![auto] 0 <= i < self@.len() ==> self@[i].eq_spec(&other@[i])
    }
}

} // verus!
