//! Region allocation for the contents of `Vec<T>` records.
//!
//! Elements are placed in stable contiguous storage, and whatever those
//! elements own is absorbed in turn by the element type's region. The
//! surface replica carries elementwise equivalent contents.

use vstd::prelude::*;

use crate::region::{caps_total, lemma_totals_concat, used_total, Columnation, Region};
use crate::stable::StableRegion;

verus! {

/// The summed length of a run of vectors.
pub open spec fn total_vec_len<T>(items: Seq<Vec<T>>) -> int
    decreases items.len(),
{
    if items.len() == 0 {
        0
    } else {
        total_vec_len(items.drop_last()) + items.last()@.len()
    }
}

proof fn lemma_total_vec_len_nonneg<T>(items: Seq<Vec<T>>)
    ensures
        total_vec_len(items) >= 0,
    decreases items.len(),
{
    if items.len() > 0 {
        lemma_total_vec_len_nonneg(items.drop_last());
    }
}

/// The elements of a run of vectors, vector by vector, in order.
pub open spec fn vecs_flat<T>(items: Seq<Vec<T>>) -> Seq<T>
    decreases items.len(),
{
    if items.len() == 0 {
        Seq::empty()
    } else {
        vecs_flat(items.drop_last()) + items.last()@
    }
}

/// The region for `Vec<T>` records.
pub struct VecRegion<T: Columnation> {
    /// Stable storage for the elements themselves.
    region: StableRegion<T>,
    /// The region absorbing what each element owns.
    inner: T::InnerRegion,
}

impl<T: Columnation> VecRegion<T> {
    /// The elements the stable storage has absorbed, in order of
    /// absorption.
    pub closed spec fn elements(&self) -> Seq<T> {
        self.region@
    }
}

/// The element-interior regions of a run of vector regions, in order.
spec fn inner_regions<T: Columnation>(regions: Seq<VecRegion<T>>) -> Seq<T::InnerRegion> {
    regions.map_values(|r: VecRegion<T>| r.inner)
}

/// The number of elements held by a run of vector regions.
spec fn total_held_elems<T: Columnation>(regions: Seq<VecRegion<T>>) -> int
    decreases regions.len(),
{
    if regions.len() == 0 {
        0
    } else {
        total_held_elems(regions.drop_last()) + regions.last().region@.len()
    }
}

proof fn lemma_total_held_elems_nonneg<T: Columnation>(regions: Seq<VecRegion<T>>)
    ensures
        total_held_elems(regions) >= 0,
    decreases regions.len(),
{
    if regions.len() > 0 {
        lemma_total_held_elems_nonneg(regions.drop_last());
    }
}

impl<T: Columnation> Region for VecRegion<T> {
    type Item = Vec<T>;

    closed spec fn wf(&self) -> bool {
        self.region.wf() && self.inner.wf()
    }

    /// Vectors are equivalent when they have the same length and carry
    /// elementwise equivalent contents.
    open spec fn eqv(a: Vec<T>, b: Vec<T>) -> bool {
        &&& a@.len() == b@.len()
        &&& forall|i: int|
            0 <= i < a@.len() ==> <T::InnerRegion as Region>::eqv(#[trigger] a@[i], b@[i])
    }

    closed spec fn heap_pairs(&self) -> Seq<(usize, usize)> {
        self.inner.heap_pairs() + self.region.heap_pairs()
    }

    /// The stable storage has room for all the items' elements, and the
    /// element type's region for everything those elements own.
    closed spec fn fits_items(&self, items: Seq<Vec<T>>) -> bool {
        &&& self.region.local_free() >= vstd::math::min(total_vec_len(items), usize::MAX as int)
        &&& self.inner.fits_items(vecs_flat(items))
    }

    /// The stable storage has room for all the elements the given regions
    /// hold, and the element type's region for what theirs hold.
    closed spec fn fits_regions(&self, regions: Seq<Self>) -> bool {
        &&& self.region.local_free() >= vstd::math::min(
            total_held_elems(regions),
            usize::MAX as int,
        )
        &&& self.inner.fits_regions(inner_regions(regions))
    }

    proof fn lemma_heap_pairs_wf(&self) {
        self.inner.lemma_heap_pairs_wf();
        self.region.lemma_heap_pairs_wf();
        let a = self.inner.heap_pairs();
        let b = self.region.heap_pairs();
        assert forall|i: int|
            0 <= i < self.heap_pairs().len() implies (#[trigger] self.heap_pairs()[i]).0
            <= self.heap_pairs()[i].1 by {
            if i < a.len() {
                assert(self.heap_pairs()[i] == a[i]);
            } else {
                assert(self.heap_pairs()[i] == b[i - a.len()]);
            }
        }
    }

    fn new() -> (r: Self) {
        let region: StableRegion<T> = StableRegion::default();
        let inner: T::InnerRegion = <T::InnerRegion as Region>::new();
        let r = VecRegion { region, inner };
        proof {
            assert(r.heap_pairs() == r.inner.heap_pairs() + r.region.heap_pairs());
            lemma_totals_concat(r.inner.heap_pairs(), r.region.heap_pairs());
        }
        r
    }

    /// A replica of each element is placed in the stable storage, after
    /// everything placed before; the returned replica of the whole vector
    /// owns its own spine and carries equivalent elements.
    fn copy(&mut self, item: &Vec<T>) -> (r: Vec<T>)
        ensures
            final(self).elements().len() == old(self).elements().len() + item@.len(),
            final(self).elements().subrange(0, old(self).elements().len() as int) == old(
                self,
            ).elements(),
            forall|j: int|
                0 <= j < item@.len() ==> <T::InnerRegion as Region>::eqv(
                    #[trigger] final(self).elements()[old(self).elements().len() + j],
                    item@[j],
                ),
    {
        let ghost pre = *self;
        // First pass: absorb a replica of each element into the stable
        // columnar storage, where it stays put until a clear.
        let mut placed: Vec<T> = Vec::with_capacity(item.len());
        let mut i: usize = 0;
        while i < item.len()
            invariant
                i <= item@.len(),
                placed@.len() == i,
                forall|k: int|
                    0 <= k < i ==> <T::InnerRegion as Region>::eqv(
                        #[trigger] placed@[k],
                        item@[k],
                    ),
                self.inner.wf(),
                self.region == pre.region,
                caps_total(self.inner.heap_pairs()) >= caps_total(pre.inner.heap_pairs()),
            decreases item@.len() - i,
        {
            let rep = self.inner.copy(&item[i]);
            placed.push(rep);
            i = i + 1;
        }
        self.region.copy_iter(placed);
        let ghost mid = *self;
        // Second pass: the surface replica owns its spine and its own
        // replicas of the elements, so reading it never depends on the
        // storage above.
        let mut r: Vec<T> = Vec::with_capacity(item.len());
        let mut j: usize = 0;
        while j < item.len()
            invariant
                j <= item@.len(),
                r@.len() == j,
                forall|k: int|
                    0 <= k < j ==> <T::InnerRegion as Region>::eqv(#[trigger] r@[k], item@[k]),
                self.inner.wf(),
                self.region == mid.region,
                caps_total(self.inner.heap_pairs()) >= caps_total(mid.inner.heap_pairs()),
            decreases item@.len() - j,
        {
            let rep = self.inner.copy(&item[j]);
            r.push(rep);
            j = j + 1;
        }
        proof {
            assert(pre == *old(self));
            assert(self.heap_pairs() == self.inner.heap_pairs() + self.region.heap_pairs());
            assert(mid.heap_pairs() == mid.inner.heap_pairs() + mid.region.heap_pairs());
            assert(pre.heap_pairs() == pre.inner.heap_pairs() + pre.region.heap_pairs());
            lemma_totals_concat(pre.inner.heap_pairs(), pre.region.heap_pairs());
            lemma_totals_concat(mid.inner.heap_pairs(), mid.region.heap_pairs());
            lemma_totals_concat(self.inner.heap_pairs(), self.region.heap_pairs());
            assert(self.elements().subrange(0, pre.elements().len() as int) =~= pre.elements());
        }
        r
    }

    fn clear(&mut self)
        ensures
            final(self).elements() == Seq::<T>::empty(),
    {
        self.region.clear();
        self.inner.clear();
    }

    /// Pre-size the stable storage for the total element count, and the
    /// element type's region for everything the elements own; the held
    /// elements do not change.
    fn reserve_items(&mut self, items: &[&Vec<T>])
        ensures
            final(self).elements() == old(self).elements(),
    {
        let ghost mitems = items@.map_values(|x: &Vec<T>| *x);
        let mut total: usize = 0;
        let mut i: usize = 0;
        while i < items.len()
            invariant
                i <= items@.len(),
                *self == *old(self),
                mitems == items@.map_values(|x: &Vec<T>| *x),
                total as int == vstd::math::min(
                    total_vec_len(mitems.subrange(0, i as int)),
                    usize::MAX as int,
                ),
            decreases items@.len() - i,
        {
            proof {
                lemma_total_vec_len_nonneg(mitems.subrange(0, i as int));
                assert(mitems.subrange(0, (i + 1) as int).drop_last() =~= mitems.subrange(
                    0,
                    i as int,
                ));
            }
            total = total.saturating_add(items[i].len());
            i = i + 1;
        }
        let ghost pre = *self;
        self.region.reserve(total);
        let ghost mid = *self;
        let mut refs: Vec<&T> = Vec::new();
        let mut j: usize = 0;
        while j < items.len()
            invariant
                j <= items@.len(),
                *self == mid,
                mitems == items@.map_values(|x: &Vec<T>| *x),
                refs@.map_values(|x: &T| *x) == vecs_flat(mitems.subrange(0, j as int)),
            decreases items@.len() - j,
        {
            let v: &Vec<T> = items[j];
            let mut k: usize = 0;
            while k < v.len()
                invariant
                    k <= v@.len(),
                    *self == mid,
                    v == items@[j as int],
                    j < items@.len(),
                    mitems == items@.map_values(|x: &Vec<T>| *x),
                    refs@.map_values(|x: &T| *x) == vecs_flat(mitems.subrange(0, j as int))
                        + v@.subrange(0, k as int),
                decreases v@.len() - k,
            {
                let ghost refs0 = refs@;
                refs.push(&v[k]);
                proof {
                    assert(refs@.map_values(|x: &T| *x) =~= refs0.map_values(|x: &T| *x).push(
                        *refs@.last(),
                    ));
                    assert(refs@.map_values(|x: &T| *x) =~= vecs_flat(
                        mitems.subrange(0, j as int),
                    ) + v@.subrange(0, (k + 1) as int));
                }
                k = k + 1;
            }
            proof {
                assert(v@.subrange(0, v@.len() as int) =~= v@);
                assert(mitems.subrange(0, (j + 1) as int).drop_last() =~= mitems.subrange(
                    0,
                    j as int,
                ));
                assert(mitems.subrange(0, (j + 1) as int).last() == *v);
                assert(refs@.map_values(|x: &T| *x) =~= vecs_flat(
                    mitems.subrange(0, (j + 1) as int),
                ));
            }
            j = j + 1;
        }
        self.inner.reserve_items(refs.as_slice());
        proof {
            assert(mitems.subrange(0, mitems.len() as int) =~= mitems);
            assert(refs@.map_values(|x: &T| *x) == vecs_flat(mitems));
            assert(pre == *old(self));
            assert(self.heap_pairs() == self.inner.heap_pairs() + self.region.heap_pairs());
            assert(pre.heap_pairs() == pre.inner.heap_pairs() + pre.region.heap_pairs());
            lemma_totals_concat(pre.inner.heap_pairs(), pre.region.heap_pairs());
            lemma_totals_concat(mid.inner.heap_pairs(), mid.region.heap_pairs());
            lemma_totals_concat(self.inner.heap_pairs(), self.region.heap_pairs());
        }
    }

    /// Pre-size the stable storage for the elements held by `regions`, and
    /// the element type's region across theirs; the held elements do not
    /// change.
    fn reserve_regions(&mut self, regions: &[&Self])
        ensures
            final(self).elements() == old(self).elements(),
    {
        let ghost mregions = regions@.map_values(|x: &VecRegion<T>| *x);
        let mut total: usize = 0;
        let mut i: usize = 0;
        while i < regions.len()
            invariant
                i <= regions@.len(),
                *self == *old(self),
                mregions == regions@.map_values(|x: &VecRegion<T>| *x),
                forall|j: int| 0 <= j < regions@.len() ==> (#[trigger] regions@[j]).wf(),
                total as int == vstd::math::min(
                    total_held_elems(mregions.subrange(0, i as int)),
                    usize::MAX as int,
                ),
            decreases regions@.len() - i,
        {
            proof {
                lemma_total_held_elems_nonneg(mregions.subrange(0, i as int));
                assert(mregions.subrange(0, (i + 1) as int).drop_last() =~= mregions.subrange(
                    0,
                    i as int,
                ));
            }
            total = total.saturating_add(regions[i].region.len());
            i = i + 1;
        }
        let ghost pre = *self;
        self.region.reserve(total);
        let ghost mid = *self;
        let mut refs: Vec<&T::InnerRegion> = Vec::new();
        let mut j: usize = 0;
        while j < regions.len()
            invariant
                j <= regions@.len(),
                *self == mid,
                mregions == regions@.map_values(|x: &VecRegion<T>| *x),
                forall|k: int| 0 <= k < regions@.len() ==> (#[trigger] regions@[k]).wf(),
                forall|k: int| 0 <= k < refs@.len() ==> (#[trigger] refs@[k]).wf(),
                refs@.map_values(|x: &T::InnerRegion| *x) == inner_regions(
                    mregions.subrange(0, j as int),
                ),
            decreases regions@.len() - j,
        {
            let ghost refs0 = refs@;
            refs.push(&regions[j].inner);
            proof {
                assert(refs@.map_values(|x: &T::InnerRegion| *x) =~= refs0.map_values(
                    |x: &T::InnerRegion| *x,
                ).push(*refs@.last()));
                assert(refs@.map_values(|x: &T::InnerRegion| *x) =~= inner_regions(
                    mregions.subrange(0, (j + 1) as int),
                ));
            }
            j = j + 1;
        }
        self.inner.reserve_regions(refs.as_slice());
        proof {
            assert(mregions.subrange(0, mregions.len() as int) =~= mregions);
            assert(refs@.map_values(|x: &T::InnerRegion| *x) == inner_regions(mregions));
            assert(pre == *old(self));
            assert(self.heap_pairs() == self.inner.heap_pairs() + self.region.heap_pairs());
            assert(pre.heap_pairs() == pre.inner.heap_pairs() + pre.region.heap_pairs());
            lemma_totals_concat(pre.inner.heap_pairs(), pre.region.heap_pairs());
            lemma_totals_concat(mid.inner.heap_pairs(), mid.region.heap_pairs());
            lemma_totals_concat(self.inner.heap_pairs(), self.region.heap_pairs());
        }
    }

    fn heap_size(&self, acc: &mut Vec<(usize, usize)>) {
        self.inner.heap_size(acc);
        self.region.heap_size(acc);
        proof {
            assert(acc@ =~= old(acc)@ + (self.inner.heap_pairs() + self.region.heap_pairs()));
        }
    }
}

impl<T: Columnation> Default for VecRegion<T> {
    fn default() -> (r: Self)
        ensures
            r.wf(),
    {
        Self::new()
    }
}

impl<T: Columnation> Columnation for Vec<T> {
    type InnerRegion = VecRegion<T>;
}

} // verus!
