//! Region allocation for `Option<T>` records: the payload of a `Some` is
//! absorbed by the payload type's region; a `None` owns nothing.

use vstd::prelude::*;

use crate::region::{Columnation, Region};

verus! {

/// The payloads of the `Some` entries of a run of options, in order.
pub open spec fn some_payloads<I>(items: Seq<Option<I>>) -> Seq<I>
    decreases items.len(),
{
    if items.len() == 0 {
        Seq::empty()
    } else {
        some_payloads(items.drop_last()) + match items.last() {
            Some(x) => seq![x],
            None => Seq::empty(),
        }
    }
}

/// The region for `Option` records, wrapping the payload's region.
pub struct OptionRegion<R: Region> {
    region: R,
}

/// The payload regions of a run of option regions, in order.
spec fn payload_regions<R: Region>(regions: Seq<OptionRegion<R>>) -> Seq<R> {
    regions.map_values(|r: OptionRegion<R>| r.region)
}

impl<R: Region> Region for OptionRegion<R> {
    type Item = Option<R::Item>;

    closed spec fn wf(&self) -> bool {
        self.region.wf()
    }

    /// Options are equivalent when both are `None`, or both are `Some` of
    /// equivalent payloads.
    open spec fn eqv(a: Option<R::Item>, b: Option<R::Item>) -> bool {
        match (a, b) {
            (Some(x), Some(y)) => R::eqv(x, y),
            (None, None) => true,
            _ => false,
        }
    }

    closed spec fn heap_pairs(&self) -> Seq<(usize, usize)> {
        self.region.heap_pairs()
    }

    /// The payload region has room for the payloads of the `Some` items.
    closed spec fn fits_items(&self, items: Seq<Option<R::Item>>) -> bool {
        self.region.fits_items(some_payloads(items))
    }

    /// The payload region has room for what the given regions' payload
    /// regions hold.
    closed spec fn fits_regions(&self, regions: Seq<Self>) -> bool {
        self.region.fits_regions(payload_regions(regions))
    }

    proof fn lemma_heap_pairs_wf(&self) {
        self.region.lemma_heap_pairs_wf();
    }

    fn new() -> (r: Self) {
        let r = OptionRegion { region: R::new() };
        proof {
            assert(r.heap_pairs() == r.region.heap_pairs());
        }
        r
    }

    /// Copying `None` leaves the region untouched.
    fn copy(&mut self, item: &Option<R::Item>) -> (r: Option<R::Item>)
        ensures
            (*item) is None ==> *final(self) == *old(self),
    {
        match item {
            Some(x) => Some(self.region.copy(x)),
            None => None,
        }
    }

    fn clear(&mut self) {
        self.region.clear();
    }

    /// Forward the payloads of the `Some` items to the payload's region.
    fn reserve_items(&mut self, items: &[&Option<R::Item>]) {
        let ghost mitems = items@.map_values(|x: &Option<R::Item>| *x);
        let mut refs: Vec<&R::Item> = Vec::new();
        let mut i: usize = 0;
        while i < items.len()
            invariant
                i <= items@.len(),
                *self == *old(self),
                mitems == items@.map_values(|x: &Option<R::Item>| *x),
                refs@.map_values(|x: &R::Item| *x) == some_payloads(mitems.subrange(0, i as int)),
            decreases items@.len() - i,
        {
            proof {
                assert(mitems.subrange(0, (i + 1) as int).drop_last() =~= mitems.subrange(
                    0,
                    i as int,
                ));
            }
            let ghost refs0 = refs@;
            match items[i] {
                Some(x) => {
                    refs.push(x);
                    proof {
                        assert(refs@.map_values(|x: &R::Item| *x) =~= refs0.map_values(
                            |x: &R::Item| *x,
                        ).push(*refs@.last()));
                        assert(refs@.map_values(|x: &R::Item| *x) =~= some_payloads(
                            mitems.subrange(0, (i + 1) as int),
                        ));
                    }
                },
                None => {
                    proof {
                        assert(some_payloads(mitems.subrange(0, (i + 1) as int)) =~= some_payloads(
                            mitems.subrange(0, i as int),
                        ));
                    }
                },
            }
            i = i + 1;
        }
        self.region.reserve_items(refs.as_slice());
        proof {
            assert(mitems.subrange(0, mitems.len() as int) =~= mitems);
            assert(refs@.map_values(|x: &R::Item| *x) == some_payloads(mitems));
            assert(self.heap_pairs() == self.region.heap_pairs());
            assert(old(self).heap_pairs() == old(self).region.heap_pairs());
        }
    }

    fn reserve_regions(&mut self, regions: &[&Self]) {
        let ghost mregions = regions@.map_values(|x: &OptionRegion<R>| *x);
        let mut refs: Vec<&R> = Vec::new();
        let mut i: usize = 0;
        while i < regions.len()
            invariant
                i <= regions@.len(),
                *self == *old(self),
                mregions == regions@.map_values(|x: &OptionRegion<R>| *x),
                forall|j: int| 0 <= j < regions@.len() ==> (#[trigger] regions@[j]).wf(),
                forall|j: int| 0 <= j < refs@.len() ==> (#[trigger] refs@[j]).wf(),
                refs@.map_values(|x: &R| *x) == payload_regions(mregions.subrange(0, i as int)),
            decreases regions@.len() - i,
        {
            let ghost refs0 = refs@;
            refs.push(&regions[i].region);
            proof {
                assert(refs@.map_values(|x: &R| *x) =~= refs0.map_values(|x: &R| *x).push(
                    *refs@.last(),
                ));
                assert(refs@.map_values(|x: &R| *x) =~= payload_regions(
                    mregions.subrange(0, (i + 1) as int),
                ));
            }
            i = i + 1;
        }
        self.region.reserve_regions(refs.as_slice());
        proof {
            assert(mregions.subrange(0, mregions.len() as int) =~= mregions);
            assert(refs@.map_values(|x: &R| *x) == payload_regions(mregions));
            assert(self.heap_pairs() == self.region.heap_pairs());
            assert(old(self).heap_pairs() == old(self).region.heap_pairs());
        }
    }

    fn heap_size(&self, acc: &mut Vec<(usize, usize)>) {
        self.region.heap_size(acc);
    }
}

impl<R: Region> Default for OptionRegion<R> {
    fn default() -> (r: Self)
        ensures
            r.wf(),
    {
        Self::new()
    }
}

impl<T: Columnation> Columnation for Option<T> {
    type InnerRegion = OptionRegion<T::InnerRegion>;
}

} // verus!
