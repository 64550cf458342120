//! Region allocation for `Result<T, E>` records: the payload is absorbed by
//! the region of whichever side it lives on.

use vstd::prelude::*;

use crate::region::{caps_total, lemma_totals_concat, used_total, Columnation, Region};

verus! {

/// The payloads of the `Ok` entries of a run of results, in order.
pub open spec fn ok_payloads<I, E>(items: Seq<Result<I, E>>) -> Seq<I>
    decreases items.len(),
{
    if items.len() == 0 {
        Seq::empty()
    } else {
        ok_payloads(items.drop_last()) + match items.last() {
            Ok(x) => seq![x],
            Err(_) => Seq::empty(),
        }
    }
}

/// The payloads of the `Err` entries of a run of results, in order.
pub open spec fn err_payloads<I, E>(items: Seq<Result<I, E>>) -> Seq<E>
    decreases items.len(),
{
    if items.len() == 0 {
        Seq::empty()
    } else {
        err_payloads(items.drop_last()) + match items.last() {
            Ok(_) => Seq::empty(),
            Err(x) => seq![x],
        }
    }
}

/// The region for `Result` records, wrapping both sides' regions.
pub struct ResultRegion<R1: Region, R2: Region> {
    region1: R1,
    region2: R2,
}

/// The `Ok`-side regions of a run of result regions, in order.
spec fn ok_sides<R1: Region, R2: Region>(regions: Seq<ResultRegion<R1, R2>>) -> Seq<R1> {
    regions.map_values(|r: ResultRegion<R1, R2>| r.region1)
}

/// The `Err`-side regions of a run of result regions, in order.
spec fn err_sides<R1: Region, R2: Region>(regions: Seq<ResultRegion<R1, R2>>) -> Seq<R2> {
    regions.map_values(|r: ResultRegion<R1, R2>| r.region2)
}

impl<R1: Region, R2: Region> ResultRegion<R1, R2> {
    /// The region absorbing `Ok` payloads.
    pub closed spec fn ok_region(&self) -> R1 {
        self.region1
    }

    /// The region absorbing `Err` payloads.
    pub closed spec fn err_region(&self) -> R2 {
        self.region2
    }
}

impl<R1: Region, R2: Region> Region for ResultRegion<R1, R2> {
    type Item = Result<R1::Item, R2::Item>;

    closed spec fn wf(&self) -> bool {
        self.region1.wf() && self.region2.wf()
    }

    /// Results are equivalent when they lie on the same side and carry
    /// equivalent payloads.
    open spec fn eqv(a: Result<R1::Item, R2::Item>, b: Result<R1::Item, R2::Item>) -> bool {
        match (a, b) {
            (Ok(x), Ok(y)) => R1::eqv(x, y),
            (Err(x), Err(y)) => R2::eqv(x, y),
            _ => false,
        }
    }

    closed spec fn heap_pairs(&self) -> Seq<(usize, usize)> {
        self.region1.heap_pairs() + self.region2.heap_pairs()
    }

    /// Each side's region has room for the payloads on its side.
    closed spec fn fits_items(&self, items: Seq<Result<R1::Item, R2::Item>>) -> bool {
        self.region1.fits_items(ok_payloads(items)) && self.region2.fits_items(
            err_payloads(items),
        )
    }

    /// Each side's region has room for what the given regions' same side
    /// holds.
    closed spec fn fits_regions(&self, regions: Seq<Self>) -> bool {
        self.region1.fits_regions(ok_sides(regions)) && self.region2.fits_regions(
            err_sides(regions),
        )
    }

    proof fn lemma_heap_pairs_wf(&self) {
        self.region1.lemma_heap_pairs_wf();
        self.region2.lemma_heap_pairs_wf();
        let a = self.region1.heap_pairs();
        let b = self.region2.heap_pairs();
        assert forall|i: int|
            0 <= i < self.heap_pairs().len() implies (#[trigger] self.heap_pairs()[i]).0
            <= self.heap_pairs()[i].1 by {
            if i < a.len() {
                assert(self.heap_pairs()[i] == a[i]);
            } else {
                assert(self.heap_pairs()[i] == b[i - a.len()]);
            }
        }
    }

    fn new() -> (r: Self) {
        let r = ResultRegion { region1: R1::new(), region2: R2::new() };
        proof {
            assert(r.heap_pairs() == r.region1.heap_pairs() + r.region2.heap_pairs());
            lemma_totals_concat(r.region1.heap_pairs(), r.region2.heap_pairs());
        }
        r
    }

    /// Copying a record touches only the region of the side it lies on.
    fn copy(&mut self, item: &Result<R1::Item, R2::Item>) -> (r: Result<R1::Item, R2::Item>)
        ensures
            (*item) is Ok ==> final(self).err_region() == old(self).err_region(),
            (*item) is Err ==> final(self).ok_region() == old(self).ok_region(),
    {
        let ghost pre = *self;
        let r = match item {
            Ok(x) => Ok(self.region1.copy(x)),
            Err(x) => Err(self.region2.copy(x)),
        };
        proof {
            lemma_totals_concat(pre.region1.heap_pairs(), pre.region2.heap_pairs());
            lemma_totals_concat(self.region1.heap_pairs(), self.region2.heap_pairs());
        }
        r
    }

    fn clear(&mut self) {
        self.region1.clear();
        self.region2.clear();
    }

    /// Walk the items once per side, forwarding each payload to its side's
    /// region.
    fn reserve_items(&mut self, items: &[&Result<R1::Item, R2::Item>]) {
        let ghost mitems = items@.map_values(|x: &Result<R1::Item, R2::Item>| *x);
        let mut oks: Vec<&R1::Item> = Vec::new();
        let mut errs: Vec<&R2::Item> = Vec::new();
        let mut i: usize = 0;
        while i < items.len()
            invariant
                i <= items@.len(),
                *self == *old(self),
                mitems == items@.map_values(|x: &Result<R1::Item, R2::Item>| *x),
                oks@.map_values(|x: &R1::Item| *x) == ok_payloads(mitems.subrange(0, i as int)),
                errs@.map_values(|x: &R2::Item| *x) == err_payloads(mitems.subrange(0, i as int)),
            decreases items@.len() - i,
        {
            proof {
                assert(mitems.subrange(0, (i + 1) as int).drop_last() =~= mitems.subrange(
                    0,
                    i as int,
                ));
            }
            let ghost oks0 = oks@;
            let ghost errs0 = errs@;
            match items[i] {
                Ok(x) => {
                    oks.push(x);
                    proof {
                        assert(oks@.map_values(|x: &R1::Item| *x) =~= oks0.map_values(
                            |x: &R1::Item| *x,
                        ).push(*oks@.last()));
                        assert(oks@.map_values(|x: &R1::Item| *x) =~= ok_payloads(
                            mitems.subrange(0, (i + 1) as int),
                        ));
                        assert(err_payloads(mitems.subrange(0, (i + 1) as int)) =~= err_payloads(
                            mitems.subrange(0, i as int),
                        ));
                    }
                },
                Err(x) => {
                    errs.push(x);
                    proof {
                        assert(errs@.map_values(|x: &R2::Item| *x) =~= errs0.map_values(
                            |x: &R2::Item| *x,
                        ).push(*errs@.last()));
                        assert(errs@.map_values(|x: &R2::Item| *x) =~= err_payloads(
                            mitems.subrange(0, (i + 1) as int),
                        ));
                        assert(ok_payloads(mitems.subrange(0, (i + 1) as int)) =~= ok_payloads(
                            mitems.subrange(0, i as int),
                        ));
                    }
                },
            }
            i = i + 1;
        }
        let ghost pre = *self;
        self.region1.reserve_items(oks.as_slice());
        let ghost mid = *self;
        self.region2.reserve_items(errs.as_slice());
        proof {
            assert(mitems.subrange(0, mitems.len() as int) =~= mitems);
            assert(pre == *old(self));
            assert(self.heap_pairs() == self.region1.heap_pairs() + self.region2.heap_pairs());
            assert(old(self).heap_pairs() == old(self).region1.heap_pairs() + old(
                self,
            ).region2.heap_pairs());
            lemma_totals_concat(pre.region1.heap_pairs(), pre.region2.heap_pairs());
            lemma_totals_concat(mid.region1.heap_pairs(), mid.region2.heap_pairs());
            lemma_totals_concat(self.region1.heap_pairs(), self.region2.heap_pairs());
        }
    }

    fn reserve_regions(&mut self, regions: &[&Self]) {
        let ghost mregions = regions@.map_values(|x: &ResultRegion<R1, R2>| *x);
        let mut refs1: Vec<&R1> = Vec::new();
        let mut refs2: Vec<&R2> = Vec::new();
        let mut i: usize = 0;
        while i < regions.len()
            invariant
                i <= regions@.len(),
                *self == *old(self),
                mregions == regions@.map_values(|x: &ResultRegion<R1, R2>| *x),
                forall|j: int| 0 <= j < regions@.len() ==> (#[trigger] regions@[j]).wf(),
                forall|j: int| 0 <= j < refs1@.len() ==> (#[trigger] refs1@[j]).wf(),
                forall|j: int| 0 <= j < refs2@.len() ==> (#[trigger] refs2@[j]).wf(),
                refs1@.map_values(|x: &R1| *x) == ok_sides(mregions.subrange(0, i as int)),
                refs2@.map_values(|x: &R2| *x) == err_sides(mregions.subrange(0, i as int)),
            decreases regions@.len() - i,
        {
            let ghost refs10 = refs1@;
            let ghost refs20 = refs2@;
            refs1.push(&regions[i].region1);
            refs2.push(&regions[i].region2);
            proof {
                assert(refs1@.map_values(|x: &R1| *x) =~= refs10.map_values(|x: &R1| *x).push(
                    *refs1@.last(),
                ));
                assert(refs1@.map_values(|x: &R1| *x) =~= ok_sides(
                    mregions.subrange(0, (i + 1) as int),
                ));
                assert(refs2@.map_values(|x: &R2| *x) =~= refs20.map_values(|x: &R2| *x).push(
                    *refs2@.last(),
                ));
                assert(refs2@.map_values(|x: &R2| *x) =~= err_sides(
                    mregions.subrange(0, (i + 1) as int),
                ));
            }
            i = i + 1;
        }
        let ghost pre = *self;
        self.region1.reserve_regions(refs1.as_slice());
        let ghost mid = *self;
        self.region2.reserve_regions(refs2.as_slice());
        proof {
            assert(mregions.subrange(0, mregions.len() as int) =~= mregions);
            assert(pre == *old(self));
            assert(self.heap_pairs() == self.region1.heap_pairs() + self.region2.heap_pairs());
            assert(old(self).heap_pairs() == old(self).region1.heap_pairs() + old(
                self,
            ).region2.heap_pairs());
            lemma_totals_concat(pre.region1.heap_pairs(), pre.region2.heap_pairs());
            lemma_totals_concat(mid.region1.heap_pairs(), mid.region2.heap_pairs());
            lemma_totals_concat(self.region1.heap_pairs(), self.region2.heap_pairs());
        }
    }

    fn heap_size(&self, acc: &mut Vec<(usize, usize)>) {
        self.region1.heap_size(acc);
        self.region2.heap_size(acc);
        proof {
            assert(acc@ =~= old(acc)@ + (self.region1.heap_pairs()
                + self.region2.heap_pairs()));
        }
    }
}

impl<R1: Region, R2: Region> Default for ResultRegion<R1, R2> {
    fn default() -> (r: Self)
        ensures
            r.wf(),
    {
        Self::new()
    }
}

impl<T: Columnation, E: Columnation> Columnation for Result<T, E> {
    type InnerRegion = ResultRegion<T::InnerRegion, E::InnerRegion>;
}

} // verus!
