//! Region allocation for tuple records: one region per component. Each
//! arity is a separate, mechanical instantiation of the same schema;
//! records of higher arity than written here follow it verbatim.

use vstd::prelude::*;

use crate::region::{caps_total, lemma_totals_concat, used_total, Columnation, Region};

verus! {

/// The region for one-component tuple records.
pub struct TupleARegion<RA: Region> {
    region_a: RA,
}

impl<RA: Region> Region for TupleARegion<RA> {
    type Item = (RA::Item,);

    closed spec fn wf(&self) -> bool {
        self.region_a.wf()
    }

    /// Tuples are equivalent componentwise.
    open spec fn eqv(a: (RA::Item,), b: (RA::Item,)) -> bool {
        RA::eqv(a.0, b.0)
    }

    closed spec fn heap_pairs(&self) -> Seq<(usize, usize)> {
        self.region_a.heap_pairs()
    }

    /// Each component's region has room for its projection of the items.
    closed spec fn fits_items(&self, items: Seq<(RA::Item,)>) -> bool {
        &&& self.region_a.fits_items(items.map_values(|t: (RA::Item,)| t.0))
    }

    /// Each component's region has room for what the given regions' same
    /// component holds.
    closed spec fn fits_regions(&self, regions: Seq<Self>) -> bool {
        &&& self.region_a.fits_regions(regions.map_values(|r: TupleARegion<RA>| r.region_a))
    }

    proof fn lemma_heap_pairs_wf(&self) {
        self.region_a.lemma_heap_pairs_wf();
    }

    fn new() -> (r: Self) {
        let r = TupleARegion { region_a: RA::new() };
        proof {
            assert(r.heap_pairs() == r.region_a.heap_pairs());
        }
        r
    }

    fn copy(&mut self, item: &(RA::Item,)) -> (r: (RA::Item,)) {
        let ghost s0 = *self;
        let va = self.region_a.copy(&item.0);
        proof {
            assert(self.heap_pairs() == self.region_a.heap_pairs());
        }
        (va,)
    }

    fn clear(&mut self) {
        self.region_a.clear();
    }

    fn reserve_items(&mut self, items: &[&(RA::Item,)]) {
        let ghost mitems = items@.map_values(|x: &(RA::Item,)| *x);
        let mut refs_a: Vec<&RA::Item> = Vec::new();
        let mut i: usize = 0;
        while i < items.len()
            invariant
                i <= items@.len(),
                *self == *old(self),
                mitems == items@.map_values(|x: &(RA::Item,)| *x),
                refs_a@.map_values(|x: &RA::Item| *x) == mitems.subrange(0, i as int).map_values(|t: (RA::Item,)| t.0),
            decreases items@.len() - i,
        {
            let ghost refs_a0 = refs_a@;
            refs_a.push(&items[i].0);
            proof {
                assert(refs_a@.map_values(|x: &RA::Item| *x) =~= refs_a0.map_values(
                    |x: &RA::Item| *x,
                ).push(*refs_a@.last()));
                assert(refs_a@.map_values(|x: &RA::Item| *x) =~= mitems.subrange(
                    0,
                    (i + 1) as int,
                ).map_values(|t: (RA::Item,)| t.0));
            }
            i = i + 1;
        }
        let ghost s0 = *self;
        self.region_a.reserve_items(refs_a.as_slice());
        proof {
            assert(mitems.subrange(0, mitems.len() as int) =~= mitems);
            assert(refs_a@.map_values(|x: &RA::Item| *x) == mitems.map_values(|t: (RA::Item,)| t.0));
            assert(s0 == *old(self));
            assert(self.heap_pairs() == self.region_a.heap_pairs());
            assert(s0.heap_pairs() == s0.region_a.heap_pairs());
        }
    }

    fn reserve_regions(&mut self, regions: &[&Self]) {
        let ghost mregions = regions@.map_values(|x: &TupleARegion<RA>| *x);
        let mut refs_a: Vec<&RA> = Vec::new();
        let mut i: usize = 0;
        while i < regions.len()
            invariant
                i <= regions@.len(),
                *self == *old(self),
                mregions == regions@.map_values(|x: &TupleARegion<RA>| *x),
                forall|j: int| 0 <= j < regions@.len() ==> (#[trigger] regions@[j]).wf(),
                forall|j: int| 0 <= j < refs_a@.len() ==> (#[trigger] refs_a@[j]).wf(),
                refs_a@.map_values(|x: &RA| *x) == mregions.subrange(0, i as int).map_values(|r: TupleARegion<RA>| r.region_a),
            decreases regions@.len() - i,
        {
            let ghost refs_a0 = refs_a@;
            refs_a.push(&regions[i].region_a);
            proof {
                assert(refs_a@.map_values(|x: &RA| *x) =~= refs_a0.map_values(
                    |x: &RA| *x,
                ).push(*refs_a@.last()));
                assert(refs_a@.map_values(|x: &RA| *x) =~= mregions.subrange(
                    0,
                    (i + 1) as int,
                ).map_values(|r: TupleARegion<RA>| r.region_a));
            }
            i = i + 1;
        }
        let ghost s0 = *self;
        self.region_a.reserve_regions(refs_a.as_slice());
        proof {
            assert(mregions.subrange(0, mregions.len() as int) =~= mregions);
            assert(refs_a@.map_values(|x: &RA| *x) == mregions.map_values(|r: TupleARegion<RA>| r.region_a));
            assert(s0 == *old(self));
            assert(self.heap_pairs() == self.region_a.heap_pairs());
            assert(s0.heap_pairs() == s0.region_a.heap_pairs());
        }
    }

    fn heap_size(&self, acc: &mut Vec<(usize, usize)>) {
        self.region_a.heap_size(acc);
    }
}

impl<RA: Region> TupleARegion<RA> {
    /// Copy a tuple given by component references, without an assembled
    /// tuple to borrow from.
    pub fn copy_destructured(&mut self, ra: &RA::Item) -> (r: (RA::Item,))
        requires
            old(self).wf(),
        ensures
            final(self).wf(),
            RA::eqv(r.0, *ra),
            caps_total(final(self).heap_pairs()) >= caps_total(old(self).heap_pairs()),
    {
        let ghost s0 = *self;
        let va = self.region_a.copy(ra);
        proof {
            assert(self.heap_pairs() == self.region_a.heap_pairs());
        }
        (va,)
    }
}

impl<RA: Region> Default for TupleARegion<RA> {
    fn default() -> (r: Self)
        ensures
            r.wf(),
    {
        Self::new()
    }
}

impl<A: Columnation> Columnation for (A,) {
    type InnerRegion = TupleARegion<A::InnerRegion>;
}

/// The split of this region's report into its component parts, with the
/// capacity total over it.
proof fn lemma_split_2<RA: Region, RB: Region>(s: TupleABRegion<RA, RB>)
    ensures
        s.heap_pairs() == s.region_a.heap_pairs() + s.region_b.heap_pairs(),
        caps_total(s.heap_pairs()) == caps_total(s.region_a.heap_pairs()) + caps_total(s.region_b.heap_pairs()),
        used_total(s.heap_pairs()) == used_total(s.region_a.heap_pairs()) + used_total(s.region_b.heap_pairs()),
{
    lemma_totals_concat(s.region_a.heap_pairs(), s.region_b.heap_pairs());
}

/// The region for two-component tuple records.
pub struct TupleABRegion<RA: Region, RB: Region> {
    region_a: RA,
    region_b: RB,
}

impl<RA: Region, RB: Region> Region for TupleABRegion<RA, RB> {
    type Item = (RA::Item, RB::Item);

    closed spec fn wf(&self) -> bool {
        self.region_a.wf() && self.region_b.wf()
    }

    /// Tuples are equivalent componentwise.
    open spec fn eqv(a: (RA::Item, RB::Item), b: (RA::Item, RB::Item)) -> bool {
        RA::eqv(a.0, b.0) && RB::eqv(a.1, b.1)
    }

    closed spec fn heap_pairs(&self) -> Seq<(usize, usize)> {
        self.region_a.heap_pairs() + self.region_b.heap_pairs()
    }

    /// Each component's region has room for its projection of the items.
    closed spec fn fits_items(&self, items: Seq<(RA::Item, RB::Item)>) -> bool {
        &&& self.region_a.fits_items(items.map_values(|t: (RA::Item, RB::Item)| t.0))
        &&& self.region_b.fits_items(items.map_values(|t: (RA::Item, RB::Item)| t.1))
    }

    /// Each component's region has room for what the given regions' same
    /// component holds.
    closed spec fn fits_regions(&self, regions: Seq<Self>) -> bool {
        &&& self.region_a.fits_regions(regions.map_values(|r: TupleABRegion<RA, RB>| r.region_a))
        &&& self.region_b.fits_regions(regions.map_values(|r: TupleABRegion<RA, RB>| r.region_b))
    }

    proof fn lemma_heap_pairs_wf(&self) {
        self.region_a.lemma_heap_pairs_wf();
        self.region_b.lemma_heap_pairs_wf();
        let pa = self.region_a.heap_pairs();
        let pb = self.region_b.heap_pairs();
        assert forall|i: int|
            0 <= i < self.heap_pairs().len() implies (#[trigger] self.heap_pairs()[i]).0
            <= self.heap_pairs()[i].1 by {
            if i < pa.len() {
                assert(self.heap_pairs()[i] == pa[i]);
            }
             else {
                assert(self.heap_pairs()[i] == pb[i - pa.len()]);
            }
        }
    }

    fn new() -> (r: Self) {
        let r = TupleABRegion { region_a: RA::new(), region_b: RB::new() };
        proof {
            lemma_split_2(r);
        }
        r
    }

    fn copy(&mut self, item: &(RA::Item, RB::Item)) -> (r: (RA::Item, RB::Item)) {
        let ghost s0 = *self;
        let va = self.region_a.copy(&item.0);
        let ghost s1 = *self;
        let vb = self.region_b.copy(&item.1);
        proof {
            lemma_split_2(s0);
            lemma_split_2(s1);
            lemma_split_2(*self);
        }
        (va, vb)
    }

    fn clear(&mut self) {
        self.region_a.clear();
        self.region_b.clear();
    }

    fn reserve_items(&mut self, items: &[&(RA::Item, RB::Item)]) {
        let ghost mitems = items@.map_values(|x: &(RA::Item, RB::Item)| *x);
        let mut refs_a: Vec<&RA::Item> = Vec::new();
        let mut refs_b: Vec<&RB::Item> = Vec::new();
        let mut i: usize = 0;
        while i < items.len()
            invariant
                i <= items@.len(),
                *self == *old(self),
                mitems == items@.map_values(|x: &(RA::Item, RB::Item)| *x),
                refs_a@.map_values(|x: &RA::Item| *x) == mitems.subrange(0, i as int).map_values(|t: (RA::Item, RB::Item)| t.0),
                refs_b@.map_values(|x: &RB::Item| *x) == mitems.subrange(0, i as int).map_values(|t: (RA::Item, RB::Item)| t.1),
            decreases items@.len() - i,
        {
            let ghost refs_a0 = refs_a@;
            let ghost refs_b0 = refs_b@;
            refs_a.push(&items[i].0);
            refs_b.push(&items[i].1);
            proof {
                assert(refs_a@.map_values(|x: &RA::Item| *x) =~= refs_a0.map_values(
                    |x: &RA::Item| *x,
                ).push(*refs_a@.last()));
                assert(refs_a@.map_values(|x: &RA::Item| *x) =~= mitems.subrange(
                    0,
                    (i + 1) as int,
                ).map_values(|t: (RA::Item, RB::Item)| t.0));
                assert(refs_b@.map_values(|x: &RB::Item| *x) =~= refs_b0.map_values(
                    |x: &RB::Item| *x,
                ).push(*refs_b@.last()));
                assert(refs_b@.map_values(|x: &RB::Item| *x) =~= mitems.subrange(
                    0,
                    (i + 1) as int,
                ).map_values(|t: (RA::Item, RB::Item)| t.1));
            }
            i = i + 1;
        }
        let ghost s0 = *self;
        self.region_a.reserve_items(refs_a.as_slice());
        let ghost s1 = *self;
        self.region_b.reserve_items(refs_b.as_slice());
        proof {
            assert(mitems.subrange(0, mitems.len() as int) =~= mitems);
            assert(refs_a@.map_values(|x: &RA::Item| *x) == mitems.map_values(|t: (RA::Item, RB::Item)| t.0));
            assert(refs_b@.map_values(|x: &RB::Item| *x) == mitems.map_values(|t: (RA::Item, RB::Item)| t.1));
            assert(s0 == *old(self));
            lemma_split_2(s0);
            lemma_split_2(s1);
            lemma_split_2(*self);
        }
    }

    fn reserve_regions(&mut self, regions: &[&Self]) {
        let ghost mregions = regions@.map_values(|x: &TupleABRegion<RA, RB>| *x);
        let mut refs_a: Vec<&RA> = Vec::new();
        let mut refs_b: Vec<&RB> = Vec::new();
        let mut i: usize = 0;
        while i < regions.len()
            invariant
                i <= regions@.len(),
                *self == *old(self),
                mregions == regions@.map_values(|x: &TupleABRegion<RA, RB>| *x),
                forall|j: int| 0 <= j < regions@.len() ==> (#[trigger] regions@[j]).wf(),
                forall|j: int| 0 <= j < refs_a@.len() ==> (#[trigger] refs_a@[j]).wf(),
                forall|j: int| 0 <= j < refs_b@.len() ==> (#[trigger] refs_b@[j]).wf(),
                refs_a@.map_values(|x: &RA| *x) == mregions.subrange(0, i as int).map_values(|r: TupleABRegion<RA, RB>| r.region_a),
                refs_b@.map_values(|x: &RB| *x) == mregions.subrange(0, i as int).map_values(|r: TupleABRegion<RA, RB>| r.region_b),
            decreases regions@.len() - i,
        {
            let ghost refs_a0 = refs_a@;
            let ghost refs_b0 = refs_b@;
            refs_a.push(&regions[i].region_a);
            refs_b.push(&regions[i].region_b);
            proof {
                assert(refs_a@.map_values(|x: &RA| *x) =~= refs_a0.map_values(
                    |x: &RA| *x,
                ).push(*refs_a@.last()));
                assert(refs_a@.map_values(|x: &RA| *x) =~= mregions.subrange(
                    0,
                    (i + 1) as int,
                ).map_values(|r: TupleABRegion<RA, RB>| r.region_a));
                assert(refs_b@.map_values(|x: &RB| *x) =~= refs_b0.map_values(
                    |x: &RB| *x,
                ).push(*refs_b@.last()));
                assert(refs_b@.map_values(|x: &RB| *x) =~= mregions.subrange(
                    0,
                    (i + 1) as int,
                ).map_values(|r: TupleABRegion<RA, RB>| r.region_b));
            }
            i = i + 1;
        }
        let ghost s0 = *self;
        self.region_a.reserve_regions(refs_a.as_slice());
        let ghost s1 = *self;
        self.region_b.reserve_regions(refs_b.as_slice());
        proof {
            assert(mregions.subrange(0, mregions.len() as int) =~= mregions);
            assert(refs_a@.map_values(|x: &RA| *x) == mregions.map_values(|r: TupleABRegion<RA, RB>| r.region_a));
            assert(refs_b@.map_values(|x: &RB| *x) == mregions.map_values(|r: TupleABRegion<RA, RB>| r.region_b));
            assert(s0 == *old(self));
            lemma_split_2(s0);
            lemma_split_2(s1);
            lemma_split_2(*self);
        }
    }

    fn heap_size(&self, acc: &mut Vec<(usize, usize)>) {
        self.region_a.heap_size(acc);
        self.region_b.heap_size(acc);
        proof {
            assert(acc@ =~= old(acc)@ + (self.region_a.heap_pairs() + self.region_b.heap_pairs()));
        }
    }
}

impl<RA: Region, RB: Region> TupleABRegion<RA, RB> {
    /// Copy a tuple given by component references, without an assembled
    /// tuple to borrow from.
    pub fn copy_destructured(&mut self, ra: &RA::Item, rb: &RB::Item) -> (r: (RA::Item, RB::Item))
        requires
            old(self).wf(),
        ensures
            final(self).wf(),
            RA::eqv(r.0, *ra),
            RB::eqv(r.1, *rb),
            caps_total(final(self).heap_pairs()) >= caps_total(old(self).heap_pairs()),
    {
        let ghost s0 = *self;
        let va = self.region_a.copy(ra);
        let ghost s1 = *self;
        let vb = self.region_b.copy(rb);
        proof {
            lemma_split_2(s0);
            lemma_split_2(s1);
            lemma_split_2(*self);
        }
        (va, vb)
    }
}

impl<RA: Region, RB: Region> Default for TupleABRegion<RA, RB> {
    fn default() -> (r: Self)
        ensures
            r.wf(),
    {
        Self::new()
    }
}

impl<A: Columnation, B: Columnation> Columnation for (A, B) {
    type InnerRegion = TupleABRegion<A::InnerRegion, B::InnerRegion>;
}

/// The split of this region's report into its component parts, with the
/// capacity total over it.
proof fn lemma_split_3<RA: Region, RB: Region, RC: Region>(s: TupleABCRegion<RA, RB, RC>)
    ensures
        s.heap_pairs() == s.region_a.heap_pairs() + s.region_b.heap_pairs() + s.region_c.heap_pairs(),
        caps_total(s.heap_pairs()) == caps_total(s.region_a.heap_pairs()) + caps_total(s.region_b.heap_pairs()) + caps_total(s.region_c.heap_pairs()),
        used_total(s.heap_pairs()) == used_total(s.region_a.heap_pairs()) + used_total(s.region_b.heap_pairs()) + used_total(s.region_c.heap_pairs()),
{
    lemma_totals_concat(s.region_a.heap_pairs() + s.region_b.heap_pairs(), s.region_c.heap_pairs());
    lemma_totals_concat(s.region_a.heap_pairs(), s.region_b.heap_pairs());
}

/// The region for three-component tuple records.
pub struct TupleABCRegion<RA: Region, RB: Region, RC: Region> {
    region_a: RA,
    region_b: RB,
    region_c: RC,
}

impl<RA: Region, RB: Region, RC: Region> Region for TupleABCRegion<RA, RB, RC> {
    type Item = (RA::Item, RB::Item, RC::Item);

    closed spec fn wf(&self) -> bool {
        self.region_a.wf() && self.region_b.wf() && self.region_c.wf()
    }

    /// Tuples are equivalent componentwise.
    open spec fn eqv(a: (RA::Item, RB::Item, RC::Item), b: (RA::Item, RB::Item, RC::Item)) -> bool {
        RA::eqv(a.0, b.0) && RB::eqv(a.1, b.1) && RC::eqv(a.2, b.2)
    }

    closed spec fn heap_pairs(&self) -> Seq<(usize, usize)> {
        self.region_a.heap_pairs() + self.region_b.heap_pairs() + self.region_c.heap_pairs()
    }

    /// Each component's region has room for its projection of the items.
    closed spec fn fits_items(&self, items: Seq<(RA::Item, RB::Item, RC::Item)>) -> bool {
        &&& self.region_a.fits_items(items.map_values(|t: (RA::Item, RB::Item, RC::Item)| t.0))
        &&& self.region_b.fits_items(items.map_values(|t: (RA::Item, RB::Item, RC::Item)| t.1))
        &&& self.region_c.fits_items(items.map_values(|t: (RA::Item, RB::Item, RC::Item)| t.2))
    }

    /// Each component's region has room for what the given regions' same
    /// component holds.
    closed spec fn fits_regions(&self, regions: Seq<Self>) -> bool {
        &&& self.region_a.fits_regions(regions.map_values(|r: TupleABCRegion<RA, RB, RC>| r.region_a))
        &&& self.region_b.fits_regions(regions.map_values(|r: TupleABCRegion<RA, RB, RC>| r.region_b))
        &&& self.region_c.fits_regions(regions.map_values(|r: TupleABCRegion<RA, RB, RC>| r.region_c))
    }

    proof fn lemma_heap_pairs_wf(&self) {
        self.region_a.lemma_heap_pairs_wf();
        self.region_b.lemma_heap_pairs_wf();
        self.region_c.lemma_heap_pairs_wf();
        let pa = self.region_a.heap_pairs();
        let pb = self.region_b.heap_pairs();
        let pc = self.region_c.heap_pairs();
        assert forall|i: int|
            0 <= i < self.heap_pairs().len() implies (#[trigger] self.heap_pairs()[i]).0
            <= self.heap_pairs()[i].1 by {
            if i < pa.len() {
                assert(self.heap_pairs()[i] == pa[i]);
            }
             else if i < pa.len() + pb.len() {
                assert(self.heap_pairs()[i] == pb[i - pa.len()]);
            }
             else {
                assert(self.heap_pairs()[i] == pc[i - pa.len() - pb.len()]);
            }
        }
    }

    fn new() -> (r: Self) {
        let r = TupleABCRegion { region_a: RA::new(), region_b: RB::new(), region_c: RC::new() };
        proof {
            lemma_split_3(r);
        }
        r
    }

    fn copy(&mut self, item: &(RA::Item, RB::Item, RC::Item)) -> (r: (RA::Item, RB::Item, RC::Item)) {
        let ghost s0 = *self;
        let va = self.region_a.copy(&item.0);
        let ghost s1 = *self;
        let vb = self.region_b.copy(&item.1);
        let ghost s2 = *self;
        let vc = self.region_c.copy(&item.2);
        proof {
            lemma_split_3(s0);
            lemma_split_3(s1);
            lemma_split_3(s2);
            lemma_split_3(*self);
        }
        (va, vb, vc)
    }

    fn clear(&mut self) {
        self.region_a.clear();
        self.region_b.clear();
        self.region_c.clear();
    }

    fn reserve_items(&mut self, items: &[&(RA::Item, RB::Item, RC::Item)]) {
        let ghost mitems = items@.map_values(|x: &(RA::Item, RB::Item, RC::Item)| *x);
        let mut refs_a: Vec<&RA::Item> = Vec::new();
        let mut refs_b: Vec<&RB::Item> = Vec::new();
        let mut refs_c: Vec<&RC::Item> = Vec::new();
        let mut i: usize = 0;
        while i < items.len()
            invariant
                i <= items@.len(),
                *self == *old(self),
                mitems == items@.map_values(|x: &(RA::Item, RB::Item, RC::Item)| *x),
                refs_a@.map_values(|x: &RA::Item| *x) == mitems.subrange(0, i as int).map_values(|t: (RA::Item, RB::Item, RC::Item)| t.0),
                refs_b@.map_values(|x: &RB::Item| *x) == mitems.subrange(0, i as int).map_values(|t: (RA::Item, RB::Item, RC::Item)| t.1),
                refs_c@.map_values(|x: &RC::Item| *x) == mitems.subrange(0, i as int).map_values(|t: (RA::Item, RB::Item, RC::Item)| t.2),
            decreases items@.len() - i,
        {
            let ghost refs_a0 = refs_a@;
            let ghost refs_b0 = refs_b@;
            let ghost refs_c0 = refs_c@;
            refs_a.push(&items[i].0);
            refs_b.push(&items[i].1);
            refs_c.push(&items[i].2);
            proof {
                assert(refs_a@.map_values(|x: &RA::Item| *x) =~= refs_a0.map_values(
                    |x: &RA::Item| *x,
                ).push(*refs_a@.last()));
                assert(refs_a@.map_values(|x: &RA::Item| *x) =~= mitems.subrange(
                    0,
                    (i + 1) as int,
                ).map_values(|t: (RA::Item, RB::Item, RC::Item)| t.0));
                assert(refs_b@.map_values(|x: &RB::Item| *x) =~= refs_b0.map_values(
                    |x: &RB::Item| *x,
                ).push(*refs_b@.last()));
                assert(refs_b@.map_values(|x: &RB::Item| *x) =~= mitems.subrange(
                    0,
                    (i + 1) as int,
                ).map_values(|t: (RA::Item, RB::Item, RC::Item)| t.1));
                assert(refs_c@.map_values(|x: &RC::Item| *x) =~= refs_c0.map_values(
                    |x: &RC::Item| *x,
                ).push(*refs_c@.last()));
                assert(refs_c@.map_values(|x: &RC::Item| *x) =~= mitems.subrange(
                    0,
                    (i + 1) as int,
                ).map_values(|t: (RA::Item, RB::Item, RC::Item)| t.2));
            }
            i = i + 1;
        }
        let ghost s0 = *self;
        self.region_a.reserve_items(refs_a.as_slice());
        let ghost s1 = *self;
        self.region_b.reserve_items(refs_b.as_slice());
        let ghost s2 = *self;
        self.region_c.reserve_items(refs_c.as_slice());
        proof {
            assert(mitems.subrange(0, mitems.len() as int) =~= mitems);
            assert(refs_a@.map_values(|x: &RA::Item| *x) == mitems.map_values(|t: (RA::Item, RB::Item, RC::Item)| t.0));
            assert(refs_b@.map_values(|x: &RB::Item| *x) == mitems.map_values(|t: (RA::Item, RB::Item, RC::Item)| t.1));
            assert(refs_c@.map_values(|x: &RC::Item| *x) == mitems.map_values(|t: (RA::Item, RB::Item, RC::Item)| t.2));
            assert(s0 == *old(self));
            lemma_split_3(s0);
            lemma_split_3(s1);
            lemma_split_3(s2);
            lemma_split_3(*self);
        }
    }

    fn reserve_regions(&mut self, regions: &[&Self]) {
        let ghost mregions = regions@.map_values(|x: &TupleABCRegion<RA, RB, RC>| *x);
        let mut refs_a: Vec<&RA> = Vec::new();
        let mut refs_b: Vec<&RB> = Vec::new();
        let mut refs_c: Vec<&RC> = Vec::new();
        let mut i: usize = 0;
        while i < regions.len()
            invariant
                i <= regions@.len(),
                *self == *old(self),
                mregions == regions@.map_values(|x: &TupleABCRegion<RA, RB, RC>| *x),
                forall|j: int| 0 <= j < regions@.len() ==> (#[trigger] regions@[j]).wf(),
                forall|j: int| 0 <= j < refs_a@.len() ==> (#[trigger] refs_a@[j]).wf(),
                forall|j: int| 0 <= j < refs_b@.len() ==> (#[trigger] refs_b@[j]).wf(),
                forall|j: int| 0 <= j < refs_c@.len() ==> (#[trigger] refs_c@[j]).wf(),
                refs_a@.map_values(|x: &RA| *x) == mregions.subrange(0, i as int).map_values(|r: TupleABCRegion<RA, RB, RC>| r.region_a),
                refs_b@.map_values(|x: &RB| *x) == mregions.subrange(0, i as int).map_values(|r: TupleABCRegion<RA, RB, RC>| r.region_b),
                refs_c@.map_values(|x: &RC| *x) == mregions.subrange(0, i as int).map_values(|r: TupleABCRegion<RA, RB, RC>| r.region_c),
            decreases regions@.len() - i,
        {
            let ghost refs_a0 = refs_a@;
            let ghost refs_b0 = refs_b@;
            let ghost refs_c0 = refs_c@;
            refs_a.push(&regions[i].region_a);
            refs_b.push(&regions[i].region_b);
            refs_c.push(&regions[i].region_c);
            proof {
                assert(refs_a@.map_values(|x: &RA| *x) =~= refs_a0.map_values(
                    |x: &RA| *x,
                ).push(*refs_a@.last()));
                assert(refs_a@.map_values(|x: &RA| *x) =~= mregions.subrange(
                    0,
                    (i + 1) as int,
                ).map_values(|r: TupleABCRegion<RA, RB, RC>| r.region_a));
                assert(refs_b@.map_values(|x: &RB| *x) =~= refs_b0.map_values(
                    |x: &RB| *x,
                ).push(*refs_b@.last()));
                assert(refs_b@.map_values(|x: &RB| *x) =~= mregions.subrange(
                    0,
                    (i + 1) as int,
                ).map_values(|r: TupleABCRegion<RA, RB, RC>| r.region_b));
                assert(refs_c@.map_values(|x: &RC| *x) =~= refs_c0.map_values(
                    |x: &RC| *x,
                ).push(*refs_c@.last()));
                assert(refs_c@.map_values(|x: &RC| *x) =~= mregions.subrange(
                    0,
                    (i + 1) as int,
                ).map_values(|r: TupleABCRegion<RA, RB, RC>| r.region_c));
            }
            i = i + 1;
        }
        let ghost s0 = *self;
        self.region_a.reserve_regions(refs_a.as_slice());
        let ghost s1 = *self;
        self.region_b.reserve_regions(refs_b.as_slice());
        let ghost s2 = *self;
        self.region_c.reserve_regions(refs_c.as_slice());
        proof {
            assert(mregions.subrange(0, mregions.len() as int) =~= mregions);
            assert(refs_a@.map_values(|x: &RA| *x) == mregions.map_values(|r: TupleABCRegion<RA, RB, RC>| r.region_a));
            assert(refs_b@.map_values(|x: &RB| *x) == mregions.map_values(|r: TupleABCRegion<RA, RB, RC>| r.region_b));
            assert(refs_c@.map_values(|x: &RC| *x) == mregions.map_values(|r: TupleABCRegion<RA, RB, RC>| r.region_c));
            assert(s0 == *old(self));
            lemma_split_3(s0);
            lemma_split_3(s1);
            lemma_split_3(s2);
            lemma_split_3(*self);
        }
    }

    fn heap_size(&self, acc: &mut Vec<(usize, usize)>) {
        self.region_a.heap_size(acc);
        self.region_b.heap_size(acc);
        self.region_c.heap_size(acc);
        proof {
            assert(acc@ =~= old(acc)@ + (self.region_a.heap_pairs() + self.region_b.heap_pairs() + self.region_c.heap_pairs()));
        }
    }
}

impl<RA: Region, RB: Region, RC: Region> TupleABCRegion<RA, RB, RC> {
    /// Copy a tuple given by component references, without an assembled
    /// tuple to borrow from.
    pub fn copy_destructured(&mut self, ra: &RA::Item, rb: &RB::Item, rc: &RC::Item) -> (r: (RA::Item, RB::Item, RC::Item))
        requires
            old(self).wf(),
        ensures
            final(self).wf(),
            RA::eqv(r.0, *ra),
            RB::eqv(r.1, *rb),
            RC::eqv(r.2, *rc),
            caps_total(final(self).heap_pairs()) >= caps_total(old(self).heap_pairs()),
    {
        let ghost s0 = *self;
        let va = self.region_a.copy(ra);
        let ghost s1 = *self;
        let vb = self.region_b.copy(rb);
        let ghost s2 = *self;
        let vc = self.region_c.copy(rc);
        proof {
            lemma_split_3(s0);
            lemma_split_3(s1);
            lemma_split_3(s2);
            lemma_split_3(*self);
        }
        (va, vb, vc)
    }
}

impl<RA: Region, RB: Region, RC: Region> Default for TupleABCRegion<RA, RB, RC> {
    fn default() -> (r: Self)
        ensures
            r.wf(),
    {
        Self::new()
    }
}

impl<A: Columnation, B: Columnation, C: Columnation> Columnation for (A, B, C) {
    type InnerRegion = TupleABCRegion<A::InnerRegion, B::InnerRegion, C::InnerRegion>;
}

/// The split of this region's report into its component parts, with the
/// capacity total over it.
proof fn lemma_split_4<RA: Region, RB: Region, RC: Region, RD: Region>(s: TupleABCDRegion<RA, RB, RC, RD>)
    ensures
        s.heap_pairs() == s.region_a.heap_pairs() + s.region_b.heap_pairs() + s.region_c.heap_pairs() + s.region_d.heap_pairs(),
        caps_total(s.heap_pairs()) == caps_total(s.region_a.heap_pairs()) + caps_total(s.region_b.heap_pairs()) + caps_total(s.region_c.heap_pairs()) + caps_total(s.region_d.heap_pairs()),
        used_total(s.heap_pairs()) == used_total(s.region_a.heap_pairs()) + used_total(s.region_b.heap_pairs()) + used_total(s.region_c.heap_pairs()) + used_total(s.region_d.heap_pairs()),
{
    lemma_totals_concat(s.region_a.heap_pairs() + s.region_b.heap_pairs() + s.region_c.heap_pairs(), s.region_d.heap_pairs());
    lemma_totals_concat(s.region_a.heap_pairs() + s.region_b.heap_pairs(), s.region_c.heap_pairs());
    lemma_totals_concat(s.region_a.heap_pairs(), s.region_b.heap_pairs());
}

/// The region for four-component tuple records.
pub struct TupleABCDRegion<RA: Region, RB: Region, RC: Region, RD: Region> {
    region_a: RA,
    region_b: RB,
    region_c: RC,
    region_d: RD,
}

impl<RA: Region, RB: Region, RC: Region, RD: Region> Region for TupleABCDRegion<RA, RB, RC, RD> {
    type Item = (RA::Item, RB::Item, RC::Item, RD::Item);

    closed spec fn wf(&self) -> bool {
        self.region_a.wf() && self.region_b.wf() && self.region_c.wf() && self.region_d.wf()
    }

    /// Tuples are equivalent componentwise.
    open spec fn eqv(a: (RA::Item, RB::Item, RC::Item, RD::Item), b: (RA::Item, RB::Item, RC::Item, RD::Item)) -> bool {
        RA::eqv(a.0, b.0) && RB::eqv(a.1, b.1) && RC::eqv(a.2, b.2) && RD::eqv(a.3, b.3)
    }

    closed spec fn heap_pairs(&self) -> Seq<(usize, usize)> {
        self.region_a.heap_pairs() + self.region_b.heap_pairs() + self.region_c.heap_pairs() + self.region_d.heap_pairs()
    }

    /// Each component's region has room for its projection of the items.
    closed spec fn fits_items(&self, items: Seq<(RA::Item, RB::Item, RC::Item, RD::Item)>) -> bool {
        &&& self.region_a.fits_items(items.map_values(|t: (RA::Item, RB::Item, RC::Item, RD::Item)| t.0))
        &&& self.region_b.fits_items(items.map_values(|t: (RA::Item, RB::Item, RC::Item, RD::Item)| t.1))
        &&& self.region_c.fits_items(items.map_values(|t: (RA::Item, RB::Item, RC::Item, RD::Item)| t.2))
        &&& self.region_d.fits_items(items.map_values(|t: (RA::Item, RB::Item, RC::Item, RD::Item)| t.3))
    }

    /// Each component's region has room for what the given regions' same
    /// component holds.
    closed spec fn fits_regions(&self, regions: Seq<Self>) -> bool {
        &&& self.region_a.fits_regions(regions.map_values(|r: TupleABCDRegion<RA, RB, RC, RD>| r.region_a))
        &&& self.region_b.fits_regions(regions.map_values(|r: TupleABCDRegion<RA, RB, RC, RD>| r.region_b))
        &&& self.region_c.fits_regions(regions.map_values(|r: TupleABCDRegion<RA, RB, RC, RD>| r.region_c))
        &&& self.region_d.fits_regions(regions.map_values(|r: TupleABCDRegion<RA, RB, RC, RD>| r.region_d))
    }

    proof fn lemma_heap_pairs_wf(&self) {
        self.region_a.lemma_heap_pairs_wf();
        self.region_b.lemma_heap_pairs_wf();
        self.region_c.lemma_heap_pairs_wf();
        self.region_d.lemma_heap_pairs_wf();
        let pa = self.region_a.heap_pairs();
        let pb = self.region_b.heap_pairs();
        let pc = self.region_c.heap_pairs();
        let pd = self.region_d.heap_pairs();
        assert forall|i: int|
            0 <= i < self.heap_pairs().len() implies (#[trigger] self.heap_pairs()[i]).0
            <= self.heap_pairs()[i].1 by {
            if i < pa.len() {
                assert(self.heap_pairs()[i] == pa[i]);
            }
             else if i < pa.len() + pb.len() {
                assert(self.heap_pairs()[i] == pb[i - pa.len()]);
            }
             else if i < pa.len() + pb.len() + pc.len() {
                assert(self.heap_pairs()[i] == pc[i - pa.len() - pb.len()]);
            }
             else {
                assert(self.heap_pairs()[i] == pd[i - pa.len() - pb.len() - pc.len()]);
            }
        }
    }

    fn new() -> (r: Self) {
        let r = TupleABCDRegion { region_a: RA::new(), region_b: RB::new(), region_c: RC::new(), region_d: RD::new() };
        proof {
            lemma_split_4(r);
        }
        r
    }

    fn copy(&mut self, item: &(RA::Item, RB::Item, RC::Item, RD::Item)) -> (r: (RA::Item, RB::Item, RC::Item, RD::Item)) {
        let ghost s0 = *self;
        let va = self.region_a.copy(&item.0);
        let ghost s1 = *self;
        let vb = self.region_b.copy(&item.1);
        let ghost s2 = *self;
        let vc = self.region_c.copy(&item.2);
        let ghost s3 = *self;
        let vd = self.region_d.copy(&item.3);
        proof {
            lemma_split_4(s0);
            lemma_split_4(s1);
            lemma_split_4(s2);
            lemma_split_4(s3);
            lemma_split_4(*self);
        }
        (va, vb, vc, vd)
    }

    fn clear(&mut self) {
        self.region_a.clear();
        self.region_b.clear();
        self.region_c.clear();
        self.region_d.clear();
    }

    fn reserve_items(&mut self, items: &[&(RA::Item, RB::Item, RC::Item, RD::Item)]) {
        let ghost mitems = items@.map_values(|x: &(RA::Item, RB::Item, RC::Item, RD::Item)| *x);
        let mut refs_a: Vec<&RA::Item> = Vec::new();
        let mut refs_b: Vec<&RB::Item> = Vec::new();
        let mut refs_c: Vec<&RC::Item> = Vec::new();
        let mut refs_d: Vec<&RD::Item> = Vec::new();
        let mut i: usize = 0;
        while i < items.len()
            invariant
                i <= items@.len(),
                *self == *old(self),
                mitems == items@.map_values(|x: &(RA::Item, RB::Item, RC::Item, RD::Item)| *x),
                refs_a@.map_values(|x: &RA::Item| *x) == mitems.subrange(0, i as int).map_values(|t: (RA::Item, RB::Item, RC::Item, RD::Item)| t.0),
                refs_b@.map_values(|x: &RB::Item| *x) == mitems.subrange(0, i as int).map_values(|t: (RA::Item, RB::Item, RC::Item, RD::Item)| t.1),
                refs_c@.map_values(|x: &RC::Item| *x) == mitems.subrange(0, i as int).map_values(|t: (RA::Item, RB::Item, RC::Item, RD::Item)| t.2),
                refs_d@.map_values(|x: &RD::Item| *x) == mitems.subrange(0, i as int).map_values(|t: (RA::Item, RB::Item, RC::Item, RD::Item)| t.3),
            decreases items@.len() - i,
        {
            let ghost refs_a0 = refs_a@;
            let ghost refs_b0 = refs_b@;
            let ghost refs_c0 = refs_c@;
            let ghost refs_d0 = refs_d@;
            refs_a.push(&items[i].0);
            refs_b.push(&items[i].1);
            refs_c.push(&items[i].2);
            refs_d.push(&items[i].3);
            proof {
                assert(refs_a@.map_values(|x: &RA::Item| *x) =~= refs_a0.map_values(
                    |x: &RA::Item| *x,
                ).push(*refs_a@.last()));
                assert(refs_a@.map_values(|x: &RA::Item| *x) =~= mitems.subrange(
                    0,
                    (i + 1) as int,
                ).map_values(|t: (RA::Item, RB::Item, RC::Item, RD::Item)| t.0));
                assert(refs_b@.map_values(|x: &RB::Item| *x) =~= refs_b0.map_values(
                    |x: &RB::Item| *x,
                ).push(*refs_b@.last()));
                assert(refs_b@.map_values(|x: &RB::Item| *x) =~= mitems.subrange(
                    0,
                    (i + 1) as int,
                ).map_values(|t: (RA::Item, RB::Item, RC::Item, RD::Item)| t.1));
                assert(refs_c@.map_values(|x: &RC::Item| *x) =~= refs_c0.map_values(
                    |x: &RC::Item| *x,
                ).push(*refs_c@.last()));
                assert(refs_c@.map_values(|x: &RC::Item| *x) =~= mitems.subrange(
                    0,
                    (i + 1) as int,
                ).map_values(|t: (RA::Item, RB::Item, RC::Item, RD::Item)| t.2));
                assert(refs_d@.map_values(|x: &RD::Item| *x) =~= refs_d0.map_values(
                    |x: &RD::Item| *x,
                ).push(*refs_d@.last()));
                assert(refs_d@.map_values(|x: &RD::Item| *x) =~= mitems.subrange(
                    0,
                    (i + 1) as int,
                ).map_values(|t: (RA::Item, RB::Item, RC::Item, RD::Item)| t.3));
            }
            i = i + 1;
        }
        let ghost s0 = *self;
        self.region_a.reserve_items(refs_a.as_slice());
        let ghost s1 = *self;
        self.region_b.reserve_items(refs_b.as_slice());
        let ghost s2 = *self;
        self.region_c.reserve_items(refs_c.as_slice());
        let ghost s3 = *self;
        self.region_d.reserve_items(refs_d.as_slice());
        proof {
            assert(mitems.subrange(0, mitems.len() as int) =~= mitems);
            assert(refs_a@.map_values(|x: &RA::Item| *x) == mitems.map_values(|t: (RA::Item, RB::Item, RC::Item, RD::Item)| t.0));
            assert(refs_b@.map_values(|x: &RB::Item| *x) == mitems.map_values(|t: (RA::Item, RB::Item, RC::Item, RD::Item)| t.1));
            assert(refs_c@.map_values(|x: &RC::Item| *x) == mitems.map_values(|t: (RA::Item, RB::Item, RC::Item, RD::Item)| t.2));
            assert(refs_d@.map_values(|x: &RD::Item| *x) == mitems.map_values(|t: (RA::Item, RB::Item, RC::Item, RD::Item)| t.3));
            assert(s0 == *old(self));
            lemma_split_4(s0);
            lemma_split_4(s1);
            lemma_split_4(s2);
            lemma_split_4(s3);
            lemma_split_4(*self);
        }
    }

    fn reserve_regions(&mut self, regions: &[&Self]) {
        let ghost mregions = regions@.map_values(|x: &TupleABCDRegion<RA, RB, RC, RD>| *x);
        let mut refs_a: Vec<&RA> = Vec::new();
        let mut refs_b: Vec<&RB> = Vec::new();
        let mut refs_c: Vec<&RC> = Vec::new();
        let mut refs_d: Vec<&RD> = Vec::new();
        let mut i: usize = 0;
        while i < regions.len()
            invariant
                i <= regions@.len(),
                *self == *old(self),
                mregions == regions@.map_values(|x: &TupleABCDRegion<RA, RB, RC, RD>| *x),
                forall|j: int| 0 <= j < regions@.len() ==> (#[trigger] regions@[j]).wf(),
                forall|j: int| 0 <= j < refs_a@.len() ==> (#[trigger] refs_a@[j]).wf(),
                forall|j: int| 0 <= j < refs_b@.len() ==> (#[trigger] refs_b@[j]).wf(),
                forall|j: int| 0 <= j < refs_c@.len() ==> (#[trigger] refs_c@[j]).wf(),
                forall|j: int| 0 <= j < refs_d@.len() ==> (#[trigger] refs_d@[j]).wf(),
                refs_a@.map_values(|x: &RA| *x) == mregions.subrange(0, i as int).map_values(|r: TupleABCDRegion<RA, RB, RC, RD>| r.region_a),
                refs_b@.map_values(|x: &RB| *x) == mregions.subrange(0, i as int).map_values(|r: TupleABCDRegion<RA, RB, RC, RD>| r.region_b),
                refs_c@.map_values(|x: &RC| *x) == mregions.subrange(0, i as int).map_values(|r: TupleABCDRegion<RA, RB, RC, RD>| r.region_c),
                refs_d@.map_values(|x: &RD| *x) == mregions.subrange(0, i as int).map_values(|r: TupleABCDRegion<RA, RB, RC, RD>| r.region_d),
            decreases regions@.len() - i,
        {
            let ghost refs_a0 = refs_a@;
            let ghost refs_b0 = refs_b@;
            let ghost refs_c0 = refs_c@;
            let ghost refs_d0 = refs_d@;
            refs_a.push(&regions[i].region_a);
            refs_b.push(&regions[i].region_b);
            refs_c.push(&regions[i].region_c);
            refs_d.push(&regions[i].region_d);
            proof {
                assert(refs_a@.map_values(|x: &RA| *x) =~= refs_a0.map_values(
                    |x: &RA| *x,
                ).push(*refs_a@.last()));
                assert(refs_a@.map_values(|x: &RA| *x) =~= mregions.subrange(
                    0,
                    (i + 1) as int,
                ).map_values(|r: TupleABCDRegion<RA, RB, RC, RD>| r.region_a));
                assert(refs_b@.map_values(|x: &RB| *x) =~= refs_b0.map_values(
                    |x: &RB| *x,
                ).push(*refs_b@.last()));
                assert(refs_b@.map_values(|x: &RB| *x) =~= mregions.subrange(
                    0,
                    (i + 1) as int,
                ).map_values(|r: TupleABCDRegion<RA, RB, RC, RD>| r.region_b));
                assert(refs_c@.map_values(|x: &RC| *x) =~= refs_c0.map_values(
                    |x: &RC| *x,
                ).push(*refs_c@.last()));
                assert(refs_c@.map_values(|x: &RC| *x) =~= mregions.subrange(
                    0,
                    (i + 1) as int,
                ).map_values(|r: TupleABCDRegion<RA, RB, RC, RD>| r.region_c));
                assert(refs_d@.map_values(|x: &RD| *x) =~= refs_d0.map_values(
                    |x: &RD| *x,
                ).push(*refs_d@.last()));
                assert(refs_d@.map_values(|x: &RD| *x) =~= mregions.subrange(
                    0,
                    (i + 1) as int,
                ).map_values(|r: TupleABCDRegion<RA, RB, RC, RD>| r.region_d));
            }
            i = i + 1;
        }
        let ghost s0 = *self;
        self.region_a.reserve_regions(refs_a.as_slice());
        let ghost s1 = *self;
        self.region_b.reserve_regions(refs_b.as_slice());
        let ghost s2 = *self;
        self.region_c.reserve_regions(refs_c.as_slice());
        let ghost s3 = *self;
        self.region_d.reserve_regions(refs_d.as_slice());
        proof {
            assert(mregions.subrange(0, mregions.len() as int) =~= mregions);
            assert(refs_a@.map_values(|x: &RA| *x) == mregions.map_values(|r: TupleABCDRegion<RA, RB, RC, RD>| r.region_a));
            assert(refs_b@.map_values(|x: &RB| *x) == mregions.map_values(|r: TupleABCDRegion<RA, RB, RC, RD>| r.region_b));
            assert(refs_c@.map_values(|x: &RC| *x) == mregions.map_values(|r: TupleABCDRegion<RA, RB, RC, RD>| r.region_c));
            assert(refs_d@.map_values(|x: &RD| *x) == mregions.map_values(|r: TupleABCDRegion<RA, RB, RC, RD>| r.region_d));
            assert(s0 == *old(self));
            lemma_split_4(s0);
            lemma_split_4(s1);
            lemma_split_4(s2);
            lemma_split_4(s3);
            lemma_split_4(*self);
        }
    }

    fn heap_size(&self, acc: &mut Vec<(usize, usize)>) {
        self.region_a.heap_size(acc);
        self.region_b.heap_size(acc);
        self.region_c.heap_size(acc);
        self.region_d.heap_size(acc);
        proof {
            assert(acc@ =~= old(acc)@ + (self.region_a.heap_pairs() + self.region_b.heap_pairs() + self.region_c.heap_pairs() + self.region_d.heap_pairs()));
        }
    }
}

impl<RA: Region, RB: Region, RC: Region, RD: Region> TupleABCDRegion<RA, RB, RC, RD> {
    /// Copy a tuple given by component references, without an assembled
    /// tuple to borrow from.
    pub fn copy_destructured(&mut self, ra: &RA::Item, rb: &RB::Item, rc: &RC::Item, rd: &RD::Item) -> (r: (RA::Item, RB::Item, RC::Item, RD::Item))
        requires
            old(self).wf(),
        ensures
            final(self).wf(),
            RA::eqv(r.0, *ra),
            RB::eqv(r.1, *rb),
            RC::eqv(r.2, *rc),
            RD::eqv(r.3, *rd),
            caps_total(final(self).heap_pairs()) >= caps_total(old(self).heap_pairs()),
    {
        let ghost s0 = *self;
        let va = self.region_a.copy(ra);
        let ghost s1 = *self;
        let vb = self.region_b.copy(rb);
        let ghost s2 = *self;
        let vc = self.region_c.copy(rc);
        let ghost s3 = *self;
        let vd = self.region_d.copy(rd);
        proof {
            lemma_split_4(s0);
            lemma_split_4(s1);
            lemma_split_4(s2);
            lemma_split_4(s3);
            lemma_split_4(*self);
        }
        (va, vb, vc, vd)
    }
}

impl<RA: Region, RB: Region, RC: Region, RD: Region> Default for TupleABCDRegion<RA, RB, RC, RD> {
    fn default() -> (r: Self)
        ensures
            r.wf(),
    {
        Self::new()
    }
}

impl<A: Columnation, B: Columnation, C: Columnation, D: Columnation> Columnation for (A, B, C, D) {
    type InnerRegion = TupleABCDRegion<A::InnerRegion, B::InnerRegion, C::InnerRegion, D::InnerRegion>;
}


/// The split of this region's report into its component parts, with the
/// two total sums over it.
proof fn lemma_split_5<RA: Region, RB: Region, RC: Region, RD: Region, RE: Region>(s: TupleABCDERegion<RA, RB, RC, RD, RE>)
    ensures
        s.heap_pairs() == s.region_a.heap_pairs() + s.region_b.heap_pairs() + s.region_c.heap_pairs() + s.region_d.heap_pairs() + s.region_e.heap_pairs(),
        caps_total(s.heap_pairs()) == caps_total(s.region_a.heap_pairs()) + caps_total(s.region_b.heap_pairs()) + caps_total(s.region_c.heap_pairs()) + caps_total(s.region_d.heap_pairs()) + caps_total(s.region_e.heap_pairs()),
        used_total(s.heap_pairs()) == used_total(s.region_a.heap_pairs()) + used_total(s.region_b.heap_pairs()) + used_total(s.region_c.heap_pairs()) + used_total(s.region_d.heap_pairs()) + used_total(s.region_e.heap_pairs()),
{
    lemma_totals_concat(s.region_a.heap_pairs() + s.region_b.heap_pairs() + s.region_c.heap_pairs() + s.region_d.heap_pairs(), s.region_e.heap_pairs());
    lemma_totals_concat(s.region_a.heap_pairs() + s.region_b.heap_pairs() + s.region_c.heap_pairs(), s.region_d.heap_pairs());
    lemma_totals_concat(s.region_a.heap_pairs() + s.region_b.heap_pairs(), s.region_c.heap_pairs());
    lemma_totals_concat(s.region_a.heap_pairs(), s.region_b.heap_pairs());
}

/// The region for five-component tuple records.
pub struct TupleABCDERegion<RA: Region, RB: Region, RC: Region, RD: Region, RE: Region> {
    region_a: RA,
    region_b: RB,
    region_c: RC,
    region_d: RD,
    region_e: RE,
}

impl<RA: Region, RB: Region, RC: Region, RD: Region, RE: Region> Region for TupleABCDERegion<RA, RB, RC, RD, RE> {
    type Item = (RA::Item, RB::Item, RC::Item, RD::Item, RE::Item);

    closed spec fn wf(&self) -> bool {
        self.region_a.wf() && self.region_b.wf() && self.region_c.wf() && self.region_d.wf() && self.region_e.wf()
    }

    /// Tuples are equivalent componentwise.
    open spec fn eqv(a: (RA::Item, RB::Item, RC::Item, RD::Item, RE::Item), b: (RA::Item, RB::Item, RC::Item, RD::Item, RE::Item)) -> bool {
        RA::eqv(a.0, b.0) && RB::eqv(a.1, b.1) && RC::eqv(a.2, b.2) && RD::eqv(a.3, b.3) && RE::eqv(a.4, b.4)
    }

    closed spec fn heap_pairs(&self) -> Seq<(usize, usize)> {
        self.region_a.heap_pairs() + self.region_b.heap_pairs() + self.region_c.heap_pairs() + self.region_d.heap_pairs() + self.region_e.heap_pairs()
    }

    /// Each component's region has room for its projection of the items.
    closed spec fn fits_items(&self, items: Seq<(RA::Item, RB::Item, RC::Item, RD::Item, RE::Item)>) -> bool {
        &&& self.region_a.fits_items(items.map_values(|t: (RA::Item, RB::Item, RC::Item, RD::Item, RE::Item)| t.0))
        &&& self.region_b.fits_items(items.map_values(|t: (RA::Item, RB::Item, RC::Item, RD::Item, RE::Item)| t.1))
        &&& self.region_c.fits_items(items.map_values(|t: (RA::Item, RB::Item, RC::Item, RD::Item, RE::Item)| t.2))
        &&& self.region_d.fits_items(items.map_values(|t: (RA::Item, RB::Item, RC::Item, RD::Item, RE::Item)| t.3))
        &&& self.region_e.fits_items(items.map_values(|t: (RA::Item, RB::Item, RC::Item, RD::Item, RE::Item)| t.4))
    }

    /// Each component's region has room for what the given regions' same
    /// component holds.
    closed spec fn fits_regions(&self, regions: Seq<Self>) -> bool {
        &&& self.region_a.fits_regions(regions.map_values(|r: TupleABCDERegion<RA, RB, RC, RD, RE>| r.region_a))
        &&& self.region_b.fits_regions(regions.map_values(|r: TupleABCDERegion<RA, RB, RC, RD, RE>| r.region_b))
        &&& self.region_c.fits_regions(regions.map_values(|r: TupleABCDERegion<RA, RB, RC, RD, RE>| r.region_c))
        &&& self.region_d.fits_regions(regions.map_values(|r: TupleABCDERegion<RA, RB, RC, RD, RE>| r.region_d))
        &&& self.region_e.fits_regions(regions.map_values(|r: TupleABCDERegion<RA, RB, RC, RD, RE>| r.region_e))
    }

    proof fn lemma_heap_pairs_wf(&self) {
        self.region_a.lemma_heap_pairs_wf();
        self.region_b.lemma_heap_pairs_wf();
        self.region_c.lemma_heap_pairs_wf();
        self.region_d.lemma_heap_pairs_wf();
        self.region_e.lemma_heap_pairs_wf();
        let pa = self.region_a.heap_pairs();
        let pb = self.region_b.heap_pairs();
        let pc = self.region_c.heap_pairs();
        let pd = self.region_d.heap_pairs();
        let pe = self.region_e.heap_pairs();
        assert forall|i: int|
            0 <= i < self.heap_pairs().len() implies (#[trigger] self.heap_pairs()[i]).0
            <= self.heap_pairs()[i].1 by {
            if i < pa.len() {
                assert(self.heap_pairs()[i] == pa[i]);
            }
             else if i < pa.len() + pb.len() {
                assert(self.heap_pairs()[i] == pb[i - pa.len()]);
            }
             else if i < pa.len() + pb.len() + pc.len() {
                assert(self.heap_pairs()[i] == pc[i - pa.len() - pb.len()]);
            }
             else if i < pa.len() + pb.len() + pc.len() + pd.len() {
                assert(self.heap_pairs()[i] == pd[i - pa.len() - pb.len() - pc.len()]);
            }
             else {
                assert(self.heap_pairs()[i] == pe[i - pa.len() - pb.len() - pc.len() - pd.len()]);
            }
        }
    }

    fn new() -> (r: Self) {
        let r = TupleABCDERegion { region_a: RA::new(), region_b: RB::new(), region_c: RC::new(), region_d: RD::new(), region_e: RE::new() };
        proof {
            lemma_split_5(r);
        }
        r
    }

    fn copy(&mut self, item: &(RA::Item, RB::Item, RC::Item, RD::Item, RE::Item)) -> (r: (RA::Item, RB::Item, RC::Item, RD::Item, RE::Item)) {
        let ghost s0 = *self;
        let va = self.region_a.copy(&item.0);
        let ghost s1 = *self;
        let vb = self.region_b.copy(&item.1);
        let ghost s2 = *self;
        let vc = self.region_c.copy(&item.2);
        let ghost s3 = *self;
        let vd = self.region_d.copy(&item.3);
        let ghost s4 = *self;
        let ve = self.region_e.copy(&item.4);
        proof {
            lemma_split_5(s0);
            lemma_split_5(s1);
            lemma_split_5(s2);
            lemma_split_5(s3);
            lemma_split_5(s4);
            lemma_split_5(*self);
        }
        (va, vb, vc, vd, ve)
    }

    fn clear(&mut self) {
        self.region_a.clear();
        self.region_b.clear();
        self.region_c.clear();
        self.region_d.clear();
        self.region_e.clear();
    }

    fn reserve_items(&mut self, items: &[&(RA::Item, RB::Item, RC::Item, RD::Item, RE::Item)]) {
        let ghost mitems = items@.map_values(|x: &(RA::Item, RB::Item, RC::Item, RD::Item, RE::Item)| *x);
        let mut refs_a: Vec<&RA::Item> = Vec::new();
        let mut refs_b: Vec<&RB::Item> = Vec::new();
        let mut refs_c: Vec<&RC::Item> = Vec::new();
        let mut refs_d: Vec<&RD::Item> = Vec::new();
        let mut refs_e: Vec<&RE::Item> = Vec::new();
        let mut i: usize = 0;
        while i < items.len()
            invariant
                i <= items@.len(),
                *self == *old(self),
                mitems == items@.map_values(|x: &(RA::Item, RB::Item, RC::Item, RD::Item, RE::Item)| *x),
                refs_a@.map_values(|x: &RA::Item| *x) == mitems.subrange(0, i as int).map_values(|t: (RA::Item, RB::Item, RC::Item, RD::Item, RE::Item)| t.0),
                refs_b@.map_values(|x: &RB::Item| *x) == mitems.subrange(0, i as int).map_values(|t: (RA::Item, RB::Item, RC::Item, RD::Item, RE::Item)| t.1),
                refs_c@.map_values(|x: &RC::Item| *x) == mitems.subrange(0, i as int).map_values(|t: (RA::Item, RB::Item, RC::Item, RD::Item, RE::Item)| t.2),
                refs_d@.map_values(|x: &RD::Item| *x) == mitems.subrange(0, i as int).map_values(|t: (RA::Item, RB::Item, RC::Item, RD::Item, RE::Item)| t.3),
                refs_e@.map_values(|x: &RE::Item| *x) == mitems.subrange(0, i as int).map_values(|t: (RA::Item, RB::Item, RC::Item, RD::Item, RE::Item)| t.4),
            decreases items@.len() - i,
        {
            let ghost refs_a0 = refs_a@;
            let ghost refs_b0 = refs_b@;
            let ghost refs_c0 = refs_c@;
            let ghost refs_d0 = refs_d@;
            let ghost refs_e0 = refs_e@;
            refs_a.push(&items[i].0);
            refs_b.push(&items[i].1);
            refs_c.push(&items[i].2);
            refs_d.push(&items[i].3);
            refs_e.push(&items[i].4);
            proof {
                assert(refs_a@.map_values(|x: &RA::Item| *x) =~= refs_a0.map_values(
                    |x: &RA::Item| *x,
                ).push(*refs_a@.last()));
                assert(refs_a@.map_values(|x: &RA::Item| *x) =~= mitems.subrange(
                    0,
                    (i + 1) as int,
                ).map_values(|t: (RA::Item, RB::Item, RC::Item, RD::Item, RE::Item)| t.0));
                assert(refs_b@.map_values(|x: &RB::Item| *x) =~= refs_b0.map_values(
                    |x: &RB::Item| *x,
                ).push(*refs_b@.last()));
                assert(refs_b@.map_values(|x: &RB::Item| *x) =~= mitems.subrange(
                    0,
                    (i + 1) as int,
                ).map_values(|t: (RA::Item, RB::Item, RC::Item, RD::Item, RE::Item)| t.1));
                assert(refs_c@.map_values(|x: &RC::Item| *x) =~= refs_c0.map_values(
                    |x: &RC::Item| *x,
                ).push(*refs_c@.last()));
                assert(refs_c@.map_values(|x: &RC::Item| *x) =~= mitems.subrange(
                    0,
                    (i + 1) as int,
                ).map_values(|t: (RA::Item, RB::Item, RC::Item, RD::Item, RE::Item)| t.2));
                assert(refs_d@.map_values(|x: &RD::Item| *x) =~= refs_d0.map_values(
                    |x: &RD::Item| *x,
                ).push(*refs_d@.last()));
                assert(refs_d@.map_values(|x: &RD::Item| *x) =~= mitems.subrange(
                    0,
                    (i + 1) as int,
                ).map_values(|t: (RA::Item, RB::Item, RC::Item, RD::Item, RE::Item)| t.3));
                assert(refs_e@.map_values(|x: &RE::Item| *x) =~= refs_e0.map_values(
                    |x: &RE::Item| *x,
                ).push(*refs_e@.last()));
                assert(refs_e@.map_values(|x: &RE::Item| *x) =~= mitems.subrange(
                    0,
                    (i + 1) as int,
                ).map_values(|t: (RA::Item, RB::Item, RC::Item, RD::Item, RE::Item)| t.4));
            }
            i = i + 1;
        }
        let ghost s0 = *self;
        self.region_a.reserve_items(refs_a.as_slice());
        let ghost s1 = *self;
        self.region_b.reserve_items(refs_b.as_slice());
        let ghost s2 = *self;
        self.region_c.reserve_items(refs_c.as_slice());
        let ghost s3 = *self;
        self.region_d.reserve_items(refs_d.as_slice());
        let ghost s4 = *self;
        self.region_e.reserve_items(refs_e.as_slice());
        proof {
            assert(mitems.subrange(0, mitems.len() as int) =~= mitems);
            assert(refs_a@.map_values(|x: &RA::Item| *x) == mitems.map_values(|t: (RA::Item, RB::Item, RC::Item, RD::Item, RE::Item)| t.0));
            assert(refs_b@.map_values(|x: &RB::Item| *x) == mitems.map_values(|t: (RA::Item, RB::Item, RC::Item, RD::Item, RE::Item)| t.1));
            assert(refs_c@.map_values(|x: &RC::Item| *x) == mitems.map_values(|t: (RA::Item, RB::Item, RC::Item, RD::Item, RE::Item)| t.2));
            assert(refs_d@.map_values(|x: &RD::Item| *x) == mitems.map_values(|t: (RA::Item, RB::Item, RC::Item, RD::Item, RE::Item)| t.3));
            assert(refs_e@.map_values(|x: &RE::Item| *x) == mitems.map_values(|t: (RA::Item, RB::Item, RC::Item, RD::Item, RE::Item)| t.4));
            assert(s0 == *old(self));
            lemma_split_5(s0);
            lemma_split_5(s1);
            lemma_split_5(s2);
            lemma_split_5(s3);
            lemma_split_5(s4);
            lemma_split_5(*self);
        }
    }

    fn reserve_regions(&mut self, regions: &[&Self]) {
        let ghost mregions = regions@.map_values(|x: &TupleABCDERegion<RA, RB, RC, RD, RE>| *x);
        let mut refs_a: Vec<&RA> = Vec::new();
        let mut refs_b: Vec<&RB> = Vec::new();
        let mut refs_c: Vec<&RC> = Vec::new();
        let mut refs_d: Vec<&RD> = Vec::new();
        let mut refs_e: Vec<&RE> = Vec::new();
        let mut i: usize = 0;
        while i < regions.len()
            invariant
                i <= regions@.len(),
                *self == *old(self),
                mregions == regions@.map_values(|x: &TupleABCDERegion<RA, RB, RC, RD, RE>| *x),
                forall|j: int| 0 <= j < regions@.len() ==> (#[trigger] regions@[j]).wf(),
                forall|j: int| 0 <= j < refs_a@.len() ==> (#[trigger] refs_a@[j]).wf(),
                forall|j: int| 0 <= j < refs_b@.len() ==> (#[trigger] refs_b@[j]).wf(),
                forall|j: int| 0 <= j < refs_c@.len() ==> (#[trigger] refs_c@[j]).wf(),
                forall|j: int| 0 <= j < refs_d@.len() ==> (#[trigger] refs_d@[j]).wf(),
                forall|j: int| 0 <= j < refs_e@.len() ==> (#[trigger] refs_e@[j]).wf(),
                refs_a@.map_values(|x: &RA| *x) == mregions.subrange(0, i as int).map_values(|r: TupleABCDERegion<RA, RB, RC, RD, RE>| r.region_a),
                refs_b@.map_values(|x: &RB| *x) == mregions.subrange(0, i as int).map_values(|r: TupleABCDERegion<RA, RB, RC, RD, RE>| r.region_b),
                refs_c@.map_values(|x: &RC| *x) == mregions.subrange(0, i as int).map_values(|r: TupleABCDERegion<RA, RB, RC, RD, RE>| r.region_c),
                refs_d@.map_values(|x: &RD| *x) == mregions.subrange(0, i as int).map_values(|r: TupleABCDERegion<RA, RB, RC, RD, RE>| r.region_d),
                refs_e@.map_values(|x: &RE| *x) == mregions.subrange(0, i as int).map_values(|r: TupleABCDERegion<RA, RB, RC, RD, RE>| r.region_e),
            decreases regions@.len() - i,
        {
            let ghost refs_a0 = refs_a@;
            let ghost refs_b0 = refs_b@;
            let ghost refs_c0 = refs_c@;
            let ghost refs_d0 = refs_d@;
            let ghost refs_e0 = refs_e@;
            refs_a.push(&regions[i].region_a);
            refs_b.push(&regions[i].region_b);
            refs_c.push(&regions[i].region_c);
            refs_d.push(&regions[i].region_d);
            refs_e.push(&regions[i].region_e);
            proof {
                assert(refs_a@.map_values(|x: &RA| *x) =~= refs_a0.map_values(
                    |x: &RA| *x,
                ).push(*refs_a@.last()));
                assert(refs_a@.map_values(|x: &RA| *x) =~= mregions.subrange(
                    0,
                    (i + 1) as int,
                ).map_values(|r: TupleABCDERegion<RA, RB, RC, RD, RE>| r.region_a));
                assert(refs_b@.map_values(|x: &RB| *x) =~= refs_b0.map_values(
                    |x: &RB| *x,
                ).push(*refs_b@.last()));
                assert(refs_b@.map_values(|x: &RB| *x) =~= mregions.subrange(
                    0,
                    (i + 1) as int,
                ).map_values(|r: TupleABCDERegion<RA, RB, RC, RD, RE>| r.region_b));
                assert(refs_c@.map_values(|x: &RC| *x) =~= refs_c0.map_values(
                    |x: &RC| *x,
                ).push(*refs_c@.last()));
                assert(refs_c@.map_values(|x: &RC| *x) =~= mregions.subrange(
                    0,
                    (i + 1) as int,
                ).map_values(|r: TupleABCDERegion<RA, RB, RC, RD, RE>| r.region_c));
                assert(refs_d@.map_values(|x: &RD| *x) =~= refs_d0.map_values(
                    |x: &RD| *x,
                ).push(*refs_d@.last()));
                assert(refs_d@.map_values(|x: &RD| *x) =~= mregions.subrange(
                    0,
                    (i + 1) as int,
                ).map_values(|r: TupleABCDERegion<RA, RB, RC, RD, RE>| r.region_d));
                assert(refs_e@.map_values(|x: &RE| *x) =~= refs_e0.map_values(
                    |x: &RE| *x,
                ).push(*refs_e@.last()));
                assert(refs_e@.map_values(|x: &RE| *x) =~= mregions.subrange(
                    0,
                    (i + 1) as int,
                ).map_values(|r: TupleABCDERegion<RA, RB, RC, RD, RE>| r.region_e));
            }
            i = i + 1;
        }
        let ghost s0 = *self;
        self.region_a.reserve_regions(refs_a.as_slice());
        let ghost s1 = *self;
        self.region_b.reserve_regions(refs_b.as_slice());
        let ghost s2 = *self;
        self.region_c.reserve_regions(refs_c.as_slice());
        let ghost s3 = *self;
        self.region_d.reserve_regions(refs_d.as_slice());
        let ghost s4 = *self;
        self.region_e.reserve_regions(refs_e.as_slice());
        proof {
            assert(mregions.subrange(0, mregions.len() as int) =~= mregions);
            assert(refs_a@.map_values(|x: &RA| *x) == mregions.map_values(|r: TupleABCDERegion<RA, RB, RC, RD, RE>| r.region_a));
            assert(refs_b@.map_values(|x: &RB| *x) == mregions.map_values(|r: TupleABCDERegion<RA, RB, RC, RD, RE>| r.region_b));
            assert(refs_c@.map_values(|x: &RC| *x) == mregions.map_values(|r: TupleABCDERegion<RA, RB, RC, RD, RE>| r.region_c));
            assert(refs_d@.map_values(|x: &RD| *x) == mregions.map_values(|r: TupleABCDERegion<RA, RB, RC, RD, RE>| r.region_d));
            assert(refs_e@.map_values(|x: &RE| *x) == mregions.map_values(|r: TupleABCDERegion<RA, RB, RC, RD, RE>| r.region_e));
            assert(s0 == *old(self));
            lemma_split_5(s0);
            lemma_split_5(s1);
            lemma_split_5(s2);
            lemma_split_5(s3);
            lemma_split_5(s4);
            lemma_split_5(*self);
        }
    }

    fn heap_size(&self, acc: &mut Vec<(usize, usize)>) {
        self.region_a.heap_size(acc);
        self.region_b.heap_size(acc);
        self.region_c.heap_size(acc);
        self.region_d.heap_size(acc);
        self.region_e.heap_size(acc);
        proof {
            assert(acc@ =~= old(acc)@ + (self.region_a.heap_pairs() + self.region_b.heap_pairs() + self.region_c.heap_pairs() + self.region_d.heap_pairs() + self.region_e.heap_pairs()));
        }
    }
}

impl<RA: Region, RB: Region, RC: Region, RD: Region, RE: Region> TupleABCDERegion<RA, RB, RC, RD, RE> {
    /// Copy a tuple given by component references, without an assembled
    /// tuple to borrow from.
    pub fn copy_destructured(&mut self, ra: &RA::Item, rb: &RB::Item, rc: &RC::Item, rd: &RD::Item, re: &RE::Item) -> (r: (RA::Item, RB::Item, RC::Item, RD::Item, RE::Item))
        requires
            old(self).wf(),
        ensures
            final(self).wf(),
            RA::eqv(r.0, *ra),
            RB::eqv(r.1, *rb),
            RC::eqv(r.2, *rc),
            RD::eqv(r.3, *rd),
            RE::eqv(r.4, *re),
            caps_total(final(self).heap_pairs()) >= caps_total(old(self).heap_pairs()),
    {
        let ghost s0 = *self;
        let va = self.region_a.copy(ra);
        let ghost s1 = *self;
        let vb = self.region_b.copy(rb);
        let ghost s2 = *self;
        let vc = self.region_c.copy(rc);
        let ghost s3 = *self;
        let vd = self.region_d.copy(rd);
        let ghost s4 = *self;
        let ve = self.region_e.copy(re);
        proof {
            lemma_split_5(s0);
            lemma_split_5(s1);
            lemma_split_5(s2);
            lemma_split_5(s3);
            lemma_split_5(s4);
            lemma_split_5(*self);
        }
        (va, vb, vc, vd, ve)
    }
}

impl<RA: Region, RB: Region, RC: Region, RD: Region, RE: Region> Default for TupleABCDERegion<RA, RB, RC, RD, RE> {
    fn default() -> (r: Self)
        ensures
            r.wf(),
    {
        Self::new()
    }
}

impl<A: Columnation, B: Columnation, C: Columnation, D: Columnation, E: Columnation> Columnation for (A, B, C, D, E) {
    type InnerRegion = TupleABCDERegion<A::InnerRegion, B::InnerRegion, C::InnerRegion, D::InnerRegion, E::InnerRegion>;
}

} // verus!
