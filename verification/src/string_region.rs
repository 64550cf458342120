//! Region allocation for `String` data.
//!
//! Content bytes are copied into stable contiguous byte buffers, and the
//! surface replica carries the same characters as the record it was copied
//! from.

use vstd::prelude::*;

use crate::region::{Columnation, Region};
use crate::stable::StableRegion;

verus! {

/// The summed byte length of a run of strings, each as `str::len` reports
/// it (the length of a real string always fits a `usize`).
pub open spec fn total_str_bytes(items: Seq<String>) -> int
    decreases items.len(),
{
    if items.len() == 0 {
        0
    } else {
        total_str_bytes(items.drop_last()) + (vstd::utf8::encode_utf8(items.last()@).len()
            as usize)
    }
}

proof fn lemma_total_str_bytes_nonneg(items: Seq<String>)
    ensures
        total_str_bytes(items) >= 0,
    decreases items.len(),
{
    if items.len() > 0 {
        lemma_total_str_bytes_nonneg(items.drop_last());
    }
}

/// The region for `String` records: one stable family of byte buffers.
pub struct StringStack {
    region: StableRegion<u8>,
}

impl StringStack {
    /// The UTF-8 bytes the region has absorbed, in order of absorption.
    pub closed spec fn bytes(&self) -> Seq<u8> {
        self.region@
    }
}

/// The bytes held by a run of string regions, in order.
pub open spec fn total_held_bytes(regions: Seq<StringStack>) -> int
    decreases regions.len(),
{
    if regions.len() == 0 {
        0
    } else {
        total_held_bytes(regions.drop_last()) + regions.last().bytes().len()
    }
}

proof fn lemma_total_held_bytes_nonneg(regions: Seq<StringStack>)
    ensures
        total_held_bytes(regions) >= 0,
    decreases regions.len(),
{
    if regions.len() > 0 {
        lemma_total_held_bytes_nonneg(regions.drop_last());
    }
}

impl Region for StringStack {
    type Item = String;

    closed spec fn wf(&self) -> bool {
        self.region.wf()
    }

    /// Two strings are equivalent when they spell the same characters.
    open spec fn eqv(a: String, b: String) -> bool {
        a@ == b@
    }

    closed spec fn heap_pairs(&self) -> Seq<(usize, usize)> {
        self.region.heap_pairs()
    }

    /// The active byte buffer has spare room for all the items' bytes.
    closed spec fn fits_items(&self, items: Seq<String>) -> bool {
        self.region.local_free() >= vstd::math::min(
            total_str_bytes(items),
            usize::MAX as int,
        )
    }

    /// The active byte buffer has spare room for all the bytes the given
    /// regions hold.
    closed spec fn fits_regions(&self, regions: Seq<Self>) -> bool {
        self.region.local_free() >= vstd::math::min(
            total_held_bytes(regions),
            usize::MAX as int,
        )
    }

    proof fn lemma_heap_pairs_wf(&self) {
        self.region.lemma_heap_pairs_wf();
    }

    fn new() -> (r: Self)
        ensures
            r.bytes() == Seq::<u8>::empty(),
    {
        let r = StringStack { region: StableRegion::default() };
        proof {
            assert(r.heap_pairs() == r.region.heap_pairs());
        }
        r
    }

    /// The record's bytes are appended to the byte region; the replica
    /// spells the same characters as the record.
    fn copy(&mut self, item: &String) -> (r: String)
        ensures
            final(self).bytes() == old(self).bytes() + vstd::utf8::encode_utf8(item@),
    {
        let bytes = item.as_str().as_bytes();
        self.region.copy_slice(bytes);
        item.clone()
    }

    fn clear(&mut self)
        ensures
            final(self).bytes() == Seq::<u8>::empty(),
    {
        self.region.clear();
    }

    /// Pre-size the byte region for the total length of `items`; the held
    /// bytes do not change.
    fn reserve_items(&mut self, items: &[&String])
        ensures
            final(self).bytes() == old(self).bytes(),
    {
        let ghost mitems = items@.map_values(|x: &String| *x);
        let mut total: usize = 0;
        let mut i: usize = 0;
        while i < items.len()
            invariant
                i <= items@.len(),
                *self == *old(self),
                mitems == items@.map_values(|x: &String| *x),
                total as int == vstd::math::min(
                    total_str_bytes(mitems.subrange(0, i as int)),
                    usize::MAX as int,
                ),
            decreases items@.len() - i,
        {
            proof {
                lemma_total_str_bytes_nonneg(mitems.subrange(0, i as int));
                assert(mitems.subrange(0, (i + 1) as int).drop_last() =~= mitems.subrange(
                    0,
                    i as int,
                ));
            }
            total = total.saturating_add(items[i].as_str().len());
            proof {
                assert(mitems.subrange(0, (i + 1) as int).last() == mitems[i as int]);
                assert(mitems[i as int] == *items@[i as int]);
            }
            i = i + 1;
        }
        let ghost pre = *self;
        self.region.reserve(total);
        proof {
            assert(mitems.subrange(0, mitems.len() as int) =~= mitems);
            assert(self.heap_pairs() == self.region.heap_pairs());
            assert(pre.heap_pairs() == pre.region.heap_pairs());
            assert(pre == *old(self));
        }
    }

    /// Pre-size the byte region for the bytes held by `regions`; the held
    /// bytes do not change.
    fn reserve_regions(&mut self, regions: &[&Self])
        ensures
            final(self).bytes() == old(self).bytes(),
    {
        let ghost mregions = regions@.map_values(|x: &StringStack| *x);
        let mut total: usize = 0;
        let mut i: usize = 0;
        while i < regions.len()
            invariant
                i <= regions@.len(),
                *self == *old(self),
                mregions == regions@.map_values(|x: &StringStack| *x),
                forall|j: int| 0 <= j < regions@.len() ==> (#[trigger] regions@[j]).wf(),
                total as int == vstd::math::min(
                    total_held_bytes(mregions.subrange(0, i as int)),
                    usize::MAX as int,
                ),
            decreases regions@.len() - i,
        {
            proof {
                lemma_total_held_bytes_nonneg(mregions.subrange(0, i as int));
                assert(mregions.subrange(0, (i + 1) as int).drop_last() =~= mregions.subrange(
                    0,
                    i as int,
                ));
            }
            total = total.saturating_add(regions[i].region.len());
            i = i + 1;
        }
        let ghost pre = *self;
        self.region.reserve(total);
        proof {
            assert(mregions.subrange(0, mregions.len() as int) =~= mregions);
            assert(self.heap_pairs() == self.region.heap_pairs());
            assert(pre.heap_pairs() == pre.region.heap_pairs());
            assert(pre == *old(self));
        }
    }

    fn heap_size(&self, acc: &mut Vec<(usize, usize)>) {
        self.region.heap_size(acc);
    }
}

impl Default for StringStack {
    fn default() -> (r: Self)
        ensures
            r.wf(),
            r.bytes() == Seq::<u8>::empty(),
    {
        Self::new()
    }
}

impl Columnation for String {
    type InnerRegion = StringStack;
}

} // verus!
