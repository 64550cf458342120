//! The `Region` capability: a per-type strategy for absorbing one record's
//! owned interior storage, together with the `Columnation` trait that binds
//! a record type to its region, and the leaf region for plainly copyable
//! types.

use vstd::prelude::*;

verus! {

/// Clamp a mathematical byte count to what a `usize` can report.
pub open spec fn clamped(n: nat) -> usize {
    if n > usize::MAX as nat {
        usize::MAX
    } else {
        n as usize
    }
}

/// The (used bytes, capacity bytes) report for one allocation of `len`
/// used slots and `cap` capacity slots of `sz`-byte elements.
pub open spec fn byte_pair(len: nat, cap: nat, sz: nat) -> (usize, usize) {
    (clamped(len * sz), clamped(cap * sz))
}

/// A pair that reports no more used slots than capacity slots uses no more
/// bytes than its byte capacity.
pub proof fn lemma_byte_pair_le(len: nat, cap: nat, sz: nat)
    requires
        len <= cap,
    ensures
        byte_pair(len, cap, sz).0 <= byte_pair(len, cap, sz).1,
{
    vstd::arithmetic::mul::lemma_mul_inequality(len as int, cap as int, sz as int);
}

/// The sum of the used-bytes sides of a report.
pub open spec fn used_total(pairs: Seq<(usize, usize)>) -> int
    decreases pairs.len(),
{
    if pairs.len() == 0 {
        0
    } else {
        used_total(pairs.drop_last()) + pairs.last().0
    }
}

/// The sum of the capacity sides of a report.
pub open spec fn caps_total(pairs: Seq<(usize, usize)>) -> int
    decreases pairs.len(),
{
    if pairs.len() == 0 {
        0
    } else {
        caps_total(pairs.drop_last()) + pairs.last().1
    }
}

/// The two total sums, on a report extended by one pair.
pub proof fn lemma_totals_push(s: Seq<(usize, usize)>, p: (usize, usize))
    ensures
        used_total(s.push(p)) == used_total(s) + p.0,
        caps_total(s.push(p)) == caps_total(s) + p.1,
{
    assert(s.push(p).drop_last() =~= s);
}

/// The two total sums of a two-pair report.
pub proof fn lemma_totals_pair2(a: (usize, usize), b: (usize, usize))
    ensures
        used_total(seq![a, b]) == a.0 + b.0,
        caps_total(seq![a, b]) == a.1 + b.1,
{
    let e = Seq::<(usize, usize)>::empty();
    lemma_totals_push(e, a);
    lemma_totals_push(e.push(a), b);
    assert(seq![a, b] =~= e.push(a).push(b));
}

/// The two total sums distribute over concatenation of reports.
pub proof fn lemma_totals_concat(a: Seq<(usize, usize)>, b: Seq<(usize, usize)>)
    ensures
        used_total(a + b) == used_total(a) + used_total(b),
        caps_total(a + b) == caps_total(a) + caps_total(b),
    decreases b.len(),
{
    if b.len() == 0 {
        assert(a + b =~= a);
    } else {
        lemma_totals_concat(a, b.drop_last());
        assert((a + b).drop_last() =~= a + b.drop_last());
    }
}

/// The two total sums are never negative.
pub proof fn lemma_totals_nonneg(a: Seq<(usize, usize)>)
    ensures
        used_total(a) >= 0,
        caps_total(a) >= 0,
    decreases a.len(),
{
    if a.len() > 0 {
        lemma_totals_nonneg(a.drop_last());
    }
}

/// If every pair of a report uses no more than its capacity, the summed
/// used bytes stay under the summed capacity.
pub proof fn lemma_used_le_caps(a: Seq<(usize, usize)>)
    requires
        forall|i: int| 0 <= i < a.len() ==> (#[trigger] a[i]).0 <= a[i].1,
    ensures
        used_total(a) <= caps_total(a),
    decreases a.len(),
{
    if a.len() > 0 {
        assert(forall|i: int|
            0 <= i < a.drop_last().len() ==> (#[trigger] a.drop_last()[i]).0 <= a.drop_last()[i].1);
        lemma_used_le_caps(a.drop_last());
    }
}

/// Multiply, saturating at `usize::MAX`.
pub(crate) fn sat_mul(a: usize, b: usize) -> (r: usize)
    ensures
        r == clamped((a as nat) * (b as nat)),
{
    match a.checked_mul(b) {
        Some(v) => v,
        None => usize::MAX,
    }
}

/// A type that can absorb owned data from records of type `Self::Item`.
///
/// A region keeps absorbed data valid as long as the region itself is
/// valid: data, once placed, is never moved or rewritten until `clear`.
/// `copy` hands back a surface replica of the record; the replica is
/// equivalent to the record under `Self::eqv`, the structural equality
/// that ignores where interior storage lives.
pub trait Region: Sized {
    /// The type of item the region absorbs.
    type Item;

    /// Whether the region's capacity accounting is intact. Constructors
    /// establish it and every method preserves it.
    spec fn wf(&self) -> bool;

    /// The equivalence a surface replica bears to the record it was copied
    /// from: equality of all reachable values, regardless of where their
    /// storage lives.
    spec fn eqv(a: Self::Item, b: Self::Item) -> bool;

    /// One (used bytes, capacity bytes) pair per allocation the region owns.
    spec fn heap_pairs(&self) -> Seq<(usize, usize)>;

    /// Whether the region has room to absorb every one of these items
    /// without growing again.
    spec fn fits_items(&self, items: Seq<Self::Item>) -> bool;

    /// Whether the region has room to absorb everything these regions hold
    /// without growing again.
    spec fn fits_regions(&self, regions: Seq<Self>) -> bool;

    /// Every reported allocation uses no more than its capacity.
    proof fn lemma_heap_pairs_wf(&self)
        requires
            self.wf(),
        ensures
            forall|i: int|
                0 <= i < self.heap_pairs().len() ==> (#[trigger] self.heap_pairs()[i]).0
                    <= self.heap_pairs()[i].1,
    ;

    /// A fresh region holding nothing and owning no storage: its report
    /// has neither used bytes nor capacity.
    fn new() -> (r: Self)
        ensures
            r.wf(),
            used_total(r.heap_pairs()) == 0,
            caps_total(r.heap_pairs()) == 0,
    ;

    /// Add a new element to the region.
    ///
    /// The argument is copied into the region and an equivalent surface
    /// replica is returned. The region's reported capacity never shrinks
    /// on an absorption.
    fn copy(&mut self, item: &Self::Item) -> (r: Self::Item)
        requires
            old(self).wf(),
        ensures
            final(self).wf(),
            Self::eqv(r, *item),
            caps_total(final(self).heap_pairs()) >= caps_total(old(self).heap_pairs()),
    ;

    /// Retain allocations but discard their contents.
    fn clear(&mut self)
        requires
            old(self).wf(),
        ensures
            final(self).wf(),
    ;

    /// Ensure that the region can absorb `items` without growing again.
    fn reserve_items(&mut self, items: &[&Self::Item])
        requires
            old(self).wf(),
        ensures
            final(self).wf(),
            caps_total(final(self).heap_pairs()) >= caps_total(old(self).heap_pairs()),
            final(self).fits_items(items@.map_values(|x: &Self::Item| *x)),
    ;

    /// Ensure that the region can absorb the contents of `regions` without
    /// growing again.
    fn reserve_regions(&mut self, regions: &[&Self])
        requires
            old(self).wf(),
            forall|i: int| 0 <= i < regions@.len() ==> (#[trigger] regions@[i]).wf(),
        ensures
            final(self).wf(),
            caps_total(final(self).heap_pairs()) >= caps_total(old(self).heap_pairs()),
            final(self).fits_regions(regions@.map_values(|x: &Self| *x)),
    ;

    /// Allocate a region pre-sized to absorb `items` without growing.
    fn with_capacity_items(items: &[&Self::Item]) -> (r: Self)
        ensures
            r.wf(),
            r.fits_items(items@.map_values(|x: &Self::Item| *x)),
    {
        let mut r = Self::new();
        r.reserve_items(items);
        r
    }

    /// Allocate a region pre-sized to absorb the contents of `regions`
    /// without growing.
    fn with_capacity_regions(regions: &[&Self]) -> (r: Self)
        requires
            forall|i: int| 0 <= i < regions@.len() ==> (#[trigger] regions@[i]).wf(),
        ensures
            r.wf(),
            r.fits_regions(regions@.map_values(|x: &Self| *x)),
    {
        let mut r = Self::new();
        r.reserve_regions(regions);
        r
    }

    /// Report the region's memory use: one (used bytes, capacity bytes)
    /// pair is appended to `acc` for each allocation the region owns.
    fn heap_size(&self, acc: &mut Vec<(usize, usize)>)
        requires
            self.wf(),
        ensures
            final(acc)@ == old(acc)@ + self.heap_pairs(),
    ;
}

/// A type that can be stored in a columnar region.
///
/// The trait exists to let a record type name the region that absorbs the
/// storage it owns (not allocations of `Self` itself, but of the things
/// inside it).
pub trait Columnation: Sized {
    /// The region type capable of absorbing allocations owned by `Self`.
    type InnerRegion: Region<Item = Self>;
}

/// A vacuous region for plainly copyable leaves: it owns nothing, and a
/// bitwise copy of the record is already a complete replica.
pub struct CopyRegion<T> {
    phantom: core::marker::PhantomData<T>,
}

impl<T: Copy> Region for CopyRegion<T> {
    type Item = T;

    open spec fn wf(&self) -> bool {
        true
    }

    open spec fn eqv(a: T, b: T) -> bool {
        a == b
    }

    open spec fn heap_pairs(&self) -> Seq<(usize, usize)> {
        Seq::empty()
    }

    /// A plainly copyable leaf owns nothing, so anything fits.
    open spec fn fits_items(&self, items: Seq<T>) -> bool {
        true
    }

    open spec fn fits_regions(&self, regions: Seq<Self>) -> bool {
        true
    }

    proof fn lemma_heap_pairs_wf(&self) {
    }

    fn new() -> (r: Self) {
        let r = CopyRegion { phantom: core::marker::PhantomData };
        proof {
            assert(used_total(r.heap_pairs()) == 0);
            assert(caps_total(r.heap_pairs()) == 0);
        }
        r
    }

    fn copy(&mut self, item: &T) -> (r: T) {
        *item
    }

    fn clear(&mut self) {
    }

    fn reserve_items(&mut self, items: &[&T]) {
    }

    fn reserve_regions(&mut self, regions: &[&Self]) {
    }

    fn heap_size(&self, acc: &mut Vec<(usize, usize)>) {
        proof {
            assert(acc@ + Seq::<(usize, usize)>::empty() =~= acc@);
        }
    }
}

impl<T: Copy> Default for CopyRegion<T> {
    fn default() -> (r: Self)
        ensures
            r.wf(),
    {
        Self::new()
    }
}

/// The region for the unit record, which owns nothing and carries nothing.
pub struct UnitRegion {}

impl Region for UnitRegion {
    type Item = ();

    open spec fn wf(&self) -> bool {
        true
    }

    open spec fn eqv(a: (), b: ()) -> bool {
        true
    }

    open spec fn heap_pairs(&self) -> Seq<(usize, usize)> {
        Seq::empty()
    }

    /// The unit record owns nothing, so anything fits.
    open spec fn fits_items(&self, items: Seq<()>) -> bool {
        true
    }

    open spec fn fits_regions(&self, regions: Seq<Self>) -> bool {
        true
    }

    proof fn lemma_heap_pairs_wf(&self) {
    }

    fn new() -> (r: Self) {
        let r = UnitRegion {  };
        proof {
            assert(used_total(r.heap_pairs()) == 0);
            assert(caps_total(r.heap_pairs()) == 0);
        }
        r
    }

    fn copy(&mut self, item: &()) -> (r: ()) {
    }

    fn clear(&mut self) {
    }

    fn reserve_items(&mut self, items: &[&()]) {
    }

    fn reserve_regions(&mut self, regions: &[&Self]) {
    }

    fn heap_size(&self, acc: &mut Vec<(usize, usize)>) {
        proof {
            assert(acc@ + Seq::<(usize, usize)>::empty() =~= acc@);
        }
    }
}

impl Default for UnitRegion {
    fn default() -> (r: Self)
        ensures
            r.wf(),
    {
        Self::new()
    }
}

impl Columnation for () {
    type InnerRegion = UnitRegion;
}

impl Columnation for bool {
    type InnerRegion = CopyRegion<bool>;
}

impl Columnation for char {
    type InnerRegion = CopyRegion<char>;
}

impl Columnation for u8 {
    type InnerRegion = CopyRegion<u8>;
}

impl Columnation for u16 {
    type InnerRegion = CopyRegion<u16>;
}

impl Columnation for u32 {
    type InnerRegion = CopyRegion<u32>;
}

impl Columnation for u64 {
    type InnerRegion = CopyRegion<u64>;
}

impl Columnation for u128 {
    type InnerRegion = CopyRegion<u128>;
}

impl Columnation for usize {
    type InnerRegion = CopyRegion<usize>;
}

impl Columnation for i8 {
    type InnerRegion = CopyRegion<i8>;
}

impl Columnation for i16 {
    type InnerRegion = CopyRegion<i16>;
}

impl Columnation for i32 {
    type InnerRegion = CopyRegion<i32>;
}

impl Columnation for i64 {
    type InnerRegion = CopyRegion<i64>;
}

impl Columnation for i128 {
    type InnerRegion = CopyRegion<i128>;
}

impl Columnation for isize {
    type InnerRegion = CopyRegion<isize>;
}

impl Columnation for core::time::Duration {
    type InnerRegion = CopyRegion<core::time::Duration>;
}

/// Declares std's `core::num::Wrapping`, which vstd leaves undeclared, so
/// that records of wrapping integers can be bound to the copy region.
/// Nothing is assumed of the type beyond its existence; a wrapping record
/// is absorbed by bitwise copy like any other plainly copyable leaf.
#[verifier::external_type_specification]
#[verifier::external_body]
#[verifier::reject_recursive_types(T)]
pub struct ExWrapping<T>(core::num::Wrapping<T>);

impl Columnation for core::num::Wrapping<i8> {
    type InnerRegion = CopyRegion<core::num::Wrapping<i8>>;
}

impl Columnation for core::num::Wrapping<i16> {
    type InnerRegion = CopyRegion<core::num::Wrapping<i16>>;
}

impl Columnation for core::num::Wrapping<i32> {
    type InnerRegion = CopyRegion<core::num::Wrapping<i32>>;
}

impl Columnation for core::num::Wrapping<i64> {
    type InnerRegion = CopyRegion<core::num::Wrapping<i64>>;
}

impl Columnation for core::num::Wrapping<i128> {
    type InnerRegion = CopyRegion<core::num::Wrapping<i128>>;
}

impl Columnation for core::num::Wrapping<isize> {
    type InnerRegion = CopyRegion<core::num::Wrapping<isize>>;
}

} // verus!
