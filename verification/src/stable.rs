//! A region allocator which holds items at stable positions.
//!
//! Items once inserted are never moved or rewritten; their positions in the
//! region can be relied on by others until the region is cleared. The type
//! accepts owned data and is a building block for the typed regions built
//! on top of it.

use vstd::layout::size_of;
use vstd::prelude::*;

use crate::memory;
use crate::region::{
    byte_pair, caps_total, lemma_byte_pair_le, lemma_totals_concat, lemma_totals_nonneg,
    lemma_totals_pair2, lemma_totals_push, sat_mul, used_total,
};

verus! {

/// The least power of two at or above `n` (and at least 1).
pub open spec fn pow2_ceil(n: nat) -> nat
    decreases n,
{
    if n <= 1 {
        1
    } else {
        2 * pow2_ceil(((n + 1) / 2) as nat)
    }
}

/// `pow2_ceil` is indeed at or above its argument.
pub proof fn lemma_pow2_ceil_ge(n: nat)
    ensures
        pow2_ceil(n) >= n,
        pow2_ceil(n) >= 1,
    decreases n,
{
    if n > 1 {
        lemma_pow2_ceil_ge(((n + 1) / 2) as nat);
    }
}

/// `pow2_ceil` earns its name: it is a power of two, and no power of two
/// at or above `n` lies below it.
pub proof fn lemma_pow2_ceil_least(n: nat)
    requires
        n >= 1,
    ensures
        exists|k: nat| pow2_ceil(n) == #[trigger] vstd::arithmetic::power2::pow2(k),
        forall|k: nat|
            #[trigger] vstd::arithmetic::power2::pow2(k) >= n ==> vstd::arithmetic::power2::pow2(
                k,
            ) >= pow2_ceil(n),
    decreases n,
{
    vstd::arithmetic::power2::lemma2_to64();
    if n <= 1 {
        assert(pow2_ceil(n) == vstd::arithmetic::power2::pow2(0));
        assert forall|k: nat|
            #[trigger] vstd::arithmetic::power2::pow2(k) >= n implies vstd::arithmetic::power2::pow2(
            k,
        ) >= pow2_ceil(n) by {
            vstd::arithmetic::power2::lemma_pow2_pos(k);
        }
    } else {
        let m = ((n + 1) / 2) as nat;
        lemma_pow2_ceil_least(m);
        let j = choose|j: nat| pow2_ceil(m) == #[trigger] vstd::arithmetic::power2::pow2(j);
        assert(pow2_ceil(n) == 2 * vstd::arithmetic::power2::pow2(j));
        assert(pow2_ceil(n) == vstd::arithmetic::power2::pow2((j + 1) as nat)) by {
            vstd::arithmetic::power2::lemma_pow2_unfold((j + 1) as nat);
        }
        assert forall|k: nat|
            #[trigger] vstd::arithmetic::power2::pow2(k) >= n implies vstd::arithmetic::power2::pow2(
            k,
        ) >= pow2_ceil(n) by {
            if k == 0 {
                // pow2(0) is 1 < n, so nothing to show
                assert(vstd::arithmetic::power2::pow2(0) == 1);
            } else {
                let p = vstd::arithmetic::power2::pow2((k - 1) as nat);
                assert(vstd::arithmetic::power2::pow2(k) == 2 * p) by {
                    vstd::arithmetic::power2::lemma_pow2_unfold(k);
                }
                assert(p >= m);
                assert(p >= pow2_ceil(m));
            }
        }
    }
}

/// The capacity a region grows to when `count` more items must fit beside a
/// full buffer of capacity `cap`: capacity doubles (next power of two),
/// clamped to `limit`, and is raised to `count` if that asks for more.
pub open spec fn grow_target(cap: nat, limit: nat, count: nat) -> int {
    vstd::math::max(
        count as int,
        vstd::math::min(limit as int, pow2_ceil((cap + 1) as nat) as int),
    )
}

/// Compute `min(limit, pow2_ceil(n))` without overflowing.
fn pow2_ceil_clamped(n: usize, limit: usize) -> (r: usize)
    ensures
        r as int == vstd::math::min(limit as int, pow2_ceil(n as nat) as int),
    decreases n,
{
    if n <= 1 {
        if limit < 1 {
            limit
        } else {
            1
        }
    } else {
        let m = n / 2 + n % 2;
        proof {
            assert(m as int == (n as int + 1) / 2);
        }
        let h = pow2_ceil_clamped(m, limit);
        proof {
            lemma_pow2_ceil_ge(m as nat);
        }
        if h >= limit {
            // the inner power already reaches the limit, so the doubled one does
            limit
        } else {
            if h > usize::MAX / 2 {
                // the doubled power exceeds usize, hence also the limit
                limit
            } else {
                let two: usize = 2 * h;
                if two >= limit {
                    limit
                } else {
                    two
                }
            }
        }
    }
}

/// Compute `grow_target` without overflowing.
fn grow_size(cap: usize, limit: usize, count: usize) -> (r: usize)
    ensures
        r as int == grow_target(cap as nat, limit as nat, count as nat),
{
    let clamped_pow = if cap == usize::MAX {
        proof {
            lemma_pow2_ceil_ge((cap + 1) as nat);
        }
        limit
    } else {
        pow2_ceil_clamped(cap + 1, limit)
    };
    if count >= clamped_pow {
        count
    } else {
        clamped_pow
    }
}

/// The elements of a family of buffers, oldest buffer first.
pub(crate) open spec fn flat<T>(bufs: Seq<memory::Region<T>>) -> Seq<T>
    decreases bufs.len(),
{
    if bufs.len() == 0 {
        Seq::empty()
    } else {
        flat(bufs.drop_last()) + bufs.last()@
    }
}

pub(crate) proof fn lemma_flat_push<T>(bufs: Seq<memory::Region<T>>, b: memory::Region<T>)
    ensures
        flat(bufs.push(b)) == flat(bufs) + b@,
{
    assert(bufs.push(b).drop_last() =~= bufs);
}

/// The report pair for one backing buffer.
pub(crate) open spec fn buf_pair<T>(r: memory::Region<T>) -> (usize, usize) {
    byte_pair(r@.len(), r.spec_cap(), size_of::<T>())
}

/// The report pairs for a family of backing buffers.
pub(crate) open spec fn stash_pairs<T>(bufs: Seq<memory::Region<T>>) -> Seq<(usize, usize)> {
    bufs.map_values(|r: memory::Region<T>| buf_pair(r))
}

pub(crate) proof fn lemma_stash_pairs_push<T>(bufs: Seq<memory::Region<T>>, b: memory::Region<T>)
    ensures
        stash_pairs(bufs.push(b)) == stash_pairs(bufs).push(buf_pair(b)),
{
    assert(stash_pairs(bufs.push(b)) =~= stash_pairs(bufs).push(buf_pair(b)));
}

/// A region allocator which holds items at stable positions.
///
/// The view of a `StableRegion` is the sequence of all items it holds, in
/// the order they were placed. Every operation but `clear` only ever
/// appends to that sequence: what was placed earlier keeps its position
/// and value.
pub struct StableRegion<T> {
    /// The active buffer into which we are writing.
    local: memory::Region<T>,
    /// All previously active buffers, retained so their contents stay put.
    stash: Vec<memory::Region<T>>,
    /// The capacity the stash vector was grown to.
    stash_cap: usize,
    /// The maximum size a single buffer grows to by doubling.
    limit: usize,
}

impl<T> View for StableRegion<T> {
    type V = Seq<T>;

    closed spec fn view(&self) -> Seq<T> {
        flat(self.stash@) + self.local@
    }
}

impl<T> StableRegion<T> {
    /// The capacity accounting is intact: every buffer's contents fit under
    /// its fixed capacity.
    pub closed spec fn wf(&self) -> bool {
        &&& self.local.wf()
        &&& forall|i: int| 0 <= i < self.stash@.len() ==> (#[trigger] self.stash@[i]).wf()
        &&& self.stash@.len() <= self.stash_cap
    }

    /// The configured maximum doubling size.
    pub closed spec fn spec_limit(&self) -> nat {
        self.limit as nat
    }

    /// The capacity of the active buffer.
    pub closed spec fn local_capacity(&self) -> nat {
        self.local.spec_cap()
    }

    /// The number of items in the active buffer.
    pub closed spec fn local_len(&self) -> nat {
        self.local@.len()
    }

    /// How many more items fit in the active buffer without growing.
    pub open spec fn local_free(&self) -> int {
        self.local_capacity() - self.local_len()
    }

    /// One (used bytes, capacity bytes) pair per allocation: the active
    /// buffer, the stash vector itself, then each stashed buffer.
    pub closed spec fn heap_pairs(&self) -> Seq<(usize, usize)> {
        seq![
            byte_pair(self.local@.len(), self.local.spec_cap(), size_of::<T>()),
            byte_pair(self.stash@.len(), self.stash_cap as nat, size_of::<memory::Region<T>>()),
        ] + stash_pairs(self.stash@)
    }

    /// Every reported allocation uses no more than its capacity.
    pub proof fn lemma_heap_pairs_wf(&self)
        requires
            self.wf(),
        ensures
            forall|i: int|
                0 <= i < self.heap_pairs().len() ==> (#[trigger] self.heap_pairs()[i]).0
                    <= self.heap_pairs()[i].1,
    {
        assert forall|i: int|
            0 <= i < self.heap_pairs().len() implies (#[trigger] self.heap_pairs()[i]).0
            <= self.heap_pairs()[i].1 by {
            if i == 0 {
                lemma_byte_pair_le(self.local@.len(), self.local.spec_cap(), size_of::<T>());
            } else if i == 1 {
                lemma_byte_pair_le(
                    self.stash@.len(),
                    self.stash_cap as nat,
                    size_of::<memory::Region<T>>(),
                );
            } else {
                let r = self.stash@[i - 2];
                assert(self.heap_pairs()[i] == buf_pair(r));
                lemma_byte_pair_le(r@.len(), r.spec_cap(), size_of::<T>());
            }
        }
    }

    /// The sum of the capacity sides of `heap_pairs`, as one number.
    pub closed spec fn caps(&self) -> int {
        caps_total(self.heap_pairs())
    }

    proof fn lemma_caps_split(&self)
        ensures
            self.caps() == byte_pair(self.local@.len(), self.local.spec_cap(), size_of::<T>()).1
                + byte_pair(self.stash@.len(), self.stash_cap as nat, size_of::<memory::Region<T>>()).1
                + caps_total(stash_pairs(self.stash@)),
    {
        let pl = byte_pair(self.local@.len(), self.local.spec_cap(), size_of::<T>());
        let ps = byte_pair(self.stash@.len(), self.stash_cap as nat, size_of::<memory::Region<T>>());
        lemma_totals_concat(seq![pl, ps], stash_pairs(self.stash@));
        lemma_totals_pair2(pl, ps);
    }

    /// Construct a [`StableRegion`] with an allocation size limit.
    pub fn with_limit(limit: usize) -> (r: Self)
        ensures
            r.wf(),
            r@ == Seq::<T>::empty(),
            r.spec_limit() == limit,
            r.local_capacity() == 0,
            r.local_len() == 0,
            used_total(r.heap_pairs()) == 0,
            caps_total(r.heap_pairs()) == 0,
    {
        let r = StableRegion { local: memory::Region::new_nil(), stash: Vec::new(), stash_cap: 0, limit };
        proof {
            assert(r@ =~= Seq::<T>::empty());
            assert(stash_pairs(r.stash@) =~= Seq::<(usize, usize)>::empty());
            r.lemma_caps_split();
            lemma_totals_pair2(
                byte_pair(0, 0, size_of::<T>()),
                byte_pair(0, 0, size_of::<memory::Region<T>>()),
            );
            lemma_totals_concat(
                seq![
                    byte_pair(0, 0, size_of::<T>()),
                    byte_pair(0, 0, size_of::<memory::Region<T>>()),
                ],
                stash_pairs(r.stash@),
            );
        }
        r
    }

    /// Clears the contents; the active buffer's allocation is retained,
    /// the stashed buffers are released: afterwards the report holds only
    /// the emptied active buffer and the emptied stash vector, and no
    /// reported allocation has anything in use.
    pub fn clear(&mut self)
        requires
            old(self).wf(),
        ensures
            final(self).wf(),
            final(self)@ == Seq::<T>::empty(),
            final(self).spec_limit() == old(self).spec_limit(),
            final(self).local_capacity() == old(self).local_capacity(),
            final(self).local_len() == 0,
            final(self).heap_pairs().len() == 2,
            final(self).heap_pairs()[0] == byte_pair(
                0,
                old(self).local_capacity(),
                size_of::<T>(),
            ),
            used_total(final(self).heap_pairs()) == 0,
    {
        self.local.clear();
        self.stash.clear();
        proof {
            assert(self@ =~= Seq::<T>::empty());
            assert(stash_pairs(self.stash@) =~= Seq::<(usize, usize)>::empty());
            self.lemma_caps_split();
            let p0 = byte_pair(0, self.local.spec_cap(), size_of::<T>());
            let p1 = byte_pair(0, self.stash_cap as nat, size_of::<memory::Region<T>>());
            lemma_totals_pair2(p0, p1);
            lemma_totals_concat(seq![p0, p1], stash_pairs(self.stash@));
            assert(seq![p0, p1] + stash_pairs(self.stash@) =~= seq![p0, p1]);
        }
    }

    /// Ensures that there is space in the active buffer for at least
    /// `count` more items; the contents do not change and the total
    /// reported capacity does not shrink.
    ///
    /// When the active buffer is too small it is retired and a fresh one is
    /// installed, whose capacity doubles the old one to the next power of
    /// two, clamped to the limit, and raised to `count` if that asks for
    /// more.
    pub fn reserve(&mut self, count: usize)
        requires
            old(self).wf(),
        ensures
            final(self).wf(),
            final(self)@ == old(self)@,
            final(self).spec_limit() == old(self).spec_limit(),
            final(self).local_free() >= count,
            caps_total(final(self).heap_pairs()) >= caps_total(old(self).heap_pairs()),
            count <= old(self).local_free() ==> *final(self) == *old(self),
            count > old(self).local_free() ==> {
                &&& final(self).local_capacity() as int == grow_target(
                    old(self).local_capacity(),
                    old(self).spec_limit(),
                    count as nat,
                )
                &&& final(self).local_len() == 0
            },
    {
        let cap = self.local.capacity();
        let len = self.local.len();
        if count > cap - len {
            proof {
                self.lemma_caps_split();
                lemma_totals_nonneg(stash_pairs(self.stash@));
            }
            // Increase allocated capacity in powers of two, clamped to the
            // limit and raised to `count` if that asks for more.
            let next_len = grow_size(cap, self.limit, count);
            let mut new_local = memory::Region::new_auto(next_len);
            core::mem::swap(&mut self.local, &mut new_local);
            // `new_local` now holds the retired buffer.
            if new_local.is_empty() {
                // Nothing was written into the retired buffer: drop it.
                // Here `count > cap`, so the fresh buffer is no smaller.
                proof {
                    assert(new_local@ =~= Seq::<T>::empty());
                    assert(self@ =~= old(self)@);
                    self.lemma_caps_split();
                    lemma_byte_pair_le(0, new_local.spec_cap(), size_of::<T>());
                    vstd::arithmetic::mul::lemma_mul_inequality(
                        new_local.spec_cap() as int,
                        self.local.spec_cap() as int,
                        size_of::<T>() as int,
                    );
                }
            } else {
                if self.stash.len() >= self.stash_cap {
                    // Grow the tracked stash capacity by doubling.
                    self.stash_cap = if self.stash_cap < 4 {
                        4
                    } else if self.stash_cap > usize::MAX / 2 {
                        usize::MAX
                    } else {
                        2 * self.stash_cap
                    };
                }
                let ghost pre_stash = self.stash@;
                self.stash.push(new_local);
                proof {
                    vstd::std_specs::vec::axiom_spec_len(&self.stash);
                    lemma_flat_push(pre_stash, new_local);
                    assert(self@ =~= old(self)@);
                    self.lemma_caps_split();
                    lemma_stash_pairs_push(pre_stash, new_local);
                    lemma_totals_push(stash_pairs(pre_stash), buf_pair(new_local));
                    assert(caps_total(stash_pairs(self.stash@)) == caps_total(
                        stash_pairs(pre_stash),
                    ) + buf_pair(new_local).1);
                    lemma_byte_pair_le(0, self.local.spec_cap(), size_of::<T>());
                    // the stash vector pair only grows
                    vstd::arithmetic::mul::lemma_mul_inequality(
                        old(self).stash@.len() as int,
                        self.stash_cap as int,
                        size_of::<memory::Region<T>>() as int,
                    );
                    vstd::arithmetic::mul::lemma_mul_inequality(
                        old(self).stash_cap as int,
                        self.stash_cap as int,
                        size_of::<memory::Region<T>>() as int,
                    );
                }
            }
        }
    }

    /// Moves the items of a vector into the region. The items land after
    /// everything already present; nothing already present moves.
    pub fn copy_iter(&mut self, items: Vec<T>)
        requires
            old(self).wf(),
        ensures
            final(self).wf(),
            final(self)@ == old(self)@ + items@,
            final(self).spec_limit() == old(self).spec_limit(),
            caps_total(final(self).heap_pairs()) >= caps_total(old(self).heap_pairs()),
            items@.len() <= old(self).local_free() ==> final(self).local_capacity() == old(
                self,
            ).local_capacity() && final(self).local_len() == old(self).local_len() + items@.len(),
            items@.len() > old(self).local_free() ==> final(self).local_capacity() as int
                == grow_target(old(self).local_capacity(), old(self).spec_limit(), items@.len())
                && final(self).local_len() == items@.len(),
    {
        let mut items = items;
        let ghost items0 = items@;
        self.reserve(items.len());
        let ghost mid = *self;
        self.local.append_from(&mut items);
        proof {
            assert(self@ =~= old(self)@ + items0);
            self.lemma_caps_split();
            mid.lemma_caps_split();
        }
    }

    /// Allocates a new region that accepts `count` items without growing.
    pub fn with_capacity(count: usize) -> (r: Self)
        ensures
            r.wf(),
            r@ == Seq::<T>::empty(),
            r.local_free() >= count,
            r.spec_limit() == usize::MAX,
    {
        let mut region = Self::default();
        region.reserve(count);
        region
    }

    /// The number of items currently held in the region (saturating at
    /// `usize::MAX`).
    pub fn len(&self) -> (r: usize)
        requires
            self.wf(),
        ensures
            r as int == vstd::math::min(self@.len() as int, usize::MAX as int),
    {
        let mut total: usize = self.local.len();
        let mut i: usize = 0;
        proof {
            assert(self.stash@.subrange(0, 0) =~= Seq::<memory::Region<T>>::empty());
        }
        while i < self.stash.len()
            invariant
                i <= self.stash@.len(),
                total as int == vstd::math::min(
                    self.local@.len() + flat(self.stash@.subrange(0, i as int)).len() as int,
                    usize::MAX as int,
                ),
            decreases self.stash@.len() - i,
        {
            let more = self.stash[i].len();
            total = total.saturating_add(more);
            proof {
                assert(self.stash@.subrange(0, (i + 1) as int).drop_last() =~= self.stash@
                    .subrange(0, i as int));
            }
            i = i + 1;
        }
        proof {
            assert(self.stash@.subrange(0, self.stash@.len() as int) =~= self.stash@);
        }
        total
    }

    /// Report the region's memory use: the active buffer, the stash vector,
    /// then each stashed buffer.
    pub fn heap_size(&self, acc: &mut Vec<(usize, usize)>)
        requires
            self.wf(),
        ensures
            final(acc)@ == old(acc)@ + self.heap_pairs(),
    {
        let sz = core::mem::size_of::<T>();
        let szv = core::mem::size_of::<memory::Region<T>>();
        acc.push((sat_mul(self.local.len(), sz), sat_mul(self.local.capacity(), sz)));
        acc.push((sat_mul(self.stash.len(), szv), sat_mul(self.stash_cap, szv)));
        let mut i: usize = 0;
        proof {
            assert(stash_pairs(self.stash@.subrange(0, 0)) =~= Seq::<(usize, usize)>::empty());
            assert(acc@ =~= old(acc)@ + seq![
                byte_pair(self.local@.len(), self.local.spec_cap(), size_of::<T>()),
                byte_pair(
                    self.stash@.len(),
                    self.stash_cap as nat,
                    size_of::<memory::Region<T>>(),
                ),
            ] + stash_pairs(self.stash@.subrange(0, 0)));
        }
        while i < self.stash.len()
            invariant
                i <= self.stash@.len(),
                self.wf(),
                sz as nat == size_of::<T>(),
                szv as nat == size_of::<memory::Region<T>>(),
                acc@ == old(acc)@ + seq![
                    byte_pair(self.local@.len(), self.local.spec_cap(), size_of::<T>()),
                    byte_pair(
                        self.stash@.len(),
                        self.stash_cap as nat,
                        size_of::<memory::Region<T>>(),
                    ),
                ] + stash_pairs(self.stash@.subrange(0, i as int)),
            decreases self.stash@.len() - i,
        {
            let buf = &self.stash[i];
            let ghost q = buf_pair(self.stash@[i as int]);
            let used = sat_mul(buf.len(), sz);
            let capb = sat_mul(buf.capacity(), sz);
            proof {
                assert(*buf == self.stash@[i as int]);
                assert(used == q.0);
                assert(capb == q.1);
                assert((used, capb) == q);
            }
            acc.push((used, capb));
            proof {
                assert(self.stash@.subrange(0, (i + 1) as int).drop_last() =~= self.stash@
                    .subrange(0, i as int));
                assert(stash_pairs(self.stash@.subrange(0, (i + 1) as int)) =~= stash_pairs(
                    self.stash@.subrange(0, i as int),
                ).push(buf_pair(self.stash@[i as int])));
                assert(acc@ =~= old(acc)@ + seq![
                    byte_pair(self.local@.len(), self.local.spec_cap(), size_of::<T>()),
                    byte_pair(
                        self.stash@.len(),
                        self.stash_cap as nat,
                        size_of::<memory::Region<T>>(),
                    ),
                ] + stash_pairs(self.stash@.subrange(0, (i + 1) as int)));
            }
            i = i + 1;
        }
        proof {
            assert(self.stash@.subrange(0, self.stash@.len() as int) =~= self.stash@);
        }
    }
}

impl<T: Copy> StableRegion<T> {
    /// Copies the items of a slice into the region. The items land after
    /// everything already present; nothing already present moves.
    ///
    /// The items are required to be plainly copyable: only a bitwise copy
    /// lets the contract state that exactly the given items were placed.
    pub fn copy_slice(&mut self, items: &[T])
        requires
            old(self).wf(),
        ensures
            final(self).wf(),
            final(self)@ == old(self)@ + items@,
            final(self).spec_limit() == old(self).spec_limit(),
            caps_total(final(self).heap_pairs()) >= caps_total(old(self).heap_pairs()),
            items@.len() <= old(self).local_free() ==> final(self).local_capacity() == old(
                self,
            ).local_capacity() && final(self).local_len() == old(self).local_len() + items@.len(),
            items@.len() > old(self).local_free() ==> final(self).local_capacity() as int
                == grow_target(old(self).local_capacity(), old(self).spec_limit(), items@.len())
                && final(self).local_len() == items@.len(),
    {
        self.reserve(items.len());
        let ghost mid = *self;
        self.local.extend_from_slice(items);
        proof {
            assert(self@ =~= old(self)@ + items@);
            self.lemma_caps_split();
            mid.lemma_caps_split();
        }
    }
}

impl<T> Default for StableRegion<T> {
    /// A fresh region whose buffers grow without a size cap; a region with
    /// a cap is had from [`StableRegion::with_limit`].
    fn default() -> (r: Self)
        ensures
            r.wf(),
            r@ == Seq::<T>::empty(),
            r.spec_limit() == usize::MAX,
            r.local_capacity() == 0,
            r.local_len() == 0,
            used_total(r.heap_pairs()) == 0,
            caps_total(r.heap_pairs()) == 0,
    {
        Self::with_limit(usize::MAX)
    }
}

} // verus!
