//! A columnar arena for structured records.
//!
//! The arena ingests references to records built from primitives, strings,
//! vectors, options, results and tuples thereof, and keeps them as an
//! append-only, index-addressable sequence. What a record owns (string
//! bytes, vector elements) is absorbed, component by component, into a
//! small number of large, type-specialized backing buffers, so that
//! absorbing N compound records costs O(N) bulk appends into a handful of
//! buffers, and mass deallocation is a bulk clear.
//!
//! The library is organised in four layers, leaves first:
//! - an internal buffer type: one backing allocation with a fixed capacity
//!   that writes never exceed, so its contents never move;
//! - [`StableRegion`]: a growing family of such buffers. Its view is the
//!   sequence of items placed in it; every operation but `clear` only
//!   appends to that sequence, and the growth arithmetic (doubling to the
//!   next power of two, clamped to an optional limit) is part of its
//!   contracts;
//! - the [`Region`] trait and its implementations: a per-type strategy
//!   that absorbs one record's owned interior and hands back a surface
//!   replica, proved equivalent to the record under the type's structural
//!   equivalence [`Region::eqv`];
//! - [`ColumnStack`]: the public append-only container pairing a surface
//!   buffer of records with the record type's region.
//!
//! The contracts prove, among other things: that the sequence of records
//! read back equals, element for element, the sequence of records copied
//! in; that records once appended keep their position and value until a
//! clear; that `retain_from` keeps exactly the approved suffix records in
//! order; and that the reported memory use never shrinks across
//! absorptions and never claims more used bytes than capacity.

mod columnstack;
mod memory;
mod option_region;
mod region;
mod result_region;
mod stable;
mod string_region;
mod tuple_region;
mod vec_region;

pub use columnstack::{lemma_seq_filter_by_len, seq_filter_by, total_records, ColumnStack};
pub use region::{
    byte_pair, caps_total, clamped, lemma_byte_pair_le, lemma_totals_concat, lemma_totals_nonneg,
    lemma_totals_pair2, lemma_totals_push, lemma_used_le_caps, used_total, Columnation, CopyRegion,
    Region, UnitRegion,
};
pub use option_region::{some_payloads, OptionRegion};
pub use result_region::{err_payloads, ok_payloads, ResultRegion};
pub use stable::{grow_target, lemma_pow2_ceil_ge, lemma_pow2_ceil_least, pow2_ceil, StableRegion};
pub use string_region::{total_held_bytes, total_str_bytes, StringStack};
pub use tuple_region::{
    TupleABCDERegion, TupleABCDRegion, TupleABCRegion, TupleABRegion, TupleARegion,
};
pub use vec_region::{total_vec_len, vecs_flat, VecRegion};
