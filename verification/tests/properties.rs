use columnation::{ColumnStack, Region, StableRegion, StringStack};

// Round-trip equality on a plainly copyable record type: the view equals
// the copied records, and the copy region owns no allocation of its own.
#[test]
fn round_trip_u64() {
    let mut stack = ColumnStack::<u64>::default();
    for _ in 0..1024 {
        stack.copy(&0u64);
    }
    assert_eq!(stack.len(), 1024);
    for i in 0..stack.len() {
        assert_eq!(*stack.get(i), 0u64);
    }
    // the only reported allocation is the surface buffer
    let mut acc: Vec<(usize, usize)> = Vec::new();
    stack.heap_size(&mut acc);
    assert_eq!(acc.len(), 1);
    assert_eq!(acc[0].0, 1024 * core::mem::size_of::<u64>());
}

// Round-trip equality on strings, with the byte region holding every byte
// of every record in a handful of buffers.
#[test]
fn round_trip_strings() {
    let record = String::from("grawwwwrr!");
    let mut stack = ColumnStack::<String>::default();
    for _ in 0..1024 {
        stack.copy(&record);
    }
    for element in stack.as_slice().iter() {
        assert_eq!(element, &record);
    }
    let (used, cap) = stack.summed_heap_size();
    assert!(used >= 10240);
    assert!(used <= cap);
    // pairs: the surface buffer, the byte region's active buffer, its
    // stash vector, and one pair per retired byte buffer
    let mut acc: Vec<(usize, usize)> = Vec::new();
    stack.heap_size(&mut acc);
    let byte_buffers = acc.len() - 2;
    assert!(byte_buffers <= 14);
    // every byte of every record was absorbed, and nothing else
    let mut bytes_held = acc[1].0;
    for pair in acc[3..].iter() {
        bytes_held += pair.0;
    }
    assert_eq!(bytes_held, 10240);
}

// Round-trip equality on a nested matrix of compound records.
#[test]
fn round_trip_matrix() {
    let record = vec![vec![(0u64, String::from("grawwwwrr!")); 32]; 32];
    let mut stack = ColumnStack::<Vec<Vec<(u64, String)>>>::default();
    stack.copy(&record);
    assert_eq!(stack.get(0), &record);
}

// Round-trip equality on options of vectors, element by element.
#[test]
fn round_trip_option_vec() {
    let record = vec![Some(vec![0, 1, 2]), None];
    let mut stack = ColumnStack::<Vec<Option<Vec<i32>>>>::default();
    stack.copy(&record);
    assert_eq!(stack.get(0)[0], Some(vec![0, 1, 2]));
    assert_eq!(stack.get(0)[1], None);
}

// Round-trip equality where a triple region is exercised both for a bare
// triple and for the contents of a vector.
#[test]
fn round_trip_triples() {
    let record = ((1u32, 2u32, 3u32), vec![(0u32, 0u32, 0u32); 1024]);
    let mut stack = ColumnStack::<((u32, u32, u32), Vec<(u32, u32, u32)>)>::default();
    stack.copy(&record);
    assert_eq!(stack.get(0), &record);
}

// Clearing twice leaves the stack empty and re-usable: copies made after
// the clears still round-trip.
#[test]
fn clear_twice_then_reuse() {
    let mut stack = ColumnStack::<String>::default();
    for _ in 0..10 {
        stack.copy(&String::from("abcde"));
    }
    stack.clear();
    assert!(stack.is_empty());
    stack.clear();
    assert!(stack.is_empty());
    stack.copy(&String::from("fghij"));
    assert_eq!(stack.len(), 1);
    assert_eq!(stack.get(0).as_str(), "fghij");
}

// After retain_from, the prefix is untouched and the suffix holds exactly
// the approved records, in order; clearing afterwards stays safe.
#[test]
fn retain_from_keeps_approved_suffix() {
    let mut stack = ColumnStack::<u64>::default();
    for i in 0..10u64 {
        stack.copy(&i);
    }
    stack.retain_from(3, |x: &u64| *x % 2 == 0);
    assert_eq!(stack.as_slice(), &[0, 1, 2, 4, 6, 8]);
    stack.clear();
    assert!(stack.is_empty());
}

// retain_from beyond the end leaves the stack unchanged.
#[test]
fn retain_from_past_end() {
    let mut stack = ColumnStack::<u64>::default();
    stack.copy(&7u64);
    stack.retain_from(5, |_x: &u64| false);
    assert_eq!(stack.as_slice(), &[7]);
}

// Reported capacity is non-decreasing across copies without an intervening
// clear, and used bytes never exceed capacity.
#[test]
fn heap_size_monotone() {
    let record = String::from("0123456789abcdef");
    let mut stack = ColumnStack::<String>::default();
    let mut last_cap: usize = 0;
    for _ in 0..200 {
        stack.copy(&record);
        let (used, cap) = stack.summed_heap_size();
        assert!(used <= cap);
        assert!(cap >= last_cap);
        last_cap = cap;
    }
}

// Reservations do not change the contents and do not shrink capacity.
#[test]
fn reserve_keeps_contents() {
    let mut stack = ColumnStack::<String>::default();
    stack.copy(&String::from("abc"));
    let (_, cap_before) = stack.summed_heap_size();
    let items = [String::from("one"), String::from("three")];
    stack.reserve_items(&items);
    let other = ColumnStack::<String>::default();
    stack.reserve_regions(&[&other]);
    let (used, cap) = stack.summed_heap_size();
    assert_eq!(stack.len(), 1);
    assert_eq!(stack.get(0).as_str(), "abc");
    assert!(cap >= cap_before);
    assert!(used <= cap);
}

// A destructured copy appends a record equal to the assembled tuple.
#[test]
fn copy_destructured_tuples() {
    let mut single: ColumnStack<(Option<String>,)> = ColumnStack::default();
    single.copy_destructured(&Some(String::from("test")));
    assert_eq!(single.get(0).0, Some(String::from("test")));

    let mut pair: ColumnStack<(String, u64)> = ColumnStack::default();
    pair.copy_destructured(&String::from("abc"), &7u64);
    assert_eq!(pair.get(0), &(String::from("abc"), 7u64));

    let mut triple: ColumnStack<(String, u64, Vec<u8>)> = ColumnStack::default();
    triple.copy_destructured(&String::from("abc"), &7u64, &vec![1u8, 2]);
    assert_eq!(triple.get(0), &(String::from("abc"), 7u64, vec![1u8, 2]));

    let mut quad: ColumnStack<(String, u64, bool, Option<u8>)> = ColumnStack::default();
    quad.copy_destructured(&String::from("abc"), &7u64, &true, &Some(9u8));
    assert_eq!(quad.get(0), &(String::from("abc"), 7u64, true, Some(9u8)));
}

// extend and from_iter replay copy over a slice of records, in order.
#[test]
fn extend_and_from_iter() {
    let items = [String::from("a"), String::from("bb"), String::from("ccc")];
    let mut stack = ColumnStack::<String>::from_iter(&items);
    assert_eq!(stack.as_slice(), &items);
    stack.extend(&items);
    assert_eq!(stack.len(), 6);
    assert_eq!(stack.get(5).as_str(), "ccc");
}

// Records of every pre-supplied leaf binding round-trip.
#[test]
fn leaf_bindings_round_trip() {
    let mut bools = ColumnStack::<bool>::default();
    bools.copy(&true);
    assert_eq!(*bools.get(0), true);

    let mut chars = ColumnStack::<char>::default();
    chars.copy(&'q');
    assert_eq!(*chars.get(0), 'q');

    let mut units = ColumnStack::<()>::default();
    units.copy(&());
    assert_eq!(units.len(), 1);

    let mut negatives = ColumnStack::<i128>::default();
    negatives.copy(&-5i128);
    assert_eq!(*negatives.get(0), -5i128);

    let mut times = ColumnStack::<std::time::Duration>::default();
    times.copy(&std::time::Duration::from_millis(250));
    assert_eq!(*times.get(0), std::time::Duration::from_millis(250));

    let mut results = ColumnStack::<Result<u8, String>>::default();
    results.copy(&Err(String::from("boom")));
    assert_eq!(results.get(0), &Err(String::from("boom")));
}

// The stable region grows by doubling from its previous capacity, clamped
// to the limit and raised to the requested count.
#[test]
fn stable_region_growth() {
    let mut region = StableRegion::<u8>::default();
    region.copy_slice(&[1u8]);
    let mut acc: Vec<(usize, usize)> = Vec::new();
    region.heap_size(&mut acc);
    // one active buffer of capacity 1, holding one byte; an empty stash
    assert_eq!(acc[0], (1, 1));
    assert_eq!(region.len(), 1);

    region.copy_slice(&[2u8, 3u8]);
    let mut acc: Vec<(usize, usize)> = Vec::new();
    region.heap_size(&mut acc);
    // the full buffer of capacity 1 was retired; the next doubles to 2,
    // then is raised to the requested count 2
    assert_eq!(acc[0], (2, 2));
    assert_eq!(region.len(), 3);

    // a region with a small limit still absorbs a larger slice whole
    let mut tight = StableRegion::<u8>::with_limit(4);
    tight.copy_slice(&[0u8; 20]);
    assert_eq!(tight.len(), 20);

    // copy_iter moves owned items in after everything already present
    let mut by_iter = StableRegion::<u64>::with_capacity(2);
    by_iter.copy_iter(vec![10u64, 20u64, 30u64]);
    assert_eq!(by_iter.len(), 3);
    by_iter.clear();
    assert_eq!(by_iter.len(), 0);
}

// Stacks compare by their surface records, index by index.
#[test]
fn stacks_compare_by_contents() {
    let mut a = ColumnStack::<u64>::default();
    let mut b = ColumnStack::<u64>::default();
    a.copy(&1u64);
    b.copy(&1u64);
    assert!(a == b);
    b.copy(&2u64);
    assert!(a != b);
}

// A region can be used on its own: pre-sized constructors, absorption,
// clear and the memory report.
#[test]
fn regions_standalone() {
    let a = String::from("hello");
    let b = String::from("world!");
    let mut region = StringStack::with_capacity_items(&[&a, &b]);
    let replica = region.copy(&a);
    assert_eq!(replica, a);
    let other = StringStack::new();
    let mut wide = StringStack::with_capacity_regions(&[&region, &other]);
    let replica = wide.copy(&b);
    assert_eq!(replica, b);
    region.clear();
    let mut acc: Vec<(usize, usize)> = Vec::new();
    region.heap_size(&mut acc);
    // after a clear the byte region reports its kept buffer and its stash
    assert_eq!(acc.len(), 2);
    assert_eq!(acc[0].0, 0);
}

// Cloning replays every record against a fresh region; clone_from re-fills
// an existing stack the same way.
#[test]
fn clone_replays_records() {
    let mut stack = ColumnStack::<Vec<String>>::default();
    stack.copy(&vec![String::from("ab"), String::from("cd")]);
    stack.copy(&vec![String::from("e")]);
    let copy = stack.clone();
    assert_eq!(copy.as_slice(), stack.as_slice());

    let mut other = ColumnStack::<Vec<String>>::default();
    other.copy(&vec![String::from("gone")]);
    other.clone_from(&stack);
    assert_eq!(other.as_slice(), stack.as_slice());
}

// Wrapping integers are plainly copyable leaves.
#[test]
fn wrapping_round_trip() {
    let mut stack = ColumnStack::<std::num::Wrapping<i8>>::default();
    stack.copy(&std::num::Wrapping(-3i8));
    assert_eq!(*stack.get(0), std::num::Wrapping(-3i8));

    let mut wide = ColumnStack::<(std::num::Wrapping<i64>, String)>::default();
    wide.copy(&(std::num::Wrapping(1i64 << 40), String::from("w")));
    assert_eq!(wide.get(0).0, std::num::Wrapping(1i64 << 40));
}

// A five-component destructured copy appends a record equal to the
// assembled tuple.
#[test]
fn copy_destructured_quintuple() {
    let mut five: ColumnStack<(u8, u16, u32, u64, String)> = ColumnStack::default();
    five.copy_destructured(&1u8, &2u16, &3u32, &4u64, &String::from("five"));
    assert_eq!(five.get(0), &(1u8, 2u16, 3u32, 4u64, String::from("five")));
}

// By default a buffer's doubling is unclamped: growth continues past the
// 2 MiB that a capped region would stop at.
#[test]
fn default_growth_unclamped() {
    let mut region = StableRegion::<u8>::default();
    region.copy_slice(&vec![0u8; 3 << 20]);
    region.copy_slice(&[1u8]);
    let mut acc: Vec<(usize, usize)> = Vec::new();
    region.heap_size(&mut acc);
    // the second buffer doubled to the next power of two above 3 MiB
    assert_eq!(acc[0].1, 4 << 20);
    assert_eq!(region.len(), (3 << 20) + 1);

    // a capped region stops doubling at its limit
    let mut capped = StableRegion::<u8>::with_limit(2 << 20);
    capped.copy_slice(&vec![0u8; 3 << 20]);
    capped.copy_slice(&[1u8]);
    let mut acc: Vec<(usize, usize)> = Vec::new();
    capped.heap_size(&mut acc);
    assert_eq!(acc[0].1, 2 << 20);
}
