use arena_alloc::{Arena, ArenaBox};
use std::cell::Cell;
use std::rc::Rc;

/// A value whose destructor records that it ran.
struct DropCounter {
    drops: Rc<Cell<usize>>,
}

impl Drop for DropCounter {
    fn drop(&mut self) {
        self.drops.set(self.drops.get() + 1);
    }
}

#[test]
fn arena_lifecycle_various_lengths() {
    for length in [1usize, 2, 16, 512, 4096] {
        let arena = Arena::new(length);
        drop(arena);
    }
}

#[test]
fn inserts_within_capacity_all_succeed() {
    let mut arena = Arena::new(64);
    let mut cursor = arena.begin_alloc();

    let mut handles = Vec::new();
    for i in 0..8u64 {
        match cursor.try_insert(i * 11) {
            Ok(handle) => handles.push(handle),
            Err(_) => panic!("insertion {} should fit in 64 bytes", i),
        }
    }
    for (i, handle) in handles.iter().enumerate() {
        assert_eq!(*handle.as_ref(), i as u64 * 11);
    }
}

#[test]
fn over_allocation_fails_only_at_boundary() {
    let mut arena = Arena::new(16);
    let mut cursor = arena.begin_alloc();

    let first = cursor.try_insert(1u64).ok().expect("first u64 fits");
    let second = cursor.try_insert(2u64).ok().expect("second u64 fits");

    // The insertion that would cross the boundary fails, and the caller
    // keeps the value.
    let third = cursor.try_insert(3u64);
    assert_eq!(third.err(), Some(3u64));

    // Earlier allocations are untouched by the failure.
    assert_eq!(*first.as_ref(), 1);
    assert_eq!(*second.as_ref(), 2);
}

#[test]
fn addresses_are_aligned() {
    let mut arena = Arena::new(128);
    let mut cursor = arena.begin_alloc();

    let a = cursor.insert(1u8);
    let b = cursor.insert(2u64);
    let c = cursor.insert(3u8);
    let d = cursor.insert(4u16);
    let e = cursor.insert(5u32);

    assert_eq!(a.as_ptr() % std::mem::align_of::<u8>(), 0);
    assert_eq!(b.as_ptr() % std::mem::align_of::<u64>(), 0);
    assert_eq!(c.as_ptr() % std::mem::align_of::<u8>(), 0);
    assert_eq!(d.as_ptr() % std::mem::align_of::<u16>(), 0);
    assert_eq!(e.as_ptr() % std::mem::align_of::<u32>(), 0);

    // With one byte claimed, an eight-byte value is pushed to the next
    // multiple of its alignment.
    assert_eq!(b.as_ptr(), std::mem::align_of::<u64>());
}

#[test]
fn generation_reuse_same_bytes() {
    let mut arena = Arena::new(32);

    let first_ptrs: Vec<usize> = {
        let mut cursor = arena.begin_alloc();
        let handles: Vec<ArenaBox<u64>> = (0..4u64).map(|v| cursor.insert(v)).collect();
        handles.iter().map(|h| h.as_ptr()).collect()
    };

    // Every handle from the first generation is gone; the next cursor hands
    // out the same addresses again, and only the new values are observable.
    let mut cursor = arena.begin_alloc();
    let handles: Vec<ArenaBox<u64>> = (10..14u64).map(|v| cursor.insert(v)).collect();
    let second_ptrs: Vec<usize> = handles.iter().map(|h| h.as_ptr()).collect();

    assert_eq!(first_ptrs, second_ptrs);
    for (i, handle) in handles.iter().enumerate() {
        assert_eq!(*handle.as_ref(), 10 + i as u64);
    }
}

#[test]
fn bulk_insert_yields_all_elements_in_order() {
    let mut arena = Arena::new(4096);
    let mut cursor = arena.begin_alloc();

    let slice = cursor
        .try_insert_all((0..100u32).map(|v| v * 3))
        .expect("one hundred u32 values fit in 4096 bytes");
    assert_eq!(slice.len(), 100);
    assert_eq!(slice.as_ptr() % std::mem::align_of::<u32>(), 0);
    for i in 0..100usize {
        assert_eq!(*slice.get(i), i as u32 * 3);
    }
}

#[test]
fn bulk_insert_failure_drops_every_materialized_element() {
    let size = std::mem::size_of::<DropCounter>();
    // Room for exactly three elements, with one spare byte so the fourth
    // is the insertion that crosses the boundary.
    let mut arena = Arena::new(3 * size + 1);
    let mut cursor = arena.begin_alloc();

    let drops = Rc::new(Cell::new(0));
    let result = cursor.try_insert_all((0..5).map(|_| DropCounter { drops: Rc::clone(&drops) }));
    assert!(result.is_none());

    // Three elements were inserted and one more was built before its
    // allocation failed; all four ran their destructors, and the fifth was
    // never materialized.
    assert_eq!(drops.get(), 4);
}

#[test]
fn bulk_insert_success_drops_each_element_once() {
    let mut arena = Arena::new(256);
    let mut cursor = arena.begin_alloc();

    let drops = Rc::new(Cell::new(0));
    let slice = cursor
        .try_insert_all((0..3).map(|_| DropCounter { drops: Rc::clone(&drops) }))
        .expect("three elements fit");
    assert_eq!(drops.get(), 0);
    drop(slice);
    assert_eq!(drops.get(), 3);
}

#[test]
fn raw_round_trip_preserves_value_and_address() {
    let mut arena = Arena::new(64);
    let mut cursor = arena.begin_alloc();

    let handle = cursor.insert(String::from("carved"));
    let ptr = handle.as_ptr();

    let raw = handle.into_raw();
    assert_eq!(raw.as_ptr(), ptr);
    assert_eq!(raw.as_ref(), "carved");

    let handle = ArenaBox::from_raw(raw);
    assert_eq!(handle.as_ptr(), ptr);
    assert_eq!(handle.as_ref(), "carved");
}

#[test]
fn raw_round_trip_runs_destructor_once() {
    let drops = Rc::new(Cell::new(0));
    let mut arena = Arena::new(64);
    let mut cursor = arena.begin_alloc();

    let handle = cursor.insert(DropCounter { drops: Rc::clone(&drops) });
    let raw = handle.into_raw();
    assert_eq!(drops.get(), 0);
    let handle = ArenaBox::from_raw(raw);
    assert_eq!(drops.get(), 0);
    drop(handle);
    assert_eq!(drops.get(), 1);
}

#[test]
fn zero_sized_values_consume_no_capacity() {
    let mut arena = Arena::new(1);
    let mut cursor = arena.begin_alloc();

    // A one-byte arena serves any number of zero-sized values.
    for _ in 0..1000 {
        assert!(cursor.try_insert(()).is_ok());
    }
    let slice = cursor.insert_slice(&[(); 100]);
    assert_eq!(slice.len(), 100);

    // The whole byte is still available afterwards.
    let byte = cursor.try_insert(7u8).ok().expect("the byte is untouched");
    assert_eq!(*byte.as_ref(), 7);

    // And a full arena still accepts zero-sized values.
    assert!(cursor.try_insert(()).is_ok());
}

#[test]
fn leak_hands_the_value_back_without_dropping_twice() {
    let drops = Rc::new(Cell::new(0));
    let mut arena = Arena::new(64);
    let mut cursor = arena.begin_alloc();

    let handle = cursor.insert(DropCounter { drops: Rc::clone(&drops) });
    let value = handle.leak();
    assert_eq!(drops.get(), 0);
    drop(value);
    assert_eq!(drops.get(), 1);
}

#[test]
fn layout_requests_round_head_up() {
    let mut arena = Arena::new(100);
    let mut cursor = arena.begin_alloc();

    assert_eq!(cursor.try_alloc_layout(10, 4), Some(0));
    // The head stands at 10; a four-aligned request starts at 12.
    assert_eq!(cursor.try_alloc_layout(5, 4), Some(12));
    // The head stands at 17; an eight-aligned request starts at 24.
    assert_eq!(cursor.try_alloc_layout(8, 8), Some(24));
    // 68 bytes remain past offset 32; 69 no longer fit.
    assert_eq!(cursor.try_alloc_layout(69, 1), None);
    assert_eq!(cursor.try_alloc_layout(68, 1), Some(32));
    // The arena is now exactly full.
    assert_eq!(cursor.try_alloc_layout(1, 1), None);
    assert_eq!(cursor.try_alloc_layout(0, 1), Some(1));
}

#[test]
fn raw_allocation_addresses() {
    let mut arena = Arena::new(32);
    let mut cursor = arena.begin_alloc();

    let a = cursor.try_alloc::<u64>().expect("an eight-byte value fits");
    assert_eq!(a, 0);
    let b = cursor.allocate::<u8>();
    assert_eq!(b, std::mem::size_of::<u64>());
    // A thirty-two byte request no longer fits behind the nine claimed bytes.
    assert!(cursor.try_alloc::<[u64; 4]>().is_none());
}

#[test]
fn insert_with_builds_the_value_in_place() {
    let mut arena = Arena::new(64);
    let mut cursor = arena.begin_alloc();

    let handle = cursor.insert_with(|| 6u32 * 7);
    assert_eq!(*handle.as_ref(), 42);

    let tried = cursor.try_insert_with(|| String::from("late"));
    assert_eq!(tried.map(|h| h.leak()), Some(String::from("late")));
}

#[test]
fn try_insert_with_never_runs_producer_on_failure() {
    let mut arena = Arena::new(8);
    let mut cursor = arena.begin_alloc();
    cursor.insert(1u64);

    let ran = Rc::new(Cell::new(false));
    let ran_inner = Rc::clone(&ran);
    let tried = cursor.try_insert_with(move || {
        ran_inner.set(true);
        2u64
    });
    assert!(tried.is_none());
    assert!(!ran.get());
}

#[test]
fn mutation_through_handles() {
    let mut arena = Arena::new(64);
    let mut cursor = arena.begin_alloc();

    let mut handle = cursor.insert(10u64);
    *handle.as_mut() += 5;
    assert_eq!(*handle.as_ref(), 15);

    let mut slice = cursor.insert_slice(&[1u8, 2, 3]);
    *slice.get_mut(1) = 20;
    assert_eq!(slice.as_slice(), &[1u8, 20, 3]);
    assert!(!slice.is_empty());
}
