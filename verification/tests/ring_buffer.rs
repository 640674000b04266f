//! Ring-buffer retention: after pushing at least a window of samples, the
//! buffer is full and linearizes to exactly the last window in push order.
use scamble::ring::{
    copy_contiguous, notes_get, notes_len, notes_new, notes_pop_front, notes_push_back,
    notes_remove, ring_extend, ring_is_full, ring_new, WINDOW,
};

#[test]
fn ring_keeps_last_window_in_push_order() {
    let mut ring = ring_new();
    let pushed: Vec<i64> = (0..5000).collect();
    ring_extend(&mut ring, &pushed);
    assert!(ring_is_full(&ring));
    let mut flat = vec![0i64; WINDOW];
    copy_contiguous(&ring, &mut flat);
    for i in 0..WINDOW {
        assert_eq!(flat[i], (5000 - WINDOW + i) as i64);
    }
}

#[test]
fn ring_not_full_before_window_elapses() {
    let mut ring = ring_new();
    let pushed: Vec<i64> = vec![7; WINDOW - 1];
    ring_extend(&mut ring, &pushed);
    assert!(!ring_is_full(&ring));
    let rest: Vec<i64> = vec![9; 1];
    ring_extend(&mut ring, &rest);
    assert!(ring_is_full(&ring));
}

#[test]
fn ring_accumulates_across_extends() {
    let mut ring = ring_new();
    for block in 0..5 {
        let data: Vec<i64> = vec![block as i64; 1024];
        ring_extend(&mut ring, &data);
    }
    let mut flat = vec![0i64; WINDOW];
    copy_contiguous(&ring, &mut flat);
    // blocks 1..=4 remain, block 0 was evicted
    assert_eq!(flat[0], 1);
    assert_eq!(flat[1023], 1);
    assert_eq!(flat[1024], 2);
    assert_eq!(flat[4095], 4);
}

#[test]
fn note_queue_is_fifo_with_eviction() {
    let mut q = notes_new();
    for k in 0..8 {
        notes_push_back(&mut q, (k, k + 10));
    }
    assert_eq!(notes_len(&q), 8);
    // at capacity, pushing evicts the oldest
    notes_push_back(&mut q, (100, 200));
    assert_eq!(notes_len(&q), 8);
    assert_eq!(notes_get(&q, 0), (1, 11));
    assert_eq!(notes_get(&q, 7), (100, 200));
    assert_eq!(notes_pop_front(&mut q), Some((1, 11)));
    assert_eq!(notes_len(&q), 7);
    notes_remove(&mut q, 1);
    assert_eq!(notes_get(&q, 1), (4, 14));
}
