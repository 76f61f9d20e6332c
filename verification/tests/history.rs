use sysmon::history::{RingHistory, HISTORY_CAPACITY};

fn filled(count: u32) -> RingHistory<u32> {
    let mut history = RingHistory::new();
    for value in 1..=count {
        history.push(value);
    }
    history
}

#[test]
fn new_history_is_empty_with_capacity_sixty() {
    let history: RingHistory<u32> = RingHistory::new();
    assert_eq!(HISTORY_CAPACITY, 60);
    assert_eq!(history.capacity(), 60);
    assert_eq!(history.len(), 0);
    assert!(history.is_empty());
    assert_eq!(history.get(0), None);
    assert!(history.as_sequence().is_empty());
}

#[test]
fn length_is_the_smaller_of_pushes_and_capacity() {
    for count in [0u32, 1, 2, 59, 60, 61, 62, 119, 120, 121, 500] {
        let history = filled(count);
        assert_eq!(history.len(), count.min(60) as usize, "after {} pushes", count);
    }
}

#[test]
fn oldest_retained_value_after_overflow() {
    for count in [61u32, 62, 100, 120, 121, 500] {
        let history = filled(count);
        // The values are 1, 2, 3, ..., so the k-th pushed value is k.
        assert_eq!(history.get(0), Some(&(count - 59)), "after {} pushes", count);
        assert_eq!(history.get(59), Some(&count));
        assert_eq!(history.get(60), None);
    }
}

#[test]
fn nothing_is_evicted_up_to_capacity() {
    let history = filled(60);
    assert_eq!(history.get(0), Some(&1));
    assert_eq!(history.get(59), Some(&60));
    let history = filled(61);
    assert_eq!(history.get(0), Some(&2));
}

#[test]
fn order_of_arrival_is_kept() {
    let mut history = RingHistory::with_capacity(3);
    for value in [7u32, 3, 9, 1, 4] {
        history.push(value);
    }
    assert_eq!(history.as_sequence(), vec![(0, 9), (1, 1), (2, 4)]);
}

#[test]
fn sequence_positions_restart_at_the_oldest_sample() {
    let history = filled(61);
    let pairs = history.as_sequence();
    assert_eq!(pairs.len(), 60);
    assert_eq!(pairs[0], (0, 2));
    assert_eq!(pairs[59], (59, 61));
    for (position, pair) in pairs.iter().enumerate() {
        assert_eq!(*pair, (position, position as u32 + 2));
    }
    // The sequence can be taken again and is the same.
    assert_eq!(history.as_sequence(), pairs);
}

#[test]
fn capacity_is_fixed_at_construction() {
    let mut history = RingHistory::with_capacity(2);
    assert_eq!(history.capacity(), 2);
    for value in 0..10u64 {
        history.push(value);
        assert_eq!(history.capacity(), 2);
        assert!(history.len() <= 2);
    }
    assert_eq!(history.as_sequence(), vec![(0, 8), (1, 9)]);
}

#[test]
fn history_without_capacity_retains_nothing() {
    let mut history = RingHistory::with_capacity(0);
    history.push(1u8);
    history.push(2u8);
    assert_eq!(history.len(), 0);
    assert!(history.is_empty());
    assert_eq!(history.get(0), None);
}

#[test]
fn history_of_one_keeps_the_newest() {
    let mut history = RingHistory::with_capacity(1);
    history.push('a');
    assert_eq!(history.get(0), Some(&'a'));
    history.push('b');
    assert_eq!(history.len(), 1);
    assert_eq!(history.get(0), Some(&'b'));
}
