use algorithms::{LinkedListAsVec, ListError};

#[test]
fn new_container_is_empty() {
    let c: LinkedListAsVec<i32> = LinkedListAsVec::new();
    assert_eq!(c.len(), 0);
    assert!(c.is_empty());
    assert_eq!(c.get(0), None);
    assert_eq!(c.peek(), None);
}

#[test]
fn push_back_run_keeps_order() {
    let mut c: LinkedListAsVec<i32> = LinkedListAsVec::new();
    let values = [3, 1, 4, 1, 5, 9, 2, 6];
    for (k, v) in values.iter().enumerate() {
        c.push_back(*v);
        assert_eq!(c.len() as usize, k + 1);
    }
    assert_eq!(c.len() as usize, values.len());
    for (k, v) in values.iter().enumerate() {
        assert_eq!(c.get(k as u32), Some(v));
    }
}

#[test]
fn push_front_then_pop_back_same_value_is_noop() {
    let mut c: LinkedListAsVec<i32> = LinkedListAsVec::new();
    for _round in 0..5 {
        c.push_front(7);
        assert_eq!(c.pop_back(), Some(7));
        assert_eq!(c.len(), 0);
    }
    assert!(c.is_empty());
}

#[test]
fn front_insert_back_remove_is_fifo() {
    let mut c: LinkedListAsVec<i32> = LinkedListAsVec::new();
    for v in 1..=6 {
        c.push_front(v);
    }
    for v in 1..=6 {
        assert_eq!(c.pop_back(), Some(v));
    }
    assert!(c.is_empty());
}

#[test]
fn insert_at_len_matches_push_back() {
    let mut by_insert: LinkedListAsVec<i32> = LinkedListAsVec::new();
    let mut by_push: LinkedListAsVec<i32> = LinkedListAsVec::new();
    for v in [10, 20, 30] {
        let at = by_insert.len();
        assert_eq!(by_insert.insert_at_index(at, v), Ok(()));
        by_push.push_back(v);
    }
    assert_eq!(by_insert.len(), by_push.len());
    for k in 0..by_push.len() {
        assert_eq!(by_insert.get(k), by_push.get(k));
    }
}

#[test]
fn insert_at_zero_matches_push_front() {
    let mut by_insert: LinkedListAsVec<i32> = LinkedListAsVec::new();
    let mut by_push: LinkedListAsVec<i32> = LinkedListAsVec::new();
    for v in [10, 20, 30] {
        assert_eq!(by_insert.insert_at_index(0, v), Ok(()));
        by_push.push_front(v);
    }
    assert_eq!(by_insert.len(), by_push.len());
    for k in 0..by_push.len() {
        assert_eq!(by_insert.get(k), by_push.get(k));
    }
}

#[test]
fn remove_shifts_successor_into_place() {
    let mut c: LinkedListAsVec<i32> = LinkedListAsVec::new();
    for v in [1, 2, 3, 4] {
        c.push_back(v);
    }
    let previously_after = *c.get(2).unwrap();
    assert_eq!(c.remove(1), Ok(2));
    assert_eq!(c.get(1), Some(&previously_after));
    assert_eq!(c.len(), 3);
}

#[test]
fn out_of_range_queries_yield_absence() {
    let mut c: LinkedListAsVec<i32> = LinkedListAsVec::new();
    c.push_back(1);
    c.push_back(2);
    assert_eq!(c.get(2), None);
    assert_eq!(c.get(100), None);
}

#[test]
fn out_of_bounds_insert_and_remove_fail() {
    let mut c: LinkedListAsVec<i32> = LinkedListAsVec::new();
    c.push_back(1);
    c.push_back(2);
    assert_eq!(c.insert_at_index(3, 9), Err(ListError::IndexOutOfBounds));
    assert_eq!(c.remove(2), Err(ListError::IndexOutOfBounds));
    assert_eq!(c.remove(17), Err(ListError::IndexOutOfBounds));
    // the failed operations leave the container untouched
    assert_eq!(c.len(), 2);
    assert_eq!(c.get(0), Some(&1));
    assert_eq!(c.get(1), Some(&2));
}

#[test]
fn fully_drained_container_reports_empty() {
    let mut c: LinkedListAsVec<i32> = LinkedListAsVec::new();
    for v in [5, 6, 7] {
        c.push_back(v);
    }
    while c.pop_back().is_some() {}
    assert!(c.is_empty());
    assert_eq!(c.pop_back(), None);
    assert_eq!(c.peek(), None);
}

#[test]
fn mixed_operation_scenario() {
    let mut c: LinkedListAsVec<i32> = LinkedListAsVec::new();
    c.push_back(10);
    c.push_back(20);
    c.push_back(30);
    assert_eq!(c.len(), 3);
    assert_eq!(c.pop_back(), Some(30));
    assert_eq!(c.len(), 2);
    c.push_front(5);
    assert_eq!(c.get(0), Some(&5));
    assert_eq!(c.get(1), Some(&10));
    assert_eq!(c.get(2), Some(&20));
    assert_eq!(c.insert_at_index(1, 99), Ok(()));
    assert_eq!(c.get(0), Some(&5));
    assert_eq!(c.get(1), Some(&99));
    assert_eq!(c.get(2), Some(&10));
    assert_eq!(c.get(3), Some(&20));
    assert_eq!(c.remove(2), Ok(10));
    assert_eq!(c.len(), 3);
    assert_eq!(c.get(0), Some(&5));
    assert_eq!(c.get(1), Some(&99));
    assert_eq!(c.get(2), Some(&20));
}

#[test]
fn peek_tracks_the_back() {
    let mut c: LinkedListAsVec<u64> = LinkedListAsVec::new();
    c.push_back(1);
    assert_eq!(c.peek(), Some(&1));
    c.push_back(2);
    assert_eq!(c.peek(), Some(&2));
    c.push_front(0);
    assert_eq!(c.peek(), Some(&2));
    assert_eq!(c.pop_back(), Some(2));
    assert_eq!(c.peek(), Some(&1));
}
