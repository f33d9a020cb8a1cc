use ringbuffer::ring::{make, Empty, Full, RingBuffer};

#[test]
fn new_buffer_is_empty() {
    let b: RingBuffer<u32> = RingBuffer::new(4);
    assert_eq!(b.len(), 0);
    assert_eq!(b.capacity(), 4);
    assert!(b.is_empty());
    assert!(!b.is_full());
    assert!(!b.full());
}

#[test]
fn push_then_pop_returns_value() {
    let mut b: RingBuffer<u32> = RingBuffer::new(3);
    assert!(b.push(7).is_ok());
    assert_eq!(b.len(), 1);
    assert_eq!(b.pop(), Ok(7));
    assert_eq!(b.len(), 0);
}

#[test]
fn push_into_full_fails_and_returns_value_back() {
    let mut b: RingBuffer<u32> = RingBuffer::new(2);
    assert!(b.push(1).is_ok());
    assert!(b.push(2).is_ok());
    match b.push(3) {
        Err(Full(v)) => assert_eq!(v, 3),
        Ok(()) => panic!("push into a full buffer must fail"),
    }
    // The occupied contents are unchanged by the failed push.
    assert_eq!(b.len(), 2);
    assert_eq!(b.pop(), Ok(1));
    assert_eq!(b.pop(), Ok(2));
}

#[test]
fn pop_empty_fails_and_leaves_buffer_unchanged() {
    let mut b: RingBuffer<u32> = RingBuffer::new(3);
    assert_eq!(b.pop(), Err(Empty));
    assert_eq!(b.len(), 0);
    assert_eq!(b.capacity(), 3);
    // The buffer still works normally after the failed pop.
    assert!(b.push(7).is_ok());
    assert_eq!(b.pop(), Ok(7));
    assert_eq!(b.pop(), Err(Empty));
}

#[test]
fn fifo_order() {
    let mut b: RingBuffer<u32> = RingBuffer::new(5);
    let vals = [3u32, 1, 4, 1, 5];
    for v in vals {
        assert!(b.push(v).is_ok());
    }
    for v in vals {
        assert_eq!(b.pop(), Ok(v));
    }
}

#[test]
fn round_trip_fills_then_drains_to_empty() {
    let mut b: RingBuffer<u32> = RingBuffer::new(4);
    let vals = [9u32, 8, 7, 6];
    for v in vals {
        assert!(b.push(v).is_ok());
    }
    assert!(b.is_full());
    for v in vals {
        assert_eq!(b.pop(), Ok(v));
    }
    assert!(b.is_empty());
    assert_eq!(b.len(), 0);
}

#[test]
fn wraparound_with_capacity_three() {
    let mut b: RingBuffer<u32> = RingBuffer::new(3);
    assert!(b.push(10).is_ok());
    assert!(b.push(11).is_ok());
    assert!(b.push(12).is_ok());
    assert!(b.is_full());
    assert_eq!(b.len(), 3);
    match b.push(13) {
        Err(Full(v)) => assert_eq!(v, 13),
        Ok(()) => panic!("push into a full buffer must fail"),
    }
    assert_eq!(b.pop(), Ok(10));
    assert_eq!(b.len(), 2);
    assert!(b.push(13).is_ok());
    assert_eq!(b.len(), 3);
    assert_eq!(b.pop(), Ok(11));
    assert_eq!(b.pop(), Ok(12));
    assert_eq!(b.pop(), Ok(13));
    assert_eq!(b.pop(), Err(Empty));
}

#[test]
fn capacity_one_buffer_alternates() {
    let mut b: RingBuffer<u32> = RingBuffer::new(1);
    assert_eq!(b.pop(), Err(Empty));
    assert!(b.push(1).is_ok());
    assert!(b.is_full());
    assert!(matches!(b.push(2), Err(Full(2))));
    assert_eq!(b.pop(), Ok(1));
    assert!(b.push(3).is_ok());
    assert_eq!(b.pop(), Ok(3));
    assert_eq!(b.pop(), Err(Empty));
}

#[test]
fn relocation_preserves_contents() {
    // Returned by value from a callee, then moved again locally.
    let r = make();
    let moved = r;
    assert_eq!(moved.len(), 2);
    assert_eq!(moved.capacity(), 3);
    // Moved into a container and used from there.
    let mut holder: Vec<RingBuffer<u32>> = Vec::new();
    holder.push(moved);
    let b = &mut holder[0];
    assert_eq!(b.pop(), Ok(10));
    assert_eq!(b.pop(), Ok(11));
    assert_eq!(b.pop(), Err(Empty));
}

#[test]
fn relocation_after_wraparound() {
    let mut b: RingBuffer<u32> = RingBuffer::new(2);
    assert!(b.push(1).is_ok());
    assert!(b.push(2).is_ok());
    assert_eq!(b.pop(), Ok(1));
    assert!(b.push(3).is_ok());
    // The tail has wrapped; moving the buffer must not disturb anything.
    let mut moved = b;
    assert_eq!(moved.pop(), Ok(2));
    assert_eq!(moved.pop(), Ok(3));
    assert_eq!(moved.pop(), Err(Empty));
}

#[test]
fn make_builds_loaded_buffer() {
    let mut b = make();
    assert_eq!(b.capacity(), 3);
    assert_eq!(b.len(), 2);
    assert_eq!(b.pop(), Ok(10));
    assert_eq!(b.pop(), Ok(11));
    assert!(b.is_empty());
}

#[test]
fn capacity_len_accounting() {
    let mut b: RingBuffer<u32> = RingBuffer::new(3);
    let mut step: u32 = 0;
    while step < 5 {
        assert_eq!(b.len() + (b.capacity() - b.len()), b.capacity());
        assert_eq!(b.is_full(), b.len() == b.capacity());
        assert_eq!(b.is_empty(), b.len() == 0);
        assert_eq!(b.full(), b.is_full());
        assert!(b.push(step).is_ok() || b.is_full());
        step += 1;
    }
    assert!(b.is_full());
    assert_eq!(b.len() + (b.capacity() - b.len()), b.capacity());
}

#[test]
fn peek_returns_oldest_without_removing() {
    let mut b: RingBuffer<u32> = RingBuffer::new(3);
    assert!(b.peek().is_none());
    assert!(b.push(42).is_ok());
    assert_eq!(b.peek(), Some(&42));
    assert_eq!(b.len(), 1);
    assert!(b.push(43).is_ok());
    assert_eq!(b.peek(), Some(&42));
    assert_eq!(b.pop(), Ok(42));
    assert_eq!(b.peek(), Some(&43));
}

#[test]
fn owned_values_move_through() {
    let mut b: RingBuffer<String> = RingBuffer::new(2);
    assert!(b.push(String::from("first")).is_ok());
    assert!(b.push(String::from("second")).is_ok());
    match b.push(String::from("third")) {
        Err(Full(v)) => assert_eq!(v, "third"),
        Ok(()) => panic!("push into a full buffer must fail"),
    }
    assert_eq!(b.pop(), Ok(String::from("first")));
    assert_eq!(b.pop(), Ok(String::from("second")));
    assert_eq!(b.pop(), Err(Empty));
}
