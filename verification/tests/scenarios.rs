use ring_buffer::Error;
use ring_buffer::RingBuffer;

#[test]
fn default_is_empty() {
    let buffer = RingBuffer::<u32, 4>::default();
    assert!(buffer.is_empty());
    assert!(!buffer.is_full());
    assert_eq!(0, buffer.len());
}

#[test]
fn capacity_invariant_holds_throughout() {
    let mut buffer = RingBuffer::<u8, 3>::new();
    assert!(buffer.is_empty() == (buffer.len() == 0));
    assert!(buffer.is_full() == (buffer.len() == 3));
    for value in 0..10 {
        buffer.push_overwrite(value);
        assert!(buffer.len() <= 3);
        assert!(buffer.is_full() == (buffer.len() == 3));
        assert!(buffer.is_empty() == (buffer.len() == 0));
    }
    while buffer.pop().is_some() {
        assert!(buffer.len() <= 3);
        assert!(buffer.is_empty() == (buffer.len() == 0));
    }
}

#[test]
fn fifo_order_distinct_values() {
    let mut buffer = RingBuffer::<u64, 8>::new();
    for value in [11, 22, 33, 44, 55] {
        assert!(buffer.push_unless_full(value).is_ok());
    }
    for value in [11, 22, 33, 44, 55] {
        assert_eq!(Some(value), buffer.pop());
    }
    assert!(buffer.is_empty());
}

#[test]
fn overwrite_wrapped_window_is_fifo() {
    let mut buffer = RingBuffer::<u32, 4>::new();
    for value in 1..=4 {
        assert!(buffer.push_overwrite(value).is_none());
    }
    assert_eq!(Some(1), buffer.push_overwrite(5));
    assert_eq!(Some(2), buffer.push_overwrite(6));
    assert_eq!(Some(3), buffer.push_overwrite(7));
    assert_eq!(Some(4), buffer.push_overwrite(8));
    assert_eq!(4, buffer.len());
    assert!(buffer.is_full());

    let mut iter = buffer.iter();
    assert_eq!(Some(&5), iter.next());
    assert_eq!(Some(&6), iter.next());
    assert_eq!(Some(&7), iter.next());
    assert_eq!(Some(&8), iter.next());
    assert_eq!(None, iter.next());

    for expected in [5, 6, 7, 8] {
        assert_eq!(Some(expected), buffer.pop());
    }
    assert!(buffer.is_empty());
}

#[test]
fn reject_leaves_buffer_unchanged() {
    let mut buffer = RingBuffer::<u32, 4>::new();
    for value in [1, 2, 3, 4] {
        assert!(buffer.push_unless_full(value).is_ok());
    }
    assert!(matches!(buffer.push_unless_full(5), Err(Error::BufferFull)));
    assert_eq!(4, buffer.len());
    let mut iter = buffer.iter();
    assert_eq!(Some(&1), iter.next());
    assert_eq!(Some(&2), iter.next());
    assert_eq!(Some(&3), iter.next());
    assert_eq!(Some(&4), iter.next());
    assert_eq!(None, iter.next());

    assert_eq!(Some(1), buffer.pop());
    assert_eq!(3, buffer.len());
    assert!(buffer.push_unless_full(5).is_ok());
    for expected in [2, 3, 4, 5] {
        assert_eq!(Some(expected), buffer.pop());
    }
}

#[test]
fn capacity_one_round_trip() {
    let mut buffer = RingBuffer::<u8, 1>::new();
    assert!(buffer.push_overwrite(1).is_none());
    assert!(buffer.is_full());
    assert_eq!(1, buffer.len());
    assert_eq!(Some(1), buffer.pop());
    assert!(buffer.is_empty());
    assert!(buffer.push_overwrite(2).is_none());
    assert_eq!(Some(2), buffer.push_overwrite(3));
    assert_eq!(1, buffer.len());
    let mut iter = buffer.iter();
    assert_eq!(Some(&3), iter.next());
    assert_eq!(None, iter.next());
    assert_eq!(Some(3), buffer.pop());
}

#[test]
fn peek_matches_pop_without_mutation() {
    let mut buffer = RingBuffer::<u8, 4>::new();
    assert_eq!(None, buffer.peek());
    assert_eq!(None, buffer.peek());
    buffer.push_overwrite(7);
    buffer.push_overwrite(8);
    assert_eq!(Some(&7), buffer.peek());
    assert_eq!(Some(&7), buffer.peek());
    assert_eq!(2, buffer.len());
    assert_eq!(Some(7), buffer.pop());
    assert_eq!(Some(&8), buffer.peek());
}

#[test]
fn pop_many_short_buffer() {
    let mut buffer = RingBuffer::<u8, 8>::new();
    buffer.push_overwrite(9);
    buffer.push_overwrite(10);

    let dest = &mut [0, 0, 0, 0, 0];
    assert_eq!(2, buffer.pop_many(dest));
    assert_eq!(dest, &[9, 10, 0, 0, 0]);
    assert!(buffer.is_empty());
}

#[test]
fn pop_many_empty_destination() {
    let mut buffer = RingBuffer::<u8, 4>::new();
    buffer.push_overwrite(1);
    let dest: &mut [u8] = &mut [];
    assert_eq!(0, buffer.pop_many(dest));
    assert_eq!(1, buffer.len());
}

#[test]
fn pop_many_across_wrap() {
    let mut buffer = RingBuffer::<u16, 4>::new();
    for value in [1, 2, 3, 4, 5, 6] {
        buffer.push_overwrite(value);
    }

    let dest = &mut [0, 0, 0, 0];
    assert_eq!(4, buffer.pop_many(dest));
    assert_eq!(dest, &[3, 4, 5, 6]);
}

#[test]
fn consuming_and_borrowing_traversals_agree() {
    let mut buffer = RingBuffer::<u8, 8>::new();
    buffer.push_overwrite(3);
    buffer.push_overwrite(1);
    buffer.push_overwrite(2);

    let mut borrowed = Vec::new();
    let mut iter = buffer.iter();
    while let Some(elem) = iter.next() {
        borrowed.push(*elem);
    }
    assert_eq!(3, buffer.len());

    let mut consumed = Vec::new();
    let mut into_iter = buffer.into_iter();
    while let Some(elem) = into_iter.next() {
        consumed.push(elem);
    }
    assert_eq!(vec![3, 1, 2], borrowed);
    assert_eq!(borrowed, consumed);
}
