use hashoverlay::ring_buffer::RingBuffer;

#[test]
fn preserves_insertion_order_before_wrap() {
    let mut buffer = RingBuffer::new(3);
    buffer.push(1);
    buffer.push(2);

    assert_eq!(buffer.iter().into_iter().copied().collect::<Vec<_>>(), vec![1, 2]);
}

#[test]
fn overwrites_oldest_item_after_wrap() {
    let mut buffer = RingBuffer::new(3);
    buffer.push(1);
    buffer.push(2);
    buffer.push(3);
    buffer.push(4);

    assert_eq!(buffer.len(), 3);
    assert_eq!(buffer.iter().into_iter().copied().collect::<Vec<_>>(), vec![2, 3, 4]);
}

#[test]
fn exposes_latest_item() {
    let mut buffer = RingBuffer::new(2);
    assert_eq!(buffer.latest(), None);

    buffer.push("first");
    buffer.push("second");
    buffer.push("third");

    assert_eq!(buffer.latest(), Some(&"third"));
    assert!(buffer.is_full());
}

#[test]
fn clear_resets_buffer_without_changing_capacity() {
    let mut buffer = RingBuffer::new(2);
    buffer.push(1);
    buffer.push(2);

    buffer.clear();

    assert_eq!(buffer.capacity(), 2);
    assert!(buffer.is_empty());
    assert_eq!(buffer.iter().len(), 0);
}
