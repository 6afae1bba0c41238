use uart_core::queue::ByteQueue;
use uart_core::ring::RingBuffer;

#[test]
fn byte_queue_keeps_fifo_order() {
    let mut q = ByteQueue::new(4);
    assert_eq!(q.push_back(10), Ok(()));
    assert_eq!(q.push_back(20), Ok(()));
    assert_eq!(q.push_back(30), Ok(()));
    assert_eq!(q.pop_front(), Some(10));
    assert_eq!(q.push_back(40), Ok(()));
    assert_eq!(q.pop_front(), Some(20));
    assert_eq!(q.pop_front(), Some(30));
    assert_eq!(q.pop_front(), Some(40));
    assert_eq!(q.pop_front(), None);
}

#[test]
fn byte_queue_length_never_exceeds_cap() {
    let mut q = ByteQueue::new(2);
    assert_eq!(q.push_back(1), Ok(()));
    assert_eq!(q.push_back(2), Ok(()));
    // at cap: production fails and hands the byte back
    assert_eq!(q.push_back(3), Err(3));
    assert_eq!(q.len(), 2);
    // one consumption makes room again
    assert_eq!(q.pop_front(), Some(1));
    assert_eq!(q.push_back(3), Ok(()));
    assert_eq!(q.len(), 2);
}

#[test]
fn byte_queue_with_zero_cap_rejects_everything() {
    let mut q = ByteQueue::new(0);
    assert_eq!(q.push_back(7), Err(7));
    assert_eq!(q.pop_front(), None);
    assert!(q.is_empty());
}

#[test]
fn ring_buffer_keeps_fifo_order() {
    let mut rb = RingBuffer::new(4);
    assert_eq!(rb.enqueue(1), Ok(()));
    assert_eq!(rb.enqueue(2), Ok(()));
    assert_eq!(rb.dequeue(), Some(1));
    assert_eq!(rb.enqueue(3), Ok(()));
    assert_eq!(rb.enqueue(4), Ok(()));
    assert_eq!(rb.enqueue(5), Ok(()));
    assert_eq!(rb.dequeue(), Some(2));
    assert_eq!(rb.dequeue(), Some(3));
    assert_eq!(rb.dequeue(), Some(4));
    assert_eq!(rb.dequeue(), Some(5));
    assert_eq!(rb.dequeue(), None);
}

#[test]
fn ring_buffer_blocks_at_capacity_until_consumption() {
    let mut rb = RingBuffer::new(3);
    assert_eq!(rb.enqueue(1), Ok(()));
    assert_eq!(rb.enqueue(2), Ok(()));
    assert_eq!(rb.enqueue(3), Ok(()));
    assert!(rb.is_full());
    assert_eq!(rb.enqueue(4), Err(4));
    assert_eq!(rb.enqueue(5), Err(5));
    assert_eq!(rb.len(), 3);
    assert_eq!(rb.dequeue(), Some(1));
    assert_eq!(rb.enqueue(4), Ok(()));
    assert_eq!(rb.len(), 3);
}
