use ato::BoundedQueue;

#[test]
fn queue_is_first_in_first_out() {
    let mut q: BoundedQueue<u8, 4> = BoundedQueue::new();
    assert_eq!(q.capacity(), 4);
    assert_eq!(q.dequeue(), None);
    assert_eq!(q.enqueue(1), Ok(()));
    assert_eq!(q.enqueue(2), Ok(()));
    assert_eq!(q.dequeue(), Some(1));
    assert_eq!(q.enqueue(3), Ok(()));
    assert_eq!(q.dequeue(), Some(2));
    assert_eq!(q.dequeue(), Some(3));
    assert_eq!(q.dequeue(), None);
}

#[test]
fn full_queue_hands_the_item_back() {
    let mut q: BoundedQueue<u8, 2> = BoundedQueue::new();
    assert_eq!(q.enqueue(0), Ok(()));
    assert_eq!(q.enqueue(1), Ok(()));
    assert_eq!(q.enqueue(2), Err(2));
    assert_eq!(q.dequeue(), Some(0));
    assert_eq!(q.dequeue(), Some(1));
    assert_eq!(q.dequeue(), None);
}

#[test]
fn write_then_read_gives_it_back() {
    let mut q: BoundedQueue<&str, 8> = BoundedQueue::new();
    assert_eq!(q.enqueue("hello"), Ok(()));
    assert_eq!(q.dequeue(), Some("hello"));
    assert_eq!(q.dequeue(), None);
}

#[test]
fn queue_keeps_working_after_many_wraps() {
    let mut q: BoundedQueue<u32, 2> = BoundedQueue::new();
    for i in 0..300u32 {
        assert_eq!(q.enqueue(i), Ok(()));
        assert_eq!(q.dequeue(), Some(i));
    }
    assert_eq!(q.dequeue(), None);
    assert_eq!(q.enqueue(0), Ok(()));
    assert_eq!(q.enqueue(1), Ok(()));
    assert_eq!(q.enqueue(2), Err(2));
}

#[test]
fn items_come_back_in_the_order_sent() {
    let mut q: BoundedQueue<u32, 8> = BoundedQueue::new();
    let xs = [5, 1, 4, 1, 5, 9, 2, 6];
    for x in xs {
        assert_eq!(q.enqueue(x), Ok(()));
    }
    assert_eq!(q.enqueue(3), Err(3));
    let mut out = Vec::new();
    while let Some(x) = q.dequeue() {
        out.push(x);
    }
    assert_eq!(out, xs.to_vec());
}
