use stock_streamer::delivery::{DeliveryQueue, Offer, OverflowPolicy};

fn s(x: &str) -> String {
    x.to_string()
}

#[test]
fn zero_capacity_is_refused() {
    assert!(DeliveryQueue::new(0, OverflowPolicy::Block).is_none());
}

#[test]
fn frames_come_out_in_order() {
    let mut q = DeliveryQueue::new(4, OverflowPolicy::Block).unwrap();
    for f in ["F1", "F2", "F3"] {
        assert_eq!(q.offer(s(f)), Offer::Accepted);
    }
    assert_eq!(q.len(), 3);
    assert_eq!(q.take(), Some(s("F1")));
    assert_eq!(q.take(), Some(s("F2")));
    assert_eq!(q.take(), Some(s("F3")));
    assert_eq!(q.take(), None);
}

#[test]
fn full_queue_blocks() {
    let mut q = DeliveryQueue::new(2, OverflowPolicy::Block).unwrap();
    q.offer(s("a"));
    q.offer(s("b"));
    assert_eq!(q.offer(s("c")), Offer::Full(s("c")));
    assert_eq!(q.len(), 2);
    assert_eq!(q.take(), Some(s("a")));
    assert_eq!(q.offer(s("c")), Offer::Accepted);
    assert_eq!(q.take(), Some(s("b")));
    assert_eq!(q.take(), Some(s("c")));
}

#[test]
fn full_queue_drops_oldest() {
    let mut q = DeliveryQueue::new(2, OverflowPolicy::DropOldest).unwrap();
    q.offer(s("a"));
    q.offer(s("b"));
    assert_eq!(q.offer(s("c")), Offer::DroppedOldest(s("a")));
    assert_eq!(q.take(), Some(s("b")));
    assert_eq!(q.take(), Some(s("c")));
    assert_eq!(q.take(), None);
}
