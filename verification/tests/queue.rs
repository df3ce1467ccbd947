use v3s_monitor::envelope::Envelope;
use v3s_monitor::queue::{DeliveryQueue, QUEUE_CAPACITY};

fn env(i: u64) -> Envelope {
    Envelope::uart(format!("line {}", i), i)
}

#[test]
fn capacity_is_128() {
    assert_eq!(QUEUE_CAPACITY, 128);
}

#[test]
fn new_queue_is_empty() {
    let mut q = DeliveryQueue::new();
    assert_eq!(q.len(), 0);
    assert!(q.is_empty());
    assert!(!q.is_full());
    assert!(q.pop().is_none());
}

#[test]
fn queue_gives_out_in_the_order_taken_in() {
    let mut q = DeliveryQueue::new();
    for i in 0..10 {
        assert!(q.try_push(env(i)).is_ok());
    }
    assert_eq!(q.len(), 10);
    for i in 0..10 {
        let e = q.pop().unwrap();
        assert_eq!(e.ts, i);
        assert_eq!(e.payload, format!("line {}", i));
    }
    assert!(q.pop().is_none());
}

#[test]
fn full_queue_hands_the_envelope_back() {
    let mut q = DeliveryQueue::new();
    for i in 0..QUEUE_CAPACITY as u64 {
        assert!(q.try_push(env(i)).is_ok());
    }
    assert!(q.is_full());
    assert_eq!(q.len(), QUEUE_CAPACITY);
    let back = q.try_push(env(1000)).unwrap_err();
    assert_eq!(back.ts, 1000);
    assert_eq!(back.payload, "line 1000");
    assert_eq!(q.len(), QUEUE_CAPACITY);
    // what waits is untouched, and room comes back with a pop
    assert_eq!(q.pop().unwrap().ts, 0);
    assert!(q.try_push(back).is_ok());
    assert_eq!(q.len(), QUEUE_CAPACITY);
    for i in 1..QUEUE_CAPACITY as u64 {
        assert_eq!(q.pop().unwrap().ts, i);
    }
    assert_eq!(q.pop().unwrap().ts, 1000);
    assert!(q.is_empty());
}

#[test]
fn occupancy_never_passes_capacity() {
    let mut q = DeliveryQueue::new();
    let mut refused = 0;
    for i in 0..1000u64 {
        if q.try_push(env(i)).is_err() {
            refused += 1;
        }
        assert!(q.len() <= QUEUE_CAPACITY);
    }
    assert_eq!(q.len(), QUEUE_CAPACITY);
    assert_eq!(refused, 1000 - QUEUE_CAPACITY);
}

#[test]
fn drain_discards_everything() {
    let mut q = DeliveryQueue::new();
    for i in 0..37 {
        q.try_push(env(i)).unwrap();
    }
    assert_eq!(q.drain(), 37);
    assert!(q.is_empty());
    assert_eq!(q.drain(), 0);
    q.try_push(env(1)).unwrap();
    assert_eq!(q.len(), 1);
}
