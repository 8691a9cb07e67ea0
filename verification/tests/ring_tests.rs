use sddf_net_queue::{Descriptor, Queue, RawQueue, QUEUE_SIZE};

fn raw_ring(head: u16, tail: u16) -> RawQueue<Descriptor> {
    RawQueue { tail, head, consumer_signalled: 0, buffers: [Descriptor::new(0, 0); QUEUE_SIZE] }
}

fn desc(n: usize) -> Descriptor {
    Descriptor::new(n * 2048, (n % 2048) as u16)
}

#[test]
fn queue_size_is_1536() {
    assert_eq!(QUEUE_SIZE, 1536);
}

#[test]
fn capacity_is_one_less_than_the_slots() {
    let queue = Queue::new(raw_ring(0, 0));
    assert_eq!(queue.capacity(), 1535);
    assert_eq!(queue.capacity(), QUEUE_SIZE - 1);
}

#[test]
fn new_ring_is_empty() {
    let mut queue = Queue::new(raw_ring(0, 0));
    assert!(queue.is_empty());
    assert!(!queue.is_full());
    assert_eq!(queue.size(), 0);
    assert_eq!(queue.head(), 0);
    assert_eq!(queue.tail(), 0);
    assert_eq!(queue.dequeue(), None);
    assert!(queue.is_empty());
    assert_eq!(queue.head(), 0);
}

#[test]
fn new_takes_the_counters_as_they_are() {
    let queue = Queue::new(raw_ring(100, 130));
    assert_eq!(queue.head(), 100);
    assert_eq!(queue.tail(), 130);
    assert_eq!(queue.size(), 30);
    assert!(!queue.is_empty());
    assert!(!queue.is_full());
}

#[test]
fn size_is_taken_modulo_two_to_the_sixteenth() {
    let queue = Queue::new(raw_ring(65530, 4));
    assert_eq!(queue.size(), 10);
    assert!(!queue.is_empty());
    let empty = Queue::new(raw_ring(65535, 65535));
    assert_eq!(empty.size(), 0);
    assert!(empty.is_empty());
}

#[test]
fn full_means_1535_queued() {
    assert!(Queue::new(raw_ring(0, 1535)).is_full());
    assert!(!Queue::new(raw_ring(0, 1534)).is_full());
    assert!(Queue::new(raw_ring(7, 1542)).is_full());
    assert!(Queue::new(raw_ring(65000, 999)).is_full());
    assert_eq!(Queue::new(raw_ring(65000, 999)).size(), 1535);
    assert!(!Queue::new(raw_ring(65000, 998)).is_full());
}

#[test]
fn buffer_reads_the_slot_of_a_counter() {
    let mut raw = raw_ring(0, 0);
    raw.buffers[5] = Descriptor::new(55, 5);
    raw.buffers[1535] = Descriptor::new(99, 9);
    let queue = Queue::new(raw);
    assert_eq!(queue.buffer(5), Descriptor::new(55, 5));
    assert_eq!(queue.buffer(1535), Descriptor::new(99, 9));
    assert_eq!(queue.buffer(1536 + 5), Descriptor::new(55, 5));
    assert_eq!(queue.buffer(4), Descriptor::new(0, 0));
}

#[test]
fn enqueue_writes_the_tail_slot_and_advances_the_tail() {
    let mut queue = Queue::new(raw_ring(40, 40));
    assert_eq!(queue.enqueue(Descriptor::new(8192, 60)), Ok(()));
    assert_eq!(queue.tail(), 41);
    assert_eq!(queue.head(), 40);
    assert_eq!(queue.size(), 1);
    assert_eq!(queue.buffer(40), Descriptor::new(8192, 60));
}

#[test]
fn dequeue_reads_the_head_slot_and_advances_the_head() {
    let mut raw = raw_ring(40, 42);
    raw.buffers[40] = Descriptor::new(1, 1);
    raw.buffers[41] = Descriptor::new(2, 2);
    let mut queue = Queue::new(raw);
    assert_eq!(queue.dequeue(), Some(Descriptor::new(1, 1)));
    assert_eq!(queue.head(), 41);
    assert_eq!(queue.tail(), 42);
    assert_eq!(queue.dequeue(), Some(Descriptor::new(2, 2)));
    assert_eq!(queue.dequeue(), None);
    assert_eq!(queue.head(), 42);
}

#[test]
fn round_trip_gives_back_the_same_descriptor() {
    let mut queue = Queue::new(raw_ring(0, 0));
    let sent = Descriptor::new(usize::MAX - 3, 0xBEEF);
    assert_eq!(queue.enqueue(sent), Ok(()));
    assert_eq!(queue.dequeue(), Some(sent));
    assert!(queue.is_empty());
}

#[test]
fn round_trip_behind_queued_descriptors() {
    let mut queue = Queue::new(raw_ring(10, 10));
    for n in 0..5 {
        assert_eq!(queue.enqueue(desc(n)), Ok(()));
    }
    let sent = Descriptor::new(123456, 321);
    assert_eq!(queue.enqueue(sent), Ok(()));
    for n in 0..5 {
        assert_eq!(queue.dequeue(), Some(desc(n)));
    }
    assert_eq!(queue.dequeue(), Some(sent));
}

#[test]
fn capacity_boundary() {
    let mut queue = Queue::new(raw_ring(0, 0));
    for n in 0..QUEUE_SIZE - 1 {
        assert!(!queue.is_full());
        assert_eq!(queue.enqueue(desc(n)), Ok(()));
        assert_eq!(queue.size(), n + 1);
    }
    assert!(queue.is_full());
    assert_eq!(queue.size(), QUEUE_SIZE - 1);
    let late = Descriptor::new(77, 7);
    assert_eq!(queue.enqueue(late), Err(late));
    assert_eq!(queue.size(), QUEUE_SIZE - 1);
    assert_eq!(queue.tail(), 1535);

    assert_eq!(queue.dequeue(), Some(desc(0)));
    assert!(!queue.is_full());
    assert_eq!(queue.enqueue(late), Ok(()));
    assert!(queue.is_full());
    let later = Descriptor::new(78, 8);
    assert_eq!(queue.enqueue(later), Err(later));
    assert_eq!(queue.size(), QUEUE_SIZE - 1);
}

#[test]
fn rejected_enqueue_leaves_the_ring_alone() {
    let mut queue = Queue::new(raw_ring(3, 3));
    for n in 0..QUEUE_SIZE - 1 {
        assert_eq!(queue.enqueue(desc(n)), Ok(()));
    }
    let tail = queue.tail();
    let extra = Descriptor::new(1, 1);
    assert_eq!(queue.enqueue(extra), Err(extra));
    assert_eq!(queue.tail(), tail);
    assert_eq!(queue.head(), 3);
    for n in 0..QUEUE_SIZE - 1 {
        assert_eq!(queue.dequeue(), Some(desc(n)));
    }
    assert_eq!(queue.dequeue(), None);
}

#[test]
fn descriptors_come_out_in_the_order_they_went_in() {
    let mut queue = Queue::new(raw_ring(0, 0));
    let mut next_in = 0;
    let mut next_out = 0;
    for round in 0..200 {
        for _ in 0..(round % 7) + 1 {
            assert_eq!(queue.enqueue(desc(next_in)), Ok(()));
            next_in += 1;
            assert_eq!(queue.size(), next_in - next_out);
        }
        for _ in 0..(round % 5) + 1 {
            if next_out < next_in {
                assert_eq!(queue.dequeue(), Some(desc(next_out)));
                next_out += 1;
            } else {
                assert_eq!(queue.dequeue(), None);
            }
            assert_eq!(queue.size(), next_in - next_out);
            assert_eq!(queue.is_empty(), next_in == next_out);
        }
    }
    while next_out < next_in {
        assert_eq!(queue.dequeue(), Some(desc(next_out)));
        next_out += 1;
    }
    assert!(queue.is_empty());
}

#[test]
fn full_is_reported_exactly_at_capacity() {
    let mut queue = Queue::new(raw_ring(500, 500));
    for n in 0..QUEUE_SIZE - 1 {
        assert_eq!(queue.is_full(), queue.size() == QUEUE_SIZE - 1);
        assert_eq!(queue.enqueue(desc(n)), Ok(()));
    }
    assert!(queue.is_full());
    for _ in 0..QUEUE_SIZE - 1 {
        assert!(queue.dequeue().is_some());
        assert_eq!(queue.is_full(), queue.size() == QUEUE_SIZE - 1);
    }
    assert!(queue.is_empty());
}

#[test]
fn counters_wrap_from_65535_to_0() {
    let mut queue = Queue::new(raw_ring(65534, 65534));
    for n in 0..4 {
        assert_eq!(queue.enqueue(desc(n)), Ok(()));
    }
    assert_eq!(queue.tail(), 2);
    assert_eq!(queue.head(), 65534);
    assert_eq!(queue.size(), 4);
    for n in 0..4 {
        assert_eq!(queue.dequeue(), Some(desc(n)));
    }
    assert_eq!(queue.head(), 2);
    assert!(queue.is_empty());
}

#[test]
fn slots_restart_at_zero_behind_the_counter_wrap() {
    let mut queue = Queue::new(raw_ring(65535, 65535));
    assert_eq!(queue.enqueue(Descriptor::new(1, 1)), Ok(()));
    assert_eq!(queue.enqueue(Descriptor::new(2, 2)), Ok(()));
    assert_eq!(queue.buffer(65535), Descriptor::new(1, 1));
    assert_eq!(queue.buffer(1023), Descriptor::new(1, 1));
    assert_eq!(queue.buffer(0), Descriptor::new(2, 2));
}

#[test]
fn short_queue_keeps_its_order_across_the_counter_wrap() {
    let mut queue = Queue::new(raw_ring(65000, 65000));
    let mut next_in = 0;
    let mut next_out = 0;
    for _ in 0..2000 {
        while next_in - next_out < 1000 {
            assert_eq!(queue.enqueue(desc(next_in)), Ok(()));
            next_in += 1;
        }
        assert_eq!(queue.dequeue(), Some(desc(next_out)));
        next_out += 1;
    }
    assert_eq!(queue.size(), 999);
}

#[test]
fn enqueue_at_the_counter_wrap_reuses_the_slot_of_the_oldest() {
    // 1024 descriptors are queued and the tail has just wrapped to 0: the
    // head counter 64512 and the tail counter 0 name the same slot.
    let mut queue = Queue::new(raw_ring(64512, 64512));
    for n in 0..1024 {
        assert_eq!(queue.enqueue(desc(n)), Ok(()));
    }
    assert_eq!(queue.tail(), 0);
    assert_eq!(queue.size(), 1024);
    assert_eq!(queue.buffer(64512), desc(0));
    assert_eq!(queue.enqueue(desc(1024)), Ok(()));
    assert_eq!(queue.size(), 1025);
    assert_eq!(queue.dequeue(), Some(desc(1024)));
    assert_eq!(queue.dequeue(), Some(desc(1)));
}

#[test]
fn generic_ring_carries_other_copy_types() {
    let raw: RawQueue<u32> = RawQueue { tail: 0, head: 0, consumer_signalled: 0, buffers: [0; QUEUE_SIZE] };
    let mut queue = Queue::new(raw);
    assert_eq!(queue.enqueue(7), Ok(()));
    assert_eq!(queue.enqueue(9), Ok(()));
    assert_eq!(queue.dequeue(), Some(7));
    assert_eq!(queue.dequeue(), Some(9));
    assert_eq!(queue.dequeue(), None);
}

#[test]
fn raw_queue_fields_are_plain() {
    let raw = raw_ring(1, 2);
    let copy = raw;
    assert_eq!(copy.head, 1);
    assert_eq!(copy.tail, 2);
    assert_eq!(copy.consumer_signalled, 0);
    assert_eq!(copy.buffers.len(), QUEUE_SIZE);
    assert_eq!(raw.buffers[0], Descriptor::new(0, 0));
}
