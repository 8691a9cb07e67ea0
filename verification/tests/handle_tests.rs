use sddf_net_queue::{Descriptor, QueueHandle, RawQueue, QUEUE_SIZE};

fn raw_ring(head: u16, tail: u16) -> RawQueue<Descriptor> {
    RawQueue { tail, head, consumer_signalled: 0, buffers: [Descriptor::new(0, 0); QUEUE_SIZE] }
}

#[test]
fn new_keeps_the_two_rings_apart() {
    let handle = QueueHandle::new(raw_ring(1, 4), raw_ring(9, 9));
    assert_eq!(handle.free().head(), 1);
    assert_eq!(handle.free().tail(), 4);
    assert_eq!(handle.free().size(), 3);
    assert_eq!(handle.active().head(), 9);
    assert!(handle.active().is_empty());
}

#[test]
fn free_mut_changes_only_the_free_ring() {
    let mut handle = QueueHandle::new(raw_ring(0, 0), raw_ring(0, 0));
    assert_eq!(handle.free_mut().enqueue(Descriptor::new(2048, 0)), Ok(()));
    assert_eq!(handle.free().size(), 1);
    assert_eq!(handle.active().size(), 0);
    assert_eq!(handle.free_mut().dequeue(), Some(Descriptor::new(2048, 0)));
    assert!(handle.free().is_empty());
}

#[test]
fn active_mut_changes_only_the_active_ring() {
    let mut handle = QueueHandle::new(raw_ring(0, 0), raw_ring(0, 0));
    assert_eq!(handle.active_mut().enqueue(Descriptor::new(4096, 60)), Ok(()));
    assert_eq!(handle.active().size(), 1);
    assert_eq!(handle.free().size(), 0);
    assert_eq!(handle.active_mut().dequeue(), Some(Descriptor::new(4096, 60)));
    assert_eq!(handle.free_mut().dequeue(), None);
}

#[test]
fn a_descriptor_moves_from_free_to_active() {
    let mut handle = QueueHandle::new(raw_ring(0, 0), raw_ring(0, 0));
    assert_eq!(handle.free_mut().enqueue(Descriptor::new(6144, 2048)), Ok(()));
    let mut desc = handle.free_mut().dequeue().unwrap();
    desc.set_len(42);
    assert_eq!(handle.active_mut().enqueue(desc), Ok(()));
    assert!(handle.free().is_empty());
    assert_eq!(handle.active_mut().dequeue(), Some(Descriptor::new(6144, 42)));
}
