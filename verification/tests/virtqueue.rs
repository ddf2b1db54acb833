use virtio_sim::virtqueue::{Available, DescriptorCell, Used, UsedCell, VirtQueue};

#[test]
pub fn test_sizes() {
    println!("Size of des cell: {}", std::mem::size_of::<DescriptorCell>());
    println!("Size of available: {}", std::mem::size_of::<Available>());
    println!("Size of used cell: {}", std::mem::size_of::<UsedCell>());
    println!("Size of used: {}", std::mem::size_of::<Used>());
}

#[test]
fn fresh_queue_is_zeroed() {
    let queue = VirtQueue::new_with_size(8);
    assert_eq!(queue.size, 8);
    assert_eq!(queue.available.idx, 0);
    assert_eq!(queue.used.idx, 0);
    assert_eq!(queue.descriptor_cell.len(), 8);
    assert_eq!(queue.available.ring.len(), 8);
    assert_eq!(queue.used.ring.len(), 8);
    for cell in &queue.descriptor_cell {
        assert_eq!(cell.addr, 0);
        assert_eq!(cell.length, 0);
        assert_eq!(cell.flags, 0);
        assert_eq!(cell.next, 0);
    }
    for (slot, &entry) in queue.available.ring.iter().enumerate() {
        assert_eq!(entry, slot as u16);
    }
    for cell in &queue.used.ring {
        assert_eq!(cell.id, 0);
        assert_eq!(cell.len, 0);
    }
}

#[test]
fn producer_index_wraps_at_queue_size() {
    let mut queue = VirtQueue::new_with_size(4);
    for expected in [1u16, 2, 3, 0, 1] {
        queue.available.increment_idx(4);
        assert_eq!(queue.available.get_idx(), expected);
    }
    for expected in [1u16, 2, 3, 0] {
        queue.used.increment_idx(4);
        assert_eq!(queue.used.get_idx(), expected);
    }
}

#[test]
fn descriptor_cells_round_trip() {
    let mut queue = VirtQueue::new_with_size(4);
    let written = DescriptorCell { addr: 77, length: 13, flags: 6, next: 1 };
    queue.set_descriptor_from_idx(2, written);
    let read = queue.get_descriptor_from_idx(2);
    assert_eq!(read.addr, 77);
    assert_eq!(read.length, 13);
    assert_eq!(read.flags, 6);
    assert_eq!(read.next, 1);
    let untouched = queue.get_descriptor_from_idx(1);
    assert_eq!(untouched.addr, 0);
}

#[test]
fn ring_slots_round_trip() {
    let mut queue = VirtQueue::new_with_size(4);
    queue.available.set_ring_from_idx(3, 2);
    assert_eq!(queue.available.get_ring_from_idx(3), 2);
    queue.used.set_ring_from_idx(1, UsedCell { id: 3, len: 9 });
    let cell = queue.used.get_ring_from_idx(1);
    assert_eq!(cell.id, 3);
    assert_eq!(cell.len, 9);
}
