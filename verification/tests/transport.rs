use virtio_sim::guest_driver::GuestDriver;
use virtio_sim::device_driver::DeviceDriver;
use virtio_sim::handoff::HandoffBuffers;
use virtio_sim::poller::NoopNotifier;
use virtio_sim::virtqueue::VirtQueue;

fn pool_as_sorted(guest: &GuestDriver<NoopNotifier>) -> Vec<u16> {
    let mut pool: Vec<u16> =
        guest.free_descriptor_cells[..guest.descriptor_item_index].to_vec();
    pool.sort();
    pool
}

#[test]
fn full_cycle_returns_pool_to_capacity() {
    // S = 4: acquire four descriptors, then publish, consume, complete and
    // harvest each one; after four releases the pool holds a permutation of
    // every index again.
    let mut queue = VirtQueue::new_with_size(4);
    let mut buffers = HandoffBuffers::new(4);
    let mut guest = GuestDriver::new_driver(4, NoopNotifier {});
    let mut device = DeviceDriver::new_driver(4, NoopNotifier {});

    let mut acquired = Vec::new();
    for _ in 0..4 {
        acquired.push(guest.get_descriptor_cell().expect("pool should hold an index"));
    }
    let mut harvested = Vec::new();
    for &idx in &acquired {
        guest.submit_to_avail_queue(&mut queue, idx);
        let consumed = device.poll_available_queue(&queue).expect("a publish is pending");
        assert_eq!(consumed, idx);
        device.submit_to_used_queue(&mut queue, consumed);
        let done = guest.check_used_queue(&queue).expect("a completion is pending");
        assert_eq!(done, idx);
        harvested.push(done);
    }
    for &idx in &harvested {
        guest.release_back_to_pool(&mut buffers, idx);
    }
    assert_eq!(guest.descriptor_item_index, 4);
    assert_eq!(pool_as_sorted(&guest), vec![0, 1, 2, 3]);
}

#[test]
fn fifth_acquire_fails_then_recovers() {
    // S = 4: a fifth acquisition fails while four descriptors are out; after
    // the four run their cycle and one is released, acquisition succeeds.
    let mut queue = VirtQueue::new_with_size(4);
    let mut buffers = HandoffBuffers::new(4);
    let mut guest = GuestDriver::new_driver(4, NoopNotifier {});
    let mut device = DeviceDriver::new_driver(4, NoopNotifier {});

    let mut acquired = Vec::new();
    for _ in 0..4 {
        acquired.push(guest.get_descriptor_cell().expect("pool should hold an index"));
    }
    assert_eq!(guest.get_descriptor_cell(), None);

    for &idx in &acquired {
        guest.submit_to_avail_queue(&mut queue, idx);
        let consumed = device.poll_available_queue(&queue).expect("a publish is pending");
        device.submit_to_used_queue(&mut queue, consumed);
        let done = guest.check_used_queue(&queue).expect("a completion is pending");
        guest.release_back_to_pool(&mut buffers, done);
    }
    assert!(guest.get_descriptor_cell().is_some());
}

#[test]
fn filling_the_ring_wraps_and_blocks_further_publishes() {
    // S = 4: exactly four publishes with no consume wrap the producer index
    // back to zero; the pool is empty, so one more publish must wait for at
    // least one harvest and release.
    let mut queue = VirtQueue::new_with_size(4);
    let mut guest = GuestDriver::new_driver(4, NoopNotifier {});

    for _ in 0..4 {
        let idx = guest.get_descriptor_cell().expect("pool should hold an index");
        guest.submit_to_avail_queue(&mut queue, idx);
    }
    assert_eq!(queue.available.idx, 0, "the producer index wrapped at the queue size");
    assert_eq!(guest.descriptor_item_index, 0);
    assert_eq!(guest.get_descriptor_cell(), None);
}

#[test]
fn consumes_follow_publish_order() {
    // Two publishes are consumed in publish order.
    let mut queue = VirtQueue::new_with_size(4);
    let mut guest = GuestDriver::new_driver(4, NoopNotifier {});
    let mut device = DeviceDriver::new_driver(4, NoopNotifier {});

    let first = guest.get_descriptor_cell().unwrap();
    let second = guest.get_descriptor_cell().unwrap();
    guest.submit_to_avail_queue(&mut queue, second);
    guest.submit_to_avail_queue(&mut queue, first);
    assert_eq!(device.poll_available_queue(&queue), Some(second));
    assert_eq!(device.poll_available_queue(&queue), Some(first));
    assert_eq!(device.poll_available_queue(&queue), None);
}

#[test]
fn each_completion_is_harvested_exactly_once() {
    // Two completions are harvested in completion order, and a further
    // harvest returns nothing: nothing is delivered twice.
    let mut queue = VirtQueue::new_with_size(4);
    let mut guest = GuestDriver::new_driver(4, NoopNotifier {});
    let mut device = DeviceDriver::new_driver(4, NoopNotifier {});

    let first = guest.get_descriptor_cell().unwrap();
    let second = guest.get_descriptor_cell().unwrap();
    guest.submit_to_avail_queue(&mut queue, first);
    guest.submit_to_avail_queue(&mut queue, second);
    let a = device.poll_available_queue(&queue).unwrap();
    let b = device.poll_available_queue(&queue).unwrap();
    device.submit_to_used_queue(&mut queue, a);
    device.submit_to_used_queue(&mut queue, b);
    assert_eq!(guest.check_used_queue(&queue), Some(a));
    assert_eq!(guest.check_used_queue(&queue), Some(b));
    assert_eq!(guest.check_used_queue(&queue), None);
}

#[test]
fn quiescent_state_partitions_every_index() {
    // After a balanced run every index is back in exactly one place: the
    // pool.  No index is duplicated, none is lost.
    let mut queue = VirtQueue::new_with_size(8);
    let mut buffers = HandoffBuffers::new(8);
    let mut guest = GuestDriver::new_driver(8, NoopNotifier {});
    let mut device = DeviceDriver::new_driver(8, NoopNotifier {});

    for _round in 0..3 {
        let mut out = Vec::new();
        for _ in 0..5 {
            out.push(guest.get_descriptor_cell().unwrap());
        }
        for &idx in &out {
            guest.submit_to_avail_queue(&mut queue, idx);
            let consumed = device.poll_available_queue(&queue).unwrap();
            device.submit_to_used_queue(&mut queue, consumed);
            let done = guest.check_used_queue(&queue).unwrap();
            guest.release_back_to_pool(&mut buffers, done);
        }
    }
    assert_eq!(guest.descriptor_item_index, 8);
    assert_eq!(pool_as_sorted(&guest), vec![0, 1, 2, 3, 4, 5, 6, 7]);
}
