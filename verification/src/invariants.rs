//! The transport invariant that ties the guest driver, the device driver
//! and the shared virtqueue together, and the laws of the transport.
//!
//! Every descriptor index lives in exactly one of five places: the guest's
//! free pool, the guest's hands (acquired or harvested, not yet published
//! or released), the unconsumed window of the available ring, the device's
//! hands (consumed, not yet completed), or the unharvested window of the
//! used ring.  `index_partition` states this as a multiset equation;
//! `system_inv` combines it with both drivers' private-view agreements.
//! One lemma per driver operation shows the invariant survives it, and the
//! public lemmas at the end state the transport's delivery laws.

use vstd::multiset::Multiset;
use vstd::prelude::*;
use vstd::seq_lib::group_to_multiset_ensures;

use crate::device_driver::DeviceDriver;
use crate::guest_driver::GuestDriver;
use crate::poller::PollableQueue;
use crate::virtqueue::{lemma_cursor_window, VirtQueue};

verus! {

/// Every descriptor index of a queue of this size, once each.
pub open spec fn full_index_multiset(size: u16) -> Multiset<u16> {
    Seq::new(size as nat, |i: int| i as u16).to_multiset()
}

/// The entries of a ring's history that its consumer has not yet taken.
pub open spec fn window_multiset(log: Seq<u16>, consumed: nat) -> Multiset<u16> {
    log.skip(consumed as int).to_multiset()
}

/// All the places a descriptor index can live, combined: free pool, guest's
/// hands, available-ring window, device's hands, used-ring window.
pub open spec fn owned_multiset<P: PollableQueue, Q: PollableQueue>(
    guest: GuestDriver<P>,
    device: DeviceDriver<Q>,
    queue: VirtQueue,
) -> Multiset<u16> {
    guest.pool().to_multiset().add(guest.held@).add(
        window_multiset(queue.avail_log@, device.consumed_count@),
    ).add(device.held@).add(window_multiset(queue.used_log@, guest.harvested_count@))
}

/// Invariant I1: each descriptor index below the queue size lives in
/// exactly one of the five places, and no other index lives anywhere.
pub open spec fn index_partition<P: PollableQueue, Q: PollableQueue>(
    guest: GuestDriver<P>,
    device: DeviceDriver<Q>,
    queue: VirtQueue,
) -> bool {
    owned_multiset(guest, device, queue) == full_index_multiset(queue.size)
}

/// The whole transport invariant: both drivers' private views agree with
/// the shared queue, and the ownership partition holds.
pub open spec fn system_inv<P: PollableQueue, Q: PollableQueue>(
    guest: GuestDriver<P>,
    device: DeviceDriver<Q>,
    queue: VirtQueue,
) -> bool {
    &&& guest.matches_queue(queue)
    &&& device.matches_queue(queue)
    &&& index_partition(guest, device, queue)
}

/// Appending to a history extends the consumer's window by the new entry.
proof fn lemma_window_push(log: Seq<u16>, consumed: nat, value: u16)
    requires
        consumed <= log.len(),
    ensures
        window_multiset(log.push(value), consumed) == window_multiset(log, consumed).insert(
            value,
        ),
{
    broadcast use group_to_multiset_ensures;

    assert(log.push(value).skip(consumed as int) =~= log.skip(consumed as int).push(value));
}

/// Taking the oldest entry shrinks the window by exactly that entry.
proof fn lemma_window_consume(log: Seq<u16>, consumed: nat)
    requires
        consumed < log.len(),
    ensures
        window_multiset(log, consumed) == window_multiset(log, consumed + 1).insert(
            log[consumed as int],
        ),
{
    broadcast use group_to_multiset_ensures;

    let tail = log.skip(consumed as int);
    assert(tail.remove(0) =~= log.skip(consumed as int + 1));
    assert(tail.remove(0).to_multiset() == tail.to_multiset().remove(tail[0]));
    assert(tail.contains(tail[0]));
    assert(tail.to_multiset().count(tail[0]) > 0);
    assert(tail.to_multiset().remove(tail[0]).insert(tail[0]) =~= tail.to_multiset());
}

/// A window holds as many entries as its history minus its consumed count.
proof fn lemma_window_len(log: Seq<u16>, consumed: nat)
    requires
        consumed <= log.len(),
    ensures
        window_multiset(log, consumed).len() == log.len() - consumed,
{
    broadcast use group_to_multiset_ensures;

}

/// The full index multiset holds exactly `size` entries.
proof fn lemma_full_index_multiset_len(size: u16)
    ensures
        full_index_multiset(size).len() == size,
{
    broadcast use group_to_multiset_ensures;

}

/// The full index multiset holds each index below the size once, and
/// nothing else.
pub proof fn lemma_full_index_multiset_count(size: u16, value: u16)
    ensures
        full_index_multiset(size).count(value) == if value < size {
            1nat
        } else {
            0nat
        },
{
    broadcast use group_to_multiset_ensures;

    let ids = Seq::new(size as nat, |i: int| i as u16);
    if value < size {
        assert(ids[value as int] == value);
        assert(ids.contains(value));
        assert(ids.no_duplicates()) by {
            assert forall|i: int, j: int|
                0 <= i < ids.len() && 0 <= j < ids.len() && i != j implies ids[i] != ids[j] by {
                assert(ids[i] == i as u16 && ids[j] == j as u16);
            }
        }
        ids.lemma_multiset_has_no_duplicates();
        assert(ids.to_multiset().contains(value));
    } else {
        assert(!ids.contains(value)) by {
            if ids.contains(value) {
                let i = choose|i: int| 0 <= i < ids.len() && ids[i] == value;
                assert(ids[i] == i as u16);
            }
        }
        assert(ids.to_multiset().count(value) == 0);
    }
}

/// Whenever some hand holds an index, neither ring window can span a full
/// lap: the five places share exactly `size` indices between them.
proof fn lemma_windows_below_capacity<P: PollableQueue, Q: PollableQueue>(
    guest: GuestDriver<P>,
    device: DeviceDriver<Q>,
    queue: VirtQueue,
)
    requires
        system_inv(guest, device, queue),
    ensures
        queue.avail_log@.len() - device.consumed_count@ + guest.held@.len() + device.held@.len()
            <= queue.size,
        queue.used_log@.len() - guest.harvested_count@ + guest.held@.len() + device.held@.len()
            <= queue.size,
{
    lemma_full_index_multiset_len(queue.size);
    lemma_window_len(queue.avail_log@, device.consumed_count@);
    lemma_window_len(queue.used_log@, guest.harvested_count@);
    assert(owned_multiset(guest, device, queue).len() == queue.size);
}

/// Popping the top of the free pool moves that index from the pool into
/// the guest's hands and changes nothing else: the invariant survives.
pub proof fn lemma_acquire_preserves_inv<P: PollableQueue, Q: PollableQueue>(
    guest0: GuestDriver<P>,
    guest1: GuestDriver<P>,
    device: DeviceDriver<Q>,
    queue: VirtQueue,
)
    requires
        system_inv(guest0, device, queue),
        guest1.wf(),
        guest0.pool().len() > 0,
        guest1.pool() == guest0.pool().drop_last(),
        guest1.held@ == guest0.held@.insert(guest0.pool().last()),
        guest1.queue_size == guest0.queue_size,
        guest1.available_index == guest0.available_index,
        guest1.free_index == guest0.free_index,
        guest1.harvested_count == guest0.harvested_count,
    ensures
        system_inv(guest1, device, queue),
{
    broadcast use group_to_multiset_ensures;

    let pool0 = guest0.pool();
    let x = pool0.last();
    assert(pool0.drop_last() =~= pool0.remove(pool0.len() - 1));
    assert(guest1.pool().to_multiset() == pool0.to_multiset().remove(x));
    assert(pool0.contains(x));
    assert(pool0.to_multiset().count(x) > 0);
    assert(owned_multiset(guest1, device, queue) =~= owned_multiset(guest0, device, queue));
}

/// Publishing a held index appends it to the available history and writes
/// the ring slot under the producer index: the index moves from the
/// guest's hands into the ring window.  The device's view of the older
/// window entries survives, because an index in some hand leaves the
/// window short of a full lap, so the written slot is free.
pub proof fn lemma_publish_preserves_inv<P: PollableQueue, Q: PollableQueue>(
    guest0: GuestDriver<P>,
    guest1: GuestDriver<P>,
    device: DeviceDriver<Q>,
    queue0: VirtQueue,
    queue1: VirtQueue,
    idx: u16,
)
    requires
        system_inv(guest0, device, queue0),
        guest0.held@.contains(idx),
        idx < queue0.size,
        guest1.matches_queue(queue1),
        guest1.held@ == guest0.held@.remove(idx),
        guest1.free_index == guest0.free_index,
        guest1.harvested_count == guest0.harvested_count,
        guest1.descriptor_item_index == guest0.descriptor_item_index,
        guest1.free_descriptor_cells == guest0.free_descriptor_cells,
        queue1.avail_log@ == queue0.avail_log@.push(idx),
        queue1.available.ring@ == queue0.available.ring@.update(
            queue0.available.idx as int,
            idx,
        ),
        queue1.used == queue0.used,
        queue1.used_log == queue0.used_log,
        queue1.size == queue0.size,
    ensures
        system_inv(guest1, device, queue1),
{
    broadcast use group_to_multiset_ensures;

    let size = queue0.size;
    let log0 = queue0.avail_log@;
    let c = device.consumed_count@;
    lemma_windows_below_capacity(guest0, device, queue0);
    assert(guest0.held@.len() >= 1);
    assert(log0.len() - c < size);
    assert(device.matches_queue(queue1)) by {
        assert forall|k: int|
            c <= k < queue1.avail_log@.len() implies #[trigger] queue1.avail_log@[k] < size
            && queue1.available.ring@[k % (size as int)] == queue1.avail_log@[k] by {
            if k < log0.len() {
                lemma_cursor_window(k, log0.len() as int, size as int);
                assert(queue0.available.idx as nat == log0.len() % (size as nat));
                assert(k % (size as int) != queue0.available.idx as int);
                assert(queue0.avail_log@[k] < size && queue0.available.ring@[k % (size as int)]
                    == queue0.avail_log@[k]);
            } else {
                assert(k == log0.len());
                assert((log0.len() as int) % (size as int) == queue0.available.idx as int);
                assert(queue1.available.ring@[k % (size as int)] == idx);
            }
        }
    }
    lemma_window_push(log0, c, idx);
    assert(guest0.held@.count(idx) > 0);
    assert(owned_multiset(guest1, device, queue1) =~= owned_multiset(guest0, device, queue0));
}

/// Consuming the oldest available entry moves it from the ring window into
/// the device's hands; nothing the guest sees changes.
pub proof fn lemma_consume_preserves_inv<P: PollableQueue, Q: PollableQueue>(
    guest: GuestDriver<P>,
    device0: DeviceDriver<Q>,
    device1: DeviceDriver<Q>,
    queue: VirtQueue,
)
    requires
        system_inv(guest, device0, queue),
        device0.consumed_count@ < queue.avail_log@.len(),
        device1.matches_queue(queue),
        device1.consumed_count@ == device0.consumed_count@ + 1,
        device1.held@ == device0.held@.insert(
            queue.avail_log@[device0.consumed_count@ as int],
        ),
    ensures
        system_inv(guest, device1, queue),
{
    broadcast use group_to_multiset_ensures;

    lemma_window_consume(queue.avail_log@, device0.consumed_count@);
    assert(owned_multiset(guest, device1, queue) =~= owned_multiset(guest, device0, queue));
}

/// Completing a held index appends it to the used history and writes the
/// ring slot under the producer index: the index moves from the device's
/// hands into the used window.  The guest's view of the older window
/// entries survives for the same capacity reason as on the publish side.
pub proof fn lemma_complete_preserves_inv<P: PollableQueue, Q: PollableQueue>(
    guest: GuestDriver<P>,
    device0: DeviceDriver<Q>,
    device1: DeviceDriver<Q>,
    queue0: VirtQueue,
    queue1: VirtQueue,
    idx: u16,
)
    requires
        system_inv(guest, device0, queue0),
        device0.held@.contains(idx),
        idx < queue0.size,
        device1.matches_queue(queue1),
        device1.held@ == device0.held@.remove(idx),
        device1.consumed_count == device0.consumed_count,
        queue1.used_log@ == queue0.used_log@.push(idx),
        queue1.used.ring@ == queue0.used.ring@.update(
            queue0.used.idx as int,
            (crate::virtqueue::UsedCell { id: idx as u32, len: 0 }),
        ),
        queue1.available == queue0.available,
        queue1.avail_log == queue0.avail_log,
        queue1.size == queue0.size,
    ensures
        system_inv(guest, device1, queue1),
{
    broadcast use group_to_multiset_ensures;

    let size = queue0.size;
    let ulog0 = queue0.used_log@;
    let h = guest.harvested_count@;
    lemma_windows_below_capacity(guest, device0, queue0);
    assert(device0.held@.len() >= 1);
    assert(ulog0.len() - h < size);
    assert(guest.matches_queue(queue1)) by {
        assert forall|k: int|
            h <= k < queue1.used_log@.len() implies #[trigger] queue1.used_log@[k] < size
            && queue1.used.ring@[k % (size as int)].id == queue1.used_log@[k] as u32 by {
            if k < ulog0.len() {
                lemma_cursor_window(k, ulog0.len() as int, size as int);
                assert(queue0.used.idx as nat == ulog0.len() % (size as nat));
                assert(k % (size as int) != queue0.used.idx as int);
                assert(queue0.used_log@[k] < size && queue0.used.ring@[k % (size as int)].id
                    == queue0.used_log@[k] as u32);
            } else {
                assert(k == ulog0.len());
                assert((ulog0.len() as int) % (size as int) == queue0.used.idx as int);
                assert(queue1.used.ring@[k % (size as int)].id == idx as u32);
            }
        }
    }
    lemma_window_push(ulog0, h, idx);
    assert(device0.held@.count(idx) > 0);
    assert(owned_multiset(guest, device1, queue1) =~= owned_multiset(guest, device0, queue0));
}

/// Harvesting the oldest completion moves it from the used window into the
/// guest's hands; nothing the device sees changes.
pub proof fn lemma_harvest_preserves_inv<P: PollableQueue, Q: PollableQueue>(
    guest0: GuestDriver<P>,
    guest1: GuestDriver<P>,
    device: DeviceDriver<Q>,
    queue: VirtQueue,
)
    requires
        system_inv(guest0, device, queue),
        guest0.harvested_count@ < queue.used_log@.len(),
        guest1.matches_queue(queue),
        guest1.harvested_count@ == guest0.harvested_count@ + 1,
        guest1.held@ == guest0.held@.insert(
            queue.used_log@[guest0.harvested_count@ as int],
        ),
        guest1.descriptor_item_index == guest0.descriptor_item_index,
        guest1.free_descriptor_cells == guest0.free_descriptor_cells,
    ensures
        system_inv(guest1, device, queue),
{
    broadcast use group_to_multiset_ensures;

    lemma_window_consume(queue.used_log@, guest0.harvested_count@);
    assert(owned_multiset(guest1, device, queue) =~= owned_multiset(guest0, device, queue));
}

/// Pushing a held index back onto the free pool moves it from the guest's
/// hands into the pool and changes nothing else: the invariant survives.
pub proof fn lemma_release_preserves_inv<P: PollableQueue, Q: PollableQueue>(
    guest0: GuestDriver<P>,
    guest1: GuestDriver<P>,
    device: DeviceDriver<Q>,
    queue: VirtQueue,
    idx: u16,
)
    requires
        system_inv(guest0, device, queue),
        guest0.held@.contains(idx),
        guest1.wf(),
        guest1.pool() == guest0.pool().push(idx),
        guest1.held@ == guest0.held@.remove(idx),
        guest1.queue_size == guest0.queue_size,
        guest1.available_index == guest0.available_index,
        guest1.free_index == guest0.free_index,
        guest1.harvested_count == guest0.harvested_count,
    ensures
        system_inv(guest1, device, queue),
{
    broadcast use group_to_multiset_ensures;

    assert(guest1.pool().to_multiset() == guest0.pool().to_multiset().insert(idx));
    assert(guest0.held@.count(idx) > 0);
    assert(owned_multiset(guest1, device, queue) =~= owned_multiset(guest0, device, queue));
}

/// A fresh guest, device and queue of one size satisfy the transport
/// invariant: the pool holds every index once, the histories are empty,
/// all cursors are at zero.
pub proof fn lemma_initial_system_inv<P: PollableQueue, Q: PollableQueue>(
    guest: GuestDriver<P>,
    device: DeviceDriver<Q>,
    queue: VirtQueue,
)
    requires
        guest.wf(),
        device.wf(),
        queue.wf(),
        guest.queue_size == queue.size,
        device.queue_size == queue.size,
        guest.pool() == Seq::new(queue.size as nat, |i: int| i as u16),
        guest.held@ == Multiset::<u16>::empty(),
        guest.harvested_count@ == 0,
        guest.available_index == queue.available.idx,
        guest.free_index == 0,
        device.held@ == Multiset::<u16>::empty(),
        device.consumed_count@ == 0,
        device.available_index == 0,
        device.used_index == queue.used.idx,
        queue.avail_log@ == Seq::<u16>::empty(),
        queue.used_log@ == Seq::<u16>::empty(),
    ensures
        system_inv(guest, device, queue),
{
    broadcast use group_to_multiset_ensures;

    assert(queue.avail_log@.skip(0) =~= Seq::<u16>::empty());
    assert(queue.used_log@.skip(0) =~= Seq::<u16>::empty());
    assert(Seq::<u16>::empty().to_multiset().len() == 0);
    assert(owned_multiset(guest, device, queue) =~= guest.pool().to_multiset());
}

/// P4: under the transport invariant, every descriptor index below the
/// queue size lives in exactly one of the five places, and no other index
/// lives anywhere.
pub proof fn lemma_index_partition_exclusive<P: PollableQueue, Q: PollableQueue>(
    guest: GuestDriver<P>,
    device: DeviceDriver<Q>,
    queue: VirtQueue,
)
    requires
        system_inv(guest, device, queue),
    ensures
        forall|v: u16|
            guest.pool().to_multiset().count(v) + guest.held@.count(v) + window_multiset(
                queue.avail_log@,
                device.consumed_count@,
            ).count(v) + device.held@.count(v) + window_multiset(
                queue.used_log@,
                guest.harvested_count@,
            ).count(v) == if v < queue.size {
                1nat
            } else {
                0nat
            },
{
    assert forall|v: u16|
        guest.pool().to_multiset().count(v) + guest.held@.count(v) + window_multiset(
            queue.avail_log@,
            device.consumed_count@,
        ).count(v) + device.held@.count(v) + window_multiset(
            queue.used_log@,
            guest.harvested_count@,
        ).count(v) == if v < queue.size {
            1nat
        } else {
            0nat
        } by {
        lemma_full_index_multiset_count(queue.size, v);
        assert(owned_multiset(guest, device, queue).count(v) == full_index_multiset(
            queue.size,
        ).count(v));
    }
}

/// P1 at rest: whenever neither endpoint holds an index and both ring
/// windows are drained, the free pool again holds every index exactly
/// once, whatever balanced sequence of operations came before.
pub proof fn lemma_idle_pool_full<P: PollableQueue, Q: PollableQueue>(
    guest: GuestDriver<P>,
    device: DeviceDriver<Q>,
    queue: VirtQueue,
)
    requires
        system_inv(guest, device, queue),
        guest.held@ == Multiset::<u16>::empty(),
        device.held@ == Multiset::<u16>::empty(),
        device.consumed_count@ == queue.avail_log@.len(),
        guest.harvested_count@ == queue.used_log@.len(),
    ensures
        guest.pool().to_multiset() == full_index_multiset(queue.size),
{
    broadcast use group_to_multiset_ensures;

    assert(queue.avail_log@.skip(device.consumed_count@ as int) =~= Seq::<u16>::empty());
    assert(queue.used_log@.skip(guest.harvested_count@ as int) =~= Seq::<u16>::empty());
    assert(Seq::<u16>::empty().to_multiset().len() == 0);
    assert(owned_multiset(guest, device, queue) =~= guest.pool().to_multiset());
}

/// P1, the balanced pair: releasing the index an acquire returned restores
/// the pool as a multiset.
pub proof fn lemma_acquire_release_round_trip(pool: Seq<u16>)
    requires
        pool.len() > 0,
    ensures
        pool.drop_last().push(pool.last()).to_multiset() == pool.to_multiset(),
{
    assert(pool.drop_last().push(pool.last()) =~= pool);
}

/// What the device's next `poll_available_queue` returns in a state.
pub open spec fn next_available<Q: PollableQueue>(
    device: DeviceDriver<Q>,
    queue: VirtQueue,
) -> Option<u16> {
    if (queue.avail_log@.len() - device.consumed_count@) % (queue.size as int) == 0 {
        None
    } else {
        Some(queue.avail_log@[device.consumed_count@ as int])
    }
}

/// What the guest's next `check_used_queue` returns in a state.
pub open spec fn next_used<P: PollableQueue>(
    guest: GuestDriver<P>,
    queue: VirtQueue,
) -> Option<u16> {
    if (queue.used_log@.len() - guest.harvested_count@) % (queue.size as int) == 0 {
        None
    } else {
        Some(queue.used_log@[guest.harvested_count@ as int])
    }
}

/// P2, pairing: after a publish from a state where the device had consumed
/// the whole history, the device's next consume returns exactly the
/// published index.  The queue must hold more than one slot: on a one-slot
/// queue a single outstanding publish already spans a full lap of the
/// ring, which is indistinguishable from an empty one.
pub proof fn lemma_publish_then_consume<Q: PollableQueue>(
    device: DeviceDriver<Q>,
    queue0: VirtQueue,
    queue1: VirtQueue,
    idx: u16,
)
    requires
        device.consumed_count@ == queue0.avail_log@.len(),
        queue0.size > 1,
        queue1.avail_log@ == queue0.avail_log@.push(idx),
        queue1.size == queue0.size,
    ensures
        next_available(device, queue1) == Some(idx),
{
    vstd::arithmetic::div_mod::lemma_small_mod(1, queue0.size as nat);
}

/// P2, ordering: consumes return the published indices in publish order:
/// with `n` entries consumed so far, the next successful consume returns
/// the `n`-th publish.
pub proof fn lemma_consume_in_publish_order<Q: PollableQueue>(
    device: DeviceDriver<Q>,
    queue: VirtQueue,
)
    requires
        device.matches_queue(queue),
        (queue.avail_log@.len() - device.consumed_count@) % (queue.size as int) != 0,
    ensures
        next_available(device, queue) == Some(
            queue.avail_log@[device.consumed_count@ as int],
        ),
{
}

/// P3, pairing: after a completion from a state where the guest had
/// harvested the whole history, the guest's next harvest returns exactly
/// the completed index, under the same more-than-one-slot proviso as on
/// the publish side.
pub proof fn lemma_complete_then_harvest<P: PollableQueue>(
    guest: GuestDriver<P>,
    queue0: VirtQueue,
    queue1: VirtQueue,
    idx: u16,
)
    requires
        guest.harvested_count@ == queue0.used_log@.len(),
        queue0.size > 1,
        queue1.used_log@ == queue0.used_log@.push(idx),
        queue1.size == queue0.size,
    ensures
        next_used(guest, queue1) == Some(idx),
{
    vstd::arithmetic::div_mod::lemma_small_mod(1, queue0.size as nat);
}

/// P3, exactly once: each successful harvest returns the completion at the
/// guest's harvest counter, and the counter then moves strictly past it
/// (see `check_used_queue`), so the `n`-th completion is returned by the
/// `n`-th successful harvest and by no other.
pub proof fn lemma_harvest_in_completion_order<P: PollableQueue>(
    guest: GuestDriver<P>,
    queue: VirtQueue,
)
    requires
        guest.matches_queue(queue),
        (queue.used_log@.len() - guest.harvested_count@) % (queue.size as int) != 0,
    ensures
        next_used(guest, queue) == Some(queue.used_log@[guest.harvested_count@ as int]),
{
}

} // verus!
