//! The guest-side driver: a free-list pool of descriptor indices, a publish
//! cursor on the available ring, and a harvest cursor on the used ring.
//!
//! A descriptor index moves through a fixed cycle: popped from the pool
//! (`get_descriptor_cell`), published on the available ring
//! (`submit_to_avail_queue`), consumed and completed by the device, harvested
//! from the used ring (`check_used_queue`), and pushed back onto the pool
//! (`release_back_to_pool`).  The ghost multiset `held` records the indices
//! the guest has popped or harvested but not yet published or released; the
//! ghost counter `harvested_count` counts completions taken off the used
//! ring, so that the wrapped cursor `free_index` is always this count modulo
//! the queue size.

use vstd::multiset::Multiset;
use vstd::prelude::*;

use crate::handoff::HandoffBuffers;
use crate::poller::PollableQueue;
use crate::virtqueue::{is_queue_size, lemma_cursor_increment, lemma_cursor_window, VirtQueue};

verus! {

pub struct GuestDriver<P: PollableQueue> {
    pub queue_size: u16,
    pub available_index: u16,
    pub free_index: u16,
    pub descriptor_item_index: usize,
    pub free_descriptor_cells: Vec<u16>,
    pub poll_interface: P,
    pub held: Ghost<Multiset<u16>>,
    pub harvested_count: Ghost<nat>,
}

impl<P: PollableQueue> GuestDriver<P> {
    /// The free-list: the first `descriptor_item_index` entries of the
    /// backing array, top of the stack last.
    pub open spec fn pool(self) -> Seq<u16> {
        self.free_descriptor_cells@.take(self.descriptor_item_index as int)
    }

    pub open spec fn wf(self) -> bool {
        &&& is_queue_size(self.queue_size)
        &&& self.free_descriptor_cells@.len() == self.queue_size
        &&& self.descriptor_item_index <= self.queue_size
        &&& self.available_index < self.queue_size
        &&& self.free_index < self.queue_size
        &&& forall|i: int|
            0 <= i < self.descriptor_item_index ==> self.free_descriptor_cells@[i]
                < self.queue_size
    }

    /// The guest's private view agrees with the shared queue: the publish
    /// cursor mirrors the available ring's producer index, and the harvest
    /// cursor trails the used ring's producer index by at most one lap, the
    /// unharvested window of the used ring matching the completion history.
    pub open spec fn matches_queue(self, queue: VirtQueue) -> bool {
        &&& self.wf()
        &&& queue.wf()
        &&& self.queue_size == queue.size
        &&& self.available_index == queue.available.idx
        &&& self.harvested_count@ <= queue.used_log@.len() <= self.harvested_count@ + queue.size
        &&& self.free_index as nat == self.harvested_count@ % (queue.size as nat)
        &&& forall|k: int|
            self.harvested_count@ <= k < queue.used_log@.len() ==> #[trigger] queue.used_log@[k]
                < queue.size && queue.used.ring@[k % (queue.size as int)].id == queue.used_log@[k]
                as u32
    }

    /// A fresh driver: every descriptor index from `0` to `queue_size - 1`
    /// is in the pool, in ascending order, and both cursors are at zero.
    pub fn new_driver(queue_size: u16, poll_interface: P) -> (driver: GuestDriver<P>)
        requires
            is_queue_size(queue_size),
        ensures
            driver.wf(),
            driver.queue_size == queue_size,
            driver.available_index == 0,
            driver.free_index == 0,
            driver.descriptor_item_index == queue_size,
            driver.pool() == Seq::new(queue_size as nat, |i: int| i as u16),
            driver.held@ == Multiset::<u16>::empty(),
            driver.harvested_count@ == 0,
    {
        let mut free_cells: Vec<u16> = Vec::new();
        let mut idx: u16 = 0;
        while idx < queue_size
            invariant
                idx <= queue_size,
                free_cells@.len() == idx,
                forall|j: int| 0 <= j < idx ==> free_cells@[j] == j as u16,
            decreases queue_size - idx,
        {
            free_cells.push(idx);
            idx = idx + 1;
        }
        let driver = GuestDriver {
            queue_size,
            available_index: 0,
            free_index: 0,
            descriptor_item_index: queue_size as usize,
            free_descriptor_cells: free_cells,
            poll_interface,
            held: Ghost(Multiset::empty()),
            harvested_count: Ghost(0),
        };
        proof {
            assert(driver.pool() =~= Seq::new(queue_size as nat, |i: int| i as u16));
        }
        driver
    }

    /// Signal the device-side peer through the notifier capability.
    pub fn notify_epoll(&self) {
        self.poll_interface.submit_event();
    }

    /// Pop a free descriptor index from the pool, or none when the pool is
    /// exhausted.  The popped index moves into the guest's held set.
    pub fn get_descriptor_cell(&mut self) -> (result: Option<u16>)
        requires
            old(self).wf(),
        ensures
            final(self).wf(),
            old(self).descriptor_item_index == 0 ==> result is None && *final(self) == *old(self),
            old(self).descriptor_item_index > 0 ==> {
                &&& result == Some(old(self).pool().last())
                &&& old(self).pool().last() < old(self).queue_size
                &&& final(self).pool() == old(self).pool().drop_last()
                &&& final(self).held@ == old(self).held@.insert(old(self).pool().last())
                &&& final(self).descriptor_item_index == old(self).descriptor_item_index - 1
                &&& final(self).free_descriptor_cells == old(self).free_descriptor_cells
                &&& final(self).queue_size == old(self).queue_size
                &&& final(self).available_index == old(self).available_index
                &&& final(self).free_index == old(self).free_index
                &&& final(self).harvested_count == old(self).harvested_count
                &&& final(self).poll_interface == old(self).poll_interface
            },
    {
        if self.descriptor_item_index == 0 {
            return None;
        }
        self.descriptor_item_index = self.descriptor_item_index - 1;
        let desc_cell_idx = self.free_descriptor_cells[self.descriptor_item_index];
        self.held = Ghost(self.held@.insert(desc_cell_idx));
        proof {
            assert(old(self).pool().last() == desc_cell_idx);
            assert(self.pool() =~= old(self).pool().drop_last());
        }
        Some(desc_cell_idx)
    }

    /// Publish a held descriptor index on the available ring: write it into
    /// the slot under the producer index, advance the producer index and the
    /// private cursor modulo the queue size, and signal the peer.
    pub fn submit_to_avail_queue(&mut self, queue: &mut VirtQueue, idx: u16)
        requires
            old(self).matches_queue(*old(queue)),
            old(self).held@.contains(idx),
            idx < old(queue).size,
        ensures
            final(self).matches_queue(*final(queue)),
            final(queue).avail_log@ == old(queue).avail_log@.push(idx),
            final(queue).available.ring@ == old(queue).available.ring@.update(
                old(queue).available.idx as int,
                idx,
            ),
            final(queue).available.idx as int == (old(queue).available.idx + 1) % (
            old(queue).size as int),
            final(queue).available.flags == old(queue).available.flags,
            final(queue).used == old(queue).used,
            final(queue).used_log == old(queue).used_log,
            final(queue).descriptor_cell == old(queue).descriptor_cell,
            final(queue).size == old(queue).size,
            final(self).available_index == final(queue).available.idx,
            final(self).held@ == old(self).held@.remove(idx),
            final(self).queue_size == old(self).queue_size,
            final(self).free_index == old(self).free_index,
            final(self).descriptor_item_index == old(self).descriptor_item_index,
            final(self).free_descriptor_cells == old(self).free_descriptor_cells,
            final(self).harvested_count == old(self).harvested_count,
            final(self).poll_interface == old(self).poll_interface,
    {
        queue.available.set_ring_from_idx(self.available_index, idx);
        queue.available.increment_idx(self.queue_size);
        queue.avail_log = Ghost(queue.avail_log@.push(idx));
        self.available_index = (self.available_index + 1) % self.queue_size;
        self.held = Ghost(self.held@.remove(idx));
        proof {
            lemma_cursor_increment(old(queue).avail_log@.len() as int, queue.size as int);
        }
        self.notify_epoll();
    }

    /// Harvest the next completion from the used ring: when the device has
    /// published completions the guest has not yet seen, return the oldest
    /// one's descriptor index, advance the harvest cursor, and move the
    /// index into the guest's held set.
    ///
    /// The cursors coincide both when the window is empty and when it spans
    /// a full lap of the ring, so a full window is indistinguishable from an
    /// empty one: the producer indices wrap at the queue size rather than at
    /// a power of `2^16`, and the guest sees nothing until the window shrinks.
    pub fn check_used_queue(&mut self, queue: &VirtQueue) -> (result: Option<u16>)
        requires
            old(self).matches_queue(*queue),
        ensures
            final(self).matches_queue(*queue),
            ({
                let window = queue.used_log@.len() - old(self).harvested_count@;
                if window % (queue.size as int) == 0 {
                    result is None && *final(self) == *old(self)
                } else {
                    let id = queue.used_log@[old(self).harvested_count@ as int];
                    &&& result == Some(id)
                    &&& id < queue.size
                    &&& final(self).harvested_count@ == old(self).harvested_count@ + 1
                    &&& final(self).free_index as int == (old(self).free_index + 1) % (
                    queue.size as int)
                    &&& final(self).held@ == old(self).held@.insert(id)
                    &&& final(self).queue_size == old(self).queue_size
                    &&& final(self).available_index == old(self).available_index
                    &&& final(self).descriptor_item_index == old(self).descriptor_item_index
                    &&& final(self).free_descriptor_cells == old(self).free_descriptor_cells
                    &&& final(self).poll_interface == old(self).poll_interface
                }
            }),
    {
        let current_idx = queue.used.get_idx();
        proof {
            lemma_cursor_window(
                self.harvested_count@ as int,
                queue.used_log@.len() as int,
                queue.size as int,
            );
        }
        if current_idx == self.free_index {
            proof {
                if queue.used_log@.len() == old(self).harvested_count@ + queue.size {
                    vstd::arithmetic::div_mod::lemma_mod_self_0(queue.size as int);
                    assert((queue.used_log@.len() - old(self).harvested_count@) % (
                    queue.size as int) == queue.size as int % (queue.size as int));
                } else {
                    assert(queue.used_log@.len() == old(self).harvested_count@);
                    assert((queue.used_log@.len() - old(self).harvested_count@) % (
                    queue.size as int) == 0int % (queue.size as int));
                }
            }
            return None;
        }
        let freed_item = queue.used.get_ring_from_idx(self.free_index);
        proof {
            vstd::arithmetic::div_mod::lemma_small_mod(
                (queue.used_log@.len() - old(self).harvested_count@) as nat,
                queue.size as nat,
            );
            assert(queue.used.ring@[(old(self).harvested_count@ as int) % (queue.size as int)].id
                == queue.used_log@[old(self).harvested_count@ as int] as u32);
        }
        let id = freed_item.id as u16;
        self.free_index = (self.free_index + 1) % self.queue_size;
        self.harvested_count = Ghost(self.harvested_count@ + 1);
        self.held = Ghost(self.held@.insert(id));
        proof {
            lemma_cursor_increment(old(self).harvested_count@ as int, queue.size as int);
        }
        Some(id)
    }

    /// Return a held descriptor index to the free-list and reclaim its
    /// handoff buffer.  The index is written at the current stack pointer,
    /// which then moves up by one.
    pub fn release_back_to_pool(&mut self, buffers: &mut HandoffBuffers, idx: u16)
        requires
            old(self).wf(),
            old(self).held@.contains(idx),
            idx < old(self).queue_size,
            old(self).descriptor_item_index < old(self).queue_size,
            old(buffers)@.len() == old(self).queue_size,
        ensures
            final(self).wf(),
            final(self).pool() == old(self).pool().push(idx),
            final(self).held@ == old(self).held@.remove(idx),
            final(self).descriptor_item_index == old(self).descriptor_item_index + 1,
            final(buffers)@ == old(buffers)@.update(idx as int, Seq::<u8>::empty()),
            final(self).queue_size == old(self).queue_size,
            final(self).available_index == old(self).available_index,
            final(self).free_index == old(self).free_index,
            final(self).harvested_count == old(self).harvested_count,
            final(self).poll_interface == old(self).poll_interface,
    {
        self.free_descriptor_cells[self.descriptor_item_index] = idx;
        self.descriptor_item_index = self.descriptor_item_index + 1;
        self.held = Ghost(self.held@.remove(idx));
        buffers.store_buffer(idx, Vec::new());
        proof {
            assert(self.pool() =~= old(self).pool().push(idx));
        }
    }
}

} // verus!
