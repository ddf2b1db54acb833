//! The split-virtqueue memory layout: a descriptor table, an available ring
//! (guest to device) and a used ring (device to guest).
//!
//! The rings expose only low-level indexed access.  Each ring keeps, as ghost
//! state, the full history of indices ever published on it; the producer
//! index of a ring always equals the length of that history modulo the queue
//! size.  The drivers' invariants are stated over these histories.

use vstd::prelude::*;

verus! {

/// A single entry of the descriptor table: a buffer address, the length of
/// the buffer, a flag word carrying the block-protocol command or reply, and
/// the index of the next descriptor in a chain.
#[derive(Clone, Copy)]
pub struct DescriptorCell {
    pub addr: u64,
    pub length: u32,
    pub flags: u16,
    pub next: u16,
}

impl Default for DescriptorCell {
    fn default() -> (cell: Self)
        ensures
            cell == (DescriptorCell { addr: 0, length: 0, flags: 0, next: 0 }),
    {
        DescriptorCell { addr: 0, length: 0, flags: 0, next: 0 }
    }
}

/// The queue size must be a power of two: the producer indices wrap at the
/// queue size, and slot positions are taken modulo the queue size.
pub open spec fn is_queue_size(s: u16) -> bool {
    s > 0 && (s & ((s - 1) as u16)) == 0
}

/// The available ring: a flag word, a producer index that the guest advances
/// modulo the queue size, and a ring of descriptor indices.
pub struct Available {
    pub flags: u16,
    pub idx: u16,
    pub ring: Vec<u16>,
}

impl Available {
    pub fn get_ring_from_idx(&self, idx: u16) -> (entry: u16)
        requires
            idx < self.ring@.len(),
        ensures
            entry == self.ring@[idx as int],
    {
        self.ring[idx as usize]
    }

    pub fn set_ring_from_idx(&mut self, idx: u16, entry: u16)
        requires
            idx < old(self).ring@.len(),
        ensures
            final(self).ring@ == old(self).ring@.update(idx as int, entry),
            final(self).flags == old(self).flags,
            final(self).idx == old(self).idx,
    {
        self.ring[idx as usize] = entry;
    }

    pub fn get_idx(&self) -> (idx: u16)
        ensures
            idx == self.idx,
    {
        self.idx
    }

    pub fn increment_idx(&mut self, max_size: u16)
        requires
            old(self).idx < max_size,
        ensures
            final(self).idx as int == (old(self).idx + 1) % (max_size as int),
            final(self).flags == old(self).flags,
            final(self).ring == old(self).ring,
    {
        self.idx = (self.idx + 1) % max_size;
    }
}

/// A completion record on the used ring: the index of the completed
/// descriptor and the number of bytes written.
#[derive(Clone, Copy)]
pub struct UsedCell {
    pub id: u32,
    pub len: u32,
}

impl Default for UsedCell {
    fn default() -> (cell: Self)
        ensures
            cell == (UsedCell { id: 0, len: 0 }),
    {
        UsedCell { id: 0, len: 0 }
    }
}

/// The used ring: a flag word, a producer index that the device advances
/// modulo the queue size, and a ring of completion records.
pub struct Used {
    pub flags: u16,
    pub idx: u16,
    pub ring: Vec<UsedCell>,
}

impl Used {
    pub fn get_ring_from_idx(&self, idx: u16) -> (entry: UsedCell)
        requires
            idx < self.ring@.len(),
        ensures
            entry == self.ring@[idx as int],
    {
        self.ring[idx as usize]
    }

    pub fn set_ring_from_idx(&mut self, idx: u16, entry: UsedCell)
        requires
            idx < old(self).ring@.len(),
        ensures
            final(self).ring@ == old(self).ring@.update(idx as int, entry),
            final(self).flags == old(self).flags,
            final(self).idx == old(self).idx,
    {
        self.ring[idx as usize] = entry;
    }

    pub fn get_idx(&self) -> (idx: u16)
        ensures
            idx == self.idx,
    {
        self.idx
    }

    pub fn increment_idx(&mut self, max_size: u16)
        requires
            old(self).idx < max_size,
        ensures
            final(self).idx as int == (old(self).idx + 1) % (max_size as int),
            final(self).flags == old(self).flags,
            final(self).ring == old(self).ring,
    {
        self.idx = (self.idx + 1) % max_size;
    }
}

/// Advancing a wrapped ring cursor by one tracks the unwrapped event count:
/// the cursor for `count + 1` events is the old cursor plus one, modulo the
/// queue size.
pub proof fn lemma_cursor_increment(count: int, size: int)
    requires
        size > 0,
        count >= 0,
    ensures
        (count % size + 1) % size == (count + 1) % size,
{
    vstd::arithmetic::div_mod::lemma_add_mod_noop_right(1, count, size);
}

/// A consumer cursor that trails a producer count by at most one lap equals
/// the producer's cursor exactly when the counts are equal or a full lap
/// apart: a ring whose cursors coincide is either empty or full.
pub proof fn lemma_cursor_window(consumed: int, produced: int, size: int)
    requires
        size > 0,
        0 <= consumed <= produced <= consumed + size,
    ensures
        (consumed % size == produced % size) <==> (produced == consumed || produced == consumed
            + size),
{
    if produced == consumed + size {
        vstd::arithmetic::div_mod::lemma_mod_add_multiples_vanish(consumed, size);
    }
    if consumed % size == produced % size && consumed < produced < consumed + size {
        let a = consumed;
        let b = produced;
        let n = size;
        vstd::arithmetic::div_mod::lemma_fundamental_div_mod(a, n);
        vstd::arithmetic::div_mod::lemma_fundamental_div_mod(b, n);
        let k = b / n - a / n;
        assert(b - a == n * k) by (nonlinear_arith)
            requires
                a == n * (a / n) + a % n,
                b == n * (b / n) + b % n,
                a % n == b % n,
                k == b / n - a / n,
        ;
        assert(false) by (nonlinear_arith)
            requires
                b - a == n * k,
                0 < b - a < n,
        ;
    }
}

/// One virtqueue: a descriptor table, an available ring and a used ring, all
/// of the same power-of-two size.
///
/// `avail_log` and `used_log` record, as ghost history, every descriptor
/// index ever published on the corresponding ring, in order.  The producer
/// index of each ring equals the length of its history modulo the queue
/// size; ring slot `k % size` holds the `k`-th history entry for every `k`
/// still in the consumer's window.
pub struct VirtQueue {
    pub descriptor_cell: Vec<DescriptorCell>,
    pub available: Available,
    pub used: Used,
    pub size: u16,
    pub avail_log: Ghost<Seq<u16>>,
    pub used_log: Ghost<Seq<u16>>,
}

impl VirtQueue {
    pub open spec fn wf(self) -> bool {
        &&& is_queue_size(self.size)
        &&& self.descriptor_cell@.len() == self.size
        &&& self.available.ring@.len() == self.size
        &&& self.used.ring@.len() == self.size
        &&& self.available.idx as nat == self.avail_log@.len() % (self.size as nat)
        &&& self.used.idx as nat == self.used_log@.len() % (self.size as nat)
    }

    pub fn new_with_size(size: u16) -> (queue: VirtQueue)
        requires
            is_queue_size(size),
        ensures
            queue.wf(),
            queue.size == size,
            queue.avail_log@ == Seq::<u16>::empty(),
            queue.used_log@ == Seq::<u16>::empty(),
            queue.available.idx == 0,
            queue.available.flags == 0,
            queue.used.idx == 0,
            queue.used.flags == 0,
            forall|i: int|
                0 <= i < size ==> queue.descriptor_cell@[i] == (DescriptorCell {
                    addr: 0,
                    length: 0,
                    flags: 0,
                    next: 0,
                }),
            forall|i: int| 0 <= i < size ==> queue.available.ring@[i] == i as u16,
            forall|i: int| 0 <= i < size ==> queue.used.ring@[i] == (UsedCell { id: 0, len: 0 }),
    {
        let mut descriptor_table: Vec<DescriptorCell> = Vec::new();
        let mut available_list: Vec<u16> = Vec::new();
        let mut used_list: Vec<UsedCell> = Vec::new();
        let mut i: u16 = 0;
        while i < size
            invariant
                i <= size,
                descriptor_table@.len() == i,
                available_list@.len() == i,
                used_list@.len() == i,
                forall|j: int|
                    0 <= j < i ==> descriptor_table@[j] == (DescriptorCell {
                        addr: 0,
                        length: 0,
                        flags: 0,
                        next: 0,
                    }),
                forall|j: int| 0 <= j < i ==> available_list@[j] == j as u16,
                forall|j: int| 0 <= j < i ==> used_list@[j] == (UsedCell { id: 0, len: 0 }),
            decreases size - i,
        {
            descriptor_table.push(DescriptorCell { addr: 0, length: 0, flags: 0, next: 0 });
            available_list.push(i);
            used_list.push(UsedCell { id: 0, len: 0 });
            i = i + 1;
        }
        proof {
            assert(Seq::<u16>::empty().len() % (size as nat) == 0nat);
        }
        VirtQueue {
            descriptor_cell: descriptor_table,
            available: Available { flags: 0, idx: 0, ring: available_list },
            used: Used { flags: 0, idx: 0, ring: used_list },
            size,
            avail_log: Ghost(Seq::empty()),
            used_log: Ghost(Seq::empty()),
        }
    }

    pub fn get_descriptor_from_idx(&self, idx: u16) -> (cell: DescriptorCell)
        requires
            idx < self.descriptor_cell@.len(),
        ensures
            cell == self.descriptor_cell@[idx as int],
    {
        self.descriptor_cell[idx as usize]
    }

    pub fn set_descriptor_from_idx(&mut self, idx: u16, cell: DescriptorCell)
        requires
            idx < old(self).descriptor_cell@.len(),
        ensures
            final(self).descriptor_cell@ == old(self).descriptor_cell@.update(idx as int, cell),
            final(self).available == old(self).available,
            final(self).used == old(self).used,
            final(self).size == old(self).size,
            final(self).avail_log == old(self).avail_log,
            final(self).used_log == old(self).used_log,
    {
        self.descriptor_cell[idx as usize] = cell;
    }
}

} // verus!
