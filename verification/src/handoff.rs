//! The buffer memory handed off between the endpoints.
//!
//! In the simulated transport a descriptor does not carry its payload; it
//! carries an address.  This module models that memory: one byte buffer per
//! descriptor index.  The guest fills a slot before publishing the index,
//! ownership passes logically to the device for the duration, and the guest
//! reclaims the slot when it releases the index back to the pool.

use vstd::pervasive::VecAdditionalExecFns;
use vstd::prelude::*;

verus! {

/// Byte-for-byte comparison of two buffers.
pub fn bytes_eq(left: &Vec<u8>, right: &Vec<u8>) -> (equal: bool)
    ensures
        equal == (left@ == right@),
{
    if left.len() != right.len() {
        return false;
    }
    let count = left.len();
    let mut i: usize = 0;
    while i < count
        invariant
            count == left@.len(),
            left@.len() == right@.len(),
            i <= count,
            forall|k: int| 0 <= k < i ==> left@[k] == right@[k],
        decreases count - i,
    {
        if left[i] != right[i] {
            return false;
        }
        i = i + 1;
    }
    proof {
        assert(left@ =~= right@);
    }
    true
}

/// A fresh buffer with the same bytes.
pub fn copy_bytes(source: &Vec<u8>) -> (duplicate: Vec<u8>)
    ensures
        duplicate@ == source@,
{
    let count = source.len();
    let mut duplicate: Vec<u8> = Vec::new();
    let mut i: usize = 0;
    while i < count
        invariant
            count == source@.len(),
            i <= count,
            duplicate@ == source@.take(i as int),
        decreases count - i,
    {
        duplicate.push(source[i]);
        proof {
            assert(duplicate@ =~= source@.take(i + 1));
        }
        i = i + 1;
    }
    proof {
        assert(source@.take(count as int) =~= source@);
    }
    duplicate
}

/// A fresh buffer of this many zero bytes.
pub fn zero_bytes(count: usize) -> (buffer: Vec<u8>)
    ensures
        buffer@ == Seq::new(count as nat, |i: int| 0u8),
{
    let mut buffer: Vec<u8> = Vec::new();
    let mut i: usize = 0;
    while i < count
        invariant
            i <= count,
            buffer@.len() == i,
            forall|k: int| 0 <= k < i ==> buffer@[k] == 0u8,
        decreases count - i,
    {
        buffer.push(0);
        i = i + 1;
    }
    proof {
        assert(buffer@ =~= Seq::new(count as nat, |i: int| 0u8));
    }
    buffer
}

/// One byte buffer per descriptor index.
pub struct HandoffBuffers {
    pub slots: Vec<Vec<u8>>,
}

impl View for HandoffBuffers {
    type V = Seq<Seq<u8>>;

    open spec fn view(&self) -> Seq<Seq<u8>> {
        self.slots@.map_values(|b: Vec<u8>| b@)
    }
}

impl HandoffBuffers {
    pub fn new(size: u16) -> (buffers: HandoffBuffers)
        ensures
            buffers@.len() == size,
            forall|i: int| 0 <= i < size ==> buffers@[i] == Seq::<u8>::empty(),
    {
        let mut slots: Vec<Vec<u8>> = Vec::new();
        let mut i: u16 = 0;
        while i < size
            invariant
                i <= size,
                slots@.len() == i,
                forall|j: int| 0 <= j < i ==> slots@[j]@ == Seq::<u8>::empty(),
            decreases size - i,
        {
            slots.push(Vec::new());
            i = i + 1;
        }
        let buffers = HandoffBuffers { slots };
        proof {
            assert(forall|j: int| 0 <= j < size ==> buffers@[j] == Seq::<u8>::empty());
        }
        buffers
    }

    /// Attach a payload to the slot of a descriptor index.
    pub fn store_buffer(&mut self, idx: u16, bytes: Vec<u8>)
        requires
            idx < old(self)@.len(),
        ensures
            final(self)@ == old(self)@.update(idx as int, bytes@),
    {
        self.slots.set(idx as usize, bytes);
    }

    /// Read the payload attached to a descriptor index.
    pub fn buffer_at(&self, idx: u16) -> (bytes: &Vec<u8>)
        requires
            idx < self@.len(),
        ensures
            bytes@ == self@[idx as int],
    {
        &self.slots[idx as usize]
    }

    /// Detach and return the payload of a slot, leaving the slot empty.
    pub fn take_buffer(&mut self, idx: u16) -> (bytes: Vec<u8>)
        requires
            idx < old(self)@.len(),
        ensures
            bytes@ == old(self)@[idx as int],
            final(self)@ == old(self)@.update(idx as int, Seq::<u8>::empty()),
    {
        let mut bytes: Vec<u8> = Vec::new();
        self.slots.set_and_swap(idx as usize, &mut bytes);
        bytes
    }
}

} // verus!
