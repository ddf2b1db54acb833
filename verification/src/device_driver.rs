//! The device-side driver: a consume cursor on the available ring, a
//! publish cursor on the used ring, and the file endpoint behind the block
//! protocol.
//!
//! The device drains the available ring (`poll_available_queue`), executes
//! each request against its file endpoint (`read_message`), and reports the
//! completion on the used ring (`submit_to_used_queue`).  The ghost multiset
//! `held` records the indices consumed but not yet completed; the ghost
//! counter `consumed_count` counts entries taken off the available ring, so
//! that the wrapped cursor `available_index` is always this count modulo the
//! queue size.

use vstd::multiset::Multiset;
use vstd::prelude::*;

use crate::faux_blk::{decode_flags, decode_flags_spec, reply_flags, reply_flags_spec, FileCommand};
use crate::file_store::{
    close_spec, find_record, lemma_find_record_properties, open_spec, read_spec, records_view,
    write_spec, FileRecord, FileRecordView, StoreView,
};
use crate::handoff::{bytes_eq, copy_bytes, HandoffBuffers};
use crate::poller::PollableQueue;
use crate::virtqueue::{
    is_queue_size, lemma_cursor_increment, lemma_cursor_window, DescriptorCell, UsedCell, VirtQueue,
};

verus! {

pub struct DeviceDriver<P: PollableQueue> {
    pub queue_size: u16,
    pub available_index: u16,
    pub used_index: u16,
    pub records: Vec<FileRecord>,
    pub file: Option<usize>,
    pub poll_interface: P,
    pub held: Ghost<Multiset<u16>>,
    pub consumed_count: Ghost<nat>,
}

impl<P: PollableQueue> DeviceDriver<P> {
    /// The device's file endpoint as the model state the file operations
    /// are specified over.
    pub open spec fn store_view(self) -> StoreView {
        StoreView {
            records: records_view(self.records@),
            open_file: match self.file {
                Some(j) => Some(j as int),
                None => None,
            },
        }
    }

    pub open spec fn wf(self) -> bool {
        &&& is_queue_size(self.queue_size)
        &&& self.available_index < self.queue_size
        &&& self.used_index < self.queue_size
        &&& match self.file {
            Some(j) => j < self.records@.len(),
            None => true,
        }
    }

    /// The device's private view agrees with the shared queue: the complete
    /// cursor mirrors the used ring's producer index, and the consume
    /// cursor trails the available ring's producer index by at most one
    /// lap, the unconsumed window of the available ring matching the
    /// publication history.
    pub open spec fn matches_queue(self, queue: VirtQueue) -> bool {
        &&& self.wf()
        &&& queue.wf()
        &&& self.queue_size == queue.size
        &&& self.used_index == queue.used.idx
        &&& self.consumed_count@ <= queue.avail_log@.len() <= self.consumed_count@ + queue.size
        &&& self.available_index as nat == self.consumed_count@ % (queue.size as nat)
        &&& forall|k: int|
            self.consumed_count@ <= k < queue.avail_log@.len() ==> #[trigger] queue.avail_log@[k]
                < queue.size && queue.available.ring@[k % (queue.size as int)]
                == queue.avail_log@[k]
    }

    /// A fresh driver: both cursors at zero, no file table, nothing open.
    pub fn new_driver(queue_size: u16, poll_interface: P) -> (driver: DeviceDriver<P>)
        requires
            is_queue_size(queue_size),
        ensures
            driver.wf(),
            driver.queue_size == queue_size,
            driver.available_index == 0,
            driver.used_index == 0,
            driver.records@ == Seq::<FileRecord>::empty(),
            driver.file is None,
            driver.held@ == Multiset::<u16>::empty(),
            driver.consumed_count@ == 0,
    {
        DeviceDriver {
            queue_size,
            available_index: 0,
            used_index: 0,
            records: Vec::new(),
            file: None,
            poll_interface,
            held: Ghost(Multiset::empty()),
            consumed_count: Ghost(0),
        }
    }

    /// Signal the guest-side peer through the notifier capability.
    pub fn notify_epoll(&self) {
        self.poll_interface.submit_event();
    }

    /// Block until the guest-side peer signals.
    pub fn wait_for_epoll(&self) {
        self.poll_interface.wait_for_event();
    }

    /// Open a file by name: select an existing file, or create an empty one.
    pub fn open_file(&mut self, file_name: &Vec<u8>)
        requires
            old(self).wf(),
        ensures
            final(self).wf(),
            final(self).store_view() == open_spec(old(self).store_view(), file_name@),
            final(self).queue_size == old(self).queue_size,
            final(self).available_index == old(self).available_index,
            final(self).used_index == old(self).used_index,
            final(self).held == old(self).held,
            final(self).consumed_count == old(self).consumed_count,
            final(self).poll_interface == old(self).poll_interface,
    {
        proof {
            lemma_find_record_properties(records_view(self.records@), file_name@);
        }
        match find_file_slot(&self.records, file_name) {
            Some(slot) => {
                self.file = Some(slot);
                proof {
                    assert(find_record(records_view(old(self).records@), file_name@)
                        == slot as int);
                }
            },
            None => {
                let name_copy = copy_bytes(file_name);
                self.records.push(FileRecord { name: name_copy, contents: Vec::new() });
                self.file = Some(self.records.len() - 1);
                proof {
                    assert(records_view(self.records@) =~= records_view(old(self).records@).push(
                        FileRecordView { name: file_name@, contents: Seq::empty() },
                    ));
                }
            },
        }
    }

    /// Replace the contents of the open file; with no open file, a silent
    /// no-op.  One write per open is the block layer's protocol, for which
    /// replacing and appending to a freshly started file coincide; under
    /// repeated writes this endpoint keeps the last (see `write_spec`).
    pub fn write_to_file(&mut self, contents: &Vec<u8>)
        requires
            old(self).wf(),
        ensures
            final(self).wf(),
            final(self).store_view() == write_spec(old(self).store_view(), contents@),
            final(self).file == old(self).file,
            final(self).queue_size == old(self).queue_size,
            final(self).available_index == old(self).available_index,
            final(self).used_index == old(self).used_index,
            final(self).held == old(self).held,
            final(self).consumed_count == old(self).consumed_count,
            final(self).poll_interface == old(self).poll_interface,
    {
        match self.file {
            Some(slot) => {
                let name_copy = copy_bytes(&self.records[slot].name);
                let contents_copy = copy_bytes(contents);
                self.records[slot] = FileRecord { name: name_copy, contents: contents_copy };
                proof {
                    assert(records_view(self.records@) =~= records_view(
                        old(self).records@,
                    ).update(
                        slot as int,
                        FileRecordView {
                            name: old(self).records@[slot as int]@.name,
                            contents: contents@,
                        },
                    ));
                }
            },
            None => {
            },
        }
    }

    /// Fill a prefix of the caller's buffer from the open file: as many
    /// bytes as the buffer, the requested length and the file allow.  With
    /// no open file the buffer is unchanged.
    pub fn read_to_slice(&mut self, buffer: &mut Vec<u8>, length: u64)
        requires
            old(self).wf(),
        ensures
            *final(self) == *old(self),
            final(buffer)@ == read_spec(old(self).store_view(), old(buffer)@, length as int),
    {
        match self.file {
            Some(slot) => {
                let ghost device0 = *self;
                let ghost buffer0 = buffer@;
                let file_len = self.records[slot].contents.len();
                let buf_len = buffer.len();
                let limit_wide: u64 = if length < (buf_len as u64) {
                    length
                } else {
                    buf_len as u64
                };
                let limit = limit_wide as usize;
                let count = if file_len < limit {
                    file_len
                } else {
                    limit
                };
                let mut i: usize = 0;
                while i < count
                    invariant
                        *self == device0,
                        self.file == Some(slot),
                        slot < self.records@.len(),
                        count <= self.records@[slot as int].contents@.len(),
                        i <= count,
                        buffer@.len() == buffer0.len(),
                        count <= buffer0.len(),
                        forall|k: int|
                            0 <= k < i ==> buffer@[k] == self.records@[slot as int].contents@[k],
                        forall|k: int| i <= k < buffer0.len() ==> buffer@[k] == buffer0[k],
                    decreases count - i,
                {
                    let byte = self.records[slot].contents[i];
                    buffer[i] = byte;
                    i = i + 1;
                }
                proof {
                    assert(buffer@ =~= read_spec(old(self).store_view(), buffer0, length as int));
                }
            },
            None => {
            },
        }
    }

    /// Drop the open handle; the file table is kept.
    pub fn close_file(&mut self)
        requires
            old(self).wf(),
        ensures
            final(self).wf(),
            final(self).store_view() == close_spec(old(self).store_view()),
            final(self).records == old(self).records,
            final(self).file is None,
            final(self).queue_size == old(self).queue_size,
            final(self).available_index == old(self).available_index,
            final(self).used_index == old(self).used_index,
            final(self).held == old(self).held,
            final(self).consumed_count == old(self).consumed_count,
            final(self).poll_interface == old(self).poll_interface,
    {
        self.file = None;
    }

    /// Consume the next entry from the available ring: when the guest has
    /// published requests the device has not yet seen, return the oldest
    /// one's descriptor index, advance the consume cursor, and move the
    /// index into the device's held set.
    ///
    /// As on the used ring, a window spanning a full lap of the ring is
    /// indistinguishable from an empty one: the cursors wrap at the queue
    /// size, and the device sees nothing until the window shrinks.
    pub fn poll_available_queue(&mut self, queue: &VirtQueue) -> (result: Option<u16>)
        requires
            old(self).matches_queue(*queue),
        ensures
            final(self).matches_queue(*queue),
            ({
                let window = queue.avail_log@.len() - old(self).consumed_count@;
                if window % (queue.size as int) == 0 {
                    result is None && *final(self) == *old(self)
                } else {
                    let idx = queue.avail_log@[old(self).consumed_count@ as int];
                    &&& result == Some(idx)
                    &&& idx < queue.size
                    &&& final(self).consumed_count@ == old(self).consumed_count@ + 1
                    &&& final(self).available_index as int == (old(self).available_index + 1) % (
                    queue.size as int)
                    &&& final(self).held@ == old(self).held@.insert(idx)
                    &&& final(self).queue_size == old(self).queue_size
                    &&& final(self).used_index == old(self).used_index
                    &&& final(self).records == old(self).records
                    &&& final(self).file == old(self).file
                    &&& final(self).poll_interface == old(self).poll_interface
                }
            }),
    {
        let ring_idx = queue.available.get_idx();
        proof {
            lemma_cursor_window(
                self.consumed_count@ as int,
                queue.avail_log@.len() as int,
                queue.size as int,
            );
        }
        if self.available_index == ring_idx {
            proof {
                if queue.avail_log@.len() == old(self).consumed_count@ + queue.size {
                    vstd::arithmetic::div_mod::lemma_mod_self_0(queue.size as int);
                    assert((queue.avail_log@.len() - old(self).consumed_count@) % (
                    queue.size as int) == queue.size as int % (queue.size as int));
                } else {
                    assert(queue.avail_log@.len() == old(self).consumed_count@);
                    assert((queue.avail_log@.len() - old(self).consumed_count@) % (
                    queue.size as int) == 0int % (queue.size as int));
                }
            }
            return None;
        }
        let loading_idx = self.available_index;
        let available_ring_pos = queue.available.get_ring_from_idx(loading_idx);
        proof {
            vstd::arithmetic::div_mod::lemma_small_mod(
                (queue.avail_log@.len() - old(self).consumed_count@) as nat,
                queue.size as nat,
            );
            assert(queue.available.ring@[(old(self).consumed_count@ as int) % (queue.size as int)]
                == queue.avail_log@[old(self).consumed_count@ as int]);
        }
        self.available_index = (self.available_index + 1) % self.queue_size;
        self.consumed_count = Ghost(self.consumed_count@ + 1);
        self.held = Ghost(self.held@.insert(available_ring_pos));
        proof {
            lemma_cursor_increment(old(self).consumed_count@ as int, queue.size as int);
        }
        Some(available_ring_pos)
    }

    /// Report a completion on the used ring: write the descriptor index
    /// into the slot under the producer index, advance the producer index
    /// and the private cursor modulo the queue size, and signal the peer.
    pub fn submit_to_used_queue(&mut self, queue: &mut VirtQueue, cell_pos: u16)
        requires
            old(self).matches_queue(*old(queue)),
            old(self).held@.contains(cell_pos),
            cell_pos < old(queue).size,
        ensures
            final(self).matches_queue(*final(queue)),
            final(queue).used_log@ == old(queue).used_log@.push(cell_pos),
            final(queue).used.ring@ == old(queue).used.ring@.update(
                old(queue).used.idx as int,
                (UsedCell { id: cell_pos as u32, len: 0 }),
            ),
            final(queue).used.idx as int == (old(queue).used.idx + 1) % (old(queue).size as int),
            final(queue).used.flags == old(queue).used.flags,
            final(queue).available == old(queue).available,
            final(queue).avail_log == old(queue).avail_log,
            final(queue).descriptor_cell == old(queue).descriptor_cell,
            final(queue).size == old(queue).size,
            final(self).used_index == final(queue).used.idx,
            final(self).held@ == old(self).held@.remove(cell_pos),
            final(self).queue_size == old(self).queue_size,
            final(self).available_index == old(self).available_index,
            final(self).consumed_count == old(self).consumed_count,
            final(self).records == old(self).records,
            final(self).file == old(self).file,
            final(self).poll_interface == old(self).poll_interface,
    {
        queue.used.set_ring_from_idx(self.used_index, UsedCell { id: cell_pos as u32, len: 0 });
        queue.used.increment_idx(self.queue_size);
        queue.used_log = Ghost(queue.used_log@.push(cell_pos));
        self.used_index = (self.used_index + 1) % self.queue_size;
        self.held = Ghost(self.held@.remove(cell_pos));
        proof {
            lemma_cursor_increment(old(queue).used_log@.len() as int, queue.size as int);
        }
        self.notify_epoll();
    }

    /// Execute one consumed request: decode the descriptor's flag word,
    /// perform the file operation it names against the handoff buffer of
    /// the descriptor, overwrite the flags with the reply, and report the
    /// completion on the used ring.  An unknown flag combination performs
    /// nothing and leaves the flags unchanged, but is still completed.
    pub fn read_message(&mut self, queue: &mut VirtQueue, buffers: &mut HandoffBuffers, idx: u16)
        requires
            old(self).matches_queue(*old(queue)),
            old(self).held@.contains(idx),
            idx < old(queue).size,
            old(buffers)@.len() == old(queue).size,
        ensures
            final(self).matches_queue(*final(queue)),
            final(buffers)@.len() == old(buffers)@.len(),
            ({
                let cell = old(queue).descriptor_cell@[idx as int];
                let command = decode_flags_spec(cell.flags);
                &&& final(queue).descriptor_cell@ == old(queue).descriptor_cell@.update(
                    idx as int,
                    (DescriptorCell {
                        addr: cell.addr,
                        length: cell.length,
                        flags: reply_flags_spec(command, true, cell.flags),
                        next: cell.next,
                    }),
                )
                &&& final(queue).used_log@ == old(queue).used_log@.push(idx)
                &&& final(queue).used.idx as int == (old(queue).used.idx + 1) % (
                old(queue).size as int)
                &&& final(queue).used.ring@ == old(queue).used.ring@.update(
                    old(queue).used.idx as int,
                    (UsedCell { id: idx as u32, len: 0 }),
                )
                &&& final(queue).used.flags == old(queue).used.flags
                &&& final(queue).available == old(queue).available
                &&& final(queue).avail_log == old(queue).avail_log
                &&& final(queue).size == old(queue).size
                &&& final(self).held@ == old(self).held@.remove(idx)
                &&& final(self).consumed_count == old(self).consumed_count
                &&& final(self).available_index == old(self).available_index
                &&& final(self).used_index == final(queue).used.idx
                &&& final(self).queue_size == old(self).queue_size
                &&& final(self).poll_interface == old(self).poll_interface
                &&& match command {
                    FileCommand::Open => final(self).store_view() == open_spec(
                        old(self).store_view(),
                        old(buffers)@[idx as int],
                    ) && final(buffers)@ == old(buffers)@,
                    FileCommand::WriteContents => final(self).store_view() == write_spec(
                        old(self).store_view(),
                        old(buffers)@[idx as int],
                    ) && final(buffers)@ == old(buffers)@,
                    FileCommand::ReadContents => final(self).store_view() == old(self).store_view()
                        && final(buffers)@ == old(buffers)@.update(
                        idx as int,
                        read_spec(
                            old(self).store_view(),
                            old(buffers)@[idx as int],
                            cell.length as int,
                        ),
                    ),
                    FileCommand::Close => final(self).store_view() == close_spec(
                        old(self).store_view(),
                    ) && final(buffers)@ == old(buffers)@,
                    FileCommand::Unknown => final(self).store_view() == old(self).store_view()
                        && final(buffers)@ == old(buffers)@,
                }
            }),
    {
        let cell = queue.get_descriptor_from_idx(idx);
        let command = decode_flags(cell.flags);
        match command {
            FileCommand::Open => {
                let file_name = buffers.buffer_at(idx);
                self.open_file(file_name);
            },
            FileCommand::WriteContents => {
                let file_contents = buffers.buffer_at(idx);
                self.write_to_file(file_contents);
            },
            FileCommand::ReadContents => {
                let mut data = buffers.take_buffer(idx);
                self.read_to_slice(&mut data, cell.length as u64);
                buffers.store_buffer(idx, data);
                proof {
                    assert(buffers@ =~= old(buffers)@.update(
                        idx as int,
                        read_spec(
                            old(self).store_view(),
                            old(buffers)@[idx as int],
                            cell.length as int,
                        ),
                    ));
                }
            },
            FileCommand::Close => {
                self.close_file();
            },
            FileCommand::Unknown => {
            },
        }
        let reply = reply_flags(command, true, cell.flags);
        queue.set_descriptor_from_idx(
            idx,
            DescriptorCell { addr: cell.addr, length: cell.length, flags: reply, next: cell.next },
        );
        self.submit_to_used_queue(queue, idx);
    }
}

/// The slot of the first file of this name in the table, or none: the
/// executable counterpart of `find_record`.
fn find_file_slot(records: &Vec<FileRecord>, file_name: &Vec<u8>) -> (slot: Option<usize>)
    ensures
        ({
            let found = find_record(records_view(records@), file_name@);
            match slot {
                Some(j) => found == j,
                None => found == -1,
            }
        }),
{
    proof {
        lemma_find_record_properties(records_view(records@), file_name@);
    }
    let count = records.len();
    let mut j: usize = 0;
    while j < count
        invariant
            count == records@.len(),
            j <= count,
            forall|i: int| 0 <= i < j ==> records_view(records@)[i].name != file_name@,
        decreases count - j,
    {
        if bytes_eq(&records[j].name, file_name) {
            proof {
                lemma_find_record_properties(records_view(records@), file_name@);
                let found = find_record(records_view(records@), file_name@);
                assert(records_view(records@)[j as int].name == file_name@);
                if found == -1 {
                    assert(records_view(records@)[j as int].name != file_name@);
                }
                if 0 <= found < j {
                    assert(records_view(records@)[found].name != file_name@);
                }
                if j < found {
                    assert(records_view(records@)[j as int].name != file_name@);
                }
            }
            return Some(j);
        }
        proof {
            assert(records_view(records@)[j as int].name == records@[j as int]@.name);
        }
        j = j + 1;
    }
    proof {
        lemma_find_record_properties(records_view(records@), file_name@);
        let found = find_record(records_view(records@), file_name@);
        if found >= 0 {
            assert(records_view(records@)[found].name == file_name@);
        }
    }
    None
}

} // verus!
