//! Guest-side encoding of the block-protocol commands.
//!
//! A file write is published as three descriptors in order: the name under
//! an open command, the contents under a write-contents command, and an
//! empty close command.  A file read publishes the name under an open
//! command, a pre-allocated buffer for the device to fill, and a close
//! command.  When the descriptor pool runs out mid-sequence the command as
//! a whole fails, but the descriptors already published stay valid: the
//! device will execute them, which is acceptable because open and close are
//! idempotent for this simulator.

use vstd::prelude::*;

use crate::faux_blk::{
    FILE_CLOSE_FLAG, FILE_OPEN_FLAG, FILE_READ, FILE_WRITE, FILE_WRITE_CONTENTS_FLAG,
};
use crate::guest_driver::GuestDriver;
use crate::handoff::{copy_bytes, zero_bytes, HandoffBuffers};
use crate::poller::PollableQueue;
use crate::virtqueue::{DescriptorCell, VirtQueue};

verus! {

/// Capacity of the buffer pre-allocated for a read request.
pub const READ_REQUEST_CAPACITY: usize = 2048;

/// The descriptor a command step publishes: the address is the descriptor's
/// own index (the handoff buffers are keyed by it), the length is the
/// payload length, and the flag word is the command.
pub open spec fn command_cell(idx: u16, flag: u16, length: int) -> DescriptorCell {
    DescriptorCell { addr: idx as u64, length: length as u32, flags: flag, next: 0 }
}

/// Publish one command descriptor carrying a payload: acquire a descriptor
/// index, fill its cell and its handoff buffer, and publish it.  Fails,
/// changing nothing, exactly when the pool is empty.
pub fn write_string_to_queue<P: PollableQueue>(
    driver: &mut GuestDriver<P>,
    queue: &mut VirtQueue,
    buffers: &mut HandoffBuffers,
    message: &Vec<u8>,
    flag: u16,
) -> (result: bool)
    requires
        old(driver).matches_queue(*old(queue)),
        old(buffers)@.len() == old(queue).size,
        message@.len() <= u32::MAX,
    ensures
        final(driver).matches_queue(*final(queue)),
        final(buffers)@.len() == old(buffers)@.len(),
        result == (old(driver).descriptor_item_index > 0),
        !result ==> *final(driver) == *old(driver) && *final(queue) == *old(queue)
            && final(buffers)@ == old(buffers)@,
        result ==> ({
            let idx = old(driver).pool().last();
            &&& idx < old(queue).size
            &&& final(driver).pool() == old(driver).pool().drop_last()
            &&& final(driver).descriptor_item_index == old(driver).descriptor_item_index - 1
            &&& final(driver).held@ == old(driver).held@
            &&& final(driver).free_index == old(driver).free_index
            &&& final(driver).harvested_count == old(driver).harvested_count
            &&& final(driver).queue_size == old(driver).queue_size
            &&& final(driver).free_descriptor_cells == old(driver).free_descriptor_cells
            &&& final(queue).descriptor_cell@ == old(queue).descriptor_cell@.update(
                idx as int,
                command_cell(idx, flag, message@.len() as int),
            )
            &&& final(buffers)@ == old(buffers)@.update(idx as int, message@)
            &&& final(queue).avail_log@ == old(queue).avail_log@.push(idx)
            &&& final(queue).available.idx as int == (old(queue).available.idx + 1) % (
            old(queue).size as int)
            &&& final(queue).available.ring@ == old(queue).available.ring@.update(
                old(queue).available.idx as int,
                idx,
            )
            &&& final(queue).used == old(queue).used
            &&& final(queue).used_log == old(queue).used_log
            &&& final(queue).size == old(queue).size
        }),
{
    let idx = match driver.get_descriptor_cell() {
        Some(picked) => picked,
        None => {
            return false;
        },
    };
    let length = message.len() as u32;
    queue.set_descriptor_from_idx(
        idx,
        DescriptorCell { addr: idx as u64, length, flags: flag, next: 0 },
    );
    buffers.store_buffer(idx, copy_bytes(message));
    driver.submit_to_avail_queue(queue, idx);
    proof {
        assert(driver.held@ =~= old(driver).held@);
    }
    true
}

/// Publish one read-request descriptor: like `write_string_to_queue`, but
/// the payload is a zeroed buffer of `READ_REQUEST_CAPACITY` bytes for the
/// device to fill.
pub fn read_request_to_queue<P: PollableQueue>(
    driver: &mut GuestDriver<P>,
    queue: &mut VirtQueue,
    buffers: &mut HandoffBuffers,
    flag: u16,
) -> (result: bool)
    requires
        old(driver).matches_queue(*old(queue)),
        old(buffers)@.len() == old(queue).size,
    ensures
        final(driver).matches_queue(*final(queue)),
        final(buffers)@.len() == old(buffers)@.len(),
        result == (old(driver).descriptor_item_index > 0),
        !result ==> *final(driver) == *old(driver) && *final(queue) == *old(queue)
            && final(buffers)@ == old(buffers)@,
        result ==> ({
            let idx = old(driver).pool().last();
            &&& idx < old(queue).size
            &&& final(driver).pool() == old(driver).pool().drop_last()
            &&& final(driver).descriptor_item_index == old(driver).descriptor_item_index - 1
            &&& final(driver).held@ == old(driver).held@
            &&& final(driver).free_index == old(driver).free_index
            &&& final(driver).harvested_count == old(driver).harvested_count
            &&& final(driver).queue_size == old(driver).queue_size
            &&& final(driver).free_descriptor_cells == old(driver).free_descriptor_cells
            &&& final(queue).descriptor_cell@ == old(queue).descriptor_cell@.update(
                idx as int,
                command_cell(idx, flag, READ_REQUEST_CAPACITY as int),
            )
            &&& final(buffers)@ == old(buffers)@.update(
                idx as int,
                Seq::new(READ_REQUEST_CAPACITY as nat, |i: int| 0u8),
            )
            &&& final(queue).avail_log@ == old(queue).avail_log@.push(idx)
            &&& final(queue).available.idx as int == (old(queue).available.idx + 1) % (
            old(queue).size as int)
            &&& final(queue).available.ring@ == old(queue).available.ring@.update(
                old(queue).available.idx as int,
                idx,
            )
            &&& final(queue).used == old(queue).used
            &&& final(queue).used_log == old(queue).used_log
            &&& final(queue).size == old(queue).size
        }),
{
    let idx = match driver.get_descriptor_cell() {
        Some(picked) => picked,
        None => {
            return false;
        },
    };
    let storage_blob = zero_bytes(READ_REQUEST_CAPACITY);
    queue.set_descriptor_from_idx(
        idx,
        DescriptorCell {
            addr: idx as u64,
            length: READ_REQUEST_CAPACITY as u32,
            flags: flag,
            next: 0,
        },
    );
    buffers.store_buffer(idx, storage_blob);
    driver.submit_to_avail_queue(queue, idx);
    proof {
        assert(driver.held@ =~= old(driver).held@);
    }
    true
}

/// Publish a complete "write file" command: the name under an open
/// descriptor, the contents under a write-contents descriptor, and an empty
/// close descriptor, all in the write direction.  Succeeds exactly when the
/// pool held at least three descriptors; on failure the steps already
/// published stand.
pub fn write_file_contents<P: PollableQueue>(
    driver: &mut GuestDriver<P>,
    queue: &mut VirtQueue,
    buffers: &mut HandoffBuffers,
    file_name: &Vec<u8>,
    file_contents: &Vec<u8>,
) -> (result: bool)
    requires
        old(driver).matches_queue(*old(queue)),
        old(buffers)@.len() == old(queue).size,
        file_name@.len() <= u32::MAX,
        file_contents@.len() <= u32::MAX,
    ensures
        final(driver).matches_queue(*final(queue)),
        final(buffers)@.len() == old(buffers)@.len(),
        result == (old(driver).descriptor_item_index >= 3),
        final(driver).held@ == old(driver).held@,
        final(driver).free_index == old(driver).free_index,
        final(driver).harvested_count == old(driver).harvested_count,
        final(queue).used == old(queue).used,
        final(queue).used_log == old(queue).used_log,
        final(queue).size == old(queue).size,
        final(driver).descriptor_item_index == if old(driver).descriptor_item_index >= 3 {
            old(driver).descriptor_item_index - 3
        } else {
            0
        },
        result ==> ({
            let p = old(driver).pool();
            let n = p.len() as int;
            let first = p[n - 1];
            let second = p[n - 2];
            let third = p[n - 3];
            &&& final(queue).avail_log@ == old(queue).avail_log@.push(first).push(second).push(
                third,
            )
            &&& final(queue).descriptor_cell@ == old(queue).descriptor_cell@.update(
                first as int,
                command_cell(first, FILE_WRITE | FILE_OPEN_FLAG, file_name@.len() as int),
            ).update(
                second as int,
                command_cell(
                    second,
                    FILE_WRITE | FILE_WRITE_CONTENTS_FLAG,
                    file_contents@.len() as int,
                ),
            ).update(third as int, command_cell(third, FILE_WRITE | FILE_CLOSE_FLAG, 0))
            &&& final(buffers)@ == old(buffers)@.update(first as int, file_name@).update(
                second as int,
                file_contents@,
            ).update(third as int, Seq::<u8>::empty())
            &&& final(driver).pool() == p.drop_last().drop_last().drop_last()
        }),
        !result && old(driver).descriptor_item_index == 0 ==> *final(driver) == *old(driver)
            && *final(queue) == *old(queue) && final(buffers)@ == old(buffers)@,
        !result && old(driver).descriptor_item_index == 1 ==> ({
            let first = old(driver).pool().last();
            &&& final(queue).avail_log@ == old(queue).avail_log@.push(first)
            &&& final(queue).descriptor_cell@ == old(queue).descriptor_cell@.update(
                first as int,
                command_cell(first, FILE_WRITE | FILE_OPEN_FLAG, file_name@.len() as int),
            )
            &&& final(buffers)@ == old(buffers)@.update(first as int, file_name@)
        }),
        !result && old(driver).descriptor_item_index == 2 ==> ({
            let p = old(driver).pool();
            let n = p.len() as int;
            let first = p[n - 1];
            let second = p[n - 2];
            &&& final(queue).avail_log@ == old(queue).avail_log@.push(first).push(second)
            &&& final(queue).descriptor_cell@ == old(queue).descriptor_cell@.update(
                first as int,
                command_cell(first, FILE_WRITE | FILE_OPEN_FLAG, file_name@.len() as int),
            ).update(
                second as int,
                command_cell(
                    second,
                    FILE_WRITE | FILE_WRITE_CONTENTS_FLAG,
                    file_contents@.len() as int,
                ),
            )
            &&& final(buffers)@ == old(buffers)@.update(first as int, file_name@).update(
                second as int,
                file_contents@,
            )
        }),
{
    if !write_string_to_queue(driver, queue, buffers, file_name, FILE_WRITE | FILE_OPEN_FLAG) {
        return false;
    }
    if !write_string_to_queue(
        driver,
        queue,
        buffers,
        file_contents,
        FILE_WRITE | FILE_WRITE_CONTENTS_FLAG,
    ) {
        return false;
    }
    let empty_payload: Vec<u8> = Vec::new();
    if !write_string_to_queue(driver, queue, buffers, &empty_payload, FILE_WRITE | FILE_CLOSE_FLAG)
        {
        return false;
    }
    true
}

/// Publish a complete "read file" command: the name under an open
/// descriptor, a zeroed buffer of `READ_REQUEST_CAPACITY` bytes for the
/// device to fill, and an empty close descriptor, all in the read
/// direction.  Succeeds exactly when the pool held at least three
/// descriptors; on failure the steps already published stand.
pub fn read_file_contents<P: PollableQueue>(
    driver: &mut GuestDriver<P>,
    queue: &mut VirtQueue,
    buffers: &mut HandoffBuffers,
    file_name: &Vec<u8>,
) -> (result: bool)
    requires
        old(driver).matches_queue(*old(queue)),
        old(buffers)@.len() == old(queue).size,
        file_name@.len() <= u32::MAX,
    ensures
        final(driver).matches_queue(*final(queue)),
        final(buffers)@.len() == old(buffers)@.len(),
        result == (old(driver).descriptor_item_index >= 3),
        final(driver).held@ == old(driver).held@,
        final(driver).free_index == old(driver).free_index,
        final(driver).harvested_count == old(driver).harvested_count,
        final(queue).used == old(queue).used,
        final(queue).used_log == old(queue).used_log,
        final(queue).size == old(queue).size,
        final(driver).descriptor_item_index == if old(driver).descriptor_item_index >= 3 {
            old(driver).descriptor_item_index - 3
        } else {
            0
        },
        result ==> ({
            let p = old(driver).pool();
            let n = p.len() as int;
            let first = p[n - 1];
            let second = p[n - 2];
            let third = p[n - 3];
            &&& final(queue).avail_log@ == old(queue).avail_log@.push(first).push(second).push(
                third,
            )
            &&& final(queue).descriptor_cell@ == old(queue).descriptor_cell@.update(
                first as int,
                command_cell(first, FILE_READ | FILE_OPEN_FLAG, file_name@.len() as int),
            ).update(
                second as int,
                command_cell(
                    second,
                    FILE_READ | FILE_WRITE_CONTENTS_FLAG,
                    READ_REQUEST_CAPACITY as int,
                ),
            ).update(third as int, command_cell(third, FILE_READ | FILE_CLOSE_FLAG, 0))
            &&& final(buffers)@ == old(buffers)@.update(first as int, file_name@).update(
                second as int,
                Seq::new(READ_REQUEST_CAPACITY as nat, |i: int| 0u8),
            ).update(third as int, Seq::<u8>::empty())
            &&& final(driver).pool() == p.drop_last().drop_last().drop_last()
        }),
        !result && old(driver).descriptor_item_index == 0 ==> *final(driver) == *old(driver)
            && *final(queue) == *old(queue) && final(buffers)@ == old(buffers)@,
        !result && old(driver).descriptor_item_index == 1 ==> ({
            let first = old(driver).pool().last();
            &&& final(queue).avail_log@ == old(queue).avail_log@.push(first)
            &&& final(queue).descriptor_cell@ == old(queue).descriptor_cell@.update(
                first as int,
                command_cell(first, FILE_READ | FILE_OPEN_FLAG, file_name@.len() as int),
            )
            &&& final(buffers)@ == old(buffers)@.update(first as int, file_name@)
        }),
        !result && old(driver).descriptor_item_index == 2 ==> ({
            let p = old(driver).pool();
            let n = p.len() as int;
            let first = p[n - 1];
            let second = p[n - 2];
            &&& final(queue).avail_log@ == old(queue).avail_log@.push(first).push(second)
            &&& final(queue).descriptor_cell@ == old(queue).descriptor_cell@.update(
                first as int,
                command_cell(first, FILE_READ | FILE_OPEN_FLAG, file_name@.len() as int),
            ).update(
                second as int,
                command_cell(
                    second,
                    FILE_READ | FILE_WRITE_CONTENTS_FLAG,
                    READ_REQUEST_CAPACITY as int,
                ),
            )
            &&& final(buffers)@ == old(buffers)@.update(first as int, file_name@).update(
                second as int,
                Seq::new(READ_REQUEST_CAPACITY as nat, |i: int| 0u8),
            )
        }),
{
    if !write_string_to_queue(driver, queue, buffers, file_name, FILE_READ | FILE_OPEN_FLAG) {
        return false;
    }
    if !read_request_to_queue(driver, queue, buffers, FILE_READ | FILE_WRITE_CONTENTS_FLAG) {
        return false;
    }
    let empty_payload: Vec<u8> = Vec::new();
    if !write_string_to_queue(driver, queue, buffers, &empty_payload, FILE_READ | FILE_CLOSE_FLAG)
        {
        return false;
    }
    true
}

} // verus!
