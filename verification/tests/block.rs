use virtio_sim::commands::{read_file_contents, write_file_contents, READ_REQUEST_CAPACITY};
use virtio_sim::device_driver::DeviceDriver;
use virtio_sim::faux_blk::{
    decode_flags, is_read_direction, reply_flags, FileCommand, FILE_CLOSE_FLAG, FILE_OPEN_FLAG,
    FILE_READ, FILE_STATE_FLAG, FILE_WRITE, FILE_WRITE_CONTENTS_FLAG, STATE_SUCCESS,
};
use virtio_sim::guest_driver::GuestDriver;
use virtio_sim::handoff::HandoffBuffers;
use virtio_sim::poller::NoopNotifier;
use virtio_sim::virtqueue::VirtQueue;

/// Drain the available ring: execute every pending request and complete it.
fn run_device(
    device: &mut DeviceDriver<NoopNotifier>,
    queue: &mut VirtQueue,
    buffers: &mut HandoffBuffers,
) -> Vec<u16> {
    let mut served = Vec::new();
    while let Some(idx) = device.poll_available_queue(queue) {
        device.read_message(queue, buffers, idx);
        served.push(idx);
    }
    served
}

/// Harvest every pending completion, in order, without releasing.
fn harvest_all(guest: &mut GuestDriver<NoopNotifier>, queue: &VirtQueue) -> Vec<u16> {
    let mut harvested = Vec::new();
    while let Some(idx) = guest.check_used_queue(queue) {
        harvested.push(idx);
    }
    harvested
}

#[test]
fn write_then_read_round_trips_through_the_device() {
    // FileWrite("/tmp/t", "hello\n") followed by FileRead("/tmp/t") into a
    // 2048-byte buffer: the buffer starts with exactly "hello\n", and the
    // read descriptor's reply flags are FILE_READ | STATE_SUCCESS.
    let mut queue = VirtQueue::new_with_size(4);
    let mut buffers = HandoffBuffers::new(4);
    let mut guest = GuestDriver::new_driver(4, NoopNotifier {});
    let mut device = DeviceDriver::new_driver(4, NoopNotifier {});

    let name = b"/tmp/t".to_vec();
    let contents = b"hello\n".to_vec();
    assert!(write_file_contents(&mut guest, &mut queue, &mut buffers, &name, &contents));
    run_device(&mut device, &mut queue, &mut buffers);
    for idx in harvest_all(&mut guest, &queue) {
        guest.release_back_to_pool(&mut buffers, idx);
    }

    assert!(read_file_contents(&mut guest, &mut queue, &mut buffers, &name));
    run_device(&mut device, &mut queue, &mut buffers);
    let harvested = harvest_all(&mut guest, &queue);
    assert_eq!(harvested.len(), 3);
    let read_idx = harvested[1];
    let filled = buffers.buffer_at(read_idx);
    assert_eq!(filled.len(), READ_REQUEST_CAPACITY);
    assert_eq!(&filled[0..6], b"hello\n");
    assert!(filled[6..].iter().all(|&byte| byte == 0));
    let read_cell = queue.get_descriptor_from_idx(read_idx);
    assert_eq!(read_cell.flags, FILE_READ | STATE_SUCCESS);
    for idx in harvested {
        guest.release_back_to_pool(&mut buffers, idx);
    }
}

#[test]
fn empty_write_creates_an_empty_file() {
    // A FileWrite with empty name and empty contents: the open creates an
    // empty file, the write is a no-op, the close succeeds, and the three
    // completions appear on the used ring in publish order.
    let mut queue = VirtQueue::new_with_size(4);
    let mut buffers = HandoffBuffers::new(4);
    let mut guest = GuestDriver::new_driver(4, NoopNotifier {});
    let mut device = DeviceDriver::new_driver(4, NoopNotifier {});

    let name: Vec<u8> = Vec::new();
    let contents: Vec<u8> = Vec::new();
    assert!(write_file_contents(&mut guest, &mut queue, &mut buffers, &name, &contents));
    let served = run_device(&mut device, &mut queue, &mut buffers);
    assert_eq!(served.len(), 3);
    let harvested = harvest_all(&mut guest, &queue);
    assert_eq!(harvested, served, "completions appear in publish order");

    assert_eq!(device.records.len(), 1);
    assert!(device.records[0].name.is_empty());
    assert!(device.records[0].contents.is_empty());
    assert!(device.file.is_none(), "the close dropped the handle");
    for &idx in &harvested {
        let cell = queue.get_descriptor_from_idx(idx);
        assert_eq!(cell.flags, FILE_STATE_FLAG | STATE_SUCCESS);
    }
}

#[test]
fn failed_command_reports_pool_exhaustion() {
    // With only two free descriptors a write command fails; the two steps
    // already published stand and are executed by the device.
    let mut queue = VirtQueue::new_with_size(4);
    let mut buffers = HandoffBuffers::new(4);
    let mut guest = GuestDriver::new_driver(4, NoopNotifier {});
    let mut device = DeviceDriver::new_driver(4, NoopNotifier {});

    let parked_one = guest.get_descriptor_cell().unwrap();
    let parked_two = guest.get_descriptor_cell().unwrap();
    let name = b"a".to_vec();
    let contents = b"bc".to_vec();
    assert!(!write_file_contents(&mut guest, &mut queue, &mut buffers, &name, &contents));
    assert_eq!(guest.descriptor_item_index, 0);
    let served = run_device(&mut device, &mut queue, &mut buffers);
    assert_eq!(served.len(), 2, "open and write were already published");
    assert_eq!(device.records.len(), 1);
    assert_eq!(device.records[0].contents, contents);
    let _ = (parked_one, parked_two);
}

#[test]
fn model_write_then_read_returns_contents() {
    // The device's file endpoint alone: open, write, close, reopen, read
    // returns exactly the written contents for a printable ASCII pair.
    let mut device = DeviceDriver::<NoopNotifier>::new_driver(4, NoopNotifier {});
    let name = b"notes.txt".to_vec();
    let contents = b"The quick brown fox! 0123456789".to_vec();
    device.open_file(&name);
    device.write_to_file(&contents);
    device.close_file();
    device.open_file(&name);
    let mut buffer = vec![0u8; 64];
    device.read_to_slice(&mut buffer, 64);
    assert_eq!(&buffer[..contents.len()], &contents[..]);
    assert!(buffer[contents.len()..].iter().all(|&byte| byte == 0));
}

#[test]
fn reopen_keeps_and_write_replaces_contents() {
    let mut device = DeviceDriver::<NoopNotifier>::new_driver(4, NoopNotifier {});
    let name = b"f".to_vec();
    device.open_file(&name);
    device.write_to_file(&b"first".to_vec());
    device.close_file();
    device.open_file(&name);
    device.write_to_file(&b"2nd".to_vec());
    device.close_file();
    assert_eq!(device.records.len(), 1, "reopen selects the same file");
    assert_eq!(device.records[0].contents, b"2nd".to_vec());
}

#[test]
fn write_without_open_is_a_silent_noop() {
    let mut device = DeviceDriver::<NoopNotifier>::new_driver(4, NoopNotifier {});
    device.write_to_file(&b"lost".to_vec());
    assert!(device.records.is_empty());
    let mut buffer = vec![7u8; 8];
    device.read_to_slice(&mut buffer, 8);
    assert_eq!(buffer, vec![7u8; 8], "read without an open file leaves the buffer");
}

#[test]
fn decode_follows_the_flag_precedence() {
    assert_eq!(decode_flags(FILE_WRITE | FILE_OPEN_FLAG), FileCommand::Open);
    assert_eq!(decode_flags(FILE_READ | FILE_OPEN_FLAG), FileCommand::Open);
    assert_eq!(
        decode_flags(FILE_WRITE | FILE_WRITE_CONTENTS_FLAG),
        FileCommand::WriteContents
    );
    assert_eq!(decode_flags(FILE_READ | FILE_WRITE_CONTENTS_FLAG), FileCommand::ReadContents);
    assert_eq!(decode_flags(FILE_WRITE | FILE_CLOSE_FLAG), FileCommand::Close);
    // the open bit wins over everything that follows it
    assert_eq!(decode_flags(FILE_OPEN_FLAG | FILE_CLOSE_FLAG), FileCommand::Open);
    assert_eq!(decode_flags(0), FileCommand::Unknown);
    assert_eq!(decode_flags(FILE_WRITE), FileCommand::Unknown);
    // a contents bit with no direction falls through to the close bit
    assert_eq!(
        decode_flags(FILE_WRITE_CONTENTS_FLAG | FILE_CLOSE_FLAG),
        FileCommand::Close
    );
}

#[test]
fn direction_class_follows_the_read_bit() {
    assert!(is_read_direction(FILE_READ | FILE_OPEN_FLAG));
    assert!(is_read_direction(FILE_READ | FILE_WRITE_CONTENTS_FLAG));
    assert!(!is_read_direction(FILE_WRITE | FILE_OPEN_FLAG));
    assert!(!is_read_direction(FILE_WRITE | FILE_CLOSE_FLAG));
    assert!(!is_read_direction(0));
}

#[test]
fn reply_flags_are_exact_words() {
    assert_eq!(reply_flags(FileCommand::Open, true, 0), FILE_STATE_FLAG | STATE_SUCCESS);
    assert_eq!(reply_flags(FileCommand::Open, true, 0), 96);
    assert_eq!(reply_flags(FileCommand::ReadContents, true, 0), FILE_READ | STATE_SUCCESS);
    assert_eq!(reply_flags(FileCommand::ReadContents, true, 0), 34);
    assert_eq!(reply_flags(FileCommand::Close, false, 0), FILE_STATE_FLAG);
    assert_eq!(reply_flags(FileCommand::WriteContents, false, 0), 64);
    let untouched = FILE_WRITE | 1;
    assert_eq!(reply_flags(FileCommand::Unknown, true, untouched), untouched);
}

#[test]
fn unknown_flags_complete_without_a_reply() {
    // An unrecognised flag word is still completed, but the descriptor's
    // flags are left as they were and no file operation runs.
    let mut queue = VirtQueue::new_with_size(4);
    let mut buffers = HandoffBuffers::new(4);
    let mut guest = GuestDriver::new_driver(4, NoopNotifier {});
    let mut device = DeviceDriver::new_driver(4, NoopNotifier {});

    let idx = guest.get_descriptor_cell().unwrap();
    let mut cell = queue.get_descriptor_from_idx(idx);
    cell.flags = FILE_WRITE;
    queue.set_descriptor_from_idx(idx, cell);
    guest.submit_to_avail_queue(&mut queue, idx);
    let served = run_device(&mut device, &mut queue, &mut buffers);
    assert_eq!(served, vec![idx]);
    assert_eq!(queue.get_descriptor_from_idx(idx).flags, FILE_WRITE);
    assert!(device.records.is_empty());
    assert_eq!(harvest_all(&mut guest, &queue), vec![idx]);
}
