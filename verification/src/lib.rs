//! A verified model of the virtio split-virtqueue transport.
//!
//! A "guest" driver publishes descriptor-referenced requests on the available
//! ring, a "device" driver consumes them, executes a small block-device-shaped
//! file protocol, and reports completions back on the used ring.  The queue
//! discipline, the descriptor free-list, and the protocol encoding are
//! verified here; the operating-system plumbing (pipes, epoll, io_uring, the
//! async runtime) stays outside the library behind the `PollableQueue`
//! capability.

pub mod async_driver;
pub mod comms;
pub mod commands;
pub mod device_driver;
pub mod device_register;
pub mod faux_blk;
pub mod file_store;
pub mod guest_driver;
pub mod invariants;
pub mod handoff;
pub mod poller;
pub mod virtqueue;
