//! The cross-endpoint notification capability.
//!
//! A `PollableQueue` is the wake-only side channel between the two
//! endpoints: `submit_event` is a non-blocking signal to the peer, and
//! `wait_for_event` blocks until the peer has signalled since the last
//! wait.  The operating-system implementations (an fd pair polled through
//! epoll, or a completion ring) live outside the library; the drivers only
//! ever call through this capability.
//!
//! `WakeupFlag` is the library's model of one direction of the channel: a
//! single pending bit with edge semantics.  Its contracts state the
//! obligation both real implementations must meet: a submitted event is
//! never lost, and a wait drains the channel so the next wait blocks again.

use vstd::prelude::*;

verus! {

/// The two-operation wakeup capability shared by both endpoints.
///
/// Implementations perform blocking I/O, so nothing is promised of these
/// calls; the drivers' contracts speak only of the queue state.
pub trait PollableQueue {
    fn wait_for_event(&self);

    fn submit_event(&self);
}

/// A notifier that signals nobody.  Suitable for single-threaded runs, where
/// the consumer is polled directly and no endpoint ever blocks.
#[derive(Clone, Copy)]
pub struct NoopNotifier {}

impl PollableQueue for NoopNotifier {
    fn wait_for_event(&self) {
    }

    fn submit_event(&self) {
    }
}

/// One direction of the notification channel, modelled as a pending bit.
///
/// `submit_event` raises the bit; `poll_event` reports whether a wait that
/// starts now would return, and drains the bit so the next wait blocks
/// again.  Redundant submissions collapse into one pending event.
pub struct WakeupFlag {
    pub pending: bool,
}

/// The state of the channel after a `submit_event`.
pub open spec fn submitted(flag: WakeupFlag) -> WakeupFlag {
    WakeupFlag { pending: true }
}

/// Whether a `wait_for_event` that starts in this state returns at once.
pub open spec fn wait_would_return(flag: WakeupFlag) -> bool {
    flag.pending
}

impl WakeupFlag {
    pub fn new() -> (flag: WakeupFlag)
        ensures
            !flag.pending,
    {
        WakeupFlag { pending: false }
    }

    /// A non-blocking signal: after it, an event is pending.
    pub fn submit_event(&mut self)
        ensures
            *final(self) == submitted(*old(self)),
    {
        self.pending = true;
    }

    /// One wait: returns whether an event was pending, and drains it so the
    /// next wait blocks again.
    pub fn poll_event(&mut self) -> (woke: bool)
        ensures
            woke == wait_would_return(*old(self)),
            !final(self).pending,
    {
        let woke = self.pending;
        self.pending = false;
        woke
    }
}

/// Wake-up liveness of the modelled channel: whatever the state of the
/// channel, after a `submit_event` the next wait returns; a submitted event
/// is never lost.
pub proof fn lemma_submit_wakes_next_wait(flag: WakeupFlag)
    ensures
        wait_would_return(submitted(flag)),
{
}

} // verus!
