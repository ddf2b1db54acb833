//! The decisions of the guest's asynchronous completion stream.
//!
//! The stream is driven by a helper thread that blocks in the notifier's
//! `wait_for_event` and, on each wakeup, wakes the cooperative task that
//! awaits the next completion.  Stream and helper share a small record:
//! whether the stream has been dropped, and the awaiting task's wakeup
//! handle, if one is recorded.  The handle type belongs to the runtime;
//! the library only stores and surrenders it.  Everything around the
//! blocking wait — the decisions — is verified here.

use vstd::prelude::*;

verus! {

/// The state shared between the completion stream and its helper thread.
pub struct SharedState<W> {
    pub complete: bool,
    pub waker: Option<W>,
}

/// The state after the stream is dropped.
pub open spec fn marked_complete<W>(state: SharedState<W>) -> SharedState<W> {
    SharedState { complete: true, waker: state.waker }
}

/// Whether one pass of the helper exits, and whom it wakes first.
pub open spec fn helper_decision<W>(state: SharedState<W>) -> (bool, Option<W>) {
    if state.complete {
        (true, None)
    } else {
        (false, state.waker)
    }
}

impl<W> SharedState<W> {
    pub fn new() -> (state: SharedState<W>)
        ensures
            !state.complete,
            state.waker is None,
    {
        SharedState { complete: false, waker: None }
    }

    /// The stream records the awaiting task's handle before yielding
    /// pending; the helper wakes it on the next event.
    pub fn record_waker(&mut self, waker: W)
        ensures
            final(self).complete == old(self).complete,
            final(self).waker == Some(waker),
    {
        self.waker = Some(waker);
    }

    /// Dropping the stream marks the record complete; the helper thread
    /// exits on its next pass.  The dropper must also submit one last
    /// event, or the helper stays blocked in its wait and cannot observe
    /// the mark.
    pub fn mark_complete(&mut self)
        ensures
            *final(self) == marked_complete(*old(self)),
    {
        self.complete = true;
    }

    /// One pass of the helper thread's loop, up to its blocking wait:
    /// report whether to exit, and surrender the recorded handle, which
    /// the caller wakes before blocking again.
    pub fn helper_step(&mut self) -> (action: (bool, Option<W>))
        ensures
            action == helper_decision(*old(self)),
            final(self).complete == old(self).complete,
            old(self).complete ==> final(self).waker == old(self).waker,
            !old(self).complete ==> final(self).waker is None,
    {
        if self.complete {
            (true, None)
        } else {
            let waker = self.waker.take();
            (false, waker)
        }
    }
}

/// Shutdown of the helper: once the stream is dropped, the helper's next
/// pass exits and wakes nobody, whatever handle was still recorded — no
/// task is woken after the drop.
pub proof fn lemma_drop_stops_helper<W>(state: SharedState<W>)
    ensures
        helper_decision(marked_complete(state)) == (true, None::<W>),
{
}

} // verus!
