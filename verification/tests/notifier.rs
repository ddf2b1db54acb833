use virtio_sim::async_driver::SharedState;
use virtio_sim::poller::WakeupFlag;

#[test]
fn submitted_event_wakes_the_next_wait() {
    // Wake-up liveness: a submit between two waits makes the second wait
    // return, and the wait drains the channel so the one after blocks.
    let mut flag = WakeupFlag::new();
    assert!(!flag.poll_event(), "nothing was submitted yet");
    flag.submit_event();
    assert!(flag.poll_event(), "the submitted event wakes the wait");
    assert!(!flag.poll_event(), "the wait drained the channel");
}

#[test]
fn redundant_submissions_collapse() {
    let mut flag = WakeupFlag::new();
    flag.submit_event();
    flag.submit_event();
    flag.submit_event();
    assert!(flag.poll_event());
    assert!(!flag.poll_event(), "three submissions collapsed into one event");
}

#[test]
fn helper_wakes_the_recorded_task_and_blocks_again() {
    let mut state: SharedState<u32> = SharedState::new();
    state.record_waker(7);
    let (exit, woken) = state.helper_step();
    assert!(!exit);
    assert_eq!(woken, Some(7), "the helper wakes the recorded task");
    let (exit_again, woken_again) = state.helper_step();
    assert!(!exit_again);
    assert_eq!(woken_again, None, "the handle was taken; nothing to wake");
}

#[test]
fn dropped_stream_stops_the_helper_without_waking() {
    // Dropping the event stream while the helper is blocked: on its next
    // pass the helper exits at once, and no task handle is woken after the
    // drop even if one was still recorded.
    let mut state: SharedState<u32> = SharedState::new();
    state.record_waker(11);
    state.mark_complete();
    let (exit, woken) = state.helper_step();
    assert!(exit, "the helper exits on its first pass after the drop");
    assert_eq!(woken, None, "no spurious wake after the drop");
}
