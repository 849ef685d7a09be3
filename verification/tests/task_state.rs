use acom::task::{Action, PollOutcome, TaskState, CLOSED, HANDLE, READY, REF_COUNT, RUNNING, SCHEDULED};

#[test]
fn initial_state_is_scheduled_with_one_reference() {
    let s = TaskState::initial();
    assert_eq!(s.bits, SCHEDULED | REF_COUNT);
    assert!(s.is_scheduled());
    assert!(!s.is_running());
    assert!(!s.is_ready());
    assert_eq!(s.ref_count(), 1);
}

#[test]
fn clone_then_drop_waker_restores_state() {
    let s = TaskState { bits: SCHEDULED | 3 * REF_COUNT };
    let cloned = s.clone_waker();
    assert_eq!(cloned.ref_count(), 4);
    let (back, action) = cloned.drop_waker();
    assert_eq!(back, s);
    assert_eq!(action, Action::Nothing);
}

#[test]
fn dropping_last_waker_of_completed_task_deallocates() {
    let s = TaskState { bits: READY | REF_COUNT };
    let (next, action) = s.drop_waker();
    assert_eq!(next.bits, READY);
    assert_eq!(next.ref_count(), 0);
    assert_eq!(action, Action::Deallocate);
}

#[test]
fn wake_idle_task_schedules_it() {
    let s = TaskState { bits: REF_COUNT };
    let (next, action) = s.wake();
    assert_eq!(next.bits, SCHEDULED | REF_COUNT);
    assert_eq!(action, Action::Schedule);
}

#[test]
fn wake_running_task_drops_the_waker() {
    let s = TaskState { bits: RUNNING | 2 * REF_COUNT };
    let (next, action) = s.wake();
    assert_eq!(next.bits, RUNNING | SCHEDULED | 2 * REF_COUNT);
    assert_eq!(action, Action::DropWaker);
}

#[test]
fn wake_by_ref_idle_task_adds_a_reference() {
    let s = TaskState { bits: REF_COUNT };
    let (next, action) = s.wake_by_ref();
    assert_eq!(next.bits, SCHEDULED | 2 * REF_COUNT);
    assert_eq!(next.ref_count(), 2);
    assert_eq!(action, Action::Schedule);
}

#[test]
fn wake_by_ref_running_task_only_marks_it() {
    let s = TaskState { bits: RUNNING | REF_COUNT };
    let (next, action) = s.wake_by_ref();
    assert_eq!(next.bits, RUNNING | SCHEDULED | REF_COUNT);
    assert_eq!(action, Action::Nothing);
}

#[test]
fn poll_cycle_pending_clears_scheduled_and_running() {
    let s = TaskState { bits: SCHEDULED | REF_COUNT };
    let (running, action) = s.begin_poll();
    assert_eq!(action, Action::Poll);
    assert_eq!(running.bits, RUNNING | REF_COUNT);
    assert!(running.is_running());
    assert!(!running.is_scheduled());
    let after = running.suspend_poll();
    assert_eq!(after.bits, REF_COUNT);
}

#[test]
fn first_poll_completing_frees_the_task() {
    let s = TaskState::initial();
    let done = s.begin_poll().0.complete_poll();
    assert_eq!(done.bits, READY | REF_COUNT);
    assert!(done.is_ready());
    assert!(!done.is_running());
    assert!(!done.is_scheduled());
    let (gone, action) = done.drop_task();
    assert_eq!(gone.bits, READY);
    assert_eq!(action, Action::Deallocate);
}

#[test]
fn drop_task_keeps_task_while_handle_exists() {
    let s = TaskState { bits: READY | HANDLE | REF_COUNT };
    let (next, action) = s.drop_task();
    assert_eq!(next.bits, READY | HANDLE);
    assert_eq!(action, Action::Nothing);
}

#[test]
fn drop_task_keeps_task_while_referenced() {
    let s = TaskState { bits: READY | 2 * REF_COUNT };
    let (next, action) = s.drop_task();
    assert_eq!(next.ref_count(), 1);
    assert_eq!(action, Action::Nothing);
}

#[test]
fn woken_reference_is_returned_after_completion() {
    let s = TaskState { bits: REF_COUNT };
    let (scheduled, _) = s.wake_by_ref();
    let done = scheduled.begin_poll().0.complete_poll();
    let (after, _) = done.drop_task();
    assert_eq!(after.ref_count(), s.ref_count());
}

#[test]
fn dropping_last_waker_of_pending_task_schedules_it_closed() {
    let s = TaskState { bits: REF_COUNT };
    let (next, action) = s.drop_waker();
    assert_eq!(next.bits, SCHEDULED | CLOSED);
    assert!(next.is_closed());
    assert_eq!(next.ref_count(), 0);
    assert_eq!(action, Action::Schedule);
    let (taken, start) = next.begin_poll();
    assert_eq!(start, Action::DropFuture);
    assert_eq!(taken.bits, CLOSED);
    let (gone, last) = taken.release_closed();
    assert_eq!(gone.bits, CLOSED);
    assert_eq!(last, Action::Deallocate);
}

#[test]
fn release_closed_drops_a_counted_reference() {
    let s = TaskState { bits: CLOSED | 2 * REF_COUNT };
    assert_eq!(s.release_closed(), (TaskState { bits: CLOSED | REF_COUNT }, Action::Nothing));
    let s = TaskState { bits: CLOSED | REF_COUNT };
    assert_eq!(s.release_closed(), (TaskState { bits: CLOSED }, Action::Deallocate));
}

#[test]
fn end_poll_outcomes() {
    let (running, _) = TaskState::initial().begin_poll();
    assert_eq!(
        running.end_poll(PollOutcome::Ready),
        (TaskState { bits: READY | REF_COUNT }, Action::DropTask)
    );
    assert_eq!(
        running.end_poll(PollOutcome::Pending),
        (TaskState { bits: REF_COUNT }, Action::Nothing)
    );
    assert_eq!(
        running.end_poll(PollOutcome::Panicked),
        (TaskState { bits: CLOSED | REF_COUNT }, Action::DropFuture)
    );
}

#[test]
fn woken_while_running_stays_scheduled_after_pending_poll() {
    let (running, _) = TaskState::initial().begin_poll();
    let (marked, action) = running.wake_by_ref();
    assert_eq!(action, Action::Nothing);
    let (after, _) = marked.end_poll(PollOutcome::Pending);
    assert_eq!(after.bits, SCHEDULED | REF_COUNT);
}

#[test]
fn dropping_last_waker_with_handle_deallocates() {
    let s = TaskState { bits: HANDLE | REF_COUNT };
    let (next, action) = s.drop_waker();
    assert_eq!(next.bits, HANDLE);
    assert_eq!(action, Action::Deallocate);
}

#[test]
fn dropping_last_waker_of_closed_task_deallocates() {
    let s = TaskState { bits: CLOSED | REF_COUNT };
    let (next, action) = s.drop_waker();
    assert_eq!(next.bits, CLOSED);
    assert_eq!(action, Action::Deallocate);
}

#[test]
fn waking_completed_task_changes_nothing() {
    let s = TaskState { bits: READY | REF_COUNT };
    let (next, action) = s.wake_by_ref();
    assert_eq!(next, s);
    assert_eq!(action, Action::Nothing);
    let (next, action) = s.wake();
    assert_eq!(next, s);
    assert_eq!(action, Action::DropWaker);
    assert!(s.is_finished());
}

#[test]
fn waking_closed_task_changes_nothing() {
    let s = TaskState { bits: CLOSED | 2 * REF_COUNT };
    assert_eq!(s.wake_by_ref(), (s, Action::Nothing));
    assert_eq!(s.wake(), (s, Action::DropWaker));
}

#[test]
fn panicked_poll_closes_the_task() {
    let (running, _) = TaskState::initial().begin_poll();
    let closed = running.abort_poll();
    assert_eq!(closed.bits, CLOSED | REF_COUNT);
    assert!(closed.is_closed());
    assert!(!closed.is_running());
    assert!(!closed.is_scheduled());
    assert_eq!(closed.wake_by_ref(), (closed, Action::Nothing));
}
