//! The task state word.
//!
//! A task keeps its whole scheduling state in one machine word, updated
//! atomically by the runtime:
//!
//! ```txt
//! [ usize_max..=8 ]    [ 7..=6 ]   [ 5 ]     [ 4 ]    [ 3 ]    [ 2 ]   [ 1 ]     [ 0 ]
//!     ref_count        spare       awaiter   handle   closed   ready   running   scheduled
//! ```
//!
//! This module holds the pure part of that protocol: for every operation on a
//! task (waking, polling, dropping a reference) the next word and what the
//! runtime must do next. The atomic compare-and-swap loops that apply these
//! steps live with the raw task memory, outside the verified library.
use vstd::prelude::*;

verus! {

/// Set if the task is scheduled.
pub const SCHEDULED: usize = 1;

/// Set if the task is currently being polled.
pub const RUNNING: usize = 2;

/// Set if the task has completed.
pub const READY: usize = 4;

/// Set if the task is closed (canceled, or its output consumed).
pub const CLOSED: usize = 8;

/// Set if the join handle still exists.
pub const HANDLE: usize = 16;

/// Set if the join handle is awaiting the output.
pub const AWAITER: usize = 32;

/// The padding (in bits) to the first bit of the reference count.
pub const REF_PAD: usize = 8;

/// One unit of the reference count, the lowest bit above the flag byte.
pub const REF_COUNT: usize = 256;

/// The meaning of a state word: its six flags, the two spare bits, and the
/// number of references (tasks and wakers) that point to the task.
pub struct TaskView {
    pub scheduled: bool,
    pub running: bool,
    pub ready: bool,
    pub closed: bool,
    pub handle: bool,
    pub awaiter: bool,
    pub spare: nat,
    pub refs: nat,
}

impl TaskView {
    /// One more reference.
    pub open spec fn add_ref(self) -> TaskView {
        TaskView { refs: self.refs + 1, ..self }
    }

    /// One reference fewer.
    pub open spec fn release_ref(self) -> TaskView {
        TaskView { refs: (self.refs - 1) as nat, ..self }
    }

    /// The scheduled flag raised, all else kept.
    pub open spec fn mark_scheduled(self) -> TaskView {
        TaskView { scheduled: true, ..self }
    }

    /// Whether the task is done with: completed, or closed.
    pub open spec fn finished(self) -> bool {
        self.ready || self.closed
    }

    /// The word after a wake: a finished task is left as it is, any other
    /// one becomes scheduled.
    pub open spec fn woken(self) -> TaskView {
        if self.finished() {
            self
        } else {
            self.mark_scheduled()
        }
    }

    /// The word after a wake through a borrowed waker: a finished task is
    /// left as it is; an idle one becomes scheduled and gains the reference
    /// that its scheduled `Task` holds; a running one is only marked.
    pub open spec fn woken_by_ref(self) -> TaskView {
        if self.finished() {
            self
        } else if self.running {
            self.mark_scheduled()
        } else {
            self.mark_scheduled().add_ref()
        }
    }

    /// The last waker of an unfinished task without a join handle is gone:
    /// its reference is released, and the task is closed and scheduled once
    /// more. The `Task` handed to the scheduler carries no counted
    /// reference; taking it off the queue drops the future, and the task is
    /// then freed.
    pub open spec fn close_and_schedule(self) -> TaskView {
        TaskView { scheduled: true, closed: true, refs: (self.refs - 1) as nat, ..self }
    }

    /// The word after a waker is dropped.
    pub open spec fn after_drop_waker(self) -> TaskView {
        if self.refs == 1 && !self.handle && !self.finished() {
            self.close_and_schedule()
        } else {
            self.release_ref()
        }
    }

    /// The word after the executor takes the task from its queue.
    pub open spec fn after_begin_poll(self) -> TaskView {
        if self.closed {
            self.unschedule()
        } else {
            self.start_running()
        }
    }

    /// The word after a poll ended with `outcome`.
    pub open spec fn after_end_poll(self, outcome: PollOutcome) -> TaskView {
        match outcome {
            PollOutcome::Ready => self.complete(),
            PollOutcome::Pending => self.stop_running(),
            PollOutcome::Panicked => self.abort(),
        }
    }

    /// The word after the `Task` of a closed task, whose future was just
    /// dropped, is released: its counted reference, if it carries one.
    pub open spec fn after_release_closed(self) -> TaskView {
        if self.refs == 0 {
            self
        } else {
            self.release_ref()
        }
    }

    /// A scheduled task that is not closed, or a running one, is held by
    /// at least one reference.
    pub open spec fn holds_reference(self) -> bool {
        (self.scheduled && !self.closed) || self.running ==> self.refs >= 1
    }

    /// The invariant the runtime keeps on every word: a referenced live
    /// task, a completed task that is neither scheduled nor running, a
    /// closed task that is not running, and no join handle (this runtime
    /// has none).
    pub open spec fn protocol(self) -> bool {
        &&& self.holds_reference()
        &&& self.ready_exclusive()
        &&& self.closed ==> !self.running
        &&& !self.handle
    }

    /// A poll begins: no longer scheduled, now running.
    pub open spec fn start_running(self) -> TaskView {
        TaskView { scheduled: false, running: true, ..self }
    }

    /// A closed task is taken off the queue to have its future dropped: no
    /// longer scheduled, not polled.
    pub open spec fn unschedule(self) -> TaskView {
        TaskView { scheduled: false, ..self }
    }

    /// A poll returned ready: neither scheduled nor running, and ready.
    pub open spec fn complete(self) -> TaskView {
        TaskView { scheduled: false, running: false, ready: true, ..self }
    }

    /// A poll returned pending: no longer running.
    pub open spec fn stop_running(self) -> TaskView {
        TaskView { running: false, ..self }
    }

    /// A poll panicked: neither scheduled nor running, and closed.
    pub open spec fn abort(self) -> TaskView {
        TaskView { scheduled: false, running: false, closed: true, ..self }
    }

    /// A completed task is neither scheduled nor running.
    pub open spec fn ready_exclusive(self) -> bool {
        self.ready ==> !self.scheduled && !self.running
    }
}

/// The flag byte of a word.
pub open spec fn flag_byte(bits: usize) -> usize {
    bits % 256
}

/// What a state word means.
pub open spec fn word_view(bits: usize) -> TaskView {
    let f: usize = flag_byte(bits);
    TaskView {
        scheduled: f & 1 != 0,
        running: f & 2 != 0,
        ready: f & 4 != 0,
        closed: f & 8 != 0,
        handle: f & 16 != 0,
        awaiter: f & 32 != 0,
        spare: (f / 64) as nat,
        refs: (bits / 256) as nat,
    }
}

/// How a poll of a task's future ended.
#[derive(Clone, Copy, Debug, PartialEq, Eq, Structural)]
pub enum PollOutcome {
    /// The future returned ready.
    Ready,
    /// The future returned pending.
    Pending,
    /// The future panicked.
    Panicked,
}

/// What the runtime must do after a state transition.
#[derive(Clone, Copy, Debug, PartialEq, Eq, Structural)]
pub enum Action {
    /// Nothing more.
    Nothing,
    /// Hand the task to its scheduler.
    Schedule,
    /// Drop the reference held by the waker that was consumed.
    DropWaker,
    /// Free the task's memory: no reference to it is left.
    Deallocate,
    /// Poll the task's future.
    Poll,
    /// Drop the task's future, then release the closed task's `Task`.
    DropFuture,
    /// Drop the `Task` of a task whose poll completed.
    DropTask,
}

/// A task's state word.
#[derive(Clone, Copy, Debug, PartialEq, Eq, Structural)]
pub struct TaskState {
    pub bits: usize,
}

impl View for TaskState {
    type V = TaskView;

    open spec fn view(&self) -> TaskView {
        word_view(self.bits)
    }
}

/// Splitting a word into its count and its flag byte: the words that
/// bitwise operations on the flags produce.
proof fn lemma_word_split(s: usize)
    by (bit_vector)
    ensures
        s % 256 < 256,
        (s | 1) / 256 == s / 256,
        (s | 1) % 256 == (s % 256) | 1,
        ((s & !1usize) | 2) / 256 == s / 256,
        ((s & !1usize) | 2) % 256 == ((s % 256) & 0xfe) | 2,
        ((s & !1usize & !2usize) | 4) / 256 == s / 256,
        ((s & !1usize & !2usize) | 4) % 256 == ((s % 256) & 0xfc) | 4,
        (s & !2usize) / 256 == s / 256,
        (s & !2usize) % 256 == (s % 256) & 0xfd,
        (s | 1) <= s + 1,
{
}

/// The flags of `f | 1`.
proof fn lemma_flags_or_scheduled(f: usize)
    by (bit_vector)
    requires
        f < 256,
    ensures
        (f | 1) < 256,
        (f | 1) & 1 != 0,
        (f | 1) & 2 == f & 2,
        (f | 1) & 4 == f & 4,
        (f | 1) & 8 == f & 8,
        (f | 1) & 16 == f & 16,
        (f | 1) & 32 == f & 32,
        (f | 1) / 64 == f / 64,
{
}

/// The flags of `(f & !1) | 2`.
proof fn lemma_flags_start(f: usize)
    by (bit_vector)
    requires
        f < 256,
    ensures
        ((f & 0xfe) | 2) < 256,
        ((f & 0xfe) | 2) & 1 == 0,
        ((f & 0xfe) | 2) & 2 != 0,
        ((f & 0xfe) | 2) & 4 == f & 4,
        ((f & 0xfe) | 2) & 8 == f & 8,
        ((f & 0xfe) | 2) & 16 == f & 16,
        ((f & 0xfe) | 2) & 32 == f & 32,
        ((f & 0xfe) | 2) / 64 == f / 64,
{
}

/// The flags of `(f & !3) | 4`.
proof fn lemma_flags_complete(f: usize)
    by (bit_vector)
    requires
        f < 256,
    ensures
        ((f & 0xfc) | 4) < 256,
        ((f & 0xfc) | 4) & 1 == 0,
        ((f & 0xfc) | 4) & 2 == 0,
        ((f & 0xfc) | 4) & 4 != 0,
        ((f & 0xfc) | 4) & 8 == f & 8,
        ((f & 0xfc) | 4) & 16 == f & 16,
        ((f & 0xfc) | 4) & 32 == f & 32,
        ((f & 0xfc) | 4) / 64 == f / 64,
{
}

/// The flags of `f & !2`.
proof fn lemma_flags_stop(f: usize)
    by (bit_vector)
    requires
        f < 256,
    ensures
        (f & 0xfd) < 256,
        (f & 0xfd) & 1 == f & 1,
        (f & 0xfd) & 2 == 0,
        (f & 0xfd) & 4 == f & 4,
        (f & 0xfd) & 8 == f & 8,
        (f & 0xfd) & 16 == f & 16,
        (f & 0xfd) & 32 == f & 32,
        (f & 0xfd) / 64 == f / 64,
{
}

/// Two flag bytes with the same flags and spare bits are equal.
proof fn lemma_flag_byte_determined(f: usize, g: usize)
    by (bit_vector)
    requires
        f < 256,
        g < 256,
        f & 1 == g & 1,
        f & 2 == g & 2,
        f & 4 == g & 4,
        f & 8 == g & 8,
        f & 16 == g & 16,
        f & 32 == g & 32,
        f / 64 == g / 64,
    ensures
        f == g,
{
}

/// A single flag bit is either clear or equal to its mask.
proof fn lemma_flag_values(f: usize)
    by (bit_vector)
    ensures
        f & 1 == 0 || f & 1 == 1,
        f & 2 == 0 || f & 2 == 2,
        f & 4 == 0 || f & 4 == 4,
        f & 8 == 0 || f & 8 == 8,
        f & 16 == 0 || f & 16 == 16,
        f & 32 == 0 || f & 32 == 32,
{
}

/// A state word is determined by what it means.
pub proof fn lemma_view_determines_state(a: TaskState, b: TaskState)
    requires
        a@ == b@,
    ensures
        a == b,
{
    let f: usize = flag_byte(a.bits);
    let g: usize = flag_byte(b.bits);
    lemma_word_split(a.bits);
    lemma_word_split(b.bits);
    lemma_flag_values(f);
    lemma_flag_values(g);
    lemma_flag_byte_determined(f, g);
}

/// More words that bitwise operations on the flags produce.
proof fn lemma_word_split_close(s: usize)
    by (bit_vector)
    ensures
        (s | 9) / 256 == s / 256,
        (s | 9) % 256 == (s % 256) | 9,
        ((s & !3usize) | 8) / 256 == s / 256,
        ((s & !3usize) | 8) % 256 == ((s % 256) & 0xfc) | 8,
        (s & !1usize) / 256 == s / 256,
        (s & !1usize) % 256 == (s % 256) & 0xfe,
{
}

/// Each flag of a word is the same flag of its flag byte.
proof fn lemma_low_flags(b: usize)
    by (bit_vector)
    ensures
        b & 1 == (b % 256) & 1,
        b & 2 == (b % 256) & 2,
        b & 4 == (b % 256) & 4,
        b & 8 == (b % 256) & 8,
        b & 16 == (b % 256) & 16,
        b & 32 == (b % 256) & 32,
        b >> 8usize == b / 256,
        (b & 12 == 0) == (b & 4 == 0 && b & 8 == 0),
        (b | 1 | 8) == (b | 9),
        (b & !1usize & !2usize) == (b & !3usize),
{
}

/// The flags of `f | 9`.
proof fn lemma_flags_close(f: usize)
    by (bit_vector)
    requires
        f < 256,
    ensures
        (f | 9) < 256,
        (f | 9) & 1 != 0,
        (f | 9) & 2 == f & 2,
        (f | 9) & 4 == f & 4,
        (f | 9) & 8 != 0,
        (f | 9) & 16 == f & 16,
        (f | 9) & 32 == f & 32,
        (f | 9) / 64 == f / 64,
{
}

/// The flags of `(f & !3) | 8`.
proof fn lemma_flags_abort(f: usize)
    by (bit_vector)
    requires
        f < 256,
    ensures
        ((f & 0xfc) | 8) < 256,
        ((f & 0xfc) | 8) & 1 == 0,
        ((f & 0xfc) | 8) & 2 == 0,
        ((f & 0xfc) | 8) & 4 == f & 4,
        ((f & 0xfc) | 8) & 8 != 0,
        ((f & 0xfc) | 8) & 16 == f & 16,
        ((f & 0xfc) | 8) & 32 == f & 32,
        ((f & 0xfc) | 8) / 64 == f / 64,
{
}

/// The flags of `f & !1`.
proof fn lemma_flags_unschedule(f: usize)
    by (bit_vector)
    requires
        f < 256,
    ensures
        (f & 0xfe) < 256,
        (f & 0xfe) & 1 == 0,
        (f & 0xfe) & 2 == f & 2,
        (f & 0xfe) & 4 == f & 4,
        (f & 0xfe) & 8 == f & 8,
        (f & 0xfe) & 16 == f & 16,
        (f & 0xfe) & 32 == f & 32,
        (f & 0xfe) / 64 == f / 64,
{
}

impl TaskState {
    /// The state of a freshly allocated task: scheduled, held by the one
    /// `Task` that is about to be handed to the scheduler.
    pub fn initial() -> (s: TaskState)
        ensures
            s.bits == SCHEDULED | REF_COUNT,
            s@ == (TaskView {
                scheduled: true,
                running: false,
                ready: false,
                closed: false,
                handle: false,
                awaiter: false,
                spare: 0,
                refs: 1,
            }),
    {
        assert((1usize | 256usize) == 257usize) by (bit_vector);
        assert(1usize & 1 != 0 && 1usize & 2 == 0 && 1usize & 4 == 0 && 1usize & 8 == 0
            && 1usize & 16 == 0 && 1usize & 32 == 0) by (bit_vector);
        TaskState { bits: SCHEDULED | REF_COUNT }
    }

    /// Whether the task is done with: completed or closed.
    pub fn is_finished(self) -> (b: bool)
        ensures
            b == self@.finished(),
            b == (self.bits & READY != 0 || self.bits & CLOSED != 0),
    {
        proof {
            lemma_low_flags(self.bits);
        }
        self.bits & READY != 0 || self.bits & CLOSED != 0
    }

    /// A waker is cloned: the task gains a reference.
    ///
    /// The runtime refuses to clone once the word reaches `isize::MAX`.
    pub fn clone_waker(self) -> (next: TaskState)
        requires
            self.bits < isize::MAX as usize,
        ensures
            next.bits == self.bits + REF_COUNT,
            next@ == self@.add_ref(),
    {
        TaskState { bits: self.bits + REF_COUNT }
    }

    /// A waker is dropped: the task loses a reference. When it was the last
    /// one, the task has neither completed nor closed, and no join handle
    /// exists, the task is also closed and scheduled one more time so that
    /// the executor drops its future; the `Task` handed to the scheduler
    /// carries no counted reference. When it was the last one otherwise,
    /// the task is freed.
    pub fn drop_waker(self) -> (r: (TaskState, Action))
        requires
            self@.refs >= 1,
        ensures
            r.0@ == self@.after_drop_waker(),
            r.0@.refs + 1 == self@.refs,
            self@.refs == 1 && !self@.handle && !self@.finished() ==> {
                &&& r.0.bits == ((self.bits - REF_COUNT) as usize) | SCHEDULED | CLOSED
                &&& r.1 == Action::Schedule
            },
            !(self@.refs == 1 && !self@.handle && !self@.finished()) ==> {
                &&& r.0.bits == self.bits - REF_COUNT
                &&& r.1 == (if r.0@.refs == 0 { Action::Deallocate } else { Action::Nothing })
            },
    {
        let next: usize = self.bits - REF_COUNT;
        proof {
            lemma_low_flags(self.bits);
            lemma_low_flags(next);
            lemma_word_split(next);
        }
        if (next >> REF_PAD) == 0 && self.bits & HANDLE == 0 && !self.is_finished() {
            proof {
                let f: usize = flag_byte(next);
                lemma_word_split_close(next);
                lemma_flags_close(f);
                lemma_flag_values(f);
                assert(flag_byte(next) == flag_byte(self.bits));
            }
            (TaskState { bits: next | SCHEDULED | CLOSED }, Action::Schedule)
        } else {
            let action = if (next >> REF_PAD) == 0 {
                Action::Deallocate
            } else {
                Action::Nothing
            };
            (TaskState { bits: next }, action)
        }
    }

    /// A waker is consumed to wake the task. A completed or closed task is
    /// left as it is, and the waker's reference is dropped. Otherwise the
    /// task becomes scheduled: an idle task is handed to its scheduler,
    /// which takes over the waker's reference; a running task is only
    /// marked, and the waker's reference is dropped.
    pub fn wake(self) -> (r: (TaskState, Action))
        ensures
            r.0.bits == (if self@.finished() { self.bits } else { self.bits | SCHEDULED }),
            r.0@ == self@.woken(),
            r.1 == (if self@.finished() || self@.running {
                Action::DropWaker
            } else {
                Action::Schedule
            }),
            self.bits & READY == 0 && self.bits & CLOSED == 0 && self.bits & RUNNING == 0 ==> r == (
            TaskState { bits: self.bits | SCHEDULED }, Action::Schedule),
            self.bits & READY == 0 && self.bits & CLOSED == 0 && self.bits & RUNNING != 0 ==> r == (
            TaskState { bits: self.bits | SCHEDULED }, Action::DropWaker),
            self.bits & READY != 0 || self.bits & CLOSED != 0 ==> r == (self, Action::DropWaker),
    {
        proof {
            self.lemma_mark_scheduled();
        }
        if self.is_finished() {
            return (self, Action::DropWaker);
        }
        let action = if self.bits & RUNNING == 0 {
            Action::Schedule
        } else {
            Action::DropWaker
        };
        (TaskState { bits: self.bits | SCHEDULED }, action)
    }

    /// The task is woken through a borrowed waker. A completed or closed
    /// task is left as it is. Otherwise it becomes scheduled: an idle task
    /// is handed to its scheduler with a new reference; a running task is
    /// only marked.
    ///
    /// The runtime refuses to hand out the new reference once the word
    /// reaches `isize::MAX`.
    pub fn wake_by_ref(self) -> (r: (TaskState, Action))
        requires
            !self@.finished() && !self@.running ==> self.bits < isize::MAX as usize,
        ensures
            r.0.bits == (if self@.finished() {
                self.bits as int
            } else if self@.running {
                (self.bits | SCHEDULED) as int
            } else {
                (self.bits | SCHEDULED) + REF_COUNT
            }),
            r.0@ == self@.woken_by_ref(),
            r.1 == (if !self@.finished() && !self@.running {
                Action::Schedule
            } else {
                Action::Nothing
            }),
            self.bits & READY == 0 && self.bits & CLOSED == 0 && self.bits & RUNNING == 0 ==> r == (
            TaskState { bits: ((self.bits | SCHEDULED) + REF_COUNT) as usize }, Action::Schedule),
            self.bits & READY == 0 && self.bits & CLOSED == 0 && self.bits & RUNNING != 0 ==> r == (
            TaskState { bits: self.bits | SCHEDULED }, Action::Nothing),
            self.bits & READY != 0 || self.bits & CLOSED != 0 ==> r == (self, Action::Nothing),
    {
        proof {
            self.lemma_mark_scheduled();
        }
        if self.is_finished() {
            return (self, Action::Nothing);
        }
        if self.bits & RUNNING == 0 {
            let next: usize = (self.bits | SCHEDULED) + REF_COUNT;
            (TaskState { bits: next }, Action::Schedule)
        } else {
            (TaskState { bits: self.bits | SCHEDULED }, Action::Nothing)
        }
    }

    /// A `Task` is dropped after its task completed, panicked or had its
    /// future dropped: the task loses a reference, and is freed when none is
    /// left and no join handle exists.
    pub fn drop_task(self) -> (r: (TaskState, Action))
        requires
            self@.refs >= 1,
        ensures
            r.0.bits == self.bits - REF_COUNT,
            r.0@ == self@.release_ref(),
            r.1 == (if r.0@.refs == 0 && !r.0@.handle {
                Action::Deallocate
            } else {
                Action::Nothing
            }),
    {
        let next: usize = self.bits - REF_COUNT;
        proof {
            lemma_low_flags(next);
        }
        let action = if (next >> REF_PAD) == 0 && next & HANDLE == 0 {
            Action::Deallocate
        } else {
            Action::Nothing
        };
        (TaskState { bits: next }, action)
    }

    /// The executor takes the task from its queue. A closed task is only
    /// unscheduled, and its future is to be dropped; any other task is no
    /// longer scheduled and is running, and its future is to be polled.
    pub fn begin_poll(self) -> (r: (TaskState, Action))
        ensures
            r.0@ == self@.after_begin_poll(),
            self@.closed ==> {
                &&& r.0.bits == self.bits & !SCHEDULED
                &&& r.0@ == self@.unschedule()
                &&& r.1 == Action::DropFuture
            },
            !self@.closed ==> {
                &&& r.0.bits == (self.bits & !SCHEDULED) | RUNNING
                &&& r.0@ == self@.start_running()
                &&& r.1 == Action::Poll
            },
    {
        proof {
            let f: usize = flag_byte(self.bits);
            lemma_low_flags(self.bits);
            lemma_word_split(self.bits);
            lemma_word_split_close(self.bits);
            lemma_flags_start(f);
            lemma_flags_unschedule(f);
            lemma_flag_values(f);
        }
        if self.bits & CLOSED != 0 {
            (TaskState { bits: self.bits & !SCHEDULED }, Action::DropFuture)
        } else {
            (TaskState { bits: (self.bits & !SCHEDULED) | RUNNING }, Action::Poll)
        }
    }

    /// A poll returned ready: the task is ready, neither scheduled nor
    /// running.
    pub fn complete_poll(self) -> (next: TaskState)
        ensures
            next.bits == (self.bits & !SCHEDULED & !RUNNING) | READY,
            next@ == self@.complete(),
    {
        let next = TaskState { bits: (self.bits & !SCHEDULED & !RUNNING) | READY };
        proof {
            let f: usize = flag_byte(self.bits);
            lemma_word_split(self.bits);
            lemma_flags_complete(f);
            lemma_flag_values(f);
        }
        next
    }

    /// A poll returned pending: the task is no longer running.
    pub fn suspend_poll(self) -> (next: TaskState)
        ensures
            next.bits == self.bits & !RUNNING,
            next@ == self@.stop_running(),
    {
        let next = TaskState { bits: self.bits & !RUNNING };
        proof {
            let f: usize = flag_byte(self.bits);
            lemma_word_split(self.bits);
            lemma_flags_stop(f);
            lemma_flag_values(f);
        }
        next
    }

    /// A poll panicked: the task is closed, neither scheduled nor running.
    pub fn abort_poll(self) -> (next: TaskState)
        ensures
            next.bits == (self.bits & !SCHEDULED & !RUNNING) | CLOSED,
            next@ == self@.abort(),
    {
        let next = TaskState { bits: (self.bits & !SCHEDULED & !RUNNING) | CLOSED };
        proof {
            let f: usize = flag_byte(self.bits);
            lemma_low_flags(self.bits);
            lemma_word_split_close(self.bits);
            lemma_flags_abort(f);
            lemma_flag_values(f);
        }
        next
    }

    /// A poll ended with `outcome`. Ready: the task is ready, neither
    /// scheduled nor running, and its `Task` is to be dropped. Pending: the
    /// task is no longer running. Panicked: the task is closed, neither
    /// scheduled nor running, and its future is to be dropped.
    pub fn end_poll(self, outcome: PollOutcome) -> (r: (TaskState, Action))
        ensures
            r.0@ == self@.after_end_poll(outcome),
            r.1 == (match outcome {
                PollOutcome::Ready => Action::DropTask,
                PollOutcome::Pending => Action::Nothing,
                PollOutcome::Panicked => Action::DropFuture,
            }),
            outcome == PollOutcome::Ready ==> r.0.bits == (self.bits & !SCHEDULED & !RUNNING)
                | READY,
            outcome == PollOutcome::Pending ==> r.0.bits == self.bits & !RUNNING,
            outcome == PollOutcome::Panicked ==> r.0.bits == (self.bits & !SCHEDULED & !RUNNING)
                | CLOSED,
    {
        match outcome {
            PollOutcome::Ready => (self.complete_poll(), Action::DropTask),
            PollOutcome::Pending => (self.suspend_poll(), Action::Nothing),
            PollOutcome::Panicked => (self.abort_poll(), Action::DropFuture),
        }
    }

    /// The future of a closed task was dropped, and the `Task` that carried
    /// it is released. A `Task` scheduled by the last waker carries no
    /// counted reference: the word is kept, and the task is freed unless a
    /// join handle exists. Any other `Task` drops its reference, as
    /// `drop_task` does.
    pub fn release_closed(self) -> (r: (TaskState, Action))
        ensures
            r.0@ == self@.after_release_closed(),
            r.0.bits == (if self@.refs == 0 { self.bits as int } else { self.bits - REF_COUNT }),
            r.1 == (if r.0@.refs == 0 && !r.0@.handle {
                Action::Deallocate
            } else {
                Action::Nothing
            }),
    {
        proof {
            lemma_low_flags(self.bits);
        }
        if (self.bits >> REF_PAD) == 0 {
            let action = if self.bits & HANDLE == 0 {
                Action::Deallocate
            } else {
                Action::Nothing
            };
            (self, action)
        } else {
            self.drop_task()
        }
    }

    /// The number of references to the task.
    pub fn ref_count(self) -> (n: usize)
        ensures
            n == self@.refs,
    {
        proof {
            lemma_low_flags(self.bits);
        }
        self.bits >> REF_PAD
    }

    /// Whether the task is scheduled.
    pub fn is_scheduled(self) -> (b: bool)
        ensures
            b == self@.scheduled,
    {
        proof {
            lemma_low_flags(self.bits);
        }
        self.bits & SCHEDULED != 0
    }

    /// Whether the task is being polled.
    pub fn is_running(self) -> (b: bool)
        ensures
            b == self@.running,
    {
        proof {
            lemma_low_flags(self.bits);
        }
        self.bits & RUNNING != 0
    }

    /// Whether the task has completed.
    pub fn is_ready(self) -> (b: bool)
        ensures
            b == self@.ready,
    {
        proof {
            lemma_low_flags(self.bits);
        }
        self.bits & READY != 0
    }

    /// Whether the task is closed.
    pub fn is_closed(self) -> (b: bool)
        ensures
            b == self@.closed,
    {
        proof {
            lemma_low_flags(self.bits);
        }
        self.bits & CLOSED != 0
    }

    proof fn lemma_mark_scheduled(self)
        ensures
            word_view(self.bits | 1) == self@.mark_scheduled(),
            (self.bits | 1) <= self.bits + 1,
            (self.bits & 2 == 0) == !self@.running,
            !self@.running && self.bits < isize::MAX as usize ==> word_view(
                ((self.bits | 1) + 256) as usize,
            ) == self@.mark_scheduled().add_ref(),
    {
        let f: usize = flag_byte(self.bits);
        lemma_word_split(self.bits);
        lemma_flags_or_scheduled(f);
        lemma_flag_values(f);
        lemma_low_flags(self.bits);
    }
}

/// A task is finished exactly when its ready or closed flag is set.
pub proof fn law_finished_means_ready_or_closed(bits: usize)
    ensures
        word_view(bits).finished() == (bits & READY != 0 || bits & CLOSED != 0),
{
    lemma_low_flags(bits);
}

/// What each outcome of a poll does to the word, whatever the reference
/// count: a pending poll clears the running flag and nothing else; a ready
/// poll clears scheduled and running and sets ready; a panicked poll clears
/// scheduled and running and sets closed. None touches the count.
pub proof fn law_poll_outcomes(bits: usize)
    ensures
        word_view(bits & !RUNNING) == word_view(bits).after_end_poll(PollOutcome::Pending),
        word_view((bits & !SCHEDULED & !RUNNING) | READY) == word_view(bits).after_end_poll(
            PollOutcome::Ready,
        ),
        word_view((bits & !SCHEDULED & !RUNNING) | CLOSED) == word_view(bits).after_end_poll(
            PollOutcome::Panicked,
        ),
        ({
            let v = word_view(bits);
            let p = v.after_end_poll(PollOutcome::Pending);
            &&& !p.running && p.scheduled == v.scheduled && p.ready == v.ready
            &&& p.closed == v.closed && p.handle == v.handle && p.awaiter == v.awaiter
            &&& p.spare == v.spare && p.refs == v.refs
        }),
        ({
            let v = word_view(bits);
            let d = v.after_end_poll(PollOutcome::Ready);
            &&& !d.running && !d.scheduled && d.ready && d.closed == v.closed
            &&& d.handle == v.handle && d.awaiter == v.awaiter && d.spare == v.spare
            &&& d.refs == v.refs
        }),
        ({
            let v = word_view(bits);
            let a = v.after_end_poll(PollOutcome::Panicked);
            &&& !a.running && !a.scheduled && a.closed && a.ready == v.ready
            &&& a.handle == v.handle && a.awaiter == v.awaiter && a.spare == v.spare
            &&& a.refs == v.refs
        }),
{
    let f: usize = flag_byte(bits);
    lemma_low_flags(bits);
    lemma_word_split(bits);
    lemma_word_split_close(bits);
    lemma_flags_stop(f);
    lemma_flags_complete(f);
    lemma_flags_abort(f);
    lemma_flag_values(f);
}

/// A wake of a task that is neither ready, closed nor running schedules it,
/// whatever its reference count: a consumed waker raises only the scheduled
/// flag (its reference goes to the scheduled task), a borrowed one raises
/// the scheduled flag and adds the scheduled task's reference.
pub proof fn law_wake_schedules_idle_task(v: TaskView)
    requires
        !v.ready,
        !v.closed,
        !v.running,
    ensures
        ({
            let w = v.woken();
            &&& w.scheduled && !w.running && !w.ready && !w.closed
            &&& w.handle == v.handle && w.awaiter == v.awaiter && w.spare == v.spare
            &&& w.refs == v.refs
        }),
        ({
            let w = v.woken_by_ref();
            &&& w.scheduled && !w.running && !w.ready && !w.closed
            &&& w.handle == v.handle && w.awaiter == v.awaiter && w.spare == v.spare
            &&& w.refs == v.refs + 1
        }),
{
}

/// A task whose poll returned pending is woken again: after the poll it is
/// no longer running, so the next wake (such as a timer's, through a
/// cloned waker) schedules it, with the count it had.
pub proof fn law_wake_after_pending_poll(bits: usize)
    requires
        bits & READY == 0,
        bits & CLOSED == 0,
    ensures
        ({
            let after = word_view(bits).after_end_poll(PollOutcome::Pending);
            &&& !after.running
            &&& after.woken().scheduled
            &&& after.woken().refs == word_view(bits).refs
        }),
{
    lemma_low_flags(bits);
}

/// Dropping a waker undoes cloning it: the state comes back unchanged.
pub proof fn law_clone_then_drop_restores(v: TaskView)
    ensures
        v.add_ref().release_ref() == v,
{
}

/// Reference counting never touches the flags, and no flag operation
/// touches the reference count.
pub proof fn law_count_and_flags_independent(v: TaskView)
    ensures
        ({
            let a = v.add_ref();
            let r = v.release_ref();
            a.scheduled == v.scheduled && a.running == v.running && a.ready == v.ready
                && a.closed == v.closed && a.handle == v.handle && a.awaiter == v.awaiter
                && a.spare == v.spare && r.scheduled == v.scheduled && r.running == v.running
                && r.ready == v.ready && r.closed == v.closed && r.handle == v.handle
                && r.awaiter == v.awaiter && r.spare == v.spare
        }),
        v.mark_scheduled().refs == v.refs,
        v.woken().refs == v.refs,
        v.close_and_schedule().refs == v.release_ref().refs,
        v.start_running().refs == v.refs,
        v.unschedule().refs == v.refs,
        v.complete().refs == v.refs,
        v.stop_running().refs == v.refs,
        v.abort().refs == v.refs,
{
}

/// A task is running only while it is polled: waking, closing and
/// reference counting leave the running flag as it was; only the start of
/// a poll sets it, and only its end clears it.
pub proof fn law_running_only_while_polled(v: TaskView)
    ensures
        v.add_ref().running == v.running,
        v.release_ref().running == v.running,
        v.woken().running == v.running,
        v.woken_by_ref().running == v.running,
        v.close_and_schedule().running == v.running,
        v.unschedule().running == v.running,
        v.start_running().running,
        !v.complete().running,
        !v.stop_running().running,
        !v.abort().running,
{
}

/// Waking never clears a flag: it raises `scheduled` on a task that is not
/// finished and keeps the rest; a second wake changes nothing more.
pub proof fn law_wake_only_raises_scheduled(v: TaskView)
    ensures
        !v.finished() ==> v.woken().scheduled,
        v.woken().ready == v.ready,
        v.woken().closed == v.closed,
        v.woken().handle == v.handle,
        v.woken().awaiter == v.awaiter,
        v.woken().spare == v.spare,
        v.woken().woken() == v.woken(),
{
}

/// A finished task is never scheduled again by a wake: both kinds of wake
/// leave its state as it is.
pub proof fn law_finished_task_not_woken(v: TaskView)
    requires
        v.finished(),
    ensures
        v.woken() == v,
        v.woken_by_ref() == v,
{
}

/// A completed task is neither scheduled nor running: every transition
/// keeps this, where a poll starts only on a scheduled task and the last
/// waker closes only an unfinished one.
pub proof fn law_ready_excludes_scheduled_and_running(v: TaskView)
    requires
        v.ready_exclusive(),
    ensures
        v.add_ref().ready_exclusive(),
        v.release_ref().ready_exclusive(),
        v.woken().ready_exclusive(),
        v.woken_by_ref().ready_exclusive(),
        !v.finished() ==> v.close_and_schedule().ready_exclusive(),
        v.scheduled ==> v.start_running().ready_exclusive(),
        v.unschedule().ready_exclusive(),
        v.complete().ready_exclusive(),
        v.stop_running().ready_exclusive(),
        v.abort().ready_exclusive(),
{
}

/// A poll that returns pending leaves an idle task as it found it, except
/// that it is no longer scheduled.
pub proof fn law_pending_poll_unschedules(v: TaskView)
    requires
        !v.running,
    ensures
        v.start_running().stop_running() == (TaskView { scheduled: false, ..v }),
{
}

/// A poll that returns ready leaves the task ready, neither scheduled nor
/// running, with the references it had.
pub proof fn law_completed_poll_is_ready(v: TaskView)
    ensures
        v.start_running().complete().ready,
        !v.start_running().complete().scheduled,
        !v.start_running().complete().running,
        v.start_running().complete().refs == v.refs,
{
}

/// The reference that waking an idle task through a borrowed waker hands to
/// the scheduled task is the one that dropping the task after its completed
/// poll gives back.
pub proof fn law_scheduled_reference_returned(v: TaskView)
    requires
        !v.running,
        !v.finished(),
    ensures
        v.woken_by_ref().start_running().complete().release_ref().refs == v.refs,
{
}

/// The last waker of an unfinished, idle task without a join handle: its
/// reference is released, so the count drops to zero, and the task is
/// closed and scheduled once more. Taking it off the queue drops its future
/// instead of polling it, and releasing that `Task` leaves the count at zero
/// with no handle: the task is freed.
pub proof fn law_last_waker_drops_future(v: TaskView)
    requires
        v.refs == 1,
        !v.finished(),
        !v.handle,
        !v.running,
    ensures
        v.after_drop_waker() == v.close_and_schedule(),
        v.after_drop_waker().refs == 0,
        v.after_drop_waker().scheduled,
        v.after_drop_waker().closed,
        v.after_drop_waker().after_begin_poll() == v.after_drop_waker().unschedule(),
        !v.after_drop_waker().after_begin_poll().running,
        v.after_drop_waker().after_begin_poll().after_release_closed().refs == 0,
        !v.after_drop_waker().after_begin_poll().after_release_closed().handle,
{
}

/// A scheduled task holds a reference, and the other parts of the protocol
/// hold, on every word the runtime reaches. The initial word keeps it, and
/// so does each transition, under what the runtime ensures when it applies
/// it: a wake consumes a waker, whose reference is counted; a waker being
/// dropped holds a reference of its own besides the one a scheduled or
/// running task holds; a poll starts only on a scheduled task; a `Task` is
/// dropped only after its poll has ended.
pub proof fn law_protocol_preserved(v: TaskView, outcome: PollOutcome)
    requires
        v.protocol(),
    ensures
        (TaskView {
            scheduled: true,
            running: false,
            ready: false,
            closed: false,
            handle: false,
            awaiter: false,
            spare: 0,
            refs: 1,
        }).protocol(),
        v.add_ref().protocol(),
        v.refs >= 1 ==> v.woken().protocol(),
        v.woken_by_ref().protocol(),
        v.refs >= 1 && ((v.scheduled && !v.closed) || v.running ==> v.refs >= 2)
            ==> v.after_drop_waker().protocol(),
        v.scheduled ==> v.after_begin_poll().protocol(),
        v.running ==> v.after_end_poll(outcome).protocol(),
        v.refs >= 1 && !v.running && (!v.scheduled || v.closed) ==> v.release_ref().protocol(),
        v.closed ==> v.after_release_closed().protocol(),
{
}

/// A poll that panics closes the task: it is not polled again, and waking
/// it changes nothing.
pub proof fn law_panicked_poll_closes(v: TaskView)
    ensures
        v.start_running().abort().closed,
        !v.start_running().abort().scheduled,
        !v.start_running().abort().running,
        v.start_running().abort().woken() == v.start_running().abort(),
        v.start_running().abort().woken_by_ref() == v.start_running().abort(),
{
}

} // verus!
