//! The decisions of the small futures that combine or pause tasks.
//!
//! Polling the inner futures, waking and registering timers are the
//! runtime's work; what each future decides on a poll is here.
use vstd::prelude::*;

verus! {

/// What a poll of a future that yields once does.
#[derive(Clone, Copy, Debug, PartialEq, Eq, Structural)]
pub enum YieldStep {
    /// Wake the task again and return pending.
    WakeAndPend,
    /// Return ready.
    Ready,
}

/// What a poll of a future that yields once answers, given whether it has
/// yielded already.
pub open spec fn yield_step(yielded: bool) -> YieldStep {
    if yielded {
        YieldStep::Ready
    } else {
        YieldStep::WakeAndPend
    }
}

/// Whether a future that yields once has yielded after `k` polls: every
/// poll leaves it yielded.
pub open spec fn yielded_after(k: nat) -> bool {
    k > 0
}

/// The state of a future that yields to the executor once.
#[derive(Clone, Copy, Debug, PartialEq, Eq, Structural)]
pub struct YieldNow {
    pub yielded: bool,
}

impl YieldNow {
    /// A future that has not yielded yet.
    pub fn new() -> (y: Self)
        ensures
            !y.yielded,
    {
        YieldNow { yielded: false }
    }

    /// One poll: the first yields, every later one is ready.
    pub fn poll(&mut self) -> (step: YieldStep)
        ensures
            final(self).yielded,
            step == yield_step(old(self).yielded),
            !old(self).yielded ==> step == YieldStep::WakeAndPend,
            old(self).yielded ==> step == YieldStep::Ready,
    {
        if !self.yielded {
            self.yielded = true;
            YieldStep::WakeAndPend
        } else {
            YieldStep::Ready
        }
    }
}

/// What a poll of a sleeping future does.
#[derive(Clone, Copy, Debug, PartialEq, Eq, Structural)]
pub enum SleepStep {
    /// The deadline has passed: return ready.
    Ready,
    /// Register a timer that wakes the task, and return pending.
    RegisterTimer,
    /// The timer is already registered: return pending.
    Pend,
}

/// What a poll of a sleeping future answers, given whether its timer is
/// registered and whether the deadline has passed.
pub open spec fn sleep_step(registered: bool, deadline_passed: bool) -> SleepStep {
    if deadline_passed {
        SleepStep::Ready
    } else if registered {
        SleepStep::Pend
    } else {
        SleepStep::RegisterTimer
    }
}

/// Whether a sleeping future's timer is registered after a poll.
pub open spec fn sleep_registered(registered: bool, deadline_passed: bool) -> bool {
    registered || !deadline_passed
}

/// Whether the timer of a new sleeping future is registered after polls
/// that saw the deadline passed or not as `passed` says.
pub open spec fn sleep_registered_after(passed: Seq<bool>) -> bool
    decreases passed.len(),
{
    if passed.len() == 0 {
        false
    } else {
        sleep_registered(sleep_registered_after(passed.drop_last()), passed.last())
    }
}

/// What poll `k` (counting from 0) of a new sleeping future answers.
pub open spec fn sleep_step_at(passed: Seq<bool>, k: int) -> SleepStep {
    sleep_step(sleep_registered_after(passed.take(k)), passed[k])
}

/// The state of a sleeping future.
#[derive(Clone, Copy, Debug, PartialEq, Eq, Structural)]
pub struct Sleep {
    pub registered: bool,
}

impl Sleep {
    /// A sleep whose timer is not registered yet.
    pub fn new() -> (s: Self)
        ensures
            !s.registered,
    {
        Sleep { registered: false }
    }

    /// One poll, told whether the deadline has passed: ready once it has,
    /// otherwise pending, registering the timer on the first such poll.
    pub fn poll(&mut self, deadline_passed: bool) -> (step: SleepStep)
        ensures
            step == sleep_step(old(self).registered, deadline_passed),
            final(self).registered == sleep_registered(old(self).registered, deadline_passed),
            deadline_passed ==> step == SleepStep::Ready && final(self).registered == old(
                self,
            ).registered,
            !deadline_passed && !old(self).registered ==> step == SleepStep::RegisterTimer
                && final(self).registered,
            !deadline_passed && old(self).registered ==> step == SleepStep::Pend
                && final(self).registered,
    {
        if deadline_passed {
            return SleepStep::Ready;
        }
        if !self.registered {
            self.registered = true;
            SleepStep::RegisterTimer
        } else {
            SleepStep::Pend
        }
    }
}

/// The collected outputs once the first future returned `o`.
pub open spec fn with_first<O1, O2>(v: (Option<O1>, Option<O2>), o: O1) -> (Option<O1>, Option<O2>) {
    (Some(o), v.1)
}

/// The collected outputs once the second future returned `o`.
pub open spec fn with_second<O1, O2>(v: (Option<O1>, Option<O2>), o: O2) -> (Option<O1>, Option<O2>) {
    (v.0, Some(o))
}

/// The end of a join's poll: both outputs, taken, once both are in;
/// otherwise nothing taken and no answer.
pub open spec fn join_finish<O1, O2>(v: (Option<O1>, Option<O2>)) -> (
    (Option<O1>, Option<O2>),
    Option<(O1, O2)>,
) {
    if v.0 is Some && v.1 is Some {
        ((None, None), Some((v.0->Some_0, v.1->Some_0)))
    } else {
        (v, None)
    }
}

/// What a future delivers on poll `k` when it is ready on poll `n`: its
/// output on that poll, nothing on the others.
pub open spec fn arrival<O>(k: nat, n: nat, o: O) -> Option<O> {
    if k == n {
        Some(o)
    } else {
        None
    }
}

/// A join's poll: record what each future delivered, then finish.
pub open spec fn join_poll<O1, O2>(
    v: (Option<O1>, Option<O2>),
    a1: Option<O1>,
    a2: Option<O2>,
) -> ((Option<O1>, Option<O2>), Option<(O1, O2)>) {
    let w = match a1 {
        Some(o) => with_first(v, o),
        None => v,
    };
    let w2 = match a2 {
        Some(o) => with_second(w, o),
        None => w,
    };
    join_finish(w2)
}

/// The outputs a join holds after `k` polls, when its first future is ready
/// on poll `n1` with `o1` and its second on poll `n2` with `o2`.
pub open spec fn join_state_after<O1, O2>(k: nat, n1: nat, o1: O1, n2: nat, o2: O2) -> (
    Option<O1>,
    Option<O2>,
)
    decreases k,
{
    if k == 0 {
        (None, None)
    } else {
        join_poll(
            join_state_after((k - 1) as nat, n1, o1, n2, o2),
            arrival(k, n1, o1),
            arrival(k, n2, o2),
        ).0
    }
}

/// What a join answers on poll `k` (counting from 1), in the same setting.
pub open spec fn join_answer<O1, O2>(k: nat, n1: nat, o1: O1, n2: nat, o2: O2) -> Option<(O1, O2)> {
    join_poll(
        join_state_after((k - 1) as nat, n1, o1, n2, o2),
        arrival(k, n1, o1),
        arrival(k, n2, o2),
    ).1
}

/// The outputs that a join of two futures has collected.
pub struct JoinState<O1, O2> {
    o1: Option<O1>,
    o2: Option<O2>,
}

impl<O1, O2> View for JoinState<O1, O2> {
    type V = (Option<O1>, Option<O2>);

    closed spec fn view(&self) -> (Option<O1>, Option<O2>) {
        (self.o1, self.o2)
    }
}

impl<O1, O2> JoinState<O1, O2> {
    /// No output collected yet.
    pub fn new() -> (j: Self)
        ensures
            j@ == (None::<O1>, None::<O2>),
    {
        JoinState { o1: None, o2: None }
    }

    /// The first future returned `o`.
    pub fn complete_first(&mut self, o: O1)
        ensures
            final(self)@ == with_first(old(self)@, o),
            final(self)@.0 == Some(o) && final(self)@.1 == old(self)@.1,
    {
        self.o1 = Some(o);
    }

    /// The second future returned `o`.
    pub fn complete_second(&mut self, o: O2)
        ensures
            final(self)@ == with_second(old(self)@, o),
            final(self)@.0 == old(self)@.0 && final(self)@.1 == Some(o),
    {
        self.o2 = Some(o);
    }

    /// The end of a poll: both outputs, in argument order, once both futures
    /// have returned; `None`, with nothing taken, before.
    pub fn finish(&mut self) -> (r: Option<(O1, O2)>)
        ensures
            (final(self)@, r) == join_finish(old(self)@),
            (old(self)@.0 is Some && old(self)@.1 is Some) ==> {
                &&& r == Some((old(self)@.0->Some_0, old(self)@.1->Some_0))
                &&& final(self)@ == (None::<O1>, None::<O2>)
            },
            !(old(self)@.0 is Some && old(self)@.1 is Some) ==> {
                &&& r is None
                &&& final(self)@ == old(self)@
            },
    {
        match (self.o1.take(), self.o2.take()) {
            (Some(o1), Some(o2)) => Some((o1, o2)),
            (maybe1, maybe2) => {
                self.o1 = maybe1;
                self.o2 = maybe2;
                None
            },
        }
    }
}

/// One of the two futures of a select.
#[derive(Clone, Copy, Debug, PartialEq, Eq, Structural)]
pub enum Side {
    First,
    Second,
}

/// The order in which a select polls its two futures, by the toss of a
/// coin: the first future first on heads.
pub fn select_order(coin: bool) -> (r: (Side, Side))
    ensures
        r.0 == (if coin { Side::First } else { Side::Second }),
        r.1 == (if coin { Side::Second } else { Side::First }),
{
    if coin {
        (Side::First, Side::Second)
    } else {
        (Side::Second, Side::First)
    }
}

/// What a select does after polling one of its futures.
#[derive(Debug, PartialEq, Eq)]
pub enum SelectStep<O> {
    /// That future was ready: answer its output.
    Done(O),
    /// That future was pending: poll this one next.
    Poll(Side),
    /// Both futures were pending: answer pending.
    Pend,
}

/// What a select does after its `polled`-th poll of the round (1 or 2),
/// which gave `result`, the other future being `next`.
pub open spec fn select_step<O>(polled: nat, next: Side, result: Option<O>) -> SelectStep<O> {
    match result {
        Some(o) => SelectStep::Done(o),
        None => if polled == 1 {
            SelectStep::Poll(next)
        } else {
            SelectStep::Pend
        },
    }
}

/// One poll of a select: its two futures in the order of a coin toss, the
/// first that is ready answering.
pub struct SelectRound {
    order: (Side, Side),
    polled: u8,
}

impl View for SelectRound {
    type V = (Side, Side, nat);

    closed spec fn view(&self) -> (Side, Side, nat) {
        (self.order.0, self.order.1, self.polled as nat)
    }
}

impl SelectRound {
    /// Starts a round: the future to poll first, by the coin.
    pub fn start(coin: bool) -> (r: (SelectRound, Side))
        ensures
            r.0@ == (if coin {
                (Side::First, Side::Second, 1nat)
            } else {
                (Side::Second, Side::First, 1nat)
            }),
            r.1 == r.0@.0,
    {
        let order = select_order(coin);
        (SelectRound { order, polled: 1 }, order.0)
    }

    /// The polled future gave `result` (`Some` when ready): answer it, poll
    /// the other one if this was the first, or answer pending.
    pub fn after_poll<O>(&mut self, result: Option<O>) -> (step: SelectStep<O>)
        requires
            old(self)@.2 == 1 || old(self)@.2 == 2,
        ensures
            step == select_step(old(self)@.2, old(self)@.1, result),
            result matches Some(o) ==> step == SelectStep::Done(o),
            result is None && old(self)@.2 == 1 ==> step == SelectStep::<O>::Poll(old(self)@.1),
            result is None && old(self)@.2 == 2 ==> step == SelectStep::<O>::Pend,
            final(self)@.0 == old(self)@.0,
            final(self)@.1 == old(self)@.1,
            final(self)@.2 == (if step is Poll { 2 } else { old(self)@.2 }),
            final(self)@.2 == 1 || final(self)@.2 == 2,
    {
        match result {
            Some(o) => SelectStep::Done(o),
            None => if self.polled == 1 {
                self.polled = 2;
                SelectStep::Poll(self.order.1)
            } else {
                SelectStep::Pend
            },
        }
    }
}

/// One step of the xorshift generator.
pub open spec fn xorshift(s: u64) -> u64 {
    let a: u64 = s ^ (s << 13u64);
    let b: u64 = a ^ (a >> 7u64);
    b ^ (b << 17u64)
}

/// The coin tosses of a select: a xorshift generator.
#[derive(Clone, Copy, Debug, PartialEq, Eq, Structural)]
pub struct CoinToss {
    pub state: u64,
}

impl CoinToss {
    /// A generator seeded from `seed` (the runtime uses an address), made odd
    /// so that the state is never zero.
    pub fn seeded(seed: u64) -> (c: Self)
        ensures
            c.state == (seed ^ 0x123456789abcdef) | 1,
            c.state != 0,
    {
        let state: u64 = (seed ^ 0x123456789abcdef) | 1;
        assert(((seed ^ 0x123456789abcdefu64) | 1u64) != 0u64) by (bit_vector);
        CoinToss { state }
    }

    /// The next toss: advance the state and read its lowest bit.
    pub fn toss(&mut self) -> (heads: bool)
        ensures
            final(self).state == xorshift(old(self).state),
            heads == (final(self).state & 1 == 1),
    {
        let mut s: u64 = self.state;
        s = s ^ (s << 13u64);
        s = s ^ (s >> 7u64);
        s = s ^ (s << 17u64);
        self.state = s;
        s & 1 == 1
    }
}

/// A future that yields once answers pending, asking to be woken, on its
/// first poll, and ready on every later one.
pub proof fn law_yield_once(k: nat)
    ensures
        !yielded_after(0),
        yielded_after(k + 1),
        yield_step(yielded_after(k)) == (if k == 0 {
            YieldStep::WakeAndPend
        } else {
            YieldStep::Ready
        }),
{
}

/// Once registered, a sleeping future's timer stays registered.
proof fn lemma_sleep_registered_stays(passed: Seq<bool>, j: int, k: int)
    requires
        0 <= j <= k <= passed.len(),
        sleep_registered_after(passed.take(j)),
    ensures
        sleep_registered_after(passed.take(k)),
    decreases k - j,
{
    if j < k {
        assert(passed.take(j + 1).drop_last() == passed.take(j));
        lemma_sleep_registered_stays(passed, j + 1, k);
    }
}

/// A sleeping future registers its timer at most once, on its first poll
/// that sees the deadline not yet passed; every later poll before the
/// deadline answers pending without registering, and a poll past the
/// deadline answers ready.
pub proof fn law_sleep_registers_once(passed: Seq<bool>)
    ensures
        forall|j: int, k: int|
            #![trigger sleep_step_at(passed, j), sleep_step_at(passed, k)]
            0 <= j < k < passed.len() && sleep_step_at(passed, j) == SleepStep::RegisterTimer
                ==> sleep_step_at(passed, k) != SleepStep::RegisterTimer,
        forall|k: int|
            0 <= k < passed.len() && passed[k] ==> #[trigger] sleep_step_at(passed, k)
                == SleepStep::Ready,
        forall|k: int|
            0 <= k < passed.len() && !passed[k] && (forall|i: int| 0 <= i < k ==> passed[i])
                ==> #[trigger] sleep_step_at(passed, k) == SleepStep::RegisterTimer,
{
    assert forall|j: int, k: int|
        #![trigger sleep_step_at(passed, j), sleep_step_at(passed, k)]
        0 <= j < k < passed.len() && sleep_step_at(passed, j) == SleepStep::RegisterTimer
        implies sleep_step_at(passed, k) != SleepStep::RegisterTimer by {
        assert(passed.take(j + 1).drop_last() == passed.take(j));
        assert(passed.take(j + 1).last() == passed[j]);
        lemma_sleep_registered_stays(passed, j + 1, k);
    }
    assert forall|k: int|
        0 <= k < passed.len() && !passed[k] && (forall|i: int| 0 <= i < k ==> passed[i])
        implies #[trigger] sleep_step_at(passed, k) == SleepStep::RegisterTimer by {
        lemma_sleep_unregistered_while_passed(passed, k);
    }
}

/// Polls that all see the deadline passed register nothing.
proof fn lemma_sleep_unregistered_while_passed(passed: Seq<bool>, k: int)
    requires
        0 <= k <= passed.len(),
        forall|i: int| 0 <= i < k ==> passed[i],
    ensures
        !sleep_registered_after(passed.take(k)),
    decreases k,
{
    if k > 0 {
        assert(passed.take(k).drop_last() == passed.take(k - 1));
        assert(passed.take(k).last() == passed[k - 1]);
        lemma_sleep_unregistered_while_passed(passed, k - 1);
    }
}

/// A select answers the output of the first of its futures, in the order of
/// the coin, that is ready, polling the second only when the first is
/// pending, and answers pending only when both are.
pub proof fn law_select_first_ready_wins<O>(second: Side, r1: Option<O>, r2: Option<O>)
    ensures
        r1 matches Some(o) ==> select_step(1, second, r1) == SelectStep::Done(o),
        r1 is None ==> select_step(1, second, r1) == SelectStep::<O>::Poll(second),
        r1 is None ==> (r2 matches Some(o) ==> select_step(2, second, r2) == SelectStep::Done(o)),
        r1 is None && r2 is None ==> select_step(2, second, r2) == SelectStep::<O>::Pend,
{
}

/// A xorshift generator never reaches zero from a state that is not zero, so
/// the coin keeps tossing both ways.
pub proof fn law_xorshift_nonzero(s: u64)
    requires
        s != 0,
    ensures
        xorshift(s) != 0,
{
    let a: u64 = s ^ (s << 13u64);
    let b: u64 = a ^ (a >> 7u64);
    assert(s != 0 ==> s ^ (s << 13u64) != 0) by (bit_vector);
    assert(a != 0 ==> a ^ (a >> 7u64) != 0) by (bit_vector);
    assert(b != 0 ==> b ^ (b << 17u64) != 0) by (bit_vector);
}

/// A join answers with the outputs in argument order, whichever future
/// finishes first: both completion orders reach the same collected state.
pub proof fn law_join_argument_order<O1, O2>(v: (Option<O1>, Option<O2>), o1: O1, o2: O2)
    ensures
        with_second(with_first(v, o1), o2) == with_first(with_second(v, o2), o1),
        with_second(with_first(v, o1), o2) == (Some(o1), Some(o2)),
{
}

/// Before the later of the two ready polls, a join holds exactly the
/// outputs delivered so far.
proof fn lemma_join_prefix<O1, O2>(k: nat, n1: nat, o1: O1, n2: nat, o2: O2)
    requires
        n1 >= 1,
        n2 >= 1,
        k < n1 || k < n2,
    ensures
        join_state_after(k, n1, o1, n2, o2) == (
            if k >= n1 { Some(o1) } else { None::<O1> },
            if k >= n2 { Some(o2) } else { None::<O2> },
        ),
    decreases k,
{
    if k > 0 {
        lemma_join_prefix((k - 1) as nat, n1, o1, n2, o2);
    }
}

/// A join answers on the poll where its slower future is ready, and not
/// before; on that poll it answers both outputs in argument order, and an
/// output delivered on an earlier poll is kept until then.
pub proof fn law_join_answers_when_both_ready<O1, O2>(n1: nat, o1: O1, n2: nat, o2: O2)
    requires
        n1 >= 1,
        n2 >= 1,
    ensures
        forall|k: nat|
            1 <= k < n1 || 1 <= k < n2 ==> (#[trigger] join_answer(k, n1, o1, n2, o2)) is None
                && join_state_after(k, n1, o1, n2, o2) == (
                if k >= n1 { Some(o1) } else { None::<O1> },
                if k >= n2 { Some(o2) } else { None::<O2> },
            ),
        join_answer(if n1 >= n2 { n1 } else { n2 }, n1, o1, n2, o2) == Some((o1, o2)),
{
    assert forall|k: nat| 1 <= k < n1 || 1 <= k < n2 implies (#[trigger] join_answer(
        k,
        n1,
        o1,
        n2,
        o2,
    )) is None && join_state_after(k, n1, o1, n2, o2) == (
        if k >= n1 { Some(o1) } else { None::<O1> },
        if k >= n2 { Some(o2) } else { None::<O2> },
    ) by {
        lemma_join_prefix((k - 1) as nat, n1, o1, n2, o2);
        lemma_join_prefix(k, n1, o1, n2, o2);
    }
    let m: nat = if n1 >= n2 { n1 } else { n2 };
    lemma_join_prefix((m - 1) as nat, n1, o1, n2, o2);
}

} // verus!
