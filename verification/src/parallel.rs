//! Running a batch of closures in parallel.
//!
//! A [`Parallel`] collects jobs in the order they are added. Running them is
//! the runtime's work: each job goes to a thread of its own and hands back its
//! result together with its index. [`ResultSlots`] puts those results back in
//! job order, whatever order they arrive in.
use vstd::prelude::*;
use vstd::set_lib::{set_int_range, lemma_int_range, lemma_subset_equality};

verus! {

/// A batch of jobs, kept in the order they were added.
pub struct Parallel<J> {
    closures: Vec<J>,
}

impl<J> View for Parallel<J> {
    type V = Seq<J>;

    closed spec fn view(&self) -> Seq<J> {
        self.closures@
    }
}

impl<J> Parallel<J> {
    /// An empty batch.
    pub fn new() -> (p: Self)
        ensures
            p@ == Seq::<J>::empty(),
    {
        Parallel { closures: Vec::new() }
    }

    /// The batch with `f` added as its last job.
    pub fn add(self, f: J) -> (p: Self)
        ensures
            p@ == self@.push(f),
    {
        let mut closures = self.closures;
        closures.push(f);
        Parallel { closures }
    }

    /// The batch with one job added per item of `iter`, in order: the job
    /// that `wrap` makes of the item.
    pub fn each<T, W: Fn(T) -> J>(self, iter: Vec<T>, wrap: W) -> (p: Self)
        requires
            forall|i: int| 0 <= i < iter@.len() ==> call_requires(wrap, (iter@[i],)),
        ensures
            p@.len() == self@.len() + iter@.len(),
            p@.subrange(0, self@.len() as int) == self@,
            forall|i: int|
                0 <= i < iter@.len() ==> call_ensures(
                    wrap,
                    (iter@[i],),
                    #[trigger] p@[self@.len() + i],
                ),
    {
        let mut closures = self.closures;
        let ghost items = iter@;
        let ghost start = closures@;
        for t in it: iter.into_iter()
            invariant
                it.seq() == items,
                forall|i: int| 0 <= i < items.len() ==> call_requires(wrap, (items[i],)),
                closures@.len() == start.len() + it.index(),
                closures@.subrange(0, start.len() as int) == start,
                forall|i: int|
                    0 <= i < it.index() ==> call_ensures(
                        wrap,
                        (items[i],),
                        #[trigger] closures@[start.len() + i],
                    ),
        {
            let j = wrap(t);
            closures.push(j);
        }
        Parallel { closures }
    }

    /// The batch with one job added: the job that `wrap` makes of `v`.
    pub fn add_with<V, W: FnOnce(V) -> J>(self, v: V, wrap: W) -> (p: Self)
        requires
            call_requires(wrap, (v,)),
        ensures
            p@.len() == self@.len() + 1,
            p@.drop_last() == self@,
            call_ensures(wrap, (v,), p@.last()),
    {
        let mut closures = self.closures;
        let j = wrap(v);
        closures.push(j);
        proof {
            assert(closures@.drop_last() =~= self@);
        }
        Parallel { closures }
    }

    /// The batch with one job added per item of `iter`, in order: the job
    /// that `wrap` makes of `v` and the item.
    pub fn each_with<V, T, W: Fn(&V, T) -> J>(self, v: &V, iter: Vec<T>, wrap: W) -> (p: Self)
        requires
            forall|i: int| 0 <= i < iter@.len() ==> call_requires(wrap, (v, iter@[i])),
        ensures
            p@.len() == self@.len() + iter@.len(),
            p@.subrange(0, self@.len() as int) == self@,
            forall|i: int|
                0 <= i < iter@.len() ==> call_ensures(
                    wrap,
                    (v, iter@[i]),
                    #[trigger] p@[self@.len() + i],
                ),
    {
        let mut closures = self.closures;
        let ghost items = iter@;
        let ghost start = closures@;
        for t in it: iter.into_iter()
            invariant
                it.seq() == items,
                forall|i: int| 0 <= i < items.len() ==> call_requires(wrap, (v, items[i])),
                closures@.len() == start.len() + it.index(),
                closures@.subrange(0, start.len() as int) == start,
                forall|i: int|
                    0 <= i < it.index() ==> call_ensures(
                        wrap,
                        (v, items[i]),
                        #[trigger] closures@[start.len() + i],
                    ),
        {
            let j = wrap(v, t);
            closures.push(j);
        }
        Parallel { closures }
    }

    /// The number of jobs.
    pub fn len(&self) -> (n: usize)
        ensures
            n == self@.len(),
    {
        self.closures.len()
    }

    /// The jobs, in the order they were added.
    pub fn into_closures(self) -> (v: Vec<J>)
        ensures
            v@ == self@,
    {
        self.closures
    }
}

/// One slot per job, holding its result once it has arrived.
pub struct ResultSlots<R> {
    slots: Vec<Option<R>>,
}

impl<R> View for ResultSlots<R> {
    type V = Seq<Option<R>>;

    closed spec fn view(&self) -> Seq<Option<R>> {
        self.slots@
    }
}

/// `count` empty slots.
pub open spec fn empty_slots<R>(count: nat) -> Seq<Option<R>> {
    Seq::new(count, |i: int| None::<R>)
}

/// The slots after the deliveries `ds`, each an index and a result, were
/// recorded in order.
pub open spec fn recorded<R>(slots: Seq<Option<R>>, ds: Seq<(usize, R)>) -> Seq<Option<R>>
    decreases ds.len(),
{
    if ds.len() == 0 {
        slots
    } else {
        recorded(slots, ds.drop_last()).update(ds.last().0 as int, Some(ds.last().1))
    }
}

/// Whether every slot holds a result.
pub open spec fn all_filled<R>(slots: Seq<Option<R>>) -> bool {
    forall|i: int| 0 <= i < slots.len() ==> (#[trigger] slots[i]) is Some
}

impl<R> ResultSlots<R> {
    /// `count` empty slots.
    pub fn new(count: usize) -> (s: Self)
        ensures
            s@ == empty_slots::<R>(count as nat),
    {
        let mut slots: Vec<Option<R>> = Vec::new();
        while slots.len() < count
            invariant
                slots@.len() <= count,
                forall|i: int| 0 <= i < slots@.len() ==> (#[trigger] slots@[i]) is None,
            decreases count - slots@.len(),
        {
            slots.push(None);
        }
        proof {
            assert(slots@ =~= empty_slots::<R>(count as nat));
        }
        ResultSlots { slots }
    }

    /// The number of slots.
    pub fn len(&self) -> (n: usize)
        ensures
            n == self@.len(),
    {
        self.slots.len()
    }

    /// Records `value` as the result of job `index`.
    pub fn record(&mut self, index: usize, value: R)
        requires
            index < old(self)@.len(),
        ensures
            final(self)@ == old(self)@.update(index as int, Some(value)),
    {
        self.slots.set(index, Some(value));
    }

    /// A result arrives while waiting with a deadline: recorded as
    /// `record` does when it is not `late` (the deadline has not passed), and the answer is
    /// whether to keep waiting; past the deadline nothing is recorded and
    /// the wait stops.
    pub fn record_unless_late(&mut self, index: usize, value: R, late: bool) -> (more: bool)
        requires
            index < old(self)@.len(),
        ensures
            more == !late,
            final(self)@ == (if late {
                old(self)@
            } else {
                old(self)@.update(index as int, Some(value))
            }),
    {
        if late {
            return false;
        }
        self.record(index, value);
        true
    }

    /// Whether every job's result has arrived.
    pub fn is_complete(&self) -> (b: bool)
        ensures
            b == all_filled(self@),
    {
        let mut i: usize = 0;
        while i < self.slots.len()
            invariant
                i <= self@.len(),
                forall|k: int| 0 <= k < i ==> (#[trigger] self@[k]) is Some,
            decreases self@.len() - i,
        {
            if self.slots[i].is_none() {
                return false;
            }
            i = i + 1;
        }
        true
    }

    /// The slots, in job order, filled or not.
    pub fn into_results(self) -> (v: Vec<Option<R>>)
        ensures
            v@ == self@,
    {
        self.slots
    }

    /// The results, in job order, once every one has arrived.
    pub fn into_ordered(self) -> (v: Vec<R>)
        requires
            all_filled(self@),
        ensures
            v@.len() == self@.len(),
            forall|i: int| 0 <= i < v@.len() ==> self@[i] == Some(#[trigger] v@[i]),
    {
        let ghost slots = self@;
        let mut out: Vec<R> = Vec::new();
        for slot in it: self.slots.into_iter()
            invariant
                it.seq() == slots,
                all_filled(slots),
                out@.len() == it.index(),
                forall|i: int| 0 <= i < out@.len() ==> slots[i] == Some(#[trigger] out@[i]),
        {
            assert(slots[it.index() as int] is Some);
            match slot {
                Some(r) => out.push(r),
                None => {},
            }
        }
        out
    }
}

/// What recording deliveries with distinct indices in range does, however
/// many of the jobs delivered (as when a deadline cuts the wait short): a
/// slot that some delivery names holds that delivery's result, any other
/// slot is as it was.
pub proof fn law_recorded_slots<R>(slots: Seq<Option<R>>, ds: Seq<(usize, R)>)
    requires
        forall|k: int| 0 <= k < ds.len() ==> (#[trigger] ds[k]).0 < slots.len(),
        forall|k: int, l: int| 0 <= k < ds.len() && 0 <= l < ds.len() && k != l ==> (#[trigger] ds[k]).0 != (#[trigger] ds[l]).0,
    ensures
        recorded(slots, ds).len() == slots.len(),
        forall|k: int| 0 <= k < ds.len() ==> recorded(slots, ds)[(#[trigger] ds[k]).0 as int] == Some(ds[k].1),
        forall|i: int| 0 <= i < slots.len() && (forall|k: int| 0 <= k < ds.len() ==> (#[trigger] ds[k]).0 != i)
            ==> recorded(slots, ds)[i] == slots[i],
    decreases ds.len(),
{
    if ds.len() > 0 {
        let rest = ds.drop_last();
        assert forall|k: int| 0 <= k < rest.len() implies (#[trigger] rest[k]).0 < slots.len() by {
            assert(rest[k] == ds[k]);
        }
        assert forall|k: int, l: int| 0 <= k < rest.len() && 0 <= l < rest.len() && k != l
            implies (#[trigger] rest[k]).0 != (#[trigger] rest[l]).0 by {
            assert(rest[k] == ds[k] && rest[l] == ds[l]);
        }
        law_recorded_slots(slots, rest);
        let last: int = ds.len() - 1;
        assert forall|k: int| 0 <= k < ds.len() implies recorded(slots, ds)[(#[trigger] ds[k]).0 as int] == Some(ds[k].1) by {
            if k < last {
                assert(rest[k] == ds[k]);
                assert(ds[k].0 != ds[last].0);
            }
        }
        assert forall|i: int| 0 <= i < slots.len() && (forall|k: int| 0 <= k < ds.len() ==> (#[trigger] ds[k]).0 != i)
            implies recorded(slots, ds)[i] == slots[i] by {
            assert(ds[last].0 != i);
            assert forall|k: int| 0 <= k < rest.len() implies (#[trigger] rest[k]).0 != i by {
                assert(rest[k] == ds[k]);
            }
        }
    }
}

/// Results come back in job order: when each of `n` jobs delivers its result
/// under its own index, in whatever order the deliveries arrive, recording
/// them all fills every slot, and slot `i` holds the result delivered under
/// index `i`.
pub proof fn law_results_in_job_order<R>(n: nat, ds: Seq<(usize, R)>)
    requires
        ds.len() == n,
        forall|k: int| 0 <= k < ds.len() ==> (#[trigger] ds[k]).0 < n,
        forall|k: int, l: int| 0 <= k < ds.len() && 0 <= l < ds.len() && k != l ==> (#[trigger] ds[k]).0 != (#[trigger] ds[l]).0,
    ensures
        recorded(empty_slots::<R>(n), ds).len() == n,
        all_filled(recorded(empty_slots::<R>(n), ds)),
        forall|k: int| 0 <= k < n ==> recorded(empty_slots::<R>(n), ds)[(#[trigger] ds[k]).0 as int] == Some(ds[k].1),
{
    let slots = empty_slots::<R>(n);
    law_recorded_slots(slots, ds);
    let idx = ds.map_values(|d: (usize, R)| d.0 as int);
    assert(idx.no_duplicates()) by {
        assert forall|k: int, l: int| 0 <= k < idx.len() && 0 <= l < idx.len() && k != l implies idx[k] != idx[l] by {
            assert(ds[k].0 != ds[l].0);
        }
    }
    idx.unique_seq_to_set();
    lemma_int_range(0, n as int);
    assert(idx.to_set().subset_of(set_int_range(0, n as int))) by {
        assert forall|i: int| idx.to_set().contains(i) implies set_int_range(0, n as int).contains(i) by {
            let k: int = choose|k: int| 0 <= k < idx.len() && idx[k] == i;
            assert(ds[k].0 < n);
        }
    }
    assert(idx.to_set().finite()) by {
        vstd::set_lib::lemma_set_subset_finite(set_int_range(0, n as int), idx.to_set());
    }
    lemma_subset_equality(idx.to_set(), set_int_range(0, n as int));
    assert forall|i: int| 0 <= i < n implies (#[trigger] recorded(slots, ds)[i]) is Some by {
        assert(set_int_range(0, n as int).contains(i));
        assert(idx.to_set().contains(i));
        let k: int = choose|k: int| 0 <= k < idx.len() && idx[k] == i;
        assert(ds[k].0 as int == i);
    }
}

} // verus!
