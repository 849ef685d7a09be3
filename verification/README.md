# acom

A small asynchronous runtime, with its logic verified by Verus.

- `src/` is the verified library:
  - `task`: the task state word (flags and reference count) and every
    transition the runtime applies to it (waking, polling, closing on a
    panic or on the last waker, dropping references), with the action each
    one calls for;
  - `layout`: the layout of a task allocation (header, future, output,
    scheduler) and the record-extension rule it is built from;
  - `future`: what `yield_now`, `sleep`, `join` and `select` decide on a poll,
    and the xorshift coin that orders `select`;
  - `parallel`: a batch of jobs kept in order, and the slots that put results
    back in job order;
  - `executor`: when a spawned future is boxed;
  - `waker`: the `ArcWake` trait.
- `app/` is the runtime around it: raw task memory and the atomic
  compare-and-swap loops, the executor and its kqueue reactor (BSD and macOS
  only), the future types, `Arc` wakers, threads for parallel jobs, logging, and
  `DropGuard`, which runs the caller's closure when dropped.
- `tests/` exercises the library on concrete values.
