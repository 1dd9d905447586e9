# posh

Async-aware synchronization primitives, with their decision logic verified by Verus.

- `src/waiter.rs`: a waiter, which is what a task or thread leaves behind when it blocks on a
  lock or a condition variable. It is polled, woken, canceled and dropped, possibly by different
  threads; each of these is a function on the state that the waiter's lock protects.
- `src/waiter_laws.rs`: what holds of a waiter over any sequence of those operations, such as that
  no wake-up is lost and that a drop ends only once nobody refers to the waiter any more.
- `src/block_on.rs`: what a thread that blocks on a future does after each poll.
- `src/bench/`: the benchmarks' decisions: the barrier at which tasks start together, the loop of
  a task, the order of combinations and locks, the headings, the
  runs still to come and the median.
- `src/sequences.rs`: a fact about sequences that several proofs share.
- `src/outside.rs`: what is taken on trust of the standard library and of
  `intrusive_collections`.
- `app/`: the shared waiter with its lock and its intrusive list, the `Future` and `Drop` impls,
  `block_on`, and the benchmarks, which block threads and compute with floating-point numbers.
