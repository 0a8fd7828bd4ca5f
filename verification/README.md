# functional-kube

A framework for Kubernetes controllers in the "functional core, imperative
shell" style: reconciliation returns its effects as data (a
`ReconcileResult`), and a shell applies them.

- `src/` is the library, verified with Verus: the result type and its
  requeue decisions (`result`), the order in which effects are applied and
  the requeue action (`executor`), the resource stores behind snapshots
  (`snapshot`), and executors for tests (`testing`).
- `app/` holds what runs around it: the asynchronous `Executor` trait,
  `execute`, which drives the library's `Execution` against an executor,
  conversions from kube resources and `std::time::Duration`, and the
  `Mutex`-shared test executors.
- `tests/` exercises the library.
