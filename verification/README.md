# lamport

An OTP-inspired actor runtime whose decisions are verified with Verus.

- `src/` is the library. The runtimes in it are state machines: they own the
  mailboxes, links, monitors, names, timers, shutdowns, run queue, event log and
  supervision plans, and their contracts say what each operation does to that
  state. `laws`, `runs` and `soundness` modules hold what spans several
  operations, such as that ties between actors are noted at both ends, that an
  exit is reported once, and that a supervisor stops its children one by one in
  the reverse of their start order.
- `app/` is ordinary Rust around the library: the traits that actors, servers,
  state machines and supervisors implement, and the hosts that call their hooks,
  sleep on Tokio timers, run blocking jobs and write traces.
- `tests/` drives the library with a clock of its own, without threads.

What is trusted: text comparison and quoting, `Duration` in nanoseconds, and the
downcast of type-erased messages, all of the standard library. Each such item
says in its doc comment what is claimed of it.
