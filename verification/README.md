# codex_control

Embedded control of a shared Codex daemon. The decisions live in a library that
is verified with Verus; the I/O around them lives in `app/`.

## The library, `src/`

- `supervisor`: the daemon and the GUI that attaches to it: bringing both up,
  and looking after them.
- `transport`: the reconnecting connection: the greeting, the requests that wait
  for an answer, the barrier before requests that act, and the waits between two
  attempts.
- `rpc`: requests, the messages that carry them, and how a request can fail.
- `ingest`: discovery of threads, reconciliation with the daemon, and the
  subscriptions that result.
- `threads`, `skills`, `hooks`: listing and reading threads, the extra roots of
  skills, and the trust in hooks.
- `control`: the whole: from supervision to shutdown, and the restoration of a
  connection after it was lost.
- `mock`: a stand-in for the daemon.
- `json`, `path`, `text`, `table`, `clock`: the values that the rest works on.

What alternates with I/O is a machine: a function from where it stands and what
happened to where it stands next and what is to be done. Each machine has a
relation, a spec function whose name ends in `_follows`, that says what each
event changes and what is done about it. Proof functions whose names begin with
`law_` state what holds over the machines.

## The rest

- `tests/` runs the machines against the stand-in, with a clock that is set by
  hand.
- `app/` carries the machines' steps out, on Tokio. The protocol, the reducer,
  the store, the fan-out and the controller of actions come from crates of their
  own, through the traits in `app/ports.rs`.
