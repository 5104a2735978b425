# pi_runtime

The runtime of an agent harness. A session holds lanes; a lane holds a transcript,
a queue of input and at most one operation: a run, a compaction or a navigation.
Every step of an operation is stored before it counts, so that a process that
starts anew finds each lane as the last one left it. (A lane
that is begun at an entry of another branch has its tip stored by the first commit that
moves it.)

- `src/` decides. It is written in Verus: requests, the leaves of an operation, the
  commits that move it, the events that tell of them and the snapshots that follow
  the events are functions on plain values, with their contracts proved. What holds
  of several of them together is stated in the proof functions named `law_…`.
- `app/` does. It holds the asynchronous side: the storage, the models, the hooks,
  the tools and the tasks that drive an operation, and calls `src/` for every
  decision.
- `tests/` runs the library on concrete values, with an in-memory store that
  restores the session after every commit.

Where to start reading: `src/model/` for the data, `src/command.rs` for what a
decision is, `src/durable.rs` for what it means to be in step with storage,
`src/drive/dispatch.rs` for the leaves and their procedures, and `src/lane/` for
requests.
