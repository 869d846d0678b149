# richat_storage

The storage and metrics core of a Solana update streaming service, written in
Verus and verified.

- `src/storage/replay.rs`: the bounded, round-robin queue of disk replay
  requests shared by the replay workers, with its laws (admission bound,
  order of service, closing).
- `src/storage/replay_state.rs`: the per-request replay state machine a worker
  advances each tick (resume, deliver, settle, decode, finish), with its laws.
- `src/storage/mod.rs`: the replay start index of each retained slot and the
  disk size totals.
- `src/metrics.rs`: metric names, gRPC message labels, and the log line and
  counter increments for failed block reconstruction.
- `src/text.rs`: verified decimal rendering.
- `app/`: the Prometheus recorder and endpoint, logging and counting, the
  mutex around the replay queue, and the disk size poller.
