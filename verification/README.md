# celeborn-client

A client for [Apache Celeborn](https://celeborn.apache.org/), the remote shuffle service. Its
rules are verified with Verus.

- `src/` is the library. It holds the wire formats, the frame codec, the state of connections
  and pools, shuffle registration and commit, pushing with its buffers and retries, partition
  splits and revives, and the streams that read a partition back. Every function states in its
  contract what it returns, and does no I/O: where a socket, a clock or a task is needed, it
  says what to do next and takes in what came of it.
- `app/` is the asynchronous client around the library: sockets, timers, tasks, Protobuf and
  configuration files.
- `tests/` runs the library on concrete values.

Laws that hold across functions, such as that pushed data is read back or that no batch is
handed out twice, are public proof functions whose names begin with `law_`.

What is taken on trust of `bytes`, `dashmap`, `lz4_flex`, `zstd`, `roaring`, `rand` and the
standard library is stated at the wrappers that call them, in `src/buffers.rs`, `src/tables.rs`,
`src/client/compression.rs` and beside the types that hold such values.
