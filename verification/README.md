# zeno

A small message broker's core, verified with Verus.

- `src/publish.rs`: the publish frame (subject length byte, four-byte
  little-endian payload length, subject, payload), its reader and writer, and
  the round-trip laws between them.
- `src/pull_wire_format.rs`, `src/message_types.rs`, `src/client_commands.rs`:
  the create-consumer frame, frame type bytes, and reading one client command.
- `src/errors.rs`: protocol errors.
- `src/wal.rs`: the write-ahead log over a writable memory map (`memmap2`).
- `src/consumer.rs`, `src/consumer_manager.rs`: polling consumers and the
  registry of subjects and consumers.
- `app/`: the TCP front end, opening the log file, and a throughput benchmark.
