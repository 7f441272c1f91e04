# mip_client

A verified core for a client of the MIP (MSIP) publish/subscribe protocol.

- `src/protocol/header.rs`: the 24-byte big-endian frame header, its encoding and
  decoding, with round-trip proofs.
- `src/client/internals.rs`: outgoing frames and PUBLISH payloads, the framing of the
  received byte stream (`drain_frames`, `handle_data`), and the events each frame produces
  (`process_frame`), with proofs that written frames are read back, and that reading a
  stream in two parts yields what reading it at once yields whenever the first part hits no
  missing magic number, which holds for any split of a stream of well-formed frames.
- `src/client/mod.rs`: `MIPClient`, the connection state machine (connect, send,
  ping, connection loss and reconnection, disconnect), with its laws.
- `src/client/types.rs`, `src/client/events.rs`: errors, options, messages, events.
- `src/text.rs`: lossy UTF-8 decoding (through `String::from_utf8_lossy`) and decimal
  formatting.
- `app/`: the tokio program around the library: sockets, tasks, timers and callbacks.
