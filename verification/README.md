# rivulet-core

The core of the Rivulet recording and streaming studio, written in Verus:
every function in `src/` carries a contract that the verifier proves.

- `src/` — the verified library: the engine's session state and multistream
  target supervision, stream settings and ingest parsing, reconnect and
  bitrate policies, the replay ring buffer, scenes and sources, plugin
  manifests, approvals and lifecycle decisions, MIDI parsing, presence,
  telemetry batching, localization and the text helpers they share.
- `tests/` — tests of the library, run against the compiled crate.
- `app/` — ordinary Rust around the library: file, network and credential
  store access, threads and clocks, serialization copies of library types,
  the WebAssembly host, and the floating-point rendering values.
