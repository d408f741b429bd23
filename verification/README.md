# hermes-yamcs

The bridge between YAMCS and Hermes, written in Verus: what it computes is stated in contracts
and proved.

- `src/convert` turns commands, events, telemetry and instances from one system's form into the
  other's.
- `src/file_transfer` parses F Prime file packets, tracks which bytes of a file have arrived, and
  describes downlinked files.
- `src/dp_container.rs` parses the header of F Prime data product containers.
- `src/hermes.rs`, `src/yamcs.rs`, `src/buckets.rs` and `src/json.rs` hold the messages;
  floating-point numbers are held by their bits (`src/float.rs`).
- `src/outside.rs` is what is taken for granted: three functions of `std`, `chrono` and `base64`.
- `app` puts messages into the forms in which they travel (serde, gRPC, protobuf) and writes the
  log.
