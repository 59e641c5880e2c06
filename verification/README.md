# krabka

Codecs, clocks and schema rules of the krabka Kafka wire layer, written in
Verus and proved against their contracts.

## Layout

- `src/wire.rs` — the byte model of a Kafka message: the field kinds, the
  encoding of each, and the parser, with the round-trip and truncation lemmas.
- `src/primitives.rs`, `src/tagged_fields.rs` — the executable readers and
  writers of integers, UUIDs, compact strings and bytes, string arrays and
  KIP-482 tagged fields.
- `src/krabka/` — the krabka-only request and response messages (barriers,
  break-glass, topic freezes). Each implements the `Wire` trait of
  `src/krabka/common.rs`, whose laws state that decode reads back what encode
  wrote, at every supported version.
- `src/hlc/` — the hybrid logical clock: the stamp codec, the header lookup,
  and the clock as a state machine with its monotonicity and fencing laws.
- `src/compression/` — the codec registry and its level rules, and the LZ4
  frame codec over the `lz4rip` and `lzzzz` crates.
- `src/codegen/` — the schema rules of the protocol code generator, and the
  schema walks that build its tagged-field fixtures: the Rust value, and the
  version-gated JSON form.
- `src/metadata/` — metadata records and their error messages.
- `src/tap/` — the frame parsing and per-frame decisions of the wire tap.
- `app/` — the parts that do I/O or need outside derives: the TCP relay loop,
  file writing for the generator, the token assembly of the tagged fixtures
  with `quote` and `syn`, a shared clock behind a mutex, and serde and
  thiserror copies of the library's types.
- `tests/` — the test suite.
