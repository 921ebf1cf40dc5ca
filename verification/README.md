# synapse

A compact binary protocol for routed mission messages, verified with Verus.

- `src/crc.rs`: CRC-8, CRC-16-CCITT and CRC-32, specified as shift registers.
- `src/cobs.rs`: COBS framing, with the proof that decoding undoes encoding.
- `src/frame.rs`: the V2 frame (15-byte header, routing extension, payload,
  optional payload CRC), its byte layout, and the proof that parsing undoes
  encoding, with and without COBS.
- `src/protocol/messages.rs`: ROUGE mission messages, system and supervisor
  messages; fixed payload layouts with round-trip proofs.
- `src/messages.rs`: flight-controller telemetry, supervisor and VIO messages.
- `src/runtime.rs`: the session state machine (sequence numbers, pending
  acknowledgments, peer statistics, stream reassembly, automatic receipts).
- `src/endpoint.rs`, `src/wire.rs`, `src/text.rs`: addressing, little-endian
  layouts, UTF-8 text.
- `src/clock.rs`: the wall clock read through std, for frame timestamps.
- `app/`: the C interface, the Python module, serde-enabled message copies and
  readable error messages.

Floating-point fields are carried as their IEEE-754 bit patterns
(`wire::F32Bits`, `wire::F64Bits`, defined in `src/float_bits.rs`); their
`==` follows IEEE-754 (a NaN equals nothing, and the two zeros are equal).
`app/` converts them to numbers.
