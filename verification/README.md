# quinn_proto

The protocol logic of a QUIC implementation, written in Verus: every function in `src/` carries
a contract that Verus proves. Two kinds of contract are trusted rather than proved: the few
small wrappers around `rand` and `rustc-hash` (marked `external_body`), and the methods of the
cryptographic traits (`HmacKey`, `AeadKey`, `HandshakeTokenKey`) that users implement, whose
contracts say that signing, sealing and key derivation are functions of their inputs.

## Layout

- `src/` — the verified library
  - wire formats: `varint`, `coding`, `packet` (headers, packet numbers), `frame`,
    `transport_parameters` (with the write/read law in `parameter_laws`), `token`,
    `transport_error`
  - endpoint: `endpoint` (datagram routing, connection table, incoming buffers, version
    negotiation, rate-limited stateless resets), `byte_map`, `cid_generator`, `cid_queue`, `cid_state`
  - connection: `connection` (state transitions on errors and closes, handshake data
    queueing, the events a connection reports), `packet_space`,
    `spaces`, `packet_crypto`, `paths` (per-path state and accounting), `mtud`,
    `ack_frequency`, `stats`, `congestion`
  - streams: `streams`, `streams_state`, `send`, `send_buffer`, `recv`, `assembler`,
    `stream_api`
  - configuration: `config` (transport, endpoint, server and client settings)
  - sockets: `udp_state`
- `app/` — ordinary Rust around the library: socket options through `libc`, the CUBIC
  controller and the ACK-frequency decision (floating point), conversions from std's address
  and time types, and the retry loop that finds free connection IDs.
- `tests/` — tests of the library.

Times are nanoseconds in `u64`; addresses are the library's `SocketAddr`.
