# mqtt_protocol_core

A sans-I/O MQTT v3.1.1 and v5.0 protocol library, written in Verus. It
encodes and parses MQTT packets and runs the protocol state machine of a
client or server connection: the caller hands it received bytes and packets
to send, and acts on the events it returns (bytes to send, timers to start
or cancel, packets received, errors).

Every function in `src/` is verified by Verus against its `requires` /
`ensures` contract.

## Layout

- `src/packet/`: packet types and their encodings (variable byte integers,
  strings and binary data, properties, subscription entries, CONNECT and
  PUBLISH of both versions, the other control packets), with parse and
  encode contracts and round-trip lemmas.
- `src/connection/`: the connection state machine (`engine`), with the
  packet identifier manager, topic alias tables, the store of packets kept
  for retransmission and the incremental packet builder.
- `tests/`: executable tests of the library.
- `app/`: plain Rust around the library: vectored-I/O buffers and serde JSON
  forms of strings and binary data.
