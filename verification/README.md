# reis

Reis implements EI and EIS, the protocol of emulated input on Wayland, for
clients (`ei`) and servers (`eis`). The library under `src/` is verified with
Verus; `app/` holds what runs around it.

## Layout

- `src/codec.rs`, `src/arg.rs`: integers, headers and arguments on the wire,
  their encoding and decoding, with round-trip lemmas.
- `src/backend.rs`, `src/message.rs`: one end of a connection: objects by ID,
  buffered bytes and file descriptors, framing of messages.
- `src/protocol.rs`, `src/ei/`, `src/eis/`: the interfaces of the protocol,
  their proxies, the messages each side sends and receives, and how they are
  parsed.
- `src/roundtrip.rs`: what one side sends, the other receives.
- `src/handshake.rs`: both sides of the handshake.
- `src/request.rs`: the server's high-level requests and its seats and
  devices.
- `src/event.rs`: the client's high-level events, seats and devices.
- `src/capability.rs`, `src/enums.rs`, `src/proto.rs`: capabilities, the
  protocol's enumerations, and the description of the protocol.
- `app/`: Unix sockets and descriptor passing, lock files, blocking loops,
  tokio streams, calloop sources, the XML reader of the protocol description
  and debug printing (`REIS_DEBUG`).

Messages a side queues are in its backend's write buffer until the caller
sends them; received bytes go into its read buffer, from which whole messages
are taken one at a time.
