# paymoncoin

Peer bookkeeping and wire framing for a node of the network.

- `src/addr.rs`: `PeerAddr`, a peer's socket address as plain values.
- `src/neighbor.rs`: `Neighbor`, a peer with its optional send and receive
  replicators, and the framing of serialized packets (`prepare_data`,
  `send_packet`).
- `src/frame.rs`: the frame format as spec functions, and the byte writers.
- `src/laws.rs`: what every frame guarantees a receiver.
- `app/`: socket, channel and formatting glue around the library.
