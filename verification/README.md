# unity_mirror_rs

A server for games that speak the Mirror networking protocol, with its core
written in Verus and proved against its contracts.

## Layout

- `src/` is the verified library.
  - The wire format: `le_bytes`, `blittable`, `compress`, `network_writer`,
    `network_reader`, `stable_hash`, `quaternion_bits`, with the read-back
    laws in `wire_laws`.
  - The messages: `message`, `message_types`, `spawn_message`, `transport`,
    and how they travel in batches: `batching`.
  - The server's state and decisions: `network_server` (connections,
    handlers, spawning, ownership, observers, broadcast), `network_connection`,
    `network_identity`, `network_behaviour`, `behaviour_object`,
    `remote_calls`, `network_loop`, and its laws in `server_laws`.
  - Synchronised lists: `sync_list`, with the laws of what the other side
    rebuilds in `sync_list_laws`.
  - The managers: `network_manager` and `network_room_manager`.
  - Reusable writers and readers: `network_writer_pool`, `network_reader_pool`.
- `app/` runs the server: the KCP transport, the clocks and their
  floating-point statistics, rotation compression, a status page over HTTP,
  the driver that feeds the transport's events to the library and performs
  the actions that the library returns, with per-connection batching, and the
  driver of the network and room managers.
- `tests/` exercises the library on concrete values.

The library does no I/O. Each operation that would touch the network, the
world or the application appends a `ServerAction` to a list; the driver in
`app/` performs them in order.
