# hbbs

The relay server of a remote desktop service and its registry of peers, with the logic proved in
Verus.

- `src/text.rs`: fields, pieces and decimal numbers.
- `src/relay_server.rs` and `src/relay_server/`: the state of the server; its parameters, its
  commands, its table of usage, the pairing of the two sides of a relay, the course of a relay
  session, and the server's key.
- `src/peer.rs`: a peer's registration of its key, and the peers in memory.
- `src/database.rs`: the statements on the table of peers, and the decisions around them.
- `src/jwt.rs`: tokens that name a user for a limited time.
- `app/`: sockets, the clock, the environment, SQLite and floating-point numbers.

Functions marked `external_body`, and `assume_specification` items, are trusted: each names the
outside function that it speaks of.
