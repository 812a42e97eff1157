# bm1_server

The core of a small TCP game server, verified with Verus.

- `src/` is the library. `model` holds the player record and its abstract
  view; `keyed` the keyed lists (money, items, skills, equipment) and their
  lemmas; `player` and `player_pool` the operations on records; `delta` the
  snapshot diff that keeps a client's cached record in step; `session`,
  `router`, `handler` and `server` the session bookkeeping, command routing,
  request handlers and the per-message decisions of a connection; `codec` the
  length-prefixed framing; `text` the texts sent back.
- `app/` is the program around it: the tokio listener and connections,
  protobuf encoding with prost, and the interactive client
  (`bm1_server client`).
- `tests/` exercises the library.
