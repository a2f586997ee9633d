# stomp_rs

A STOMP 1.2 client library whose protocol logic is verified with Verus.

`src/` is the verified library:

- `protocol::command` — client and server commands and their names on the wire.
- `protocol::headers` — frame headers: distinct names kept in the order first set; the
  association-list model (`pairs_insert`, `pairs_get`, `pairs_remove`) and its laws.
- `protocol::message` — frames, messages and their exact wire form (`frame_bytes`).
- `protocol::parser` — the incremental frame parser, specified byte by byte (`step`, `run`).
- `protocol::laws` — reading is independent of chunking; frames read back exactly as sent.
- `protocol::frame` — builders for every client frame.
- `protocol::text` — white-space trimming, UTF-8 decoding and the UTF-8 facts the laws use.
- `client` — the CONNECT frame and the answer to it, receipted frames, transactions, the
  connection and listener state machines, and the registries of receipts and subscribers.
- `ids` — random version 4 UUIDs, through the `uuid` crate.

`app/` is the asynchronous client on `tokio`: TCP I/O, tasks and channels, driving the
library's state machines.
