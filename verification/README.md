# warp_common

Shared building blocks of a terminal application, verified with Verus.

- `src/cloud_object.rs` – the catalogue of cloud object types, their names
  and their SQLite tags.
- `src/ids.rs` – server ids, client ids, folder and generic string object
  ids, sync ids and their SQLite hashes.
- `src/ipc.rs` – IPC requests and responses, socket addresses, and the
  framing of messages (8-byte big-endian length, then the payload).
- `src/natural_language.rs` – the heuristics that tell natural language from
  shell input.
- `src/watcher.rs` – merging raw file-system notifications into one batch of
  net changes.
- `src/path_table.rs`, `src/text.rs`, `src/uuid_text.rs` – path sets and
  maps, character-level string helpers, UUID text.

`app/` holds what the library does not: serde forms of its types, async
message I/O with bincode, and the conversion of `notify` events.
