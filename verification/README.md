# recall

Recall keeps a history of the system clipboard: it polls the clipboard,
records new text and images in SQLite, and lets the user search, pin,
delete and copy back clips, optionally transformed (upper or lower case,
markup removed, typographic quotes made plain, tracking parameters removed
from links).

## Layout

- `src/` is the library, written in Verus and verified. Each public function
  states its result in its contract; the laws of the library (deduplication
  by the clipboard watcher, the writer's batching that loses and reorders
  nothing, the round trips of identifiers and hashes, the escaping of search
  terms and what they match under SQLite's `LIKE`) are public proof
  functions whose names begin with `law_`.
  - `clipboard`: turning clipboard text and images into content, and the
    watcher's decisions between polls.
  - `writer`: the batching of the event writer and the edges between events.
  - `classification`, `clipboard_format`: what a clip looks like, and the
    forms it can be copied in.
  - `query`, `record`, `service`, `tray`: the SQL and rows of the store, and
    the decisions of the event service and of the tray menu.
  - `config`, `events`, `error`, `class`: configuration and domain types.
  - `text`, `digits`: characters, words, lines, decimal and hexadecimal numbers.
- `app/` is the application around it: SQLite storage (rusqlite), the writer
  task and its queue (tokio), the polling thread (arboard), the command
  handlers and the serialized forms of the library's types (serde).
- `tests/` exercises the library on concrete values.

Calls into outside crates (regex, url, image, base64, xxhash-rust, uuid,
chrono, serde_json) stand in `src/` behind small trusted functions whose
contracts state, or name, what the crate returns.
