# jiri

A peer-to-peer chat and file-sharing node, verified with Verus.

- `src/p2p/` — the node's decision state (`core_state`): which files it provides, which
  provider announcements, lookups and file requests it awaits, and how it answers each
  command and network event; the file-exchange wire format (`file_exchange`); listen
  addresses (`listen`).
- `src/node/` — the same decisions for the chat node that keeps provided files on disk.
- `src/ui/` — the state of the chat windows: the log, the connection flag, the typed text.
- `src/wasm/` — how the in-browser node answers its network events.
- `src/api/` — what the HTTP and websocket API make of requests and node events.
- `app/` — the program: the libp2p swarm, channels, HTTP server and files, driving the
  library and carrying out what it decides.
