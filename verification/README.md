# intranet_share

A LAN file-sharing tool: peers find each other with mDNS, a sender asks a
receiver whether it accepts a set of files, then streams them chunk by chunk
over TCP, each chunk carrying the BLAKE3 digest of its payload.

`src/` is the verified library:

- `text` — decimal numbers, IPv4 addresses and the joins used as socket
  addresses, progress keys and host names.
- `models`, `disc::models`, `transfer::models` — the records shown to the user
  and the messages exchanged on the wire.
- `transfer::codec` — newline framing of messages and the line buffer that
  reads them back.
- `transfer::chunk` — digest text of a payload, making and checking chunks.
- `transfer::sender`, `transfer::receiver` — the decisions of the two sides of
  a session.
- `transfer::jobs` — the running sending jobs.
- `state` — the state the user edits (peers, queued files, progress) and what
  every command and worker event does to it.
- `asks` — transfer requests waiting for the user's answer.
- `disc::discover` — the names under which the tool announces itself.

`app/` is the desktop program around it: the tauri window and commands,
sockets, files, mDNS, and the tokio tasks that run the workers.
