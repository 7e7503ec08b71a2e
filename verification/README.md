# gmodpatchtool (status window and IPC link)

The patch tool runs its work in a terminal inside a small status window; the
worker reports its status and progress to the window over a local IPC link.

- `src/codec.rs`: length-prefixed frames (a little-endian `u32` length, then
  the payload): built for writing, and taken off a `BytesMut` stream buffer
  when read, with the round-trip and chunking laws of the format.
- `src/gui.rs`: the window's state and what it does on each event, and the
  command line of the program the terminal runs.
- `src/ipc.rs`: the socket and pipe names of the link, the client's connect
  decisions, and the window's listener step.
- `app/`: the async I/O (tokio), the bitcode step on each payload, and the
  iced window around the library.
