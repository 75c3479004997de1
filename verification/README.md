# qr_paste

A phone sends text and files to a PC through a relay server: the PC shows a code, the phone scans it
and opens a page, and what is typed or chosen there arrives on the PC's clipboard or disk.

The decisions of the server and of the PC client are a library whose behaviour is stated in contracts
and proved. It reads no clock, opens no file and no socket: whoever calls it hands over readings,
bytes and numbers of channels, and does what it is told.

- `src/server`: pairings and their secrets, browser sessions, tickets, the phone's connection, the PC's
  sessions, uploads and their limits, and what survives a restart. `web_laws.rs` and `upload_laws.rs`
  state what holds of all of them together.
- `src/client`: where the client connects to and how it stays connected, what it does with text and
  files, the state behind its window, and its pictures.
- `src/text.rs`, `src/names.rs`, `src/net.rs`, `src/ids.rs`, `src/digest.rs`, `src/table.rs`: text, file
  names, addresses, identifiers, digests and tables. The calls into other crates stand here, each with
  the contract that is relied on.
- `tests`: the library from outside, on concrete values.
- `app`: the programs around the library. `qr_paste server` reads `server.toml`; `qr_paste client`
  reads `client.toml` and has its window on Windows.
