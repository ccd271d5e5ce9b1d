# ionconnect

Keyboard, mouse and clipboard sharing between machines on a LAN, with the
decision-making core written in Verus and proved against its contracts.

## Layout

- `src/` — the verified library.
  - `screen`, `handoff`, `server`, `display`: screen geometry, the layout of
    neighbouring machines, edge crossing and hand-off of control.
  - `session`, `client`, `held`, `key_repeat`: the capture/forwarding state
    machine, injection planning, de-duplication of held keys and buttons,
    and key auto-repeat.
  - `x11`, `wayland`, `win32`, `input`: what each platform's events mean and
    what to send to inject them.
  - `crypto`, `trust_store`, `peer_id`, `ipc`, `hex`, `decimal`: SHA-256
    fingerprints, trust-on-first-use decisions, the trust file, device ids,
    the local IPC token and endpoint file.
  - `protocol`: the session's first message and what the server does
    with each message from a peer (clipboard, desktop size, disconnect).
  - `routing`, `file_transfer`, `clipboard`, `monitor`, `gui`, `text`,
    `config`: per-peer channels, file-transfer names and bookkeeping,
    clipboard echo suppression, the GUI's log monitor and settings.
- `tests/` — tests of the library's public behaviour.
- `app/` — the service binary: settings file, trust and endpoint files,
  loopback sockets, X11 connections, file I/O and signal handling.

Calls into `sha2`, `rand` and `tokio`'s channels are made from the library
through a few trusted wrappers whose contracts state what those crates
document; everything else in `src/` is proved.
