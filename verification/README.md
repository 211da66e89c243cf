# x11anywhere

A portable X11 server core, written in Verus: the wire protocol, the resource
tracker, the security policy and the display backend interface, each with
contracts that Verus proves.

## Layout

- `src/protocol/` — the X11 wire protocol: integers on the wire, request parsing,
  the connection setup, replies, events and errors, with proofs that what is
  written reads back.
- `src/resources/` — which client owns which window, pixmap, GC and atom.
- `src/security/` — the security policies.
- `src/backend/` — the backend interface (`traits`), the null backend, and the
  decisions of the X11, Windows and macOS backends: the X11 requests and the
  reading of the X server's replies, the X11 session state, the Win32 message
  translation and the macOS event conversion.
- `src/cli.rs` — the command line and the choice of a backend.
- `tests/` — tests of the library.
- `app/` — the program: argument handling, logging, sockets, files and the X11
  backend's connection to a real X server.
