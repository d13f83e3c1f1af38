# Light for All Agent — verified core

A floating desktop status light for AI agents. An agent reports its state
over HTTP (`POST /status` on `127.0.0.1:37421` with
`{"mode": "...", "message": "..."}`); the light shows it in one of four
colours (`idle`, `working`, `waiting`, `error`), and `GET /status` reads it
back.

Layout:

- `src/` — the library, written in Verus and verified:
  - `status.rs` — modes, orientation, the light state and settings, and
    how a report and an orientation change update them;
  - `http.rs` — the request line and its route, reading a request body
    chunk by chunk, the replies and their HTTP framing;
  - `window.rs` — the window's size on a monitor, snapping to the
    monitor's edges, and the debounce of snaps while it is dragged;
  - `menu.rs` — the context menu and what its items do;
  - `autostart.rs` — the registry change that start-up with the system
    needs, and its error messages;
  - `text.rs` — whitespace, ASCII case, trimming and decimal numbers.
- `app/main.rs` — the Tauri program around it: window, sockets, the
  settings file, the Windows registry and JSON output.
- `tests/` — tests of the library on concrete values.
