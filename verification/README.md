# codex_usage_overlay

A desktop overlay that shows how much of the Codex allowance is left. It talks to the
installed Codex CLI through its `app-server` JSON-RPC interface over stdio and shows, per
quota window, the share remaining, the reset time, token activity and credits.

The project is written in Verus:

- `src/` is the verified library. Every decision of the overlay stands there with a
  contract: building the usage snapshot from the app-server's responses (`model`), exact
  percentages (`percent`), checkpoint notifications (`checkpoint`), settings and their
  normalisation (`settings`, `commands`), error texts and back-off (`errors`), the
  JSON-RPC messages, their decoding and encoding (`protocol`, `json`), the table of
  pending requests (`protocol`), the connection
  supervisor (`supervisor`), what each refresh outcome does to the shown state (`runtime`),
  where the Codex executable is looked for (`discovery`) and where the window is placed
  (`placement`). Public proof functions named `law_*` state properties that hold across
  calls.
- `app/` is the Tauri shell: the window, the tray, the child process, the settings file
  and the clock, all of which it hands to the library as plain values, and the
  serialisable copies of the library's types that the webview receives.
- `tests/` runs the library on concrete cases.
