# codex_companion

Companion tooling for Codex sessions, with its core logic verified by Verus.

- `src/` is the verified library: Markdown export of session rollouts with
  secret redaction, project memory keys, the local hub's persistent state
  (pairing, devices, LAN settings, pinned prompts) and its request handling,
  start/stop/status decisions, the `codex hub` command's reports, and the
  Windows toast notification fallback. `src/laws.rs` states the properties
  that span several functions.
- `app/` is the plain Rust around it: file and network I/O, the HTTP and
  WebSocket server, process spawning, the command-line parser, and the
  Windows-only COM, WinRT and GDI calls.
- `tests/` runs the library on concrete inputs.
