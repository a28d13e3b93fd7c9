# Gingify

A memory manager for the tray of Windows. It watches which processes sit idle,
trims their working sets when memory runs short, freezes background services on
demand, and keeps a record of what it did.

- `src/` is the library: every rule and every decision, on plain values, with its
  contract proved by Verus.
  - `state/`: the live data and the user's settings.
  - `engine/`: polling, idle times, trimming, suspending, profiles, bloat
    services, icons, notifications, updates.
  - `commands/`: the requests of the user interface.
  - `shell.rs`: start-up, tray, windows, logs, shutdown.
  - `json.rs`, `text.rs`: helpers.
- `tests/` runs the library on concrete values.
- `app/` is the program: calls into Windows, files, the network, the tray and the
  windows. Building it for Windows takes `tauri` 2 and `tauri-plugin-shell` 2
  besides the crates in `Cargo.toml`, and the tray icon in `icons/32x32.png`.

Where an operation alternates between the operating system and decisions, the
library holds a small machine. It takes what came of the last action and says what
to do next. `app/` carries the actions out.

Sizes are kept in bytes and processor time in ticks. `app/` turns them into the
megabytes and percentages that are shown.
