# tomato_monster

The verified core of a menu-bar focus timer (focus / break cycles, a daily
quota of extensions, statistics, tasks, streaks and badges, backup restore).

- `src/` — the library, verified with Verus:
  - `text.rs` — string equality and order, decimal rendering
  - `date.rs` — `YYYY-MM-DD` dates through `chrono` (trusted wrappers)
  - `date_map.rs` — a text-keyed map with unique keys and its model
  - `store.rs` — the persisted data and the model (view) of each type
  - `timer.rs` — the state machine and its specification
  - `backup.rs` — restoring a backup, all or nothing; what an export carries
  - `audio.rs` — when the white noise starts and stops; the command channel
  - `laws.rs` — properties that hold across operations
- `tests/` — tests of the library
- `app/` — the application around it: JSON persistence and serde forms of
  the library's types, the clock and environment, audio output (rodio) and
  the window shell (tauri)
