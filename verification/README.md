# server_monitor

The logic of a server monitor window, verified with Verus.

- `src/` — the verified library:
  - `messages` — message kinds, `Variant` values with their display text, `MsgPayload`, `SrvMsg`;
  - `datetime` — `MsgDateTime` (a valid local date and time), reading the clock and formatting through chrono;
  - `config` — the text of the configuration file, written and read back, with its round-trip law;
  - `text`, `labels`, `paths`, `tables` — decimal text, the table labels, file names of chosen paths, rows and cells;
  - `projects`, `settings`, `logs`, `servers`, `window` — what each action of the window does to its tables and configuration, with the laws that tie these actions together.
- `app/` — the window itself (Slint UI, file dialogs, tray icon), reading and writing the configuration file, and process-wide message counters; it calls the library for every decision.
- `tests/` — tests of the library on concrete values.
