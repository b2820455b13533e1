# netdisk_monitor

The verified core of a desktop monitor for network and disk activity
(Windows and macOS): machine-wide upload/download and disk read/write
rates, totals over the current session, and a per-process list ordered by
disk activity.

`src/` is the library; every function carries a contract, proved together
with the laws the modules state:

- `metrics`: rates and session totals from successive cumulative counters.
- `collector`: per-process session baselines, uptime, exited processes that
  still count for the session, the activity order of the list, connection
  counts per process.
- `socket_table`: the owner column of a socket table as the OS returns it.
- `taskbar`: where the compact monitor and the shrunk task list go inside the
  Windows taskbar, and what to move back when the monitor leaves it.
- `dashboard`: the dashboard snapshot and the desktop overlay's settings.

`app/` is the desktop application around it: reading the OS (process table,
interfaces, socket tables, clock), the Win32 calls that move windows, the
Tauri windows, tray and commands, and serializable copies of the library's
types for the web front end.

`Cargo.toml` does not name `tauri` or `tauri-plugin-opener`, which
`app/monitor.rs` uses: they would more than double the dependency tree, and
on Linux they need the GTK/WebKit development libraries.  Add them back
(`tauri` with the `tray-icon` feature) to build `app/`.

Per-process network byte counts are not measured; the list shows each
process's open connections, and its network rates stay zero rather than
being estimated from the machine's totals.
