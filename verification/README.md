# waydroid_tray

A system tray icon for Waydroid, split in two:

- `src/` is the library, verified with Verus: the session states and how
  D-Bus replies map to them, the config file format (parse and render, with
  a proof that saving and reading back gives the same settings), the
  launcher files and the sorted app list, the `waydroid` commands and when a
  failed run is reported, the idle timer, the menu model, the command-line
  flags, and the main loop's decisions as a state machine (`watch`).
- `app/` is the program around it: D-Bus through zbus, the tray host
  through ksni, processes and timers through tokio, files and the clock.

Modules: `text` (lines, trimming, searching, joining, on characters),
`state`, `config`, `settings`, `apps`, `command`, `idle`, `menu`, `flags`,
`watch`.
