# RadiAll

A radial (pie-wheel) app launcher, window switcher and per-window action
menu. One binary is both the daemon and the control CLI (`radiall --apps`,
`--windows`, `--actions`, `--settings`, `--start`, `--stop`, …), so any
compositor or desktop can bind keys to it.

## Layout

- `src/` — the library, verified with Verus: the rings (which slices each
  ring holds and in what order, window choice and cycling, action templates
  and their filtering, what activating a slice does), the launcher's
  open/close/pointer state machine, title cleaning and truncation, colours
  and how a theme's keys overlay the built-in skin,
  key-combo parsing and every shortcut provider's bindings (Hyprland binds
  and their reconcile plans, XDG portal triggers, X11 key grabs, Win32
  hotkeys), the compositor adapters' decisions (Hyprland events and
  requests, wlr-foreign-toplevel and KDE Plasma window records, X11/EWMH
  client listing, Win32 window rules), the control protocol and CLI, the
  app/icon indexes and the settings editor's edits.
- `tests/` — tests of the library on concrete values.
- `app/` — the program around it: `main`, the socket/pipe transport, the
  JSON files (settings, apps, theme files and their `extends` chains), and
  the I/O of the compositor adapters and shortcut providers. The daemon is
  headless: it keeps the rings, shortcuts and theme up to date and logs
  them, but draws no wheel, settings window or tray.

Settings live in `~/.config/radiall/` (`settings.json`, `apps.json`,
`themes/`); Hyprland binds go to `~/.config/hypr/launcher-binds.conf`.
