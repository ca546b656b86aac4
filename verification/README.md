# zellij-pane-manager

A headless [Zellij](https://zellij.dev) plugin that gives one-keybind access to
named floating panes. A keybind sends a `toggle` message with the name of a
pane: the first press shows the pane, the next one hides the floating layer.

- `src/` is the decision logic, verified with Verus. `state` holds the state
  machine; `model` says what each of its steps does, as mathematics; `laws`
  proves what holds across steps. `config` reads the list of managed panes,
  `pane` looks panes up in what Zellij reports, `host` describes events and
  calls, and `names` is a small map keyed by name.
- `app/` is the plugin proper: it passes events on to the library and carries
  out the calls that come back.
- `tests/` runs the library on concrete cases.

The managed panes are listed under `pane_0_name`, `pane_1_name` and so on in the
plugin's configuration; the list ends at the first missing number.
