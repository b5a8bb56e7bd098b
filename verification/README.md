# quicuts

The core of Quicuts, a keyboard-shortcut overlay: it shows the shortcuts
of the app in the foreground, read from PowerToys-Shortcut-Guide-style
YAML manifests, and is summoned by holding the Win/⌘ key or by a chord.
Everything that decides something is written in Verus and proved against
its contract.

- `src/` — the verified library:
  - `schema`, `parse`, `keys`, `model` — manifest documents normalized
    into the typed model; file names split into package id and locale.
  - `store`, `host` — the layered manifest store, foreground matching
    (exact, hosted, wildcard, background), title detection.
  - `page`, `pins`, `custom`, `combo`, `combo_laws` — page assembly,
    pins, user customizations and the combo-string codec with its round
    trip.
  - `rail`, `engine` — the overlay's view model for a foreground window.
  - `activation`, `macagent`, `winhook` — the agents' hold/chord state
    machines and the decisions around them.
  - `session`, `settings`, `proto` — the app's answers to agent events,
    settings defaults, the protocol messages.
  - `icon`, `appname`, `numfmt`, `text` — data URIs and base64, display
    names, number and string helpers.
- `app/` — a headless host: reads the manifest, settings, pin and
  customization files, runs an agent process over NDJSON and prints each
  overlay state as JSON.
- `tests/` — executable tests of the library.
