# twitch-overlay

A transparent GTK4/WebKitGTK overlay for Wayland layer-shell compositors,
controlled over a local socket.

- `src/` — the verified library (Verus):
  - `config.rs`: the settings model, the built-in defaults, and the choice
    between parsed settings and defaults when loading.
  - `app_state.rs`: the runtime click-through state and what each control
    command does to it and to the window.
  - `ipc.rs`: the control protocol — trimming and recognizing a received
    line, deciding what is forwarded, and the reply text.
  - `layer_shell_setup.rs`: the layer-shell placement of the window and the
    pointer input region for a click-through value.
- `app/` — the program around it: config file I/O (serde/toml), the socket
  listener, and the GTK window.
- `tests/` — tests of the library.
