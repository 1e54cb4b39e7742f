# pc-bridge

The logic of an agent that connects a desktop computer to Home Assistant over
MQTT, verified with [Verus](https://github.com/verus-lang/verus).

- `src/` is the library. Every function states in its contract what it returns;
  Verus proves it. Public functions named `law_...` state what holds across
  functions: that a refused raw command never runs, that a broker reads back the
  packet that was built, that a reload leaves unchanged modules alone, that no
  configuration file is ever torn.
- `tests/` runs the library on concrete values, with the crates that it calls.
- `app/` is the program around it: sockets, files, processes, D-Bus, X11, Wayland
  and the Windows interface. It performs what the library decides.

What the library believes without proof are the contracts of the few functions of
`serde_json`, `base64` and the standard library that it calls. They stand in
`src/json.rs`, `src/credential.rs` and `src/text.rs`.
