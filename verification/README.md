# addon

A cross-platform keyboard shortcut tool: one configuration file of key
bindings, a background daemon that installs them through a platform
adapter, and a GUI client that talks to the daemon over a local socket.

`src/` is the verified library (Verus): key stroke parsing and display,
configuration validation, conflict detection, key mapping, the IPC message
model, the authentication handshake, and the daemon's and the client's
decisions. `app/` is the program around it: the daemon's socket server and
main loop, file and JSON/YAML handling, the GUI commands, and the native
platform adapters. `tests/` exercises the library.
