# llama_launcher

A desktop launcher for llama.cpp's `llama-server`: it keeps the server's settings and
presets, finds the executables and the GGUF models, estimates how much graphics memory the
KV cache can have, builds the server's command line and follows its output.

The decisions are made by a library verified with Verus; the window, the files and the
processes are ordinary Rust around it.

- `src/text.rs`: text primitives with their meanings (white space, searching, decimal
  numbers, lowercase, lines, a stable sort by character order and the proof that it sorts).
- `src/settings.rs`: GPU layer modes, presets, parameter export, defaults, and the search
  for the `llama-server` and `rpc-server` executables.
- `src/kv_cache.rs`: the free memory reported by `llama-server --list-devices`, the model
  dimensions read from a GGUF header, and the KV cache arithmetic.
- `src/server.rs`: log levels, the bounded log, the server's arguments and its states.
- `src/models.rs`: the model browser: tags of file names, the three file lists, the model
  folder.
- `src/desktop.rs`: the web client address, the shortcut name and the autostart entry.
- `tests/`: tests of the library.
- `app/`: the egui window, the settings file, the server process and the system calls.
