# clawasm

The verified core of ClawWASM, a Godot 4 extension that runs WebAssembly
modules under the WasmEdge CLI and LLM inference under llama.cpp's
`llama-cli`, streaming their output into GDScript signals.

- `src/` — the library, proved with Verus:
  - `text.rs`: prefixes, decimal numbers, joining, trimming, lossy UTF-8
    decoding, Godot virtual-path resolution;
  - `engine.rs`: `Engine`, `Instance`, `Output`, `LlmConfig` — the command
    lines for probing, running and streaming, the Gemma 4 chat template, and
    how process outcomes become outputs or errors;
  - `events.rs`: runner events and the terminal event of a wait;
  - `nodes.rs`: the decisions of the `ClawEngine` and `CLLawM` Godot nodes —
    settings, start/generate, a failed llama-cli spawn, and per-frame
    event-to-signal translation;
  - `laws.rs`: laws of the nodes over frames and over whole runs (frames
    compose, the end of a run is its last signal, `inference_done` carries
    every token). The whole-run laws assume what the runner in `app/`
    delivers but Verus does not check: one terminal event per run, last.
- `app/` — processes, reader/waiter threads, the file system, the
  environment and the Godot classes, built on the library.
- `tests/` — tests of the library on concrete values.
