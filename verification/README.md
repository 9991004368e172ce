# maki

The decisions behind a coding agent's terminal UI, verified with Verus: when to ask
a model for help with a draft and what to make of its answer, how prompts are edited,
how models and reasoning levels are picked, how providers are measured and routed,
when a broken stream is tried again, and how plugins reach the sessions.

- `src/` is the library. Every function states what it does over plain mathematical
  models (`Seq<char>` for text, one state struct per component); the `law_*` proof
  functions state what holds across calls.
  - `text`, `text_buffer`, `input_box`, `key`, `styled`, `number`, `time`: text,
    keys, lines with meaning, numbers and time as plain values.
  - `app/`: completions, rewrites and suggestions.
  - `components/`: the prompt editor, the pickers, the status line, the panel of
    suggestions.
  - `providers/`, `registry`, `models`: stats, routing, what is known of models.
  - `agent/`, `session`: streams with retries, requests of plugins.
- `tests/` runs the library.
- `app/` is ordinary Rust around it: the terminal, the clock, tasks, Lua and files.

What is trusted: `String::push` (`src/text.rs`), the channels of flume
(`src/channel.rs`), the shared list of models in arc-swap
(`src/components/model_picker.rs`) and objects of serde_json
(`src/providers/routing.rs`).
