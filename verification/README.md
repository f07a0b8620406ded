# sacode_cli

The command-line side of SaCode, a terminal-first AI programming tool, as a
library whose behaviour is stated in contracts and proved with Verus.

- `src/` is the verified library: the persistent task list, the provider,
  plugin and profile catalogs, the learning extractor, the command palette
  and key bindings, the question dialog, the task queue and loop tasks, the
  run reports, the REPL commands and the other decisions of the interface.
  Each module states what its functions return over mathematical models
  (`Seq`, `Map`, views of the data types); the laws that tie several
  operations together are public proof functions whose names start with
  `law_`.
- `tests/` runs the library on concrete values.
- `app/` is the ordinary Rust around it: reading and writing the JSON files,
  running `git`, reading the JSON that task runs print, and the prompts of
  the REPL.

Verify with Verus; the library calls `unicode-width` (display widths) and a
few std functions (the system clock, `String::push`, `str::to_lowercase`)
through small trusted wrappers, and `app/` uses `chrono` (the local time
that stamps tasks), `serde`, `serde_json` and `anyhow`.
