# mlxtop

The verified core of a terminal dashboard for local model servers, and the thin layer
that connects it to the machine.

- `src/` is the library. It reads what servers and clients tell of their requests
  (`providers`, `kobold`, `llama`, `usage_file`, `adapter`), keeps bounded histories
  (`request_dashboard`, `operator_charts`), and works out what the panels show
  (`prompt_panel`, `operator_charts`, `process_memory`). Its functions are verified with
  Verus against contracts over plain models, but for a few wrappers round `serde_json` and
  `std`, whose doc comments say what is taken on trust. `laws` holds what is true of the
  functions together.
- `app/` holds the clocks, the environment, files, the network, the operating system's
  counters, floating-point wording and the terminal.
- `tests/` runs the library on concrete values.

Lines of text come as pieces (`phrase`): words, and quantities that `app/` puts into words.
Rates and uptimes are held as the bits of doubles. Times are plain numbers that the caller
reads from its clocks. What `serde_json` and `str::parse` read is named, not described:
see `json_document`, `json_tree` and `parsed_bits`.
