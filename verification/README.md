# suffix

The verified core of `suffix`, the command-line client for suffix.org: saved
account profiles, shortcut and upload arguments, API routing and request
bodies, reading API replies, list output in text, XML and YAML, prompt
answers, and the browser login exchange.

- `src/` is the library, written in Verus. Each public function states its
  result in `ensures` over spec functions on sequence models of the
  data (`JsonValue` for API payloads, `AccountMap` for profiles kept in name
  order). `src/laws.rs` holds the properties that relate several operations.
  `src/trusted.rs` holds the few calls into `url`, `urlencoding`, `regex`,
  `rand` and std whose contracts are believed rather than proved.
- `app/` is the `suffix` binary: argument parsing with clap, the TOML
  configuration file, HTTP requests, the loopback login listener, terminal
  prompts and printing.
- `tests/` runs the library on concrete values.
