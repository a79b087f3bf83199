# sps_runtime

The deterministic core of an SPS agent node, written in Verus: the event state and its
reducers, replay and snapshots, clocks, schedulers and registries, the agents' bus, and the
text that the agents exchange with shell commands and language models. Every function in
`src/` carries a contract that Verus proves.

- `src/` — the verified library. Outside crates (`uuid`, `serde_json`, `base64`,
  `ed25519-dalek`, `rand_core`) are called through small trusted wrappers whose contracts
  are stated next to them.
- `tests/` — tests of the library on concrete values.
- `app/` — the node program: configuration, threads, sockets, HTTP endpoints, SQLite
  memory, floating-point scores and everything else that performs input and output around
  the library.

Model calls are passed to the library as closures (`Fn(&str) -> String`), so the contracts
state which request each reply answers.
