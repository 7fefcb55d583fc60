# witness_tools

Tools around execution witnesses of Ethereum blocks. A *fixture* is a block with its witness and
chain configuration, as a JSON file.

- `generate` makes fixtures, from an RPC endpoint, the execution specification tests or raw inputs.
  A run over an endpoint can be resumed, times the witness calls and can keep metrics as CSV.
- `scan` reports which fixtures lack the root node of the state trie.
- `serve` validates fixtures over HTTP.

## Layout

- `src/` is the library: what is decided and computed, but for floating point, with contracts that
  Verus proves. `src/outside.rs` holds what is believed of other crates without proof, beside
  `String::push` in `src/text.rs`. The public proof functions state what holds of the library as a
  whole.
- `tests/` runs the library on concrete values.
- `app/` is the program: command line, files, network, the JSON of fixtures and answers, and
  floating point. It also needs crates that `Cargo.toml` does not name: `jsonrpsee`, for the
  connection to the endpoint, and what comes from repositories of its own: `witness-generator`,
  `stateless`, the `ere-guests` crates and the `reth` crates.
