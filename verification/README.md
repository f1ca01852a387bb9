# mantle_core

The verified core of a toolkit for services that run on a blockchain, written in
Verus: every function in `src/` carries a contract that Verus proves.

- **Blockchain file system** (`bcfs`, `file`, `path`, `wasi`, `log`, `address`,
  `blockchain`, `fs_laws`): a WASI-style file system whose files are the service's
  storage, its input and output, the chain's log, and other accounts' balances and
  code. `fs_laws` states what holds across its operations (what a read gives back of
  a write, what closing a descriptor does, and so on).
- **Ethereum ABI derivation** (`abi_args`, `abi_items`, `abi_json`, `abi_gen`): turns a
  contract interface trait into its functions and events with their selectors, its
  JSON ABI, and what its endpoint dispatches and its client sends, down to how a
  payload is read and which calls refuse value.
- **Contract definitions** (`contract_def`): finds the one `#[derive(Contract)]` struct
  and its `impl` blocks.
- **Build analysis** (`syntax_pass`, `collectors`, `defined_types`, `idl`,
  `mantle_build`, `build_plugin`, `import_gen`): checks a service's RPC methods,
  collects the types they reach and the events the service emits, converts them
  into the service's interface description, and gives the Rust text of the types
  that clients of imported services use.

`tests/` exercises the library through its public interface. `app/` holds the
ordinary Rust around it: the C-style interface of the file system, writing a JSON ABI
to disk, and rendering token streams from what the library decides. The compiler
driver and the edits of the compiler's syntax tree (inserting the generated dispatcher
into a service's crate) are not part of this crate.
