# wasmito

Tools for WebAssembly binaries, verified with Verus:

- `module`: a binary with DWARF debugging information (built from text with
  `Module::from_wat`), the source location of a code address
  (`Module::addr2line`), the source locations of the whole code section
  (`Module::mappings`) and the source files (`Module::files`).
- `strip`: removing custom sections (`Config::strip`), either all of them,
  those whose name a pattern matches, or all but those that toolchains need.

The outside crates that read and write the binary format (`wasmparser`,
`wasm-encoder`, `wat`, `wasm-tools`, `addr2line`, `regex`) are called through
small trusted functions in `payload`, `encode`, `wasm_text`, `dwarf` and
`patterns`; everything around them is proved against its contract.

`app/` holds the JavaScript bindings (`wasm-bindgen`) and the error types
that carry `Display`.
