[package]
name = "wasmito"
version = "0.1.0"
edition = "2021"
publish = false

[dependencies]
wat = { version = "=1.263.0", features = ["dwarf"] }
wasmparser = "=0.263.0"
wasm-encoder = "=0.263.0"
wasm-tools = { version = "=1.263.0", default-features = false, features = ["addr2line"] }
addr2line = "=0.27.1"
anyhow = "=1.0.104"
regex = "=1.13.1"
thiserror = "=2.0.21"
wasm-bindgen = "=0.2.130"
