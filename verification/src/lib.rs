//! Source mapping and custom-section stripping for WebAssembly binaries.
pub mod encode;
pub mod payload;
pub mod patterns;
pub mod text;
pub mod strip;
pub mod error;
pub mod wasm_text;
pub mod dwarf;
pub mod module;
