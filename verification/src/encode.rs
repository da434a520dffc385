//! Byte-level encodings used when a WebAssembly binary is rewritten:
//! unsigned LEB128 integers, length-prefixed byte strings, raw sections and
//! the 8-byte preambles of core modules and components.
use vstd::prelude::*;
use wasm_encoder::ComponentSectionId;
use wasm_encoder::Encode;
use wasm_encoder::RawSection;
use wasm_encoder::Section;

verus! {

/// Unsigned LEB128 encoding of `v`: seven bits per byte, least significant
/// group first, the high bit set on every byte but the last.
pub open spec fn leb128(v: nat) -> Seq<u8>
    decreases v,
{
    if v < 128 {
        seq![v as u8]
    } else {
        seq![(v % 128 + 128) as u8] + leb128(v / 128)
    }
}

/// A byte string as the binary format writes it: its length, then its bytes.
pub open spec fn length_prefixed(data: Seq<u8>) -> Seq<u8> {
    leb128(data.len()) + data
}

/// A section as the binary format writes it: its id, then its contents as a
/// length-prefixed byte string.
pub open spec fn encoded_section(id: u8, data: Seq<u8>) -> Seq<u8> {
    seq![id] + length_prefixed(data)
}

/// The preamble of every core WebAssembly module: magic number, version 1.
pub open spec fn core_module_preamble() -> Seq<u8> {
    seq![0x00u8, 0x61u8, 0x73u8, 0x6du8, 0x01u8, 0x00u8, 0x00u8, 0x00u8]
}

/// The preamble of every WebAssembly component: magic number, version 0xd, layer 1.
pub open spec fn component_preamble() -> Seq<u8> {
    seq![0x00u8, 0x61u8, 0x73u8, 0x6du8, 0x0du8, 0x00u8, 0x01u8, 0x00u8]
}

/// `wasm_encoder::Module::HEADER`, as a vector.
/// The constant in the crate's source holds the core module preamble.
#[verifier::external_body]
pub(crate) fn module_header() -> (res: Vec<u8>)
    ensures
        res@ == core_module_preamble(),
{
    wasm_encoder::Module::HEADER.to_vec()
}

/// `wasm_encoder::Component::HEADER`, as a vector.
/// The constant in the crate's source holds the component preamble.
#[verifier::external_body]
pub(crate) fn component_header() -> (res: Vec<u8>)
    ensures
        res@ == component_preamble(),
{
    wasm_encoder::Component::HEADER.to_vec()
}

/// `wasm_encoder::ComponentSectionId::CoreModule` as a byte: its declared
/// discriminant is 1.
#[verifier::external_body]
pub(crate) fn core_module_section_id() -> (res: u8)
    ensures
        res == 1,
{
    u8::from(ComponentSectionId::CoreModule)
}

/// `wasm_encoder::ComponentSectionId::Component` as a byte: its declared
/// discriminant is 4.
#[verifier::external_body]
pub(crate) fn component_section_id() -> (res: u8)
    ensures
        res == 4,
{
    u8::from(ComponentSectionId::Component)
}

/// `<[u8] as wasm_encoder::Encode>::encode`: appends the length of `data` as
/// an unsigned LEB128 `u32`, then the bytes of `data`. The crate asserts that
/// the length fits in a `u32`, so longer inputs are left out.
#[verifier::external_body]
pub(crate) fn encode_bytes(sink: &mut Vec<u8>, data: &[u8])
    requires
        data@.len() <= u32::MAX,
    ensures
        final(sink)@ == old(sink)@ + length_prefixed(data@),
{
    data.encode(sink)
}

/// `<wasm_encoder::RawSection as wasm_encoder::Section>::append_to`: appends
/// the section id, then `data` encoded as by `<[u8] as Encode>::encode`.
#[verifier::external_body]
pub(crate) fn append_raw_section(sink: &mut Vec<u8>, id: u8, data: &[u8])
    requires
        data@.len() <= u32::MAX,
    ensures
        final(sink)@ == old(sink)@ + encoded_section(id, data@),
{
    RawSection { id, data }.append_to(sink)
}

} // verus!
