//! The stream of payloads that `wasmparser` reads from a WebAssembly binary,
//! held as plain values: what each payload is, and where its section lies.
use vstd::prelude::*;
use wasmparser::BinaryReaderError;
use wasmparser::Encoding;
use wasmparser::Parser;
use wasmparser::Payload::{
    CodeSectionStart, ComponentSection, CustomSection, End, ModuleSection, Version,
};

verus! {

use PayloadKind::{CodeStart, ComponentHeader, Custom, Finish, ModuleHeader, Nested, Other};

#[verifier::external_type_specification]
#[verifier::external_body]
pub struct ExBinaryReaderError(BinaryReaderError);

/// What a payload of the stream is, as far as this library looks into it.
#[derive(Debug)]
pub enum PayloadKind {
    /// The preamble of a core module.
    ModuleHeader,
    /// The preamble of a component.
    ComponentHeader,
    /// A nested module or component starts; its payloads follow.
    Nested,
    /// The module or component that was read last ends.
    Finish,
    /// A custom section with its name.
    Custom(String),
    /// The code section starts at byte `start` and holds `size` more bytes.
    CodeStart(u64, u32),
    /// Any other payload.
    Other,
}

/// One payload: its kind, and the section that it stands for, if any, as
/// the section id and the byte range `start..end` of the section's contents.
#[derive(Debug)]
pub struct Payload {
    pub kind: PayloadKind,
    pub section: Option<(u8, u64, u64)>,
}

/// The payloads that `wasmparser::Parser::new(0).parse_all` yields for
/// `input`, in order, up to its first error, and that error's message and
/// `Display` text, where it yielded one.
pub uninterp spec fn wasm_payload_stream(input: Seq<u8>) -> (Seq<Payload>, Option<(Seq<char>, Seq<char>)>);

/// The message of a `wasmparser::BinaryReaderError`.
pub uninterp spec fn reader_message(e: BinaryReaderError) -> Seq<char>;

/// The `Display` text of a `wasmparser::BinaryReaderError`: its message and
/// the offset it names.
pub uninterp spec fn reader_display(e: BinaryReaderError) -> Seq<char>;

/// `wasmparser::Parser::new(0).parse_all(input)`, each payload converted to
/// a `Payload`, up to the first error, which is handed back as it came.
/// The result is named by `wasm_payload_stream`, the error's texts by
/// `reader_message` and `reader_display`. Beside that, the contract
/// states one fact of the source: a code section starts at a position of the
/// input, which a slice keeps below `isize::MAX`.
#[verifier::external_body]
pub(crate) fn read_payloads(input: &[u8]) -> (res: (Vec<Payload>, Option<BinaryReaderError>))
    ensures
        wasm_payload_stream(input@).0 == res.0@,
        match res.1 {
            None => wasm_payload_stream(input@).1 is None,
            Some(e) => wasm_payload_stream(input@).1 == Some((reader_message(e), reader_display(e))),
        },
        forall|i: int|
            0 <= i < res.0.len() ==> (#[trigger] res.0[i].kind matches PayloadKind::CodeStart(
                start,
                _,
            ) ==> start < 0x8000_0000_0000_0000u64),
{
    let mut found = Vec::new();
    for item in Parser::new(0).parse_all(input) {
        let p = match item { Ok(p) => p, Err(e) => return (found, Some(e)) };
        let kind = match &p {
            Version { encoding: Encoding::Module, .. } => ModuleHeader,
            Version { .. } => ComponentHeader,
            ModuleSection { .. } | ComponentSection { .. } => Nested,
            End(_) => Finish,
            CustomSection(c) => Custom(c.name().to_string()),
            CodeSectionStart { unchecked_range, size, .. } => CodeStart(unchecked_range.start, *size),
            _ => Other,
        };
        found.push(Payload { kind, section: p.as_section().map(|(id, r)| (id, r.start, r.end)) });
    }
    (found, None)
}

/// `wasmparser::BinaryReaderError::message`, as an owned string.
#[verifier::external_body]
pub(crate) fn reader_error_message(e: &BinaryReaderError) -> (res: String)
    ensures
        res@ == reader_message(*e),
{
    e.message().to_string()
}

/// `BinaryReaderError`'s `Display` text: the message and the offset it names.
#[verifier::external_body]
pub(crate) fn reader_error_text(e: &BinaryReaderError) -> (res: String)
    ensures
        res@ == reader_display(*e),
{
    e.to_string()
}

/// The first code section of a payload stream, as its start offset and size.
pub open spec fn first_code_section(payloads: Seq<Payload>) -> Option<(u64, u32)>
    decreases payloads.len(),
{
    if payloads.len() == 0 {
        None
    } else {
        match payloads[0].kind {
            PayloadKind::CodeStart(start, size) => Some((start, size)),
            _ => first_code_section(payloads.drop_first()),
        }
    }
}

/// Finds the first payload that starts a code section, returning its start
/// offset and size.
pub fn find_code_section(payloads: &Vec<Payload>) -> (res: Option<(u64, u32)>)
    ensures
        res == first_code_section(payloads@),
{
    let mut i: usize = 0;
    assert(payloads@.skip(0) =~= payloads@);
    while i < payloads.len()
        invariant
            i <= payloads.len(),
            first_code_section(payloads@) == first_code_section(payloads@.skip(i as int)),
        decreases payloads.len() - i,
    {
        assert(payloads@.skip(i as int).drop_first() =~= payloads@.skip(i + 1));
        if let PayloadKind::CodeStart(start, size) = &payloads[i].kind {
            return Some((*start, *size));
        }
        i = i + 1;
    }
    None
}

} // verus!
