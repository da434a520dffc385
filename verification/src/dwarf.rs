//! The DWARF debugging information of a WebAssembly binary, read by
//! `wasm-tools` and searched by `addr2line`.
use vstd::prelude::*;
use addr2line::gimli::EndianSlice;
use addr2line::gimli::Error as DwarfError;
use addr2line::gimli::LittleEndian;
use addr2line::Context;
use anyhow::Error as AnyError;
use wasm_tools::addr2line::Addr2lineModules;

use crate::module::Location;

verus! {

#[verifier::external_type_specification]
#[verifier::external_body]
pub struct ExAddr2lineModules<'a>(Addr2lineModules<'a>);

#[verifier::external_type_specification]
#[verifier::external_body]
pub struct ExAnyError(AnyError);

#[verifier::external_type_specification]
#[verifier::external_body]
pub struct ExDwarfError(DwarfError);

/// The `addr2line` context of one module of a binary, borrowed from the
/// index that made it.
#[verifier::external_body]
pub struct DwarfContext<'c, 'a> {
    ctx: &'c mut Context<EndianSlice<'a, LittleEndian>>,
}

/// What a lookup came to: it failed (with the error's text), found
/// nothing, or found a value.
pub enum Lookup<T> {
    Failed(Seq<char>),
    Missing,
    Found(T),
}

/// Why `wasm_tools::addr2line::Addr2lineModules::parse` refuses the binary,
/// as the `Display` text of its error; `None` where it accepts it.
pub uninterp spec fn addr2line_index_failure(wasm: Seq<u8>) -> Option<Seq<char>>;

/// The `Display` text of an `anyhow::Error`.
pub uninterp spec fn anyhow_display(e: AnyError) -> Seq<char>;

/// The `Display` text of a `gimli::Error`.
pub uninterp spec fn gimli_display(e: DwarfError) -> Seq<char>;

/// The binary that an index was read from.
pub uninterp spec fn addr2line_index_wasm(index: Addr2lineModules<'_>) -> Seq<u8>;

/// What `Addr2lineModules::context` finds for an address of the binary:
/// the module (by its position among the binary's modules) whose context
/// serves it, and the address relative to that module's code section.
/// Where `code_section_relative` holds, the address is already relative to
/// the code section of the binary's only module; else it is a byte offset
/// of the binary.
pub uninterp spec fn addr2line_context_lookup(wasm: Seq<u8>, addr: u64, code_section_relative: bool) -> Lookup<(nat, u64)>;

/// The binary and the module whose debugging information a context holds.
pub uninterp spec fn dwarf_context_origin(ctx: DwarfContext<'_, '_>) -> (Seq<u8>, nat);

/// What `addr2line::Context::find_location` finds in the debugging
/// information of module `module` of `wasm` for a code-relative address.
pub uninterp spec fn dwarf_location(wasm: Seq<u8>, module: nat, probe: u64) -> Lookup<Location>;

/// What `addr2line::Context::find_location_range` yields, in order, for the
/// code-relative addresses `low..high` of module `module` of `wasm`: each
/// item an address, the size of its range and its source location; or the
/// text of the error where the search fails.
pub uninterp spec fn dwarf_location_ranges(wasm: Seq<u8>, module: nat, low: u64, high: u64) -> Result<Seq<(u64, u64, Location)>, Seq<char>>;

/// `Addr2lineModules::parse`: reads the modules of `wasm` and their custom
/// sections. Its error's text is named by `addr2line_index_failure`; the
/// index it makes holds `wasm`.
#[verifier::external_body]
pub(crate) fn parse_index<'a>(wasm: &'a [u8]) -> (res: Result<Addr2lineModules<'a>, AnyError>)
    ensures
        match res {
            Ok(index) => addr2line_index_failure(wasm@) is None && addr2line_index_wasm(index)
                == wasm@,
            Err(e) => addr2line_index_failure(wasm@) == Some(anyhow_display(e)),
        },
{
    Addr2lineModules::parse(wasm)
}

/// `Addr2lineModules::context(addr, code_section_relative)`: the context
/// of the module that serves `addr`, and the address relative to that
/// module's code section; `None` where no module holds it in its code. The
/// context is made once and kept in the index, which keeps holding the same
/// binary. The result is named by `addr2line_context_lookup`.
#[verifier::external_body]
pub(crate) fn index_context<'a, 'c>(index: &'c mut Addr2lineModules<'a>, addr: u64, code_section_relative: bool) -> (res: Result<Option<(DwarfContext<'c, 'a>, u64)>, AnyError>)
    ensures
        addr2line_index_wasm(*final(index)) == addr2line_index_wasm(*old(index)),
        match res {
            Err(e) => addr2line_context_lookup(addr2line_index_wasm(*old(index)), addr, code_section_relative)
                == Lookup::<(nat, u64)>::Failed(anyhow_display(e)),
            Ok(None) => addr2line_context_lookup(addr2line_index_wasm(*old(index)), addr, code_section_relative) is Missing,
            Ok(Some((ctx, rel))) => {
                &&& dwarf_context_origin(ctx).0 == addr2line_index_wasm(*old(index))
                &&& addr2line_context_lookup(addr2line_index_wasm(*old(index)), addr, code_section_relative)
                    == Lookup::Found((dwarf_context_origin(ctx).1, rel))
            },
        },
{
    Ok(index.context(addr, code_section_relative)?.map(|(ctx, rel)| (DwarfContext { ctx }, rel)))
}

/// `addr2line::Context::find_location`, its location converted field by
/// field. The result is named by `dwarf_location`.
#[verifier::external_body]
pub(crate) fn find_location(ctx: &DwarfContext<'_, '_>, probe: u64) -> (res: Result<Option<Location>, DwarfError>)
    ensures
        match res {
            Err(e) => dwarf_location(dwarf_context_origin(*ctx).0, dwarf_context_origin(*ctx).1, probe)
                == Lookup::<Location>::Failed(gimli_display(e)),
            Ok(None) => dwarf_location(dwarf_context_origin(*ctx).0, dwarf_context_origin(*ctx).1, probe) is Missing,
            Ok(Some(l)) => dwarf_location(dwarf_context_origin(*ctx).0, dwarf_context_origin(*ctx).1, probe) == Lookup::Found(l),
        },
{
    let found = ctx.ctx.find_location(probe)?;
    Ok(found.map(|l| Location { file: l.file.map(|f| f.to_string()), line: l.line, column: l.column }))
}

/// `addr2line::Context::find_location_range`, its items collected in order
/// and their locations converted field by field. The result is named by
/// `dwarf_location_ranges`; as the crate's line iterator shows, it yields
/// only rows whose address lies below `high`.
#[verifier::external_body]
pub(crate) fn location_ranges(ctx: &DwarfContext<'_, '_>, low: u64, high: u64) -> (res: Result<Vec<(u64, u64, Location)>, DwarfError>)
    ensures
        match res {
            Err(e) => dwarf_location_ranges(dwarf_context_origin(*ctx).0, dwarf_context_origin(*ctx).1, low, high)
                == Err::<Seq<(u64, u64, Location)>, Seq<char>>(gimli_display(e)),
            Ok(items) => {
                &&& dwarf_location_ranges(dwarf_context_origin(*ctx).0, dwarf_context_origin(*ctx).1, low, high)
                    == Ok::<Seq<(u64, u64, Location)>, Seq<char>>(items@)
                &&& forall|i: int| 0 <= i < items.len() ==> (#[trigger] items@[i]).0 < high
            },
        },
{
    let items = ctx.ctx.find_location_range(low, high)?;
    Ok(items.map(|(a, n, l)| (a, n, Location { file: l.file.map(|f| f.to_string()), line: l.line, column: l.column })).collect())
}

/// The `Display` text of an `anyhow::Error`, named by `anyhow_display`.
#[verifier::external_body]
pub(crate) fn any_error_text(e: &AnyError) -> (res: String)
    ensures
        res@ == anyhow_display(*e),
{
    e.to_string()
}

/// The `Display` text of a `gimli::Error`, named by `gimli_display`.
#[verifier::external_body]
pub(crate) fn dwarf_error_text(e: &DwarfError) -> (res: String)
    ensures
        res@ == gimli_display(*e),
{
    e.to_string()
}

} // verus!
