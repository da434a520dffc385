//! WebAssembly binaries with DWARF debugging information, and the source
//! locations of their code.
use vstd::prelude::*;

use crate::dwarf::{
    addr2line_context_lookup, addr2line_index_failure, any_error_text, dwarf_error_text,
    dwarf_location, dwarf_location_ranges, find_location, index_context, location_ranges,
    parse_index, Lookup,
};
use crate::error::{Error, Failure, WatParseError};
use crate::payload::{
    find_code_section, first_code_section, read_payloads, reader_error_text, wasm_payload_stream,
};
use crate::wasm_text::{
    optional_text, wat_binary, wat_error_debug, wat_parse_str, wat_parser_generate_dwarf,
    wat_parser_new, DwarfSetting,
};

verus! {

/// A position in a source file.
#[derive(Debug, Clone, Hash, PartialEq, Eq)]
pub struct Location {
    /// The file name.
    pub file: Option<String>,
    /// The line number.
    pub line: Option<u32>,
    /// The column number. A value of `Some(0)` indicates the left edge.
    pub column: Option<u32>,
}

/// A range of code bytes and the source location they were compiled from.
#[derive(Debug, Clone, Hash, PartialEq, Eq)]
pub struct Mapping {
    /// The offset of the first byte of the range in the binary.
    pub address: u64,
    /// The number of bytes of the range.
    pub range_size: u64,
    /// Where the range comes from.
    pub location: Location,
}

/// A WebAssembly binary.
#[derive(Debug, Clone, PartialEq, Eq, Hash)]
pub struct Module(Vec<u8>);

impl View for Module {
    type V = Seq<u8>;

    closed spec fn view(&self) -> Seq<u8> {
        self.0@
    }
}

impl Location {
    /// The file name.
    pub fn file(&self) -> (res: Option<String>)
        ensures
            res == self.file,
    {
        match &self.file {
            Some(f) => Some(f.clone()),
            None => None,
        }
    }

    /// The line number.
    pub fn line(&self) -> (res: Option<u32>)
        ensures
            res == self.line,
    {
        self.line
    }

    /// The column number.
    pub fn column(&self) -> (res: Option<u32>)
        ensures
            res == self.column,
    {
        self.column
    }
}

impl Mapping {
    /// The offset of the first byte of the range.
    pub fn address(&self) -> (res: u64)
        ensures
            res == self.address,
    {
        self.address
    }

    /// The number of bytes of the range.
    pub fn range_size(&self) -> (res: u64)
        ensures
            res == self.range_size,
    {
        self.range_size
    }

    /// The file name of the range's source.
    pub fn file(&self) -> (res: Option<String>)
        ensures
            res == self.location.file,
    {
        self.location.file()
    }

    /// The line number of the range's source.
    pub fn line(&self) -> (res: Option<u32>)
        ensures
            res == self.location.line,
    {
        self.location.line
    }

    /// The column number of the range's source.
    pub fn column(&self) -> (res: Option<u32>)
        ensures
            res == self.location.column,
    {
        self.location.column
    }
}

/// Where `Module::addr2line` reports that no module holds the address.
pub const ADDRESS_CONTEXT_SITE: &'static str = "src/module.rs:496:60";

/// Where `Module::addr2line` reports that no source holds the address.
pub const ADDRESS_LOCATION_SITE: &'static str = "src/module.rs:501:52";

/// Where `Module::mappings` reports that no module holds the code section.
pub const CODE_CONTEXT_SITE: &'static str = "src/module.rs:535:60";

fn site_text(site: &str) -> (res: String)
    ensures
        res@ == site@,
{
    String::from_str(site)
}

/// The source location of byte `addr` of `wasm`, or the error that looking
/// it up meets.
pub open spec fn located(wasm: Seq<u8>, addr: u64) -> Result<Location, Failure> {
    match addr2line_index_failure(wasm) {
        Some(text) => Err(Failure::Wasmparser(text)),
        None => match addr2line_context_lookup(wasm, addr, false) {
            Lookup::Failed(text) => Err(Failure::ContextCreation1(text)),
            Lookup::Missing => Err(Failure::ContextCreation2(ADDRESS_CONTEXT_SITE@)),
            Lookup::Found((module, rel)) => match dwarf_location(wasm, module, rel) {
                Lookup::Failed(text) => Err(Failure::FindTextOffset1(text)),
                Lookup::Missing => Err(Failure::FindTextOffset2(ADDRESS_LOCATION_SITE@)),
                Lookup::Found(location) => Ok(location),
            },
        },
    }
}

/// The mapping of an item of a location search over the code section that
/// starts at `start`.
pub open spec fn to_mapping(start: u64, item: (u64, u64, Location)) -> Mapping {
    Mapping { address: (start + item.0) as u64, range_size: item.1, location: item.2 }
}

/// The mappings of the whole code section of `wasm`, or the error that
/// finding them meets.
pub open spec fn mapped(wasm: Seq<u8>) -> Result<Seq<Mapping>, Failure> {
    match addr2line_index_failure(wasm) {
        Some(text) => Err(Failure::Wasmparser(text)),
        None => match first_code_section(wasm_payload_stream(wasm).0) {
            None => match wasm_payload_stream(wasm).1 {
                Some((_, text)) => Err(Failure::Wasmparser(text)),
                None => Err(Failure::NoCodeSection),
            },
            Some((start, size)) => match addr2line_context_lookup(wasm, start, false) {
                Lookup::Failed(text) => Err(Failure::ContextCreation1(text)),
                Lookup::Missing => Err(Failure::ContextCreation2(CODE_CONTEXT_SITE@)),
                Lookup::Found((module, rel)) => match dwarf_location_ranges(
                    wasm,
                    module,
                    rel,
                    size as u64,
                ) {
                    Err(text) => Err(Failure::FindTextOffset1(text)),
                    Ok(items) => Ok(items.map_values(|item: (u64, u64, Location)| to_mapping(start, item))),
                },
            },
        },
    }
}

/// Whether a result agrees with what the specification gives: the same
/// value, or an error of the same kind.
pub open spec fn agrees<T>(res: Result<T, Error>, spec: Result<T, Failure>) -> bool {
    match spec {
        Ok(v) => res == Ok::<T, Error>(v),
        Err(kind) => res matches Err(e) && e.failure() == kind,
    }
}

/// The file names of the mappings, each once, in the order of their first
/// appearance.
pub open spec fn distinct_files(mappings: Seq<Mapping>) -> Seq<Seq<char>>
    decreases mappings.len(),
{
    if mappings.len() == 0 {
        Seq::empty()
    } else {
        let before = distinct_files(mappings.drop_last());
        match mappings.last().location.file {
            Some(f) => if before.contains(f@) {
                before
            } else {
                before.push(f@)
            },
            None => before,
        }
    }
}

/// The text of each name, in order.
pub open spec fn names(files: Seq<String>) -> Seq<Seq<char>> {
    files.map_values(|f: String| f@)
}

/// The file names of the mappings, or the kind of error that finding the
/// mappings meets.
pub open spec fn source_files(wasm: Seq<u8>) -> Result<Seq<Seq<char>>, Failure> {
    match mapped(wasm) {
        Ok(mappings) => Ok(distinct_files(mappings)),
        Err(kind) => Err(kind),
    }
}

/// Whether a mapping's source is the file `name`.
pub open spec fn names_file(m: Mapping, name: Seq<char>) -> bool {
    m.location.file matches Some(f) && f@ == name
}

/// Whether `files` lists the file names of `mappings`: each once, and no
/// other name.
pub open spec fn lists_files_of(files: Seq<Seq<char>>, mappings: Seq<Mapping>) -> bool {
    &&& forall|i: int, j: int| 0 <= i < j < files.len() ==> files[i] != files[j]
    &&& forall|i: int| 0 <= i < files.len() ==> exists|k: int|
        0 <= k < mappings.len() && names_file(mappings[k], #[trigger] files[i])
    &&& forall|k: int| 0 <= k < mappings.len() ==> (#[trigger] mappings[k].location.file matches Some(f)
        ==> files.contains(f@))
}

/// The file names collected from a list of mappings are those of the
/// mappings, each once.
pub proof fn lemma_distinct_files(mappings: Seq<Mapping>)
    ensures
        lists_files_of(distinct_files(mappings), mappings),
    decreases mappings.len(),
{
    if mappings.len() > 0 {
        let rest = mappings.drop_last();
        lemma_distinct_files(rest);
        let before = distinct_files(rest);
        let files = distinct_files(mappings);
        let n = mappings.len() - 1;
        assert forall|i: int| 0 <= i < files.len() implies exists|k: int|
            0 <= k < mappings.len() && names_file(mappings[k], #[trigger] files[i]) by {
            if i < before.len() {
                let k = choose|k: int| 0 <= k < rest.len() && names_file(rest[k], before[i]);
                assert(mappings[k] == rest[k]);
            } else {
                assert(names_file(mappings[n], files[i]));
            }
        }
        assert forall|k: int| 0 <= k < mappings.len() implies (#[trigger] mappings[k].location.file matches Some(f)
            ==> files.contains(f@)) by {
            if k < n {
                assert(mappings[k] == rest[k]);
                if let Some(f) = mappings[k].location.file {
                    assert(before.contains(f@));
                    let j = choose|j: int| 0 <= j < before.len() && before[j] == f@;
                    assert(files[j] == f@);
                }
            } else {
                if let Some(f) = mappings[k].location.file {
                    if !before.contains(f@) {
                        assert(files[files.len() - 1] == f@);
                    }
                }
            }
        }
    }
}

/// Whether two results are the same value, or errors of the same kind.
pub open spec fn same_outcome<T>(r1: Result<T, Error>, r2: Result<T, Error>) -> bool {
    match (r1, r2) {
        (Ok(v1), Ok(v2)) => v1 == v2,
        (Err(e1), Err(e2)) => e1.failure() == e2.failure(),
        _ => false,
    }
}

/// Looking up one address of one binary twice gives the same location, or
/// fails twice in the same way: the result can be cached.
pub proof fn law_addr2line_repeatable(
    wasm: Seq<u8>,
    addr: u64,
    r1: Result<Location, Error>,
    r2: Result<Location, Error>,
)
    requires
        agrees(r1, located(wasm, addr)),
        agrees(r2, located(wasm, addr)),
    ensures
        same_outcome(r1, r2),
{
}

/// Listing the mappings of one binary twice gives the same mappings, or
/// fails twice in the same way.
pub proof fn law_mappings_repeatable(
    wasm: Seq<u8>,
    r1: Result<Vec<Mapping>, Error>,
    r2: Result<Vec<Mapping>, Error>,
)
    requires
        mappings_agree(r1, mapped(wasm)),
        mappings_agree(r2, mapped(wasm)),
    ensures
        match (r1, r2) {
            (Ok(v1), Ok(v2)) => v1@ == v2@,
            (Err(e1), Err(e2)) => e1.failure() == e2.failure(),
            _ => false,
        },
{
}

/// Listing the source files of one binary twice gives the same names, or
/// fails twice in the same way.
pub proof fn law_files_repeatable(
    wasm: Seq<u8>,
    r1: Result<Vec<String>, Error>,
    r2: Result<Vec<String>, Error>,
)
    requires
        files_agree(r1, source_files(wasm)),
        files_agree(r2, source_files(wasm)),
    ensures
        match (r1, r2) {
            (Ok(v1), Ok(v2)) => names(v1@) == names(v2@),
            (Err(e1), Err(e2)) => e1.failure() == e2.failure(),
            _ => false,
        },
{
}

/// A successful lookup is a location that the debugging information gives
/// for the address: the index reads the binary, a module's context serves
/// the address, and the DWARF line program finds that location for the
/// code-relative address.
pub proof fn law_located_only_where_dwarf_finds(wasm: Seq<u8>, addr: u64)
    ensures
        located(wasm, addr) matches Ok(l) ==> {
            &&& addr2line_index_failure(wasm) is None
            &&& addr2line_context_lookup(wasm, addr, false) matches Lookup::Found((module, rel))
            &&& dwarf_location(wasm, module, rel) == Lookup::Found(l)
        },
{
}

/// Where the DWARF line program names no source for the code-relative
/// address, the lookup fails with `FindTextOffset2`: it never invents a
/// location.
pub proof fn law_no_source_is_an_error(wasm: Seq<u8>, addr: u64)
    requires
        addr2line_index_failure(wasm) is None,
        addr2line_context_lookup(wasm, addr, false) matches Lookup::Found((module, rel))
            && dwarf_location(wasm, module, rel) is Missing,
    ensures
        located(wasm, addr) matches Err(Failure::FindTextOffset2(_)),
{
}

/// The mappings cover the whole code section: where the binary's code
/// section starts at `start` and holds `size` bytes, and the search of the
/// code-relative addresses `rel..size` of its module yields `items`, there
/// is one mapping per item, in order, at `start` plus the item's address,
/// with the item's size and location.
pub proof fn law_mappings_cover_code_section(wasm: Seq<u8>)
    ensures
        addr2line_index_failure(wasm) is None ==> (first_code_section(wasm_payload_stream(wasm).0) matches Some(
            (start, size),
        ) ==> (addr2line_context_lookup(wasm, start, false) matches Lookup::Found((module, rel))
            ==> (dwarf_location_ranges(wasm, module, rel, size as u64) matches Ok(items) ==> (mapped(
            wasm,
        ) matches Ok(mappings) && mappings.len() == items.len() && forall|i: int|
            0 <= i < items.len() ==> {
                &&& (#[trigger] mappings[i]).address == (start + items[i].0) as u64
                &&& mappings[i].range_size == items[i].1
                &&& mappings[i].location == items[i].2
            })))),
{
}

/// Listing the source files fails exactly where listing the mappings does,
/// with the same error.
pub proof fn law_files_fail_as_mappings(wasm: Seq<u8>)
    ensures
        mapped(wasm) matches Err(kind) ==> source_files(wasm) == Err::<Seq<Seq<char>>, Failure>(kind),
        source_files(wasm) matches Err(kind) ==> mapped(wasm) == Err::<Seq<Mapping>, Failure>(kind),
{
}

/// Once the debugging information of a binary is read, a binary without a
/// code section fails with the reader's error where it reported one, and
/// with `NoCodeSection` otherwise.
pub proof fn law_missing_code_section(wasm: Seq<u8>)
    requires
        addr2line_index_failure(wasm) is None,
        first_code_section(wasm_payload_stream(wasm).0) is None,
    ensures
        mapped(wasm) == match wasm_payload_stream(wasm).1 {
            Some((_, text)) => Err::<Seq<Mapping>, Failure>(Failure::Wasmparser(text)),
            None => Err::<Seq<Mapping>, Failure>(Failure::NoCodeSection),
        },
{
}

/// Whether a list of mappings agrees with what the specification gives.
pub open spec fn mappings_agree(res: Result<Vec<Mapping>, Error>, spec: Result<Seq<Mapping>, Failure>) -> bool {
    match spec {
        Ok(mappings) => res matches Ok(found) && found@ == mappings,
        Err(kind) => res matches Err(e) && e.failure() == kind,
    }
}

/// Whether a list of file names agrees with what the specification gives.
pub open spec fn files_agree(res: Result<Vec<String>, Error>, spec: Result<Seq<Seq<char>>, Failure>) -> bool {
    match spec {
        Ok(files) => res matches Ok(found) && names(found@) == files,
        Err(kind) => res matches Err(e) && e.failure() == kind,
    }
}

/// Whether every mapping covers code of the code section that starts at
/// `start` and holds `size` bytes.
pub open spec fn within_code(mappings: Seq<Mapping>, start: u64, size: u32) -> bool {
    forall|i: int|
        0 <= i < mappings.len() ==> start <= (#[trigger] mappings[i]).address < start + size
}

impl Module {
    /// A module of the given bytes.
    pub fn new(bytes: Vec<u8>) -> (res: Self)
        ensures
            res@ == bytes@,
    {
        Module(bytes)
    }

    /// The bytes of the binary.
    pub fn bytes(&self) -> (res: &[u8])
        ensures
            res@ == self@,
    {
        self.0.as_slice()
    }

    /// Turns WebAssembly text into a binary with full DWARF debugging
    /// information; `path` names the source file in that information.
    pub fn from_wat(path: Option<&str>, wat: &str) -> (res: Result<Self, WatParseError>)
        ensures
            match wat_binary(DwarfSetting::Full, optional_text(path), wat@) {
                Ok(bytes) => res matches Ok(m) && m@ == bytes,
                Err(text) => res matches Err(WatParseError(s)) && s@ == text,
            },
    {
        let mut parser = wat_parser_new();
        wat_parser_generate_dwarf(&mut parser, true);
        match wat_parse_str(&parser, path, wat) {
            Ok(bytes) => Ok(Module(bytes)),
            Err(e) => Err(WatParseError(wat_error_debug(&e))),
        }
    }

    /// The source location of the byte at offset `byte_address` of the
    /// binary. The result does not change from one call to the next.
    pub fn addr2line(&self, byte_address: u64) -> (res: Result<Location, Error>)
        ensures
            agrees(res, located(self@, byte_address)),
    {
        let mut index = match parse_index(self.0.as_slice()) {
            Ok(index) => index,
            Err(e) => return Err(Error::Wasmparser(any_error_text(&e))),
        };
        let (ctx, rel) = match index_context(&mut index, byte_address, false) {
            Ok(Some(found)) => found,
            Ok(None) => return Err(Error::ContextCreation2(site_text(ADDRESS_CONTEXT_SITE))),
            Err(e) => return Err(Error::ContextCreation1(any_error_text(&e))),
        };
        match find_location(&ctx, rel) {
            Ok(Some(location)) => Ok(location),
            Ok(None) => Err(Error::FindTextOffset2(site_text(ADDRESS_LOCATION_SITE))),
            Err(e) => Err(Error::FindTextOffset1(dwarf_error_text(&e))),
        }
    }

    /// The source locations of the whole code section, each with the range
    /// of code bytes it covers. The result does not change from one call to
    /// the next.
    pub fn mappings(&self) -> (res: Result<Vec<Mapping>, Error>)
        ensures
            mappings_agree(res, mapped(self@)),
            res matches Ok(found) ==> first_code_section(wasm_payload_stream(self@).0) matches Some(
                (start, size),
            ) && within_code(found@, start, size),
    {
        let mut index = match parse_index(self.0.as_slice()) {
            Ok(index) => index,
            Err(e) => return Err(Error::Wasmparser(any_error_text(&e))),
        };
        let (payloads, failure) = read_payloads(self.0.as_slice());
        let (start, size) = match find_code_section(&payloads) {
            Some(found) => found,
            None => {
                return match failure {
                    Some(e) => Err(Error::Wasmparser(reader_error_text(&e))),
                    None => Err(Error::NoCodeSection),
                };
            },
        };
        proof {
            lemma_first_code_section_in(payloads@);
        }
        let (ctx, rel) = match index_context(&mut index, start, false) {
            Ok(Some(found)) => found,
            Ok(None) => return Err(Error::ContextCreation2(site_text(CODE_CONTEXT_SITE))),
            Err(e) => return Err(Error::ContextCreation1(any_error_text(&e))),
        };
        let items = match location_ranges(&ctx, rel, size as u64) {
            Ok(items) => items,
            Err(e) => return Err(Error::FindTextOffset1(dwarf_error_text(&e))),
        };
        let ghost expected = items@.map_values(|item: (u64, u64, Location)| to_mapping(start, item));
        let mut mappings: Vec<Mapping> = Vec::new();
        let mut i: usize = 0;
        while i < items.len()
            invariant
                i <= items.len(),
                start < 0x8000_0000_0000_0000u64,
                forall|j: int| 0 <= j < items.len() ==> (#[trigger] items@[j]).0 < size as u64,
                expected == items@.map_values(|item: (u64, u64, Location)| to_mapping(start, item)),
                mappings@ == expected.take(i as int),
                within_code(mappings@, start, size),
            decreases items.len() - i,
        {
            let (address, range_size, location) = &items[i];
            assert(items@[i as int].0 < size as u64);
            let m = Mapping {
                address: start + *address,
                range_size: *range_size,
                location: Location { file: location.file(), line: location.line, column: location.column },
            };
            mappings.push(m);
            assert(expected.take(i + 1) =~= expected.take(i as int).push(expected[i as int]));
            i = i + 1;
        }
        assert(expected.take(i as int) =~= expected);
        Ok(mappings)
    }

    /// The names of the source files of the code, each once, in the order
    /// in which the mappings first name them.
    pub fn files(&self) -> (res: Result<Vec<String>, Error>)
        ensures
            files_agree(res, source_files(self@)),
            res matches Ok(found) ==> mapped(self@) matches Ok(mappings) && lists_files_of(
                names(found@),
                mappings,
            ),
    {
        let mappings = self.mappings()?;
        let mut files: Vec<String> = Vec::new();
        let mut i: usize = 0;
        while i < mappings.len()
            invariant
                i <= mappings.len(),
                names(files@) == distinct_files(mappings@.take(i as int)),
            decreases mappings.len() - i,
        {
            assert(mappings@.take(i + 1).drop_last() =~= mappings@.take(i as int));
            if let Some(f) = &mappings[i].location.file {
                let mut seen = false;
                let mut j: usize = 0;
                while j < files.len()
                    invariant
                        j <= files.len(),
                        seen == names(files@).take(j as int).contains(f@),
                    decreases files.len() - j,
                {
                    let ghost all = names(files@);
                    let ghost prefix = all.take(j as int);
                    assert(all.take(j + 1) =~= prefix.push(all[j as int]));
                    if files[j] == *f {
                        seen = true;
                    }
                    proof {
                        let next = all.take(j + 1);
                        if all[j as int] == f@ {
                            assert(next[j as int] == f@);
                        }
                        if prefix.contains(f@) {
                            let k = choose|k: int| 0 <= k < prefix.len() && prefix[k] == f@;
                            assert(next[k] == f@);
                        }
                        if next.contains(f@) {
                            let k = choose|k: int| 0 <= k < next.len() && next[k] == f@;
                            if k < j {
                                assert(prefix[k] == f@);
                            }
                        }
                    }
                    j = j + 1;
                }
                assert(names(files@).take(j as int) =~= names(files@));
                let ghost before = files@;
                if !seen {
                    files.push(f.clone());
                    assert(names(files@) =~= names(before).push(f@));
                }
            }
            i = i + 1;
        }
        assert(mappings@.take(i as int) =~= mappings@);
        proof {
            lemma_distinct_files(mappings@);
        }
        Ok(files)
    }
}

/// A code section that a payload stream names starts where the stream's
/// facts put every code section.
proof fn lemma_first_code_section_in(payloads: Seq<crate::payload::Payload>)
    requires
        forall|i: int|
            0 <= i < payloads.len() ==> (#[trigger] payloads[i].kind matches crate::payload::PayloadKind::CodeStart(
                start,
                _,
            ) ==> start < 0x8000_0000_0000_0000u64),
    ensures
        first_code_section(payloads) matches Some((start, _)) ==> start < 0x8000_0000_0000_0000u64,
    decreases payloads.len(),
{
    if payloads.len() > 0 {
        lemma_first_code_section_in(payloads.drop_first());
        assert forall|i: int| 0 <= i < payloads.drop_first().len() implies (#[trigger] payloads.drop_first()[i].kind matches crate::payload::PayloadKind::CodeStart(
                start,
                _,
            ) ==> start < 0x8000_0000_0000_0000u64) by {
            assert(payloads.drop_first()[i] == payloads[i + 1]);
        }
    }
}

} // verus!
