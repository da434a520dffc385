//! Turning WebAssembly text into a binary, with the `wat` crate.
use vstd::prelude::*;
use std::path::Path;
use wat::Error as WatError;
use wat::GenerateDwarf;
use wat::Parser;

verus! {

#[verifier::external_type_specification]
#[verifier::external_body]
pub struct ExWatParser(Parser);

#[verifier::external_type_specification]
#[verifier::external_body]
pub struct ExWatError(WatError);

/// Which DWARF debugging information a parser emits.
pub enum DwarfSetting {
    Off,
    Lines,
    Full,
}

/// The DWARF setting that a `wat::Parser` holds.
pub uninterp spec fn wat_parser_dwarf(parser: Parser) -> DwarfSetting;

/// The binary that a parser with the given DWARF setting makes of the text
/// `wat`, where `path` names the source file; or, where it refuses, the
/// `Debug` text of its error.
pub uninterp spec fn wat_binary(dwarf: DwarfSetting, path: Option<Seq<char>>, wat: Seq<char>) -> Result<Seq<u8>, Seq<char>>;

/// The `Debug` text of a `wat::Error`.
pub uninterp spec fn wat_error_text(e: WatError) -> Seq<char>;

/// The text of each string.
pub open spec fn optional_text(s: Option<&str>) -> Option<Seq<char>> {
    match s {
        Some(t) => Some(t@),
        None => None,
    }
}

/// `wat::Parser::new`: a parser with the default settings, which emit no
/// DWARF information.
#[verifier::external_body]
pub(crate) fn wat_parser_new() -> (res: Parser)
    ensures
        wat_parser_dwarf(res) == DwarfSetting::Off,
{
    Parser::new()
}

/// `wat::Parser::generate_dwarf`, with `GenerateDwarf::Full` where `full`
/// holds and `GenerateDwarf::Lines` otherwise: the parser keeps the setting.
#[verifier::external_body]
pub(crate) fn wat_parser_generate_dwarf(parser: &mut Parser, full: bool)
    ensures
        wat_parser_dwarf(*final(parser)) == if full {
            DwarfSetting::Full
        } else {
            DwarfSetting::Lines
        },
{
    parser.generate_dwarf(if full { GenerateDwarf::Full } else { GenerateDwarf::Lines });
}

/// `wat::Parser::parse_str`, with the path given as text. Its result is
/// named by `wat_binary` over the parser's DWARF setting, the path and the
/// text, its error by `wat_error_text`.
#[verifier::external_body]
pub(crate) fn wat_parse_str(parser: &Parser, path: Option<&str>, wat: &str) -> (res: Result<Vec<u8>, WatError>)
    ensures
        match res {
            Ok(bytes) => wat_binary(wat_parser_dwarf(*parser), optional_text(path), wat@) == Ok::<
                Seq<u8>,
                Seq<char>,
            >(bytes@),
            Err(e) => wat_binary(wat_parser_dwarf(*parser), optional_text(path), wat@) == Err::<
                Seq<u8>,
                Seq<char>,
            >(wat_error_text(e)),
        },
{
    parser.parse_str(path.map(Path::new), wat)
}

/// The `Debug` text of a `wat::Error`, named by `wat_error_text`.
#[verifier::external_body]
pub(crate) fn wat_error_debug(e: &WatError) -> (res: String)
    ensures
        res@ == wat_error_text(*e),
{
    format!("{e:?}")
}

} // verus!
