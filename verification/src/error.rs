//! Errors of reading WebAssembly text and of mapping addresses to sources.
use vstd::prelude::*;

verus! {

/// The text could not be turned into a binary; holds the parser's report.
#[derive(Debug)]
pub struct WatParseError(pub String);

/// Why an address could not be mapped to its source.
#[derive(Debug, Clone)]
pub enum Error {
    /// The binary could not be read.
    Wasmparser(String),
    /// The debugging information could not be loaded.
    ContextCreation1(String),
    /// No module of the binary holds the address in its code.
    ContextCreation2(String),
    /// The debugging information could not be searched.
    FindTextOffset1(String),
    /// The debugging information names no source for the address.
    FindTextOffset2(String),
    /// The binary has no code section.
    NoCodeSection,
}

/// An `Error` as a value of the specification: its kind and its text.
pub enum Failure {
    Wasmparser(Seq<char>),
    ContextCreation1(Seq<char>),
    ContextCreation2(Seq<char>),
    FindTextOffset1(Seq<char>),
    FindTextOffset2(Seq<char>),
    NoCodeSection,
}

impl Error {
    /// This error as a value of the specification.
    pub open spec fn failure(self) -> Failure {
        match self {
            Error::Wasmparser(s) => Failure::Wasmparser(s@),
            Error::ContextCreation1(s) => Failure::ContextCreation1(s@),
            Error::ContextCreation2(s) => Failure::ContextCreation2(s@),
            Error::FindTextOffset1(s) => Failure::FindTextOffset1(s@),
            Error::FindTextOffset2(s) => Failure::FindTextOffset2(s@),
            Error::NoCodeSection => Failure::NoCodeSection,
        }
    }
}

} // verus!
