//! What can go wrong while a configuration is parsed.
use vstd::prelude::*;

verus! {

/// A key that is no keyword, met while unknown keys are not accepted.
#[derive(Debug)]
pub struct UnknownEntryError {
    /// The line that holds the key.
    pub line: String,
    /// The key as it was written.
    pub entry: String,
}

/// Why an `Include` line could not be followed.
#[derive(Debug)]
pub enum InvalidIncludeErrorDetails {
    /// The path is no valid glob pattern; the text says why.
    Pattern(String),
    /// A path that the pattern matched could not be looked at; the text says why.
    Glob(String),
    /// An included file could not be read; the text says why.
    Io(String),
    /// The line stands inside a host block, and an included file opens host
    /// blocks of its own.
    HostsInsideHostBlock,
    /// The files that the line names have not been handed to the parser; the
    /// text is the path as the line gives it.
    NotLoaded(String),
    /// Included files include further files beyond the depth that the parser
    /// follows.
    TooDeep,
}

/// An `Include` line that could not be followed.
#[derive(Debug)]
pub struct InvalidIncludeError {
    /// The line.
    pub line: String,
    /// What was wrong with it.
    pub details: InvalidIncludeErrorDetails,
}

/// Why a configuration could not be parsed.
#[derive(Debug)]
pub enum ParseError {
    /// The configuration could not be read; the text says why.
    Io(String),
    /// A line that has a key and no value.
    UnparseableLine(String),
    UnknownEntry(UnknownEntryError),
    InvalidInclude(InvalidIncludeError),
}

/// What an [`InvalidIncludeErrorDetails`] stands for in contracts.
pub enum IncludeFailure {
    Pattern(Seq<char>),
    Glob(Seq<char>),
    Io(Seq<char>),
    HostsInsideHostBlock,
    NotLoaded(Seq<char>),
    TooDeep,
}

/// What a [`ParseError`] stands for in contracts.
pub enum Failure {
    Io(Seq<char>),
    UnparseableLine(Seq<char>),
    UnknownEntry { line: Seq<char>, entry: Seq<char> },
    InvalidInclude { line: Seq<char>, details: IncludeFailure },
}

impl View for InvalidIncludeErrorDetails {
    type V = IncludeFailure;

    open spec fn view(&self) -> IncludeFailure {
        match self {
            InvalidIncludeErrorDetails::Pattern(text) => IncludeFailure::Pattern(text@),
            InvalidIncludeErrorDetails::Glob(text) => IncludeFailure::Glob(text@),
            InvalidIncludeErrorDetails::Io(text) => IncludeFailure::Io(text@),
            InvalidIncludeErrorDetails::HostsInsideHostBlock => IncludeFailure::HostsInsideHostBlock,
            InvalidIncludeErrorDetails::NotLoaded(path) => IncludeFailure::NotLoaded(path@),
            InvalidIncludeErrorDetails::TooDeep => IncludeFailure::TooDeep,
        }
    }
}

impl View for ParseError {
    type V = Failure;

    open spec fn view(&self) -> Failure {
        match self {
            ParseError::Io(text) => Failure::Io(text@),
            ParseError::UnparseableLine(line) => Failure::UnparseableLine(line@),
            ParseError::UnknownEntry(error) => Failure::UnknownEntry {
                line: error.line@,
                entry: error.entry@,
            },
            ParseError::InvalidInclude(error) => Failure::InvalidInclude {
                line: error.line@,
                details: error.details@,
            },
        }
    }
}

impl From<UnknownEntryError> for ParseError {
    fn from(e: UnknownEntryError) -> (error: ParseError) {
        ParseError::UnknownEntry(e)
    }
}

impl vstd::std_specs::convert::FromSpecImpl<UnknownEntryError> for ParseError {
    open spec fn obeys_from_spec() -> bool {
        true
    }

    open spec fn from_spec(e: UnknownEntryError) -> ParseError {
        ParseError::UnknownEntry(e)
    }
}

impl From<InvalidIncludeError> for ParseError {
    fn from(e: InvalidIncludeError) -> (error: ParseError) {
        ParseError::InvalidInclude(e)
    }
}

impl vstd::std_specs::convert::FromSpecImpl<InvalidIncludeError> for ParseError {
    open spec fn obeys_from_spec() -> bool {
        true
    }

    open spec fn from_spec(e: InvalidIncludeError) -> ParseError {
        ParseError::InvalidInclude(e)
    }
}

} // verus!
