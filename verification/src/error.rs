//! What can go wrong while parsing.

use vstd::prelude::*;
use crate::format::Format;

verus! {

/// The ways in which an input fails to parse.
#[derive(Copy, Clone, Debug, Hash, PartialEq, Eq, Structural)]
pub enum ErrorKind {
    /// No text format matched and the input cannot be read as raw bytes either.
    UnrecognizedFormat,
    /// The text holds a character that is not valid for the detected format.
    RadixParse,
    /// The number does not fit into the target width.
    Overflow,
    /// A caller asked for text and the input is not valid UTF-8.
    Utf8Decode,
}

/// The mathematical content of a [`ParseError`].
pub ghost struct Failure {
    pub kind: ErrorKind,
    pub format: Format,
    pub text: Seq<u8>,
}

/// A parse failure: its kind, the format that the input was taken for, and the
/// offending text.
#[derive(Clone, Debug, Hash, PartialEq, Eq)]
pub struct ParseError {
    kind: ErrorKind,
    format: Format,
    text: Vec<u8>,
}

impl View for ParseError {
    type V = Failure;

    closed spec fn view(&self) -> Failure {
        Failure { kind: self.kind, format: self.format, text: self.text@ }
    }
}

impl ParseError {
    /// A failure of the given kind, for text that was taken for `format`.
    pub fn new(kind: ErrorKind, format: Format, text: Vec<u8>) -> (e: Self)
        ensures
            e@ == (Failure { kind, format, text: text@ }),
    {
        ParseError { kind, format, text }
    }

    /// Why the input was rejected.
    pub fn kind(&self) -> (k: ErrorKind)
        ensures
            k == self@.kind,
    {
        self.kind
    }

    /// The format that the input was taken for.
    pub fn format(&self) -> (f: Format)
        ensures
            f == self@.format,
    {
        self.format
    }

    /// The text that could not be parsed: what follows the prefix of a text
    /// format, and the whole input where it was taken for raw data.
    pub fn text(&self) -> (t: &[u8])
        ensures
            t@ == self@.text,
    {
        self.text.as_slice()
    }
}

} // verus!
