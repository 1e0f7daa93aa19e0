//! How reading the text can fail.

use crate::text::string_of;
use vstd::prelude::*;

verus! {

/// The three ways in which a line can be wrong.
#[derive(Debug, Clone, Copy, PartialEq, Eq)]
pub enum ErrorKind {
    /// A header line lacks its quoted name or its connector in parentheses.
    Structure,
    /// The value of a field has not the form that the field asks for.
    FieldFormat,
    /// A number is written in a way that its type does not take.
    NumberFormat,
}

/// The part of a monitor's description that could not be read.
#[derive(Debug, Clone, Copy, PartialEq, Eq)]
pub enum Field {
    Name,
    OutputName,
    CurrentMode,
    Resolution,
    Width,
    Height,
    RefreshRate,
    VariableRefreshRate,
    PhysicalSize,
    LogicalPosition,
    PositionX,
    PositionY,
    LogicalSize,
    Scale,
    Transform,
    AvailableMode,
}

/// Why the text could not be read: the kind of fault, the part that it was
/// found in, and the text that was at fault.
#[derive(Debug, Clone, PartialEq, Eq)]
pub struct ParseError {
    pub kind: ErrorKind,
    pub field: Field,
    pub text: String,
}

/// A `ParseError` with its text as a sequence of characters.
pub struct ParseErrorView {
    pub kind: ErrorKind,
    pub field: Field,
    pub text: Seq<char>,
}

impl View for ParseError {
    type V = ParseErrorView;

    open spec fn view(&self) -> ParseErrorView {
        ParseErrorView { kind: self.kind, field: self.field, text: self.text@ }
    }
}

/// The failure of the given kind in the given part, with the text at fault.
pub open spec fn failure<T>(kind: ErrorKind, field: Field, text: Seq<char>) -> Result<
    T,
    ParseErrorView,
> {
    Err(ParseErrorView { kind, field, text })
}

impl ParseError {
    /// The error of the given kind in the given part, with a copy of the text
    /// at fault.
    pub fn new(kind: ErrorKind, field: Field, text: &[char]) -> (e: ParseError)
        ensures
            e@ == (ParseErrorView { kind, field, text: text@ }),
    {
        ParseError { kind, field, text: string_of(text) }
    }
}

} // verus!
