//! Errors of generation.

use vstd::prelude::*;

verus! {

/// Why the parse of a translation unit failed, as the front end reports it.
#[derive(Debug, Clone, Copy, PartialEq, Eq, Structural)]
pub enum SourceError {
    /// The front end crashed.
    Crash,
    /// The front end failed for an unknown reason.
    Unknown,
    /// A precompiled unit could not be read.
    AstDeserialization,
}

/// An error of generation.
#[derive(Debug)]
pub enum Error {
    /// The source could not be parsed.
    Clang(SourceError),
    /// Writing the generated text failed; the text describes the failure.
    Io(String),
    /// A declaration lacks what generation needs (a name, a type, a field
    /// name), or a value has a type without a known literal format.
    String(String),
}

} // verus!
