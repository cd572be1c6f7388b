//! The error taxonomy of the extraction core: every failure is a returned
//! tagged value, never a panic.
use vstd::prelude::*;

verus! {

/// A recoverable extraction or transport failure.
///
/// The first four variants name the entity field (and, where relevant, the
/// markup attribute) whose extraction failed; `NotFound` carries the
/// identifier that was requested from the transport, and `TransportError`
/// the HTTP status that was neither success nor a plain miss.
#[derive(Debug, PartialEq, Eq)]
pub enum ExtractionError {
    MissingElement(String),
    MissingAttribute(String, String),
    InvalidNumber(String),
    StructuralError(String),
    NotFound(String),
    TransportError(u16),
}

/// The mathematical image of an `ExtractionError`.
pub enum ErrorV {
    MissingElement(Seq<char>),
    MissingAttribute(Seq<char>, Seq<char>),
    InvalidNumber(Seq<char>),
    StructuralError(Seq<char>),
    NotFound(Seq<char>),
    TransportError(u16),
}

impl View for ExtractionError {
    type V = ErrorV;

    open spec fn view(&self) -> ErrorV {
        match self {
            ExtractionError::MissingElement(f) => ErrorV::MissingElement(f@),
            ExtractionError::MissingAttribute(f, a) => ErrorV::MissingAttribute(f@, a@),
            ExtractionError::InvalidNumber(f) => ErrorV::InvalidNumber(f@),
            ExtractionError::StructuralError(c) => ErrorV::StructuralError(c@),
            ExtractionError::NotFound(id) => ErrorV::NotFound(id@),
            ExtractionError::TransportError(c) => ErrorV::TransportError(*c),
        }
    }
}

} // verus!
