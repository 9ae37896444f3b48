//! The errors of declaration checking, schema building and decoding.
use vstd::prelude::*;

verus! {

/// Model of a decode error.
pub enum ParseErrView {
    ExpectedType(crate::json::JVal),
    Custom(Seq<char>),
}

/// Error returned by a decoder.  A union's own decoder only ever produces
/// `ExpectedType`; an error of a payload type's decoder is carried through
/// unchanged, whatever its variant.
#[derive(Debug, PartialEq, Eq)]
pub enum ParseError {
    /// The document could not be the expected type: it is not an object,
    /// lacks the discriminator property, or carries a discriminator value
    /// that matches no declared tag.  The rejected document is carried
    /// for diagnostics.
    ExpectedType(crate::json::Json),
    /// A failure described by a payload type's own decoder.
    Custom(String),
}

impl View for ParseError {
    type V = ParseErrView;

    open spec fn view(&self) -> ParseErrView {
        match self {
            ParseError::ExpectedType(v) => ParseErrView::ExpectedType(v@),
            ParseError::Custom(m) => ParseErrView::Custom(m@),
        }
    }
}

/// A fault in the union declaration itself, found before any schema is
/// built or any value is decoded.
#[derive(Debug, PartialEq, Eq)]
pub enum DeclarationError {
    /// The named case does not wrap exactly one payload type.
    InvalidCaseShape(String),
}

/// A fault found while building the schema component.
#[derive(Debug, PartialEq, Eq)]
pub enum SchemaConstructionError {
    /// A case with an explicit tag needs a payload with a named schema
    /// reference for the discriminator mapping, but the payload's schema
    /// is inline.
    NotAReference,
}

/// Any fault found at definition time, before a union type exists.
#[derive(Debug, PartialEq, Eq)]
pub enum DefinitionError {
    Declaration(DeclarationError),
    Schema(SchemaConstructionError),
}

} // verus!
