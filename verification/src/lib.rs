//! Schema, decoder and encoder derivation for discriminated unions.
//!
//! A discriminated union is described by a plain declaration: its cases,
//! each wrapping one payload type, and the name of the JSON property that
//! carries the tag telling the cases apart.  From one declaration the
//! library derives three artifacts that can never disagree: a
//! discriminated `oneOf` schema component, a decoder that reads the tag
//! and delegates the whole document to the matched payload type, and an
//! encoder that injects the tag into the payload's own JSON object.
//!
//! Payload types are outside collaborators reached through the
//! [`descriptor::TypeDescriptor`] interface; [`object_type::ObjectType`]
//! is a minimal payload type of the library's own.  Named schemas are
//! deduplicated by the shared [`schema::Registry`].
pub mod descriptor;
pub mod errors;
pub mod json;
pub mod laws;
pub mod object_type;
pub mod schema;
pub mod union;

pub use descriptor::TypeDescriptor;
pub use errors::DeclarationError;
pub use errors::DefinitionError;
pub use errors::ParseError;
pub use errors::SchemaConstructionError;
pub use json::JVal;
pub use json::Json;
pub use object_type::ObjectType;
pub use schema::Discriminator;
pub use schema::Registry;
pub use schema::SchemaComponent;
pub use schema::SchemaRef;
pub use union::CaseDeclaration;
pub use union::ResolvedCase;
pub use union::UnionDeclaration;
pub use union::UnionType;
pub use union::UnionValue;
pub use union::resolve;
pub use union::build_schema;
