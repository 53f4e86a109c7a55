//! Extraction of named fields from fixed-column text records.
//!
//! A schema declares, per field, the 1-based line it lives on and the
//! 1-based column range to slice.  The schema is validated once (per-line
//! overlap detection), compiled into an extraction plan, and the plan is
//! then applied to raw text, producing either a name-to-substring record
//! or a descriptive failure.

use vstd::prelude::*;

pub mod extract;
pub mod laws;
pub mod lines;
pub mod registry;
pub mod schema;
pub mod validate;

pub use extract::{extract, ParseError, Record, RecordEntry};
pub use lines::split_lines;
pub use registry::{ParsingStructure, PlannedField};
pub use validate::{validate_and_compile, CompiledField, CompiledSchema};

verus! {

/// A record type that can be populated from fixed-column text.
///
/// Implementations are supplied by users of the library: a typical one
/// declares a [`Schema`] for its fields, runs [`validate_and_compile`]
/// once, and maps the [`Record`] produced by [`extract`] onto its own
/// fields.
pub trait CardParse where Self: core::marker::Sized {
    fn cardparse(s: &str) -> Result<Self, ParseError>;
}

} // verus!
pub use schema::{compile, ExtractionPlan, FieldDecl, LocDecl, LocationKey, Schema, SchemaError};
