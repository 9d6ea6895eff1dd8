//! Build-time generator turning a database server's catalog snapshots of
//! built-in types and of range subtypes into one generated source artifact:
//! an enumeration of the types with lookup, classification and accessor
//! logic.
//!
//! The pipeline runs strictly forward: raw snapshot text, to a range table,
//! to a cross-referenced type catalog with derived variant labels, to the
//! generated text. Every stage is a function of its inputs alone, so the
//! whole run is deterministic; any malformed row, duplicate key or dangling
//! cross-reference aborts the run with an error before any text is handed
//! out.

pub mod catalog;
pub mod emit;
pub mod escape;
pub mod names;
pub mod ranges;
pub mod text;
