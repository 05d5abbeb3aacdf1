//! The intermediate representation that the schema exporters read.
pub mod structure;

pub use self::structure::{lists_fit, FieldRestriction, Function, Interface, IntermediateRepresentation, Schema};
