//! Generation of TypeScript and Protobuf source text from schema descriptions.
pub mod exporter;
pub mod ir;
pub mod openapi;
pub mod text;
