//! Client exporters.
pub mod grpc;
pub mod http;
