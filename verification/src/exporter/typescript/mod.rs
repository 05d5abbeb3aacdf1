//! TypeScript exporters for API documents.
pub mod http_server;
pub mod types;

pub use self::http_server::TSHTTPServer;
pub use self::types::TSTypes;

use vstd::prelude::*;
use crate::openapi::OpenAPI;
use self::http_server::server_export;
use self::types::types_export;

verus! {

pub struct TypescriptHTTP {}

impl TypescriptHTTP {
    /// The router file of `ir`, as `TSHTTPServer::export` writes it. Never fails.
    pub fn export_server(ir: &OpenAPI) -> (r: Result<String, String>)
        ensures
            r matches Ok(s) && s@ == server_export(*ir),
    {
        TSHTTPServer::export(ir)
    }

    /// The types file of `ir`, as `TSTypes::export` writes it. Never fails.
    pub fn export_types(ir: &OpenAPI) -> (r: Result<String, String>)
        ensures
            r matches Ok(s) && s@ == types_export(*ir),
    {
        TSTypes::export(ir)
    }
}

} // verus!
