//! A TypeScript gRPC client for the representation.
use vstd::prelude::*;
use vstd::string::StringExecFns;
use crate::ir::IntermediateRepresentation;

verus! {

pub struct TypescriptGRPCClient {}

impl TypescriptGRPCClient {
    /// The client file: for now only its import placeholder, whatever `ir` holds.
    pub fn export(ir: &IntermediateRepresentation) -> (r: Result<String, &'static str>)
        ensures
            r matches Ok(s) && s@ == "//todo: Import"@,
    {
        Ok(String::from_str("//todo: Import"))
    }
}

} // verus!
