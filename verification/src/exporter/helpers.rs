//! Naming conventions shared by the exporters.
use vstd::prelude::*;
use vstd::string::StringExecFns;

verus! {

/// The name of the interface generated for a schema named `name`.
pub open spec fn interface_name(name: Seq<char>) -> Seq<char> {
    "I"@ + name
}

pub struct Helpers {}

impl Helpers {
    /// The interface name for `name`: `name` behind the prefix `I`. Never fails.
    pub fn format_interface_name(name: &String) -> (r: Result<String, &'static str>)
        ensures
            r matches Ok(s) && s@ == interface_name(name@),
    {
        let mut out = String::from_str("I");
        out.append(name.as_str());
        Ok(out)
    }

    /// The variable name for `name`: `name` itself. Never fails.
    pub fn format_variable_name(name: &String) -> (r: Result<String, &'static str>)
        ensures
            r matches Ok(s) && s@ == name@,
    {
        Ok(name.clone())
    }

    /// The Protobuf message name for `name`: `name` itself. Never fails.
    pub fn format_message_name(name: &String) -> (r: Result<String, &'static str>)
        ensures
            r matches Ok(s) && s@ == name@,
    {
        Ok(name.clone())
    }
}

} // verus!
