//! The hidden `api` command, which gup does not support.
use vstd::prelude::*;

use crate::global_paths::GupGlobalPaths;
use crate::text::concat2;

verus! {

/// The refusal of an `api` command.
pub open spec fn api_refusal(command: Seq<char>) -> Seq<char> {
    "API command '"@ + command + "' is not supported in gup. This was a Julia-specific feature."@
}

/// Refuses the `api` command `command`: it always fails, with a message that names it.
pub fn run_command_api(command: &str, _paths: &GupGlobalPaths) -> (r: Result<(), String>)
    ensures
        r is Err && r->Err_0@ == api_refusal(command@),
{
    let head = concat2("API command '", command);
    Err(concat2(head.as_str(), "' is not supported in gup. This was a Julia-specific feature."))
}

} // verus!
