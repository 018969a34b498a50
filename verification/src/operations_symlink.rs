//! The commands gup puts in its bin directory: links to gup itself, which then acts as a
//! multiplexer. Creating and removing the links is left to the caller.
use vstd::prelude::*;

use crate::global_paths::{path_join, spec_path_join, GupGlobalPaths};
use crate::project_metadata_m::ProjectMetadata;
use crate::text::{concat2, str_eq};

verus! {

/// Where the link for the command `executable_name` lies: in gup's bin directory.
pub fn executable_symlink_path(executable_name: &str, paths: &GupGlobalPaths) -> (r: String)
    ensures
        r@ == spec_path_join(spec_path_join(paths@.guphome, "bin"@), executable_name@),
{
    let dir = paths.gup_bin_dir();
    path_join(dir.as_str(), executable_name)
}

/// The command name for executable `exe_name` of a project: the project's own name when
/// the project has this one executable and it is the default, else
/// `<project>_<executable>`.
pub open spec fn command_name(project_name: Seq<char>, metadata: &ProjectMetadata, exe_name: Seq<char>) -> Seq<char> {
    if metadata.executables@.len() == 1 && (metadata.default_executable_name matches Some(d) && d@ == exe_name) {
        project_name
    } else {
        project_name + "_"@ + exe_name
    }
}

/// The command names linked for the executables of a project, in the order of its
/// metadata.
pub fn default_symlink_names(project_name: &str, metadata: &ProjectMetadata) -> (r: Vec<String>)
    ensures
        r@.len() == metadata.executables@.len(),
        forall|i: int|
            0 <= i < r@.len() ==> #[trigger] r@[i]@ == command_name(project_name@, metadata, metadata.executables@[i].name@),
{
    let n = metadata.executables.len();
    let mut out: Vec<String> = Vec::new();
    let mut i: usize = 0;
    while i < n
        invariant
            n == metadata.executables@.len(),
            i <= n,
            out@.len() == i,
            forall|j: int|
                0 <= j < i ==> #[trigger] out@[j]@ == command_name(project_name@, metadata, metadata.executables@[j].name@),
        decreases n - i,
    {
        let exe_name = metadata.executables[i].name.as_str();
        let is_default = match &metadata.default_executable_name {
            Some(d) => str_eq(d.as_str(), exe_name),
            None => false,
        };
        let name = if n == 1 && is_default {
            project_name.to_owned()
        } else {
            let prefix = concat2(project_name, "_");
            concat2(prefix.as_str(), exe_name)
        };
        out.push(name);
        i = i + 1;
    }
    out
}

} // verus!
