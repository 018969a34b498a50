//! Linking a custom executable under a name of a project.
//!
//! The library checks the name and records the link; the caller makes the path absolute,
//! warns about a path that is not an existing file, saves the state and creates the
//! symlink.
use vstd::prelude::*;

use crate::command_remove::{removal, Removed, RemoveRefused};
use crate::project_metadata_m::ProjectMetadata;
use crate::state_config::{LinkedProjectInfo, ProjectLocalState};
use crate::text::{clone_strings, seq_views};

verus! {

/// Why a link name cannot be used.
#[derive(Debug, Clone, Copy, PartialEq, Eq)]
pub enum LinkError {
    /// The project has a link of that name already.
    AlreadyLinked,
    /// The project has an installed version of that name.
    InstalledVersion,
}

/// What a usable link name hides; the link takes precedence.
#[derive(Debug, Clone, Copy, PartialEq, Eq)]
pub struct LinkWarnings {
    /// The name is also a channel of the metadata.
    pub shadows_channel: bool,
    /// The name is also an available version.
    pub shadows_version: bool,
}

/// Checks that `link_name` can name a new link of the project.
pub fn check_link_name(metadata: &ProjectMetadata, state: &ProjectLocalState, link_name: &str) -> (r: Result<
    LinkWarnings,
    LinkError,
>)
    ensures
        state.linked_paths.spec_map().contains_key(link_name@) ==> r == Err::<LinkWarnings, LinkError>(
            LinkError::AlreadyLinked,
        ),
        !state.linked_paths.spec_map().contains_key(link_name@) && state.installed_versions.spec_map().contains_key(
            link_name@,
        ) ==> r == Err::<LinkWarnings, LinkError>(LinkError::InstalledVersion),
        !state.linked_paths.spec_map().contains_key(link_name@) && !state.installed_versions.spec_map().contains_key(
            link_name@,
        ) ==> r == Ok::<LinkWarnings, LinkError>(
            LinkWarnings {
                shadows_channel: metadata.channels.spec_map().contains_key(link_name@),
                shadows_version: metadata.available_versions.spec_map().contains_key(link_name@),
            },
        ),
{
    if state.linked_paths.contains_key(link_name) {
        return Err(LinkError::AlreadyLinked);
    }
    if state.installed_versions.contains_key(link_name) {
        return Err(LinkError::InstalledVersion);
    }
    Ok(LinkWarnings {
        shadows_channel: metadata.channels.contains_key(link_name),
        shadows_version: metadata.available_versions.contains_key(link_name),
    })
}

/// What recording the link `link_name` to `command_path` with `args` does to the state
/// `before`: the link is set (no arguments are stored as none) and the rest stays.
pub open spec fn link_recorded(
    before: ProjectLocalState,
    after: ProjectLocalState,
    link_name: Seq<char>,
    command_path: Seq<char>,
    args: Seq<Seq<char>>,
) -> bool {
    let m = after.linked_paths.spec_map();
    &&& m.dom() == before.linked_paths.spec_map().dom().insert(link_name)
    &&& m[link_name].command_path@ == command_path
    &&& args.len() == 0 ==> m[link_name].arguments is None
    &&& args.len() > 0 ==> (m[link_name].arguments matches Some(a) && seq_views(a@) == args)
    &&& forall|k: Seq<char>| k != link_name && #[trigger] before.linked_paths.spec_map().contains_key(k)
        ==> m[k] == before.linked_paths.spec_map()[k]
    &&& after.installed_versions == before.installed_versions
    &&& after.active_channels == before.active_channels
    &&& after.overrides == before.overrides
    &&& after.default_version_or_channel_name == before.default_version_or_channel_name
}

/// Records the link `link_name` to the executable at `command_path`, called with `args`
/// before the arguments given at each call, as [`link_recorded`] describes.
pub fn record_link(state: &mut ProjectLocalState, link_name: &str, command_path: &str, args: &Vec<String>)
    ensures
        link_recorded(*old(state), *final(state), link_name@, command_path@, seq_views(args@)),
{
    let arguments = if args.len() == 0 {
        None
    } else {
        Some(clone_strings(args))
    };
    let info = LinkedProjectInfo { command_path: command_path.to_owned(), arguments };
    state.linked_paths.insert(link_name.to_owned(), info);
}

/// Law: removing a link right after creating it under a new name gives back the links
/// as they were, and leaves the rest of the state as it was before the link.
pub proof fn law_link_then_remove_restores(
    metadata: &ProjectMetadata,
    s0: ProjectLocalState,
    s1: ProjectLocalState,
    s2: ProjectLocalState,
    link_name: Seq<char>,
    command_path: Seq<char>,
    args: Seq<Seq<char>>,
    r: Result<Removed, RemoveRefused>,
)
    requires
        !s0.linked_paths.spec_map().contains_key(link_name),
        link_recorded(s0, s1, link_name, command_path, args),
        removal(metadata, s1, s2, link_name, r),
    ensures
        r is Ok && r->Ok_0 is Link,
        s2.linked_paths.spec_map() == s0.linked_paths.spec_map(),
        s2.installed_versions == s0.installed_versions,
        s2.active_channels == s0.active_channels,
        s2.overrides == s0.overrides,
        s2.default_version_or_channel_name == s0.default_version_or_channel_name,
{
    let m0 = s0.linked_paths.spec_map();
    let m2 = s2.linked_paths.spec_map();
    assert(m2.dom() =~= m0.dom());
    assert(m2 =~= m0);
}

} // verus!
