//! Removing an installed version or a link from a project.
//!
//! The library decides what goes and updates the project state; the caller deletes the
//! version's directory or the link's symlink, collects garbage and saves the state.
use vstd::prelude::*;

use crate::operations_metadata::{resolve_channel_to_version, spec_resolve, ResolveErrorView};
use crate::project_metadata_m::ProjectMetadata;
use crate::state_config::ProjectLocalState;
use crate::text::str_eq;

verus! {

/// Some tracked channel last resolved to `name`.
pub open spec fn channel_uses(state: &ProjectLocalState, name: Seq<char>) -> bool {
    exists|k: Seq<char>|
        #[trigger] state.active_channels.spec_map().contains_key(k)
            && state.active_channels.spec_map()[k].resolved_version@ == name
}

/// Some directory override resolves to `name`.
pub open spec fn override_uses(metadata: &ProjectMetadata, state: &ProjectLocalState, name: Seq<char>) -> bool {
    exists|j: int|
        0 <= j < state.overrides@.len() && spec_resolve(#[trigger] state.overrides@[j].version_or_channel@, metadata)
            == Ok::<Seq<char>, ResolveErrorView>(name)
}

/// A tracked channel that last resolved to `name`, if there is one.
pub fn channel_using(state: &ProjectLocalState, name: &str) -> (r: Option<String>)
    ensures
        match r {
            Some(c) => state.active_channels.spec_map().contains_key(c@)
                && state.active_channels.spec_map()[c@].resolved_version@ == name@,
            None => !channel_uses(state, name@),
        },
{
    proof {
        use_type_invariant(&state.active_channels);
        state.active_channels.lemma_walk();
    }
    let n = state.active_channels.len();
    let ghost ks = state.active_channels.key_seq();
    let mut i: usize = 0;
    while i < n
        invariant
            n == ks.len(),
            ks == state.active_channels.key_seq(),
            state.active_channels.spec_map().dom() == ks.to_set(),
            forall|j: int| 0 <= j < ks.len() ==> #[trigger] state.active_channels.spec_map()[ks[j]]
                == state.active_channels.value_seq()[j],
            i <= n,
            forall|j: int| 0 <= j < i ==> state.active_channels.spec_map()[#[trigger] ks[j]].resolved_version@ != name@,
        decreases n - i,
    {
        let info = state.active_channels.value_at(i);
        if str_eq(info.resolved_version.as_str(), name) {
            let key = state.active_channels.key_at(i);
            proof {
                assert(ks.to_set().contains(ks[i as int]));
            }
            return Some(key.clone());
        }
        i = i + 1;
    }
    proof {
        if channel_uses(state, name@) {
            let k = choose|k: Seq<char>|
                #[trigger] state.active_channels.spec_map().contains_key(k)
                    && state.active_channels.spec_map()[k].resolved_version@ == name@;
            assert(ks.to_set().contains(k));
            let j = choose|j: int| 0 <= j < ks.len() && ks[j] == k;
            assert(state.active_channels.spec_map()[ks[j]].resolved_version@ != name@);
        }
    }
    None
}

/// The path of a directory override that resolves to `name`, if there is one.
pub fn override_using(metadata: &ProjectMetadata, state: &ProjectLocalState, name: &str) -> (r: Option<String>)
    ensures
        match r {
            Some(p) => exists|j: int|
                0 <= j < state.overrides@.len() && state.overrides@[j].path@ == p@ && spec_resolve(
                    #[trigger] state.overrides@[j].version_or_channel@,
                    metadata,
                ) == Ok::<Seq<char>, ResolveErrorView>(name@),
            None => !override_uses(metadata, state, name@),
        },
{
    let n = state.overrides.len();
    let mut i: usize = 0;
    while i < n
        invariant
            n == state.overrides@.len(),
            i <= n,
            forall|j: int|
                0 <= j < i ==> spec_resolve(#[trigger] state.overrides@[j].version_or_channel@, metadata)
                    != Ok::<Seq<char>, ResolveErrorView>(name@),
        decreases n - i,
    {
        let ov = &state.overrides[i];
        match resolve_channel_to_version(ov.version_or_channel.as_str(), metadata) {
            Ok(v) => {
                if str_eq(v.as_str(), name) {
                    proof {
                        assert(spec_resolve(state.overrides@[i as int].version_or_channel@, metadata)
                            == Ok::<Seq<char>, ResolveErrorView>(name@));
                    }
                    return Some(ov.path.clone());
                }
            },
            Err(_) => {},
        }
        i = i + 1;
    }
    None
}

/// What was removed from the state.
#[derive(Debug, Clone)]
pub enum Removed {
    /// A link; its symlink is to be deleted.
    Link,
    /// An installed version, stored in the directory `path_segment`.
    Version { path_segment: String },
}

/// Why nothing was removed.
#[derive(Debug, Clone)]
pub enum RemoveRefused {
    /// The version is the project's default.
    IsDefault,
    /// A tracked channel resolves to the version.
    UsedByChannel { channel: String },
    /// A directory override resolves to the version.
    UsedByOverride { path: String },
    /// The name is neither a link nor an installed version.
    NotInstalled,
}

/// What removing `name` does: from the state `before` it leaves `after` and returns `r`.
///
/// A link of that name goes first. An installed version stays when it is the default,
/// when a tracked channel last resolved to it or when a directory override resolves to
/// it; otherwise it is forgotten and its directory name returned.
pub open spec fn removal(
    metadata: &ProjectMetadata,
    before: ProjectLocalState,
    after: ProjectLocalState,
    name: Seq<char>,
    r: Result<Removed, RemoveRefused>,
) -> bool {
    let is_link = before.linked_paths.spec_map().contains_key(name);
    let is_installed = before.installed_versions.spec_map().contains_key(name);
    let is_default = (before.default_version_or_channel_name matches Some(d) && d@ == name);
    &&& is_link ==> r is Ok && r->Ok_0 is Link
        && after.linked_paths.spec_map() == before.linked_paths.spec_map().remove(name)
        && after.installed_versions == before.installed_versions
        && after.active_channels == before.active_channels
        && after.overrides == before.overrides
        && after.default_version_or_channel_name == before.default_version_or_channel_name
    &&& !is_link && !is_installed ==> r is Err && r->Err_0 is NotInstalled
    &&& !is_link && is_installed && is_default ==> r is Err && r->Err_0 is IsDefault
    &&& !is_link && is_installed && !is_default && channel_uses(&before, name) ==> r is Err
        && r->Err_0 is UsedByChannel
        && before.active_channels.spec_map().contains_key(r->Err_0->channel@)
        && before.active_channels.spec_map()[r->Err_0->channel@].resolved_version@ == name
    &&& !is_link && is_installed && !is_default && !channel_uses(&before, name) && override_uses(metadata, &before, name)
        ==> r is Err && r->Err_0 is UsedByOverride && exists|j: int|
        0 <= j < before.overrides@.len() && before.overrides@[j].path@ == r->Err_0->path@
            && spec_resolve(#[trigger] before.overrides@[j].version_or_channel@, metadata)
            == Ok::<Seq<char>, ResolveErrorView>(name)
    &&& r is Err ==> after == before
    &&& !is_link && is_installed && !is_default && !channel_uses(&before, name) && !override_uses(metadata, &before, name)
        ==> r is Ok && r->Ok_0 is Version
        && r->Ok_0->path_segment@ == before.installed_versions.spec_map()[name].path_segment@
        && after.installed_versions.spec_map() == before.installed_versions.spec_map().remove(name)
        && after.linked_paths == before.linked_paths
        && after.active_channels == before.active_channels
        && after.overrides == before.overrides
        && after.default_version_or_channel_name == before.default_version_or_channel_name
}

/// Removes the link or installed version `name` from the project's state, as [`removal`]
/// describes.
pub fn remove_from_state(metadata: &ProjectMetadata, state: &mut ProjectLocalState, name: &str) -> (r: Result<
    Removed,
    RemoveRefused,
>)
    ensures
        removal(metadata, *old(state), *final(state), name@, r),
{
    if state.linked_paths.contains_key(name) {
        state.linked_paths.remove(name);
        return Ok(Removed::Link);
    }
    let segment = match state.installed_versions.get(name) {
        Some(info) => info.path_segment.clone(),
        None => {
            return Err(RemoveRefused::NotInstalled);
        },
    };
    if let Some(d) = &state.default_version_or_channel_name {
        if str_eq(d.as_str(), name) {
            return Err(RemoveRefused::IsDefault);
        }
    }
    if let Some(channel) = channel_using(state, name) {
        return Err(RemoveRefused::UsedByChannel { channel });
    }
    if let Some(path) = override_using(metadata, state, name) {
        return Err(RemoveRefused::UsedByOverride { path });
    }
    state.installed_versions.remove(name);
    Ok(Removed::Version { path_segment: segment })
}

} // verus!
