//! Choosing the default version or channel of a project.
use vstd::prelude::*;

use crate::command_add::record_channel_at;
use crate::command_remove::{removal, Removed, RemoveRefused};
use crate::operations_metadata::{resolve_channel_to_version, spec_resolve, ResolveError, ResolveErrorView};
use crate::project_metadata_m::ProjectMetadata;
use crate::state_config::{now_rfc3339, ProjectLocalState};

verus! {

/// Why the default was left as it was.
#[derive(Debug, Clone)]
pub enum DefaultError {
    /// The name is neither a channel nor an available version.
    NotAVersionOrChannel,
    /// The name is a channel that does not resolve.
    Unresolvable(ResolveError),
    /// The name resolves to `version`, which is not installed.
    NotInstalled { version: String },
    /// The name is a channel, and the clock gives no time to record when it was checked.
    ClockUnavailable,
}

/// What making `name` the default does: from the state `before` it leaves `after` and
/// returns `r`.
///
/// `name` must be a channel or an available version, and the version it resolves to must
/// be installed; then `name` becomes the default and that version is returned (for a
/// channel, unless the clock gives no time to record it, and nothing changes). A channel
/// made the default is tracked from then on: its entry among the active channels records
/// the version it resolved to.
pub open spec fn defaulting(
    metadata: &ProjectMetadata,
    before: ProjectLocalState,
    after: ProjectLocalState,
    name: Seq<char>,
    r: Result<String, DefaultError>,
) -> bool {
    let is_channel = metadata.channels.spec_map().contains_key(name);
    let resolved = spec_resolve(name, metadata);
    &&& !is_channel && !metadata.available_versions.spec_map().contains_key(name) ==> r is Err
        && r->Err_0 is NotAVersionOrChannel
    &&& is_channel && resolved is Err ==> r is Err && r->Err_0 is Unresolvable
        && Err::<Seq<char>, ResolveErrorView>(r->Err_0->Unresolvable_0@) == resolved
    &&& resolved is Ok && !before.installed_versions.spec_map().contains_key(resolved->Ok_0) ==> r is Err
        && r->Err_0 is NotInstalled && r->Err_0->version@ == resolved->Ok_0
    &&& resolved is Ok && before.installed_versions.spec_map().contains_key(resolved->Ok_0) ==> (r is Ok
        && r->Ok_0@ == resolved->Ok_0) || (is_channel && r is Err && r->Err_0 is ClockUnavailable)
    &&& r is Err && r->Err_0 is ClockUnavailable ==> is_channel && resolved is Ok
        && before.installed_versions.spec_map().contains_key(resolved->Ok_0)
    &&& r is Err ==> after == before
    &&& r is Ok ==> (after.default_version_or_channel_name matches Some(d) && d@ == name)
    &&& r is Ok && is_channel ==> {
        &&& after.active_channels.spec_map().dom() == before.active_channels.spec_map().dom().insert(name)
        &&& after.active_channels.spec_map()[name].resolved_version@ == r->Ok_0@
        &&& forall|k: Seq<char>| k != name && #[trigger] before.active_channels.spec_map().contains_key(k)
            ==> after.active_channels.spec_map()[k] == before.active_channels.spec_map()[k]
    }
    &&& !(r is Ok && is_channel) ==> after.active_channels == before.active_channels
    &&& after.installed_versions == before.installed_versions
    &&& after.linked_paths == before.linked_paths
    &&& after.overrides == before.overrides
}

/// What making `name` the default at the time stamp `last_checked` does: as
/// [`defaulting`] describes, where it never fails for want of a time, and a channel made
/// the default is recorded as checked at `last_checked`.
pub open spec fn defaulting_at(
    metadata: &ProjectMetadata,
    before: ProjectLocalState,
    after: ProjectLocalState,
    name: Seq<char>,
    last_checked: Seq<char>,
    r: Result<String, DefaultError>,
) -> bool {
    &&& defaulting(metadata, before, after, name, r)
    &&& !(r is Err && r->Err_0 is ClockUnavailable)
    &&& r is Ok && metadata.channels.spec_map().contains_key(name) ==> after.active_channels.spec_map()[name].last_checked@
        == last_checked
}

/// The version that making `name` the default would use, with the errors of
/// [`defaulting`]; nothing is changed.
fn default_target(metadata: &ProjectMetadata, state: &ProjectLocalState, name: &str) -> (r: Result<String, DefaultError>)
    ensures
        !(r is Err && r->Err_0 is ClockUnavailable),
        r matches Ok(v) ==> spec_resolve(name@, metadata) == Ok::<Seq<char>, ResolveErrorView>(v@)
            && state.installed_versions.spec_map().contains_key(v@)
            && (metadata.channels.spec_map().contains_key(name@) || metadata.available_versions.spec_map().contains_key(name@)),
        r is Err ==> defaulting(metadata, *state, *state, name@, r),
{
    let concrete = if metadata.channels.contains_key(name) {
        match resolve_channel_to_version(name, metadata) {
            Ok(v) => v,
            Err(e) => {
                return Err(DefaultError::Unresolvable(e));
            },
        }
    } else if metadata.available_versions.contains_key(name) {
        name.to_owned()
    } else {
        return Err(DefaultError::NotAVersionOrChannel);
    };
    if !state.installed_versions.contains_key(concrete.as_str()) {
        return Err(DefaultError::NotInstalled { version: concrete });
    }
    Ok(concrete)
}

/// Makes `name` the project's default at the time stamp `last_checked`, as
/// [`defaulting_at`] describes.
pub fn set_default_at(metadata: &ProjectMetadata, state: &mut ProjectLocalState, name: &str, last_checked: String) -> (r: Result<
    String,
    DefaultError,
>)
    ensures
        defaulting_at(metadata, *old(state), *final(state), name@, last_checked@, r),
{
    let concrete = match default_target(metadata, state, name) {
        Ok(v) => v,
        Err(e) => {
            return Err(e);
        },
    };
    if metadata.channels.contains_key(name) {
        record_channel_at(state, name, concrete.as_str(), last_checked);
    }
    state.default_version_or_channel_name = Some(name.to_owned());
    Ok(concrete)
}

/// Makes `name` the project's default, as [`defaulting`] describes: as
/// [`set_default_at`] does with the clock's time stamp where `name` is a channel.
pub fn set_default(metadata: &ProjectMetadata, state: &mut ProjectLocalState, name: &str) -> (r: Result<
    String,
    DefaultError,
>)
    ensures
        defaulting(metadata, *old(state), *final(state), name@, r),
{
    match default_target(metadata, state, name) {
        Ok(_) => {},
        Err(e) => {
            return Err(e);
        },
    }
    if metadata.channels.contains_key(name) {
        match now_rfc3339() {
            Some(stamp) => set_default_at(metadata, state, name, stamp),
            None => Err(DefaultError::ClockUnavailable),
        }
    } else {
        set_default_at(metadata, state, name, String::new())
    }
}

/// A version (not a channel) made the default cannot be removed afterwards (unless a link of the same
/// name is removed in its place): removal is refused and the state stays as it was.
pub proof fn law_default_version_is_kept(
    metadata: &ProjectMetadata,
    s0: ProjectLocalState,
    s1: ProjectLocalState,
    s2: ProjectLocalState,
    version: Seq<char>,
    r1: Result<String, DefaultError>,
    r2: Result<Removed, RemoveRefused>,
)
    requires
        defaulting(metadata, s0, s1, version, r1),
        r1 is Ok,
        !metadata.channels.spec_map().contains_key(version),
        !s1.linked_paths.spec_map().contains_key(version),
        removal(metadata, s1, s2, version, r2),
    ensures
        r2 is Err && r2->Err_0 is IsDefault,
        s2 == s1,
{
}

} // verus!
