//! Adding a version or channel to a project.
//!
//! The library finds the version to install and records the result; the caller installs
//! the version in between and saves the state.
use vstd::prelude::*;

use crate::operations_metadata::{resolve_channel_to_version, spec_resolve, ResolveError, ResolveErrorView};
use crate::project_metadata_m::ProjectMetadata;
use crate::state_config::{is_utc_stamp, now_rfc3339, ActiveChannelInfo, ClockUnavailable, ProjectLocalState};

verus! {

/// The version to install for an added name.
#[derive(Debug, Clone)]
pub struct AddTarget {
    /// The concrete version.
    pub version: String,
    /// Whether the name is a channel, which is then tracked.
    pub is_channel: bool,
}

/// Why a name cannot be added.
#[derive(Debug, Clone)]
pub enum AddError {
    /// The name is neither a channel nor an available version.
    NotAVersionOrChannel,
    /// The name is a channel that does not resolve.
    Unresolvable(ResolveError),
}

/// The version that adding `name` installs: a channel resolves, an available version is
/// itself.
pub fn add_target(metadata: &ProjectMetadata, name: &str) -> (r: Result<AddTarget, AddError>)
    ensures
        metadata.channels.spec_map().contains_key(name@) ==> match spec_resolve(name@, metadata) {
            Ok(v) => r is Ok && r->Ok_0.version@ == v && r->Ok_0.is_channel,
            Err(e) => r is Err && r->Err_0 is Unresolvable && r->Err_0->Unresolvable_0@ == e,
        },
        !metadata.channels.spec_map().contains_key(name@) && metadata.available_versions.spec_map().contains_key(name@)
            ==> r is Ok && r->Ok_0.version@ == name@ && !r->Ok_0.is_channel,
        !metadata.channels.spec_map().contains_key(name@) && !metadata.available_versions.spec_map().contains_key(name@)
            ==> r is Err && r->Err_0 is NotAVersionOrChannel,
{
    if metadata.channels.contains_key(name) {
        match resolve_channel_to_version(name, metadata) {
            Ok(v) => Ok(AddTarget { version: v, is_channel: true }),
            Err(e) => Err(AddError::Unresolvable(e)),
        }
    } else if metadata.available_versions.contains_key(name) {
        Ok(AddTarget { version: name.to_owned(), is_channel: false })
    } else {
        Err(AddError::NotAVersionOrChannel)
    }
}

/// What recording that `channel` resolves to `version` does to the state `before`.
pub open spec fn channel_recorded(
    before: ProjectLocalState,
    after: ProjectLocalState,
    channel: Seq<char>,
    version: Seq<char>,
) -> bool {
    &&& after.active_channels.spec_map().dom() == before.active_channels.spec_map().dom().insert(channel)
    &&& after.active_channels.spec_map()[channel].resolved_version@ == version
    &&& forall|k: Seq<char>| k != channel && #[trigger] before.active_channels.spec_map().contains_key(k)
        ==> after.active_channels.spec_map()[k] == before.active_channels.spec_map()[k]
    &&& after.installed_versions == before.installed_versions
    &&& after.linked_paths == before.linked_paths
    &&& after.overrides == before.overrides
    &&& after.default_version_or_channel_name == before.default_version_or_channel_name
}

/// Records that the channel `channel` resolves to `version`, as checked at the time stamp
/// `last_checked`.
pub fn record_channel_at(state: &mut ProjectLocalState, channel: &str, version: &str, last_checked: String)
    ensures
        channel_recorded(*old(state), *final(state), channel@, version@),
        final(state).active_channels.spec_map()[channel@].last_checked@ == last_checked@,
{
    let info = ActiveChannelInfo { resolved_version: version.to_owned(), last_checked };
    state.active_channels.insert(channel.to_owned(), info);
}

/// Records that the channel `channel` now resolves to `version`, as
/// [`record_channel_at`] does with the clock's time stamp in UTC; the state is left as it
/// was when the clock gives no time.
pub fn record_channel(state: &mut ProjectLocalState, channel: &str, version: &str) -> (r: Result<(), ClockUnavailable>)
    ensures
        r is Ok ==> channel_recorded(*old(state), *final(state), channel@, version@)
            && is_utc_stamp(final(state).active_channels.spec_map()[channel@].last_checked@),
        r is Err ==> *final(state) == *old(state),
{
    match now_rfc3339() {
        Some(stamp) => {
            record_channel_at(state, channel, version, stamp);
            Ok(())
        },
        None => Err(ClockUnavailable),
    }
}

/// Records an added name once its version is installed, a channel as checked at the time
/// stamp `last_checked` (unused for a version): as [`record_added_ok`] describes. Returns
/// whether the default was set.
pub fn record_added_at(state: &mut ProjectLocalState, name: &str, target: &AddTarget, last_checked: String) -> (default_set: bool)
    ensures
        record_added_ok(*old(state), *final(state), name@, *target, default_set),
        target.is_channel ==> final(state).active_channels.spec_map()[name@].last_checked@ == last_checked@,
{
    if target.is_channel {
        record_channel_at(state, name, target.version.as_str(), last_checked);
    }
    if state.default_version_or_channel_name.is_none() {
        state.default_version_or_channel_name = Some(name.to_owned());
        true
    } else {
        false
    }
}

/// Records an added name once its version is installed, as [`record_added_at`] does with
/// the clock's time stamp for a channel. Returns whether the default was set; for a
/// channel, fails and leaves the state as it was when the clock gives no time.
pub fn record_added(state: &mut ProjectLocalState, name: &str, target: &AddTarget) -> (r: Result<bool, ClockUnavailable>)
    ensures
        !target.is_channel ==> r is Ok,
        r is Err ==> *final(state) == *old(state),
        r matches Ok(default_set) ==> record_added_ok(*old(state), *final(state), name@, *target, default_set),
        r is Ok && target.is_channel ==> is_utc_stamp(final(state).active_channels.spec_map()[name@].last_checked@),
{
    if target.is_channel {
        match now_rfc3339() {
            Some(stamp) => Ok(record_added_at(state, name, target, stamp)),
            None => Err(ClockUnavailable),
        }
    } else {
        Ok(record_added_at(state, name, target, String::new()))
    }
}

/// What a successful [`record_added`] does: `default_set` tells whether the project had
/// no default and got `name`; a channel is tracked at the target's version.
pub open spec fn record_added_ok(
    before: ProjectLocalState,
    after: ProjectLocalState,
    name: Seq<char>,
    target: AddTarget,
    default_set: bool,
) -> bool {
    &&& default_set == (before.default_version_or_channel_name is None)
    &&& default_set ==> (after.default_version_or_channel_name matches Some(d) && d@ == name)
    &&& !default_set ==> after.default_version_or_channel_name == before.default_version_or_channel_name
    &&& target.is_channel ==> after.active_channels.spec_map().dom() == before.active_channels.spec_map().dom().insert(name)
        && after.active_channels.spec_map()[name].resolved_version@ == target.version@
        && forall|k: Seq<char>| k != name && #[trigger] before.active_channels.spec_map().contains_key(k)
        ==> after.active_channels.spec_map()[k] == before.active_channels.spec_map()[k]
    &&& !target.is_channel ==> after.active_channels == before.active_channels
    &&& after.installed_versions == before.installed_versions
    &&& after.linked_paths == before.linked_paths
    &&& after.overrides == before.overrides
}

} // verus!
