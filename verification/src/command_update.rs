//! Updating the channels of a project to the versions they resolve to now.
//!
//! For each channel the library resolves the version and decides whether it must be
//! installed; the caller installs it and then records the channel
//! ([`crate::command_add::record_channel`]).
use vstd::prelude::*;
use vstd::relations::sorted_by;

use crate::command_add::channel_recorded;
use crate::operations_metadata::{resolve_channel_to_version, spec_resolve, ResolveError, ResolveErrorView};
use crate::ordering::{lemma_string_order_total, sort_strings, string_order};
use crate::project_metadata_m::ProjectMetadata;
use crate::state_config::ProjectLocalState;
use crate::text::{lemma_seq_views_push, seq_views, str_eq};

verus! {

/// The channels that an update of all channels visits, before sorting: the tracked
/// channels, and the default when it is a channel that is not tracked.
pub open spec fn update_candidates(metadata: &ProjectMetadata, state: &ProjectLocalState) -> Seq<Seq<char>> {
    match state.default_version_or_channel_name {
        Some(d) => if metadata.channels.spec_map().contains_key(d@) && !state.active_channels.spec_map().contains_key(
            d@,
        ) {
            state.active_channels.key_seq().push(d@)
        } else {
            state.active_channels.key_seq()
        },
        None => state.active_channels.key_seq(),
    }
}

/// The channels an update of all channels visits, in the order of strings: each tracked
/// channel, and the default when it is a channel, once each.
pub fn channels_to_update(metadata: &ProjectMetadata, state: &ProjectLocalState) -> (r: Vec<String>)
    ensures
        seq_views(r@) == update_candidates(metadata, state).sort_by(string_order()),
        sorted_by(seq_views(r@), string_order()),
        forall|c: Seq<char>|
            seq_views(r@).contains(c) <==> (state.active_channels.spec_map().contains_key(c) || (
            state.default_version_or_channel_name matches Some(d) && d@ == c && metadata.channels.spec_map().contains_key(
                c,
            ))),
{
    proof {
        use_type_invariant(&state.active_channels);
        state.active_channels.lemma_walk();
    }
    let mut names = state.active_channels.keys();
    proof {
        assert(seq_views(names@) =~= state.active_channels.key_seq());
    }
    if let Some(d) = &state.default_version_or_channel_name {
        if metadata.channels.contains_key(d.as_str()) && !state.active_channels.contains_key(d.as_str()) {
            let ghost before = names@;
            names.push(d.clone());
            proof {
                lemma_seq_views_push(before, names@[names@.len() - 1]);
                assert(names@ == before.push(names@[names@.len() - 1]));
            }
        }
    }
    let sorted = sort_strings(&names);
    proof {
        let cands = update_candidates(metadata, state);
        assert(seq_views(names@) == cands);
        lemma_string_order_total();
        cands.lemma_sort_by_ensures(string_order());
        let out = seq_views(sorted@);
        assert forall|c: Seq<char>| out.contains(c) <==> cands.contains(c) by {
            out.to_multiset_ensures();
            cands.to_multiset_ensures();
            assert(out == cands.sort_by(string_order()));
            assert(out.to_multiset().count(c) == cands.to_multiset().count(c));
        }
        assert forall|c: Seq<char>|
            cands.contains(c) <==> (state.active_channels.spec_map().contains_key(c) || (
            state.default_version_or_channel_name matches Some(d) && d@ == c && metadata.channels.spec_map().contains_key(
                c,
            ))) by {
            let ks = state.active_channels.key_seq();
            assert(ks.to_set().contains(c) <==> ks.contains(c));
            if let Some(d) = state.default_version_or_channel_name {
                if metadata.channels.spec_map().contains_key(d@) && !state.active_channels.spec_map().contains_key(d@) {
                    if cands.contains(c) && !ks.contains(c) {
                        let j = choose|j: int| 0 <= j < cands.len() && cands[j] == c;
                        assert(j == ks.len());
                    }
                    if ks.contains(c) {
                        let j = choose|j: int| 0 <= j < ks.len() && ks[j] == c;
                        assert(cands[j] == c);
                    }
                    if c == d@ {
                        assert(cands[ks.len() as int] == c);
                    }
                }
            }
        }
    }
    sorted
}

/// Why a named channel cannot be updated.
#[derive(Debug, Clone)]
pub enum UpdateError {
    /// The name is neither a channel nor an available version.
    NotFound,
    /// The name does not resolve.
    Unresolvable(ResolveError),
}

/// The version that the named channel (or version) resolves to now.
pub fn update_target(metadata: &ProjectMetadata, name: &str) -> (r: Result<String, UpdateError>)
    ensures
        !metadata.channels.spec_map().contains_key(name@) && !metadata.available_versions.spec_map().contains_key(name@)
            ==> r is Err && r->Err_0 is NotFound,
        metadata.channels.spec_map().contains_key(name@) || metadata.available_versions.spec_map().contains_key(name@)
            ==> match spec_resolve(name@, metadata) {
            Ok(v) => r is Ok && r->Ok_0@ == v,
            Err(e) => r is Err && r->Err_0 is Unresolvable && r->Err_0->Unresolvable_0@ == e,
        },
{
    if !metadata.channels.contains_key(name) && !metadata.available_versions.contains_key(name) {
        return Err(UpdateError::NotFound);
    }
    match resolve_channel_to_version(name, metadata) {
        Ok(v) => Ok(v),
        Err(e) => Err(UpdateError::Unresolvable(e)),
    }
}

/// The channel is tracked at `version`, and that version is installed.
pub open spec fn channel_current(state: &ProjectLocalState, channel: Seq<char>, version: Seq<char>) -> bool {
    &&& state.active_channels.spec_map().contains_key(channel)
    &&& state.active_channels.spec_map()[channel].resolved_version@ == version
    &&& state.installed_versions.spec_map().contains_key(version)
}

/// Whether the channel must be brought to `version`: it is not tracked at that version,
/// or that version is not installed.
pub fn needs_update(state: &ProjectLocalState, channel: &str, version: &str) -> (r: bool)
    ensures
        r == !channel_current(state, channel@, version@),
{
    let current_matches = match state.active_channels.get(channel) {
        Some(info) => str_eq(info.resolved_version.as_str(), version),
        None => false,
    };
    !current_matches || !state.installed_versions.contains_key(version)
}

/// Law: once a channel is recorded at an installed version, it needs no update to that
/// version.
pub proof fn law_recorded_channel_is_current(
    s0: ProjectLocalState,
    s1: ProjectLocalState,
    channel: Seq<char>,
    version: Seq<char>,
)
    requires
        channel_recorded(s0, s1, channel, version),
        s0.installed_versions.spec_map().contains_key(version),
    ensures
        channel_current(&s1, channel, version),
{
}

} // verus!
