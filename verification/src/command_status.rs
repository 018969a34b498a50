//! The tables of `gup status`: what a project has installed, tracks and links, with the
//! updates on offer, or a summary line per managed project. The caller prints them.
use vstd::prelude::*;
use vstd::string::StrSliceExecFns;

use crate::command_remove::{channel_using, channel_uses};
use crate::human::{all_fitting_digit_runs, human_sort_strings, human_sorted};
use crate::operations_metadata::{
    resolve_channel_to_version, semver_has_pre, semver_is_prerelease, semver_less, semver_lt, semver_parse_text,
    semver_text, spec_resolve, ResolveErrorView,
};
use crate::project_metadata_m::ProjectMetadata;
use crate::state_config::ProjectLocalState;
use crate::text::{concat2, join_strings, joined, lemma_same_multiset_contains, seq_views, str_eq};

verus! {

/// A row of the status table of a project.
#[derive(Debug, Clone)]
pub struct StatusRow {
    /// "*" for the default, " " otherwise.
    pub is_default_marker: String,
    pub name: String,
    /// "Version", "Channel" or "Link".
    pub item_type: String,
    pub details: String,
    pub update_available: String,
}

/// The marker of the default.
pub open spec fn marker_text(is_default: bool) -> Seq<char> {
    if is_default {
        "*"@
    } else {
        " "@
    }
}

fn marker(is_default: bool) -> (r: String)
    ensures
        r@ == marker_text(is_default),
{
    if is_default {
        "*".to_owned()
    } else {
        " ".to_owned()
    }
}

/// Whether the default names `name`.
fn is_default_name(state: &ProjectLocalState, name: &str) -> (r: bool)
    ensures
        r == (state.default_version_or_channel_name matches Some(d) && d@ == name@),
{
    match &state.default_version_or_channel_name {
        Some(d) => str_eq(d.as_str(), name),
        None => false,
    }
}

/// The date of an RFC 3339 time stamp: its first ten characters.
pub open spec fn date_part(stamp: Seq<char>) -> Seq<char> {
    if stamp.len() >= 10 {
        stamp.take(10)
    } else {
        stamp
    }
}

/// An available version that is a newer semantic version than `v`, and a pre-release
/// exactly when `v` is one.
pub open spec fn newer_direct_version(metadata: &ProjectMetadata, v: Seq<char>) -> bool {
    exists|j: int|
        0 <= j < metadata.available_versions.key_seq().len() && semver_text(
            #[trigger] metadata.available_versions.key_seq()[j],
        ) is Some && semver_lt(v, metadata.available_versions.key_seq()[j]) && semver_has_pre(
            metadata.available_versions.key_seq()[j],
        ) == semver_has_pre(v)
}

/// The update column of an installed version: a newer version is offered only for a
/// semantic version that no tracked channel uses.
pub open spec fn version_update_text(metadata: &ProjectMetadata, state: &ProjectLocalState, v: Seq<char>) -> Seq<char> {
    if !channel_uses(state, v) && semver_text(v) is Some && newer_direct_version(metadata, v) {
        "Yes (direct)"@
    } else {
        "-"@
    }
}

/// Whether some available version is newer than the semantic version `v` in the sense of
/// [`newer_direct_version`].
fn has_newer_direct_version(metadata: &ProjectMetadata, v: &str) -> (r: bool)
    requires
        semver_text(v@) is Some,
    ensures
        r == newer_direct_version(metadata, v@),
{
    let keys = metadata.available_versions.keys();
    let pre = semver_is_prerelease(v);
    let n = keys.len();
    let mut i: usize = 0;
    while i < n
        invariant
            n == keys@.len(),
            n == metadata.available_versions.key_seq().len(),
            forall|j: int| 0 <= j < n ==> #[trigger] keys@[j]@ == metadata.available_versions.key_seq()[j],
            semver_text(v@) is Some,
            pre == semver_has_pre(v@),
            i <= n,
            forall|j: int|
                0 <= j < i ==> !(semver_text(#[trigger] metadata.available_versions.key_seq()[j]) is Some && semver_lt(
                    v@,
                    metadata.available_versions.key_seq()[j],
                ) && semver_has_pre(metadata.available_versions.key_seq()[j]) == semver_has_pre(v@)),
        decreases n - i,
    {
        let k = keys[i].as_str();
        proof {
            assert(k@ == metadata.available_versions.key_seq()[i as int]);
        }
        if semver_parse_text(k).is_some() {
            if semver_less(v, k) && semver_is_prerelease(k) == pre {
                return true;
            }
        }
        i = i + 1;
    }
    false
}

/// The row of installed version `v`.
pub open spec fn version_status_row_matches(
    metadata: &ProjectMetadata,
    state: &ProjectLocalState,
    v: Seq<char>,
    row: StatusRow,
) -> bool {
    &&& row.is_default_marker@ == marker_text(state.default_version_or_channel_name matches Some(d) && d@ == v)
    &&& row.name@ == v
    &&& row.item_type@ == "Version"@
    &&& row.details@ == "Installed: "@ + date_part(state.installed_versions.spec_map()[v].installed_at@)
    &&& row.update_available@ == version_update_text(metadata, state, v)
}

/// How a tracked channel is described: the strategy of the channel in the metadata, with
/// its prefix; "N/A" when the metadata no longer has it.
pub open spec fn tracks_text(metadata: &ProjectMetadata, name: Seq<char>) -> Seq<char> {
    if metadata.channels.spec_map().contains_key(name) {
        let ci = metadata.channels.spec_map()[name];
        match ci.version_prefix {
            Some(p) => ci.resolution_strategy@ + " (Prefix: "@ + p@ + ")"@,
            None => ci.resolution_strategy@,
        }
    } else {
        "N/A"@
    }
}

/// The update column of a tracked channel: the version it resolves to now, if that
/// differs from the one it last resolved to.
pub open spec fn channel_update_text(metadata: &ProjectMetadata, current: Seq<char>, name: Seq<char>) -> Seq<char> {
    match spec_resolve(name, metadata) {
        Ok(latest) => if latest != current {
            "Yes (to "@ + latest + ")"@
        } else {
            "-"@
        },
        Err(_) => "-"@,
    }
}

/// The row of tracked channel `name`.
pub open spec fn channel_status_row_matches(
    metadata: &ProjectMetadata,
    state: &ProjectLocalState,
    name: Seq<char>,
    row: StatusRow,
) -> bool {
    let current = state.active_channels.spec_map()[name].resolved_version@;
    &&& row.is_default_marker@ == marker_text(state.default_version_or_channel_name matches Some(d) && d@ == name)
    &&& row.name@ == name
    &&& row.item_type@ == "Channel"@
    &&& row.details@ == "Tracks: "@ + tracks_text(metadata, name) + ", Currently: "@ + current
    &&& row.update_available@ == channel_update_text(metadata, current, name)
}

/// The row of link `name`.
pub open spec fn link_status_row_matches(state: &ProjectLocalState, name: Seq<char>, row: StatusRow) -> bool {
    let info = state.linked_paths.spec_map()[name];
    &&& row.is_default_marker@ == marker_text(state.default_version_or_channel_name matches Some(d) && d@ == name)
    &&& row.name@ == name
    &&& row.item_type@ == "Link"@
    &&& row.details@ == "-> "@ + info.command_path@ + " "@ + match info.arguments {
        Some(a) => joined(seq_views(a@), " "@),
        None => Seq::empty(),
    }
    &&& row.update_available@ == "N/A"@
}

/// The names of a map sorted in human order, with the facts the row builders need.
fn sorted_keys(keys: Vec<String>, ks: Ghost<Seq<Seq<char>>>) -> (r: Vec<String>)
    requires
        seq_views(keys@) == ks@,
        all_fitting_digit_runs(ks@),
    ensures
        seq_views(r@).to_multiset() == ks@.to_multiset(),
        human_sorted(seq_views(r@)),
        forall|c: Seq<char>| seq_views(r@).contains(c) <==> ks@.contains(c),
{
    let r = human_sort_strings(&keys);
    proof {
        lemma_same_multiset_contains(seq_views(r@), ks@);
    }
    r
}

/// The status table of a project: its installed versions, then its tracked channels, then
/// its links, each part in human order of the names.
pub fn status_rows(metadata: &ProjectMetadata, state: &ProjectLocalState) -> (r: (Vec<String>, Vec<String>, Vec<String>, Vec<StatusRow>))
    requires
        all_fitting_digit_runs(state.installed_versions.key_seq()),
        all_fitting_digit_runs(state.active_channels.key_seq()),
        all_fitting_digit_runs(state.linked_paths.key_seq()),
    ensures
        seq_views(r.0@).to_multiset() == state.installed_versions.key_seq().to_multiset(),
        seq_views(r.1@).to_multiset() == state.active_channels.key_seq().to_multiset(),
        seq_views(r.2@).to_multiset() == state.linked_paths.key_seq().to_multiset(),
        human_sorted(seq_views(r.0@)),
        human_sorted(seq_views(r.1@)),
        human_sorted(seq_views(r.2@)),
        r.3@.len() == r.0@.len() + r.1@.len() + r.2@.len(),
        forall|i: int| 0 <= i < r.0@.len() ==> version_status_row_matches(metadata, state, r.0@[i]@, #[trigger] r.3@[i]),
        forall|i: int|
            0 <= i < r.1@.len() ==> channel_status_row_matches(metadata, state, r.1@[i]@, #[trigger] r.3@[r.0@.len() + i]),
        forall|i: int|
            0 <= i < r.2@.len() ==> link_status_row_matches(
                state,
                r.2@[i]@,
                #[trigger] r.3@[r.0@.len() + r.1@.len() + i],
            ),
{
    proof {
        use_type_invariant(&state.installed_versions);
        use_type_invariant(&state.active_channels);
        use_type_invariant(&state.linked_paths);
        state.installed_versions.lemma_walk();
        state.active_channels.lemma_walk();
        state.linked_paths.lemma_walk();
    }
    let vkeys = state.installed_versions.keys();
    proof {
        assert(seq_views(vkeys@) =~= state.installed_versions.key_seq());
    }
    let versions = sorted_keys(vkeys, Ghost(state.installed_versions.key_seq()));
    let ckeys = state.active_channels.keys();
    proof {
        assert(seq_views(ckeys@) =~= state.active_channels.key_seq());
    }
    let channels = sorted_keys(ckeys, Ghost(state.active_channels.key_seq()));
    let lkeys = state.linked_paths.keys();
    proof {
        assert(seq_views(lkeys@) =~= state.linked_paths.key_seq());
    }
    let links = sorted_keys(lkeys, Ghost(state.linked_paths.key_seq()));
    let mut rows: Vec<StatusRow> = Vec::new();
    let nv = versions.len();
    let mut i: usize = 0;
    while i < nv
        invariant
            nv == versions@.len(),
            i <= nv,
            rows@.len() == i,
            forall|c: Seq<char>| seq_views(versions@).contains(c) <==> state.installed_versions.key_seq().contains(c),
            state.installed_versions.spec_map().dom() == state.installed_versions.key_seq().to_set(),
            forall|j: int| 0 <= j < i ==> version_status_row_matches(metadata, state, versions@[j]@, #[trigger] rows@[j]),
        decreases nv - i,
    {
        let v = versions[i].as_str();
        proof {
            assert(seq_views(versions@)[i as int] == v@);
            assert(seq_views(versions@).contains(v@));
            assert(state.installed_versions.key_seq().to_set().contains(v@));
        }
        let info = match state.installed_versions.get(v) {
            Some(info) => info,
            None => {
                proof {
                    assert(false);
                }
                return (versions, channels, links, rows);
            },
        };
        let stamp = info.installed_at.as_str();
        let date = if stamp.unicode_len() >= 10 {
            stamp.substring_char(0, 10)
        } else {
            stamp
        };
        proof {
            if stamp@.len() >= 10 {
                assert(date@ =~= stamp@.take(10));
            }
        }
        let details = concat2("Installed: ", date);
        let update = if channel_using(state, v).is_none() && semver_parse_text(v).is_some()
            && has_newer_direct_version(metadata, v) {
            "Yes (direct)".to_owned()
        } else {
            "-".to_owned()
        };
        rows.push(
            StatusRow {
                is_default_marker: marker(is_default_name(state, v)),
                name: v.to_owned(),
                item_type: "Version".to_owned(),
                details,
                update_available: update,
            },
        );
        i = i + 1;
    }
    let nc = channels.len();
    let mut c: usize = 0;
    while c < nc
        invariant
            nv == versions@.len(),
            nc == channels@.len(),
            c <= nc,
            rows@.len() == nv + c,
            forall|x: Seq<char>| seq_views(channels@).contains(x) <==> state.active_channels.key_seq().contains(x),
            state.active_channels.spec_map().dom() == state.active_channels.key_seq().to_set(),
            forall|j: int| 0 <= j < nv ==> version_status_row_matches(metadata, state, versions@[j]@, #[trigger] rows@[j]),
            forall|j: int|
                0 <= j < c ==> channel_status_row_matches(metadata, state, channels@[j]@, #[trigger] rows@[nv + j]),
        decreases nc - c,
    {
        let name = channels[c].as_str();
        proof {
            assert(seq_views(channels@)[c as int] == name@);
            assert(seq_views(channels@).contains(name@));
            assert(state.active_channels.key_seq().to_set().contains(name@));
        }
        let info = match state.active_channels.get(name) {
            Some(info) => info,
            None => {
                proof {
                    assert(false);
                }
                return (versions, channels, links, rows);
            },
        };
        let tracks = match metadata.channels.get(name) {
            Some(ci) => match &ci.version_prefix {
                Some(p) => {
                    let a = concat2(ci.resolution_strategy.as_str(), " (Prefix: ");
                    let b = concat2(a.as_str(), p.as_str());
                    concat2(b.as_str(), ")")
                },
                None => ci.resolution_strategy.clone(),
            },
            None => "N/A".to_owned(),
        };
        let d1 = concat2("Tracks: ", tracks.as_str());
        let d2 = concat2(d1.as_str(), ", Currently: ");
        let details = concat2(d2.as_str(), info.resolved_version.as_str());
        let update = match resolve_channel_to_version(name, metadata) {
            Ok(latest) => if !str_eq(latest.as_str(), info.resolved_version.as_str()) {
                let u = concat2("Yes (to ", latest.as_str());
                concat2(u.as_str(), ")")
            } else {
                "-".to_owned()
            },
            Err(_) => "-".to_owned(),
        };
        let ghost before = rows@;
        rows.push(
            StatusRow {
                is_default_marker: marker(is_default_name(state, name)),
                name: name.to_owned(),
                item_type: "Channel".to_owned(),
                details,
                update_available: update,
            },
        );
        proof {
            assert forall|j: int| 0 <= j < nv implies version_status_row_matches(metadata, state, versions@[j]@, #[trigger] rows@[j]) by {
                assert(rows@[j] == before[j]);
            }
            assert forall|j: int| 0 <= j < c + 1 implies channel_status_row_matches(metadata, state, channels@[j]@, #[trigger] rows@[nv + j]) by {
                if j < c {
                    assert(rows@[nv + j] == before[nv + j]);
                }
            }
        }
        c = c + 1;
    }
    let nl = links.len();
    let mut l: usize = 0;
    while l < nl
        invariant
            nv == versions@.len(),
            nc == channels@.len(),
            nl == links@.len(),
            l <= nl,
            rows@.len() == nv + nc + l,
            forall|x: Seq<char>| seq_views(links@).contains(x) <==> state.linked_paths.key_seq().contains(x),
            state.linked_paths.spec_map().dom() == state.linked_paths.key_seq().to_set(),
            forall|j: int| 0 <= j < nv ==> version_status_row_matches(metadata, state, versions@[j]@, #[trigger] rows@[j]),
            forall|j: int|
                0 <= j < nc ==> channel_status_row_matches(metadata, state, channels@[j]@, #[trigger] rows@[nv + j]),
            forall|j: int| 0 <= j < l ==> link_status_row_matches(state, links@[j]@, #[trigger] rows@[nv + nc + j]),
        decreases nl - l,
    {
        let name = links[l].as_str();
        proof {
            assert(seq_views(links@)[l as int] == name@);
            assert(seq_views(links@).contains(name@));
            assert(state.linked_paths.key_seq().to_set().contains(name@));
        }
        let info = match state.linked_paths.get(name) {
            Some(info) => info,
            None => {
                proof {
                    assert(false);
                }
                return (versions, channels, links, rows);
            },
        };
        let args = match &info.arguments {
            Some(a) => join_strings(a, " "),
            None => String::new(),
        };
        let d1 = concat2("-> ", info.command_path.as_str());
        let d2 = concat2(d1.as_str(), " ");
        let details = concat2(d2.as_str(), args.as_str());
        let ghost before = rows@;
        rows.push(
            StatusRow {
                is_default_marker: marker(is_default_name(state, name)),
                name: name.to_owned(),
                item_type: "Link".to_owned(),
                details,
                update_available: "N/A".to_owned(),
            },
        );
        proof {
            assert forall|j: int| 0 <= j < nv implies version_status_row_matches(metadata, state, versions@[j]@, #[trigger] rows@[j]) by {
                assert(rows@[j] == before[j]);
            }
            assert forall|j: int| 0 <= j < nc implies channel_status_row_matches(metadata, state, channels@[j]@, #[trigger] rows@[nv + j]) by {
                assert(rows@[nv + j] == before[nv + j]);
            }
            assert forall|j: int| 0 <= j < l + 1 implies link_status_row_matches(state, links@[j]@, #[trigger] rows@[nv + nc + j]) by {
                if j < l {
                    assert(rows@[nv + nc + j] == before[nv + nc + j]);
                }
            }
        }
        l = l + 1;
    }
    (versions, channels, links, rows)
}

/// A row of the status summary of all projects.
#[derive(Debug, Clone)]
pub struct AllProjectsStatusRow {
    pub name: String,
    /// The default, or "-".
    pub default: String,
    pub installed_count: usize,
}

/// The summary row of project `name`, whose state could be read (`Some`) or not.
pub fn all_projects_status_row(name: &str, state: Option<&ProjectLocalState>) -> (r: AllProjectsStatusRow)
    ensures
        r.name@ == name@,
        r.default@ == match state {
            Some(s) => match s.default_version_or_channel_name {
                Some(d) => d@,
                None => "-"@,
            },
            None => "-"@,
        },
        r.installed_count == match state {
            Some(s) => s.installed_versions.spec_map().dom().len(),
            None => 0,
        },
{
    match state {
        Some(s) => {
            proof {
                use_type_invariant(&s.installed_versions);
                s.installed_versions.lemma_walk();
            }
            let default = match &s.default_version_or_channel_name {
                Some(d) => d.clone(),
                None => "-".to_owned(),
            };
            AllProjectsStatusRow { name: name.to_owned(), default, installed_count: s.installed_versions.len() }
        },
        None => AllProjectsStatusRow { name: name.to_owned(), default: "-".to_owned(), installed_count: 0 },
    }
}

/// Law: in the status table, an installed version `v` is offered a direct update exactly
/// when `v` is a semantic version that no tracked channel last resolved to, and some
/// available version is a greater semantic version that is a pre-release exactly when
/// `v` is one; otherwise its update column is "-".
pub proof fn law_direct_update_offers_newer_version_of_same_kind(
    metadata: &ProjectMetadata,
    state: &ProjectLocalState,
    v: Seq<char>,
    row: StatusRow,
)
    requires
        version_status_row_matches(metadata, state, v, row),
    ensures
        row.update_available@ == "Yes (direct)"@ <==> {
            &&& semver_text(v) is Some
            &&& forall|c: Seq<char>|
                #[trigger] state.active_channels.spec_map().contains_key(c)
                    ==> state.active_channels.spec_map()[c].resolved_version@ != v
            &&& exists|k: Seq<char>|
                #[trigger] metadata.available_versions.key_seq().contains(k) && semver_text(k) is Some && semver_lt(v, k)
                    && semver_has_pre(k) == semver_has_pre(v)
        },
        row.update_available@ == "Yes (direct)"@ || row.update_available@ == "-"@,
{
    reveal_strlit("Yes (direct)");
    reveal_strlit("-");
    assert("Yes (direct)"@.len() != "-"@.len());
    let keys = metadata.available_versions.key_seq();
    if exists|k: Seq<char>|
        #[trigger] keys.contains(k) && semver_text(k) is Some && semver_lt(v, k) && semver_has_pre(k) == semver_has_pre(v) {
        let k = choose|k: Seq<char>|
            #[trigger] keys.contains(k) && semver_text(k) is Some && semver_lt(v, k) && semver_has_pre(k) == semver_has_pre(v);
        let j = choose|j: int| 0 <= j < keys.len() && keys[j] == k;
        assert(semver_text(keys[j]) is Some);
    }
    if newer_direct_version(metadata, v) {
        let j = choose|j: int|
            0 <= j < keys.len() && semver_text(#[trigger] keys[j]) is Some && semver_lt(v, keys[j]) && semver_has_pre(keys[j])
                == semver_has_pre(v);
        assert(keys.contains(keys[j]));
    }
}

/// Law: in the status table, a row of any kind is marked `*` exactly when the project's
/// default is that row's name, and is marked with a blank otherwise.
pub proof fn law_status_marker_is_the_default(
    metadata: &ProjectMetadata,
    state: &ProjectLocalState,
    name: Seq<char>,
    row: StatusRow,
)
    requires
        version_status_row_matches(metadata, state, name, row) || channel_status_row_matches(metadata, state, name, row)
            || link_status_row_matches(state, name, row),
    ensures
        row.is_default_marker@ == "*"@ <==> (state.default_version_or_channel_name matches Some(d) && d@ == name),
        row.is_default_marker@ == "*"@ || row.is_default_marker@ == " "@,
{
    reveal_strlit("*");
    reveal_strlit(" ");
    assert("*"@[0] != " "@[0]);
}

/// Law: in the status table, a tracked channel is offered an update exactly when it now
/// resolves to a version other than the one it last resolved to, and the offer names
/// that version: "Yes (to <version>)".
pub proof fn law_channel_update_names_new_version(
    metadata: &ProjectMetadata,
    state: &ProjectLocalState,
    name: Seq<char>,
    row: StatusRow,
)
    requires
        channel_status_row_matches(metadata, state, name, row),
    ensures
        ({
            let current = state.active_channels.spec_map()[name].resolved_version@;
            &&& (spec_resolve(name, metadata) matches Ok(w) && w != current) ==> row.update_available@ == "Yes (to "@ + spec_resolve(
                name,
                metadata,
            )->Ok_0 + ")"@
            &&& !(spec_resolve(name, metadata) matches Ok(w) && w != current) ==> row.update_available@ == "-"@
        }),
{
}

} // verus!
