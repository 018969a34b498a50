//! The tables of `gup list`: the channels, versions and links of a project, or the managed
//! projects, each sorted in human order. The caller prints them.
use vstd::prelude::*;
use vstd::string::StringExecFns;

use crate::human::{all_fitting_digit_runs, human_compare, human_order, human_sort_strings, human_sorted, fitting_digit_runs};
use crate::operations_metadata::{resolve_channel_to_version, resolve_result_view, spec_resolve, ResolveError, ResolveErrorView};
use crate::project_metadata_m::{ChannelDetail, ProjectMetadata};
use crate::state_config::{GupGlobalConfig, ManagedProjectInfo, ProjectLocalState};
use crate::text::{lemma_same_multiset_contains, concat2, join_strings, joined, lemma_seq_views_push, seq_views, str_eq};

verus! {

/// How a channel is described in the table.
pub open spec fn channel_detail_text(d: ChannelDetail) -> Seq<char> {
    if d.resolution_strategy@ == "latest_semver"@ {
        match d.version_prefix {
            Some(p) => "Strategy: latest_semver, Prefix: "@ + p@,
            None => "Strategy: latest_semver (no prefix)"@,
        }
    } else if d.resolution_strategy@ == "exact_match"@ {
        "Strategy: exact_match, Version: "@ + match d.version_prefix {
            Some(p) => p@,
            None => "N/A"@,
        }
    } else {
        "Strategy: "@ + d.resolution_strategy@
    }
}

/// Describes a channel's strategy and prefix or version.
pub fn format_channel_detail(detail: &ChannelDetail) -> (r: String)
    ensures
        r@ == channel_detail_text(*detail),
{
    let strategy = detail.resolution_strategy.as_str();
    if str_eq(strategy, "latest_semver") {
        match &detail.version_prefix {
            Some(prefix) => concat2("Strategy: latest_semver, Prefix: ", prefix.as_str()),
            None => "Strategy: latest_semver (no prefix)".to_owned(),
        }
    } else if str_eq(strategy, "exact_match") {
        match &detail.version_prefix {
            Some(v) => concat2("Strategy: exact_match, Version: ", v.as_str()),
            None => concat2("Strategy: exact_match, Version: ", "N/A"),
        }
    } else {
        concat2("Strategy: ", strategy)
    }
}

/// The status column: "Default", then "Installed" or else "Available", joined by ", ";
/// "-" when none applies.
pub open spec fn status_text(is_default: bool, installed: bool, available: bool) -> Seq<char> {
    if is_default {
        if installed {
            "Default, Installed"@
        } else if available {
            "Default, Available"@
        } else {
            "Default"@
        }
    } else if installed {
        "Installed"@
    } else if available {
        "Available"@
    } else {
        "-"@
    }
}

/// The status column for the given facts.
pub fn status_of(is_default: bool, installed: bool, available: bool) -> (r: String)
    ensures
        r@ == status_text(is_default, installed, available),
{
    let s = if is_default {
        if installed {
            "Default, Installed"
        } else if available {
            "Default, Available"
        } else {
            "Default"
        }
    } else if installed {
        "Installed"
    } else if available {
        "Available"
    } else {
        "-"
    };
    s.to_owned()
}

/// A row of the channel table.
#[derive(Debug)]
pub struct ChannelRow {
    pub name: String,
    pub details: String,
    /// The version the channel resolves to, or why it does not resolve.
    pub resolves_to: Result<String, ResolveError>,
    pub status: String,
}

/// The row of channel `name`.
pub open spec fn channel_row_matches(
    metadata: &ProjectMetadata,
    state: &ProjectLocalState,
    name: Seq<char>,
    row: ChannelRow,
) -> bool {
    let resolved = spec_resolve(name, metadata);
    &&& row.name@ == name
    &&& row.details@ == channel_detail_text(metadata.channels.spec_map()[name])
    &&& resolve_result_view(row.resolves_to) == resolved
    &&& row.status@ == status_text(
        state.default_version_or_channel_name matches Some(d) && d@ == name,
        resolved is Ok && state.installed_versions.spec_map().contains_key(resolved->Ok_0),
        resolved is Ok && metadata.available_versions.spec_map().contains_key(resolved->Ok_0),
    )
}

/// The channel table: one row per channel, in human order of the names.
pub fn channel_rows(metadata: &ProjectMetadata, state: &ProjectLocalState) -> (r: Vec<ChannelRow>)
    requires
        all_fitting_digit_runs(metadata.channels.key_seq()),
    ensures
        r@.map_values(|row: ChannelRow| row.name@).to_multiset() == metadata.channels.key_seq().to_multiset(),
        human_sorted(r@.map_values(|row: ChannelRow| row.name@)),
        forall|i: int| 0 <= i < r@.len() ==> channel_row_matches(metadata, state, r@[i].name@, #[trigger] r@[i]),
{
    let keys = metadata.channels.keys();
    proof {
        assert(seq_views(keys@) =~= metadata.channels.key_seq());
    }
    let names = human_sort_strings(&keys);
    proof {
        use_type_invariant(&metadata.channels);
        metadata.channels.lemma_walk();
        lemma_same_multiset_contains(seq_views(names@), metadata.channels.key_seq());
    }
    let n = names.len();
    let mut rows: Vec<ChannelRow> = Vec::new();
    let mut i: usize = 0;
    while i < n
        invariant
            n == names@.len(),
            i <= n,
            rows@.len() == i,
            seq_views(names@).to_multiset() == metadata.channels.key_seq().to_multiset(),
            forall|c: Seq<char>| seq_views(names@).contains(c) <==> metadata.channels.key_seq().contains(c),
            metadata.channels.spec_map().dom() == metadata.channels.key_seq().to_set(),
            forall|j: int| 0 <= j < i ==> (#[trigger] rows@[j]).name@ == names@[j]@,
            forall|j: int| 0 <= j < i ==> channel_row_matches(metadata, state, rows@[j].name@, #[trigger] rows@[j]),
        decreases n - i,
    {
        let name = names[i].as_str();
        proof {
            assert(seq_views(names@)[i as int] == name@);
            assert(seq_views(names@).contains(name@));
            assert(metadata.channels.key_seq().to_set().contains(name@));
        }
        let detail = match metadata.channels.get(name) {
            Some(d) => d,
            None => {
                proof {
                    assert(false);
                }
                return rows;
            },
        };
        let details = format_channel_detail(detail);
        let resolves_to = resolve_channel_to_version(name, metadata);
        let is_default = match &state.default_version_or_channel_name {
            Some(d) => str_eq(d.as_str(), name),
            None => false,
        };
        let (installed, available) = match &resolves_to {
            Ok(v) => (state.installed_versions.contains_key(v.as_str()), metadata.available_versions.contains_key(v.as_str())),
            Err(_) => (false, false),
        };
        let status = status_of(is_default, installed, available);
        rows.push(ChannelRow { name: name.to_owned(), details, resolves_to, status });
        i = i + 1;
    }
    proof {
        assert(rows@.map_values(|row: ChannelRow| row.name@) =~= seq_views(names@));
    }
    rows
}

/// `v` is the default version, or the version the default channel resolves to.
pub open spec fn version_is_default(metadata: &ProjectMetadata, state: &ProjectLocalState, v: Seq<char>) -> bool {
    state.default_version_or_channel_name matches Some(d) && (d@ == v || (metadata.channels.spec_map().contains_key(d@)
        && spec_resolve(d@, metadata) == Ok::<Seq<char>, ResolveErrorView>(v)))
}

/// A row of the version table.
#[derive(Debug, Clone)]
pub struct VersionRow {
    pub version: String,
    pub status: String,
}

/// The row of version `v`.
pub open spec fn version_row_matches(metadata: &ProjectMetadata, state: &ProjectLocalState, row: VersionRow) -> bool {
    row.status@ == status_text(
        version_is_default(metadata, state, row.version@),
        state.installed_versions.spec_map().contains_key(row.version@),
        metadata.available_versions.spec_map().contains_key(row.version@),
    )
}

/// The versions of the version table, before sorting: the available ones, then the
/// installed ones that are not available.
pub open spec fn listed_versions(metadata: &ProjectMetadata, state: &ProjectLocalState) -> Seq<Seq<char>> {
    metadata.available_versions.key_seq() + state.installed_versions.key_seq().filter(
        |k: Seq<char>| !metadata.available_versions.spec_map().contains_key(k),
    )
}

/// Whether the default is a channel that resolves to `v`.
fn default_channel_resolves_to(metadata: &ProjectMetadata, state: &ProjectLocalState, v: &str) -> (r: bool)
    ensures
        r == (state.default_version_or_channel_name matches Some(d) && metadata.channels.spec_map().contains_key(d@)
            && spec_resolve(d@, metadata) == Ok::<Seq<char>, ResolveErrorView>(v@)),
{
    match &state.default_version_or_channel_name {
        Some(d) => {
            if metadata.channels.contains_key(d.as_str()) {
                match resolve_channel_to_version(d.as_str(), metadata) {
                    Ok(rv) => str_eq(rv.as_str(), v),
                    Err(_) => false,
                }
            } else {
                false
            }
        },
        None => false,
    }
}

/// The version table: every available or installed version once, in human order.
pub fn version_rows(metadata: &ProjectMetadata, state: &ProjectLocalState) -> (r: Vec<VersionRow>)
    requires
        all_fitting_digit_runs(listed_versions(metadata, state)),
    ensures
        r@.map_values(|row: VersionRow| row.version@).to_multiset() == listed_versions(metadata, state).to_multiset(),
        human_sorted(r@.map_values(|row: VersionRow| row.version@)),
        forall|i: int| 0 <= i < r@.len() ==> version_row_matches(metadata, state, #[trigger] r@[i]),
{
    let mut all = metadata.available_versions.keys();
    let installed = state.installed_versions.keys();
    let ghost pred = |k: Seq<char>| !metadata.available_versions.spec_map().contains_key(k);
    let ghost avail = metadata.available_versions.key_seq();
    let ghost inst = state.installed_versions.key_seq();
    proof {
        assert(seq_views(all@) =~= avail);
        assert(inst.take(0).filter(pred) =~= Seq::<Seq<char>>::empty()) by {
            reveal(Seq::filter);
        }
        assert(avail + inst.take(0).filter(pred) =~= avail);
    }
    let m = installed.len();
    let mut k: usize = 0;
    while k < m
        invariant
            m == installed@.len(),
            m == inst.len(),
            forall|j: int| 0 <= j < m ==> #[trigger] installed@[j]@ == inst[j],
            k <= m,
            pred == (|k: Seq<char>| !metadata.available_versions.spec_map().contains_key(k)),
            seq_views(all@) == avail + inst.take(k as int).filter(pred),
        decreases m - k,
    {
        let name = &installed[k];
        proof {
            assert(inst.take(k + 1) =~= inst.take(k as int).push(inst[k as int]));
            inst.take(k as int).lemma_filter_push(inst[k as int], pred);
        }
        if !metadata.available_versions.contains_key(name.as_str()) {
            let ghost before = all@;
            let item = name.clone();
            all.push(item);
            proof {
                lemma_seq_views_push(before, item);
            }
        }
        k = k + 1;
    }
    proof {
        assert(inst.take(m as int) =~= inst);
        assert(seq_views(all@) == listed_versions(metadata, state));
    }
    let names = human_sort_strings(&all);
    let n = names.len();
    let mut rows: Vec<VersionRow> = Vec::new();
    let mut i: usize = 0;
    while i < n
        invariant
            n == names@.len(),
            i <= n,
            rows@.len() == i,
            forall|j: int| 0 <= j < i ==> (#[trigger] rows@[j]).version@ == names@[j]@,
            forall|j: int| 0 <= j < i ==> version_row_matches(metadata, state, #[trigger] rows@[j]),
        decreases n - i,
    {
        let v = names[i].as_str();
        let is_default = match &state.default_version_or_channel_name {
            Some(d) => str_eq(d.as_str(), v),
            None => false,
        } || default_channel_resolves_to(metadata, state, v);
        let status = status_of(
            is_default,
            state.installed_versions.contains_key(v),
            metadata.available_versions.contains_key(v),
        );
        rows.push(VersionRow { version: v.to_owned(), status });
        i = i + 1;
    }
    proof {
        assert(rows@.map_values(|row: VersionRow| row.version@) =~= seq_views(names@));
    }
    rows
}

/// A row of the link table.
#[derive(Debug, Clone)]
pub struct LinkRow {
    pub link_name: String,
    pub target_path: String,
    /// The link's arguments separated by spaces; empty when it has none.
    pub arguments: String,
}

/// The row of link `name`.
pub open spec fn link_row_matches(state: &ProjectLocalState, name: Seq<char>, row: LinkRow) -> bool {
    let info = state.linked_paths.spec_map()[name];
    &&& row.link_name@ == name
    &&& row.target_path@ == info.command_path@
    &&& row.arguments@ == match info.arguments {
        Some(a) => joined(seq_views(a@), " "@),
        None => Seq::empty(),
    }
}

/// The link table: one row per link, in human order of the names.
pub fn link_rows(state: &ProjectLocalState) -> (r: Vec<LinkRow>)
    requires
        all_fitting_digit_runs(state.linked_paths.key_seq()),
    ensures
        r@.map_values(|row: LinkRow| row.link_name@).to_multiset() == state.linked_paths.key_seq().to_multiset(),
        human_sorted(r@.map_values(|row: LinkRow| row.link_name@)),
        forall|i: int| 0 <= i < r@.len() ==> link_row_matches(state, r@[i].link_name@, #[trigger] r@[i]),
{
    let keys = state.linked_paths.keys();
    proof {
        assert(seq_views(keys@) =~= state.linked_paths.key_seq());
    }
    let names = human_sort_strings(&keys);
    proof {
        use_type_invariant(&state.linked_paths);
        state.linked_paths.lemma_walk();
        lemma_same_multiset_contains(seq_views(names@), state.linked_paths.key_seq());
    }
    let n = names.len();
    let mut rows: Vec<LinkRow> = Vec::new();
    let mut i: usize = 0;
    while i < n
        invariant
            n == names@.len(),
            i <= n,
            rows@.len() == i,
            seq_views(names@).to_multiset() == state.linked_paths.key_seq().to_multiset(),
            forall|c: Seq<char>| seq_views(names@).contains(c) <==> state.linked_paths.key_seq().contains(c),
            state.linked_paths.spec_map().dom() == state.linked_paths.key_seq().to_set(),
            forall|j: int| 0 <= j < i ==> (#[trigger] rows@[j]).link_name@ == names@[j]@,
            forall|j: int| 0 <= j < i ==> link_row_matches(state, rows@[j].link_name@, #[trigger] rows@[j]),
        decreases n - i,
    {
        let name = names[i].as_str();
        proof {
            assert(seq_views(names@)[i as int] == name@);
            assert(seq_views(names@).contains(name@));
            assert(state.linked_paths.key_seq().to_set().contains(name@));
        }
        let info = match state.linked_paths.get(name) {
            Some(info) => info,
            None => {
                proof {
                    assert(false);
                }
                return rows;
            },
        };
        let arguments = match &info.arguments {
            Some(a) => join_strings(a, " "),
            None => String::new(),
        };
        rows.push(LinkRow { link_name: name.to_owned(), target_path: info.command_path.clone(), arguments });
        i = i + 1;
    }
    proof {
        assert(rows@.map_values(|row: LinkRow| row.link_name@) =~= seq_views(names@));
    }
    rows
}

/// A row of the table of managed projects.
#[derive(Debug, Clone)]
pub struct ProjectRow {
    pub name: String,
    pub display_name: String,
    pub source_url: String,
}

/// The text of a row: name, display name and source URL.
pub open spec fn project_row_view(row: ProjectRow) -> (Seq<char>, Seq<char>, Seq<char>) {
    (row.name@, row.display_name@, row.source_url@)
}

/// The row that a managed project gets: its unique name, display name and metadata URL.
pub open spec fn project_row_of(info: ManagedProjectInfo) -> (Seq<char>, Seq<char>, Seq<char>) {
    (info.unique_name@, info.display_name@, info.source_of_truth_url@)
}

/// The texts of a list of rows.
pub open spec fn project_row_views(rows: Seq<ProjectRow>) -> Seq<(Seq<char>, Seq<char>, Seq<char>)> {
    rows.map_values(|row: ProjectRow| project_row_view(row))
}

/// The names of a list of rows.
pub open spec fn project_row_names(rows: Seq<ProjectRow>) -> Seq<Seq<char>> {
    rows.map_values(|row: ProjectRow| row.name@)
}

/// The rows that the managed projects of `config` get, in the order of its walk.
pub open spec fn managed_project_rows(config: &GupGlobalConfig) -> Seq<(Seq<char>, Seq<char>, Seq<char>)> {
    config.managed_projects.value_seq().map_values(|info: ManagedProjectInfo| project_row_of(info))
}

/// The unique names of the managed projects of `config`, in the order of its walk.
pub open spec fn managed_unique_names(config: &GupGlobalConfig) -> Seq<Seq<char>> {
    config.managed_projects.value_seq().map_values(|info: ManagedProjectInfo| info.unique_name@)
}

/// A copy of a row.
fn copy_project_row(row: &ProjectRow) -> (r: ProjectRow)
    ensures
        project_row_view(r) == project_row_view(*row),
{
    ProjectRow { name: row.name.clone(), display_name: row.display_name.clone(), source_url: row.source_url.clone() }
}

/// The rows in human order of their names: the same rows, each as often as before, where a
/// row is placed after the rows before it whose names do not come after its name.
fn sort_project_rows(v: &Vec<ProjectRow>) -> (r: Vec<ProjectRow>)
    requires
        all_fitting_digit_runs(project_row_names(v@)),
    ensures
        project_row_views(r@).to_multiset() == project_row_views(v@).to_multiset(),
        human_sorted(project_row_names(r@)),
{
    let n = v.len();
    let mut out: Vec<ProjectRow> = Vec::new();
    let mut i: usize = 0;
    proof {
        assert(project_row_views(out@) =~= project_row_views(v@.take(0)));
    }
    while i < n
        invariant
            n == v@.len(),
            i <= n,
            all_fitting_digit_runs(project_row_names(v@)),
            all_fitting_digit_runs(project_row_names(out@)),
            human_sorted(project_row_names(out@)),
            project_row_views(out@).to_multiset() == project_row_views(v@.take(i as int)).to_multiset(),
        decreases n - i,
    {
        let x = copy_project_row(&v[i]);
        proof {
            assert(fitting_digit_runs(project_row_names(v@)[i as int]));
            assert forall|k: int| 0 <= k < out@.len() implies fitting_digit_runs(#[trigger] out@[k].name@) by {
                assert(fitting_digit_runs(project_row_names(out@)[k]));
            }
        }
        let m = out.len();
        let mut p: usize = 0;
        while p < m && human_compare(out[p].name.as_str(), x.name.as_str()) != 1
            invariant
                m == out@.len(),
                p <= m,
                fitting_digit_runs(x.name@),
                forall|k: int| 0 <= k < m ==> fitting_digit_runs(#[trigger] out@[k].name@),
                p > 0 ==> human_order(out@[p - 1].name@, x.name@) != 1,
            decreases m - p,
        {
            p = p + 1;
        }
        let ghost before = out@;
        let ghost gt = p < m && human_order(before[p as int].name@, x.name@) == 1;
        let ghost xv = project_row_view(x);
        let ghost xn = x.name@;
        out.insert(p, x);
        proof {
            let w = project_row_names(before);
            let o = project_row_names(out@);
            assert(o =~= w.insert(p as int, xn));
            assert forall|a: int| 0 <= a && a + 1 < o.len() implies human_order(#[trigger] o[a], o[a + 1]) != 1 by {
                if a + 1 < p {
                    assert(o[a] == w[a] && o[a + 1] == w[a + 1]);
                } else if a + 1 == p {
                    assert(o[a] == w[a]);
                } else if a == p {
                    assert(o[a + 1] == w[a]);
                    assert(gt);
                } else {
                    assert(o[a] == w[a - 1] && o[a + 1] == w[a]);
                }
            }
            assert forall|a: int| 0 <= a < o.len() implies fitting_digit_runs(#[trigger] o[a]) by {
                if a < p {
                    assert(o[a] == w[a]);
                } else if a > p {
                    assert(o[a] == w[a - 1]);
                }
            }
            let wv = project_row_views(before);
            assert(project_row_views(out@) =~= wv.insert(p as int, xv));
            vstd::seq_lib::to_multiset_insert(wv, p as int, xv);
            assert(v@.take(i + 1) =~= v@.take(i as int).push(v@[i as int]));
            assert(project_row_views(v@.take(i + 1)) =~= project_row_views(v@.take(i as int)).push(xv));
            project_row_views(v@.take(i as int)).to_multiset_ensures();
        }
        i = i + 1;
    }
    proof {
        assert(v@.take(n as int) =~= v@);
    }
    out
}

/// `rows` is the table that `gup list` prints without a project: one row per managed
/// project (its unique name, display name and metadata URL), in human order of the
/// unique names.
pub open spec fn projects_table(config: &GupGlobalConfig, rows: Seq<ProjectRow>) -> bool {
    &&& project_row_views(rows).to_multiset() == managed_project_rows(config).to_multiset()
    &&& human_sorted(project_row_names(rows))
}

/// The table of managed projects, as [`projects_table`] describes.
pub fn project_rows(config: &GupGlobalConfig) -> (r: Vec<ProjectRow>)
    requires
        all_fitting_digit_runs(managed_unique_names(config)),
    ensures
        projects_table(config, r@),
{
    proof {
        use_type_invariant(&config.managed_projects);
        config.managed_projects.lemma_walk();
    }
    let n = config.managed_projects.len();
    let mut rows: Vec<ProjectRow> = Vec::new();
    let mut i: usize = 0;
    while i < n
        invariant
            n == config.managed_projects.key_seq().len(),
            n == config.managed_projects.value_seq().len(),
            i <= n,
            project_row_views(rows@) == managed_project_rows(config).take(i as int),
            project_row_names(rows@) == managed_unique_names(config).take(i as int),
        decreases n - i,
    {
        let info = config.managed_projects.value_at(i);
        let row = ProjectRow {
            name: info.unique_name.clone(),
            display_name: info.display_name.clone(),
            source_url: info.source_of_truth_url.clone(),
        };
        let ghost before = rows@;
        rows.push(row);
        proof {
            assert(project_row_views(rows@) =~= project_row_views(before).push(project_row_view(row)));
            assert(managed_project_rows(config).take(i + 1) =~= managed_project_rows(config).take(i as int).push(
                project_row_of(*info),
            ));
            assert(project_row_names(rows@) =~= project_row_names(before).push(row.name@));
            assert(managed_unique_names(config).take(i + 1) =~= managed_unique_names(config).take(i as int).push(
                info.unique_name@,
            ));
        }
        i = i + 1;
    }
    proof {
        assert(managed_project_rows(config).take(n as int) =~= managed_project_rows(config));
        assert(managed_unique_names(config).take(n as int) =~= managed_unique_names(config));
    }
    sort_project_rows(&rows)
}

/// Law: in the version table, a version is marked "Default" (its status starts with
/// "Default") exactly when the default is that version itself, or is a channel of the
/// metadata that resolves to it; an installed version's status ends with "Installed",
/// and an available one that is not installed ends with "Available".
pub proof fn law_version_table_marks_default(metadata: &ProjectMetadata, state: &ProjectLocalState, row: VersionRow)
    requires
        version_row_matches(metadata, state, row),
    ensures
        (row.status@.len() >= 7 && row.status@.subrange(0, 7) == "Default"@) <==> (
        state.default_version_or_channel_name matches Some(d) && (d@ == row.version@ || (metadata.channels.spec_map().contains_key(d@)
            && spec_resolve(d@, metadata) == Ok::<Seq<char>, ResolveErrorView>(row.version@)))),
        state.installed_versions.spec_map().contains_key(row.version@) ==> row.status@.len() >= 9
            && row.status@.subrange(row.status@.len() - 9, row.status@.len() as int) == "Installed"@,
        !state.installed_versions.spec_map().contains_key(row.version@) && metadata.available_versions.spec_map().contains_key(
            row.version@,
        ) ==> row.status@.len() >= 9 && row.status@.subrange(row.status@.len() - 9, row.status@.len() as int)
            == "Available"@,
{
    reveal_strlit("Default");
    reveal_strlit("Default, Installed");
    reveal_strlit("Default, Available");
    reveal_strlit("Installed");
    reveal_strlit("Available");
    reveal_strlit("-");
    assert("Default, Installed"@.subrange(0, 7) =~= "Default"@);
    assert("Default, Available"@.subrange(0, 7) =~= "Default"@);
    assert("Default"@.subrange(0, 7) =~= "Default"@);
    assert("Default, Installed"@.subrange(9, 18) =~= "Installed"@);
    assert("Default, Available"@.subrange(9, 18) =~= "Available"@);
    assert("Installed"@.subrange(0, 9) =~= "Installed"@);
    assert("Available"@.subrange(0, 9) =~= "Available"@);
    assert("Installed"@.subrange(0, 7) != "Default"@) by {
        assert("Installed"@.subrange(0, 7)[0] != "Default"@[0]);
    }
    assert("Available"@.subrange(0, 7) != "Default"@) by {
        assert("Available"@.subrange(0, 7)[0] != "Default"@[0]);
    }
}

/// Law: in the channel table, a channel is marked "Default" (its status starts with
/// "Default") exactly when the project's default is that channel's name; its status ends
/// with "Installed" when the version it resolves to is installed.
pub proof fn law_channel_table_marks_default(
    metadata: &ProjectMetadata,
    state: &ProjectLocalState,
    name: Seq<char>,
    row: ChannelRow,
)
    requires
        channel_row_matches(metadata, state, name, row),
    ensures
        (row.status@.len() >= 7 && row.status@.subrange(0, 7) == "Default"@) <==> (
        state.default_version_or_channel_name matches Some(d) && d@ == name),
        (spec_resolve(name, metadata) matches Ok(w) && state.installed_versions.spec_map().contains_key(w))
            ==> row.status@.len() >= 9 && row.status@.subrange(row.status@.len() - 9, row.status@.len() as int)
            == "Installed"@,
{
    reveal_strlit("Default");
    reveal_strlit("Default, Installed");
    reveal_strlit("Default, Available");
    reveal_strlit("Installed");
    reveal_strlit("Available");
    reveal_strlit("-");
    assert("Default, Installed"@.subrange(0, 7) =~= "Default"@);
    assert("Default, Available"@.subrange(0, 7) =~= "Default"@);
    assert("Default"@.subrange(0, 7) =~= "Default"@);
    assert("Default, Installed"@.subrange(9, 18) =~= "Installed"@);
    assert("Installed"@.subrange(0, 9) =~= "Installed"@);
    assert("Installed"@.subrange(0, 7) != "Default"@) by {
        assert("Installed"@.subrange(0, 7)[0] != "Default"@[0]);
    }
    assert("Available"@.subrange(0, 7) != "Default"@) by {
        assert("Available"@.subrange(0, 7)[0] != "Default"@[0]);
    }
}

} // verus!
