//! Directory overrides: a version or channel chosen for one directory.
//!
//! The library checks the choice and edits the list of overrides; the caller makes paths
//! absolute, tells which directories exist, and saves the state.
use vstd::prelude::*;

use crate::operations_metadata::{resolve_channel_to_version, spec_resolve, ResolveError, ResolveErrorView};
use crate::project_metadata_m::ProjectMetadata;
use crate::state_config::{DirectoryOverride, ProjectLocalState};
use crate::path_text::{lemma_components_le_total, path_components, path_le, path_text_le, same_path, same_path_text};

verus! {

/// Why an override cannot be set.
#[derive(Debug, Clone)]
pub enum OverrideError {
    /// The name does not resolve.
    Unresolvable(ResolveError),
    /// The name resolves to `version`, which is not installed.
    NotInstalled { version: String },
}

/// The version an override to `name` would use, provided that it is installed.
pub fn override_target(metadata: &ProjectMetadata, state: &ProjectLocalState, name: &str) -> (r: Result<
    String,
    OverrideError,
>)
    ensures
        match spec_resolve(name@, metadata) {
            Ok(v) => if state.installed_versions.spec_map().contains_key(v) {
                r is Ok && r->Ok_0@ == v
            } else {
                r is Err && r->Err_0 is NotInstalled && r->Err_0->version@ == v
            },
            Err(e) => r is Err && r->Err_0 is Unresolvable && r->Err_0->Unresolvable_0@ == e,
        },
{
    match resolve_channel_to_version(name, metadata) {
        Ok(v) => {
            if state.installed_versions.contains_key(v.as_str()) {
                Ok(v)
            } else {
                Err(OverrideError::NotInstalled { version: v })
            }
        },
        Err(e) => Err(OverrideError::Unresolvable(e)),
    }
}

/// The overrides as pairs of directory and version or channel.
pub open spec fn override_pairs(s: Seq<DirectoryOverride>) -> Seq<(Seq<char>, Seq<char>)> {
    s.map_values(|o: DirectoryOverride| (o.path@, o.version_or_channel@))
}

/// The first override of the directory `path` (of a path that names it) is at `j`.
pub open spec fn first_override_of(s: Seq<DirectoryOverride>, path: Seq<char>, j: int) -> bool {
    &&& 0 <= j < s.len()
    &&& same_path_text(s[j].path@, path)
    &&& forall|k: int| 0 <= k < j ==> !same_path_text(#[trigger] s[k].path@, path)
}

/// What setting the override of directory `path` to `name` does to the list of
/// overrides `before`: the first override of that directory keeps its path text and gets
/// `name`, or a new override of `path` is added at the end.
pub open spec fn override_set(
    before: Seq<DirectoryOverride>,
    after: Seq<DirectoryOverride>,
    path: Seq<char>,
    name: Seq<char>,
) -> bool {
    &&& (exists|j: int| first_override_of(before, path, j)) ==> exists|j: int|
        first_override_of(before, path, j) && override_pairs(after) == override_pairs(before).update(
            j,
            (before[j].path@, name),
        )
    &&& !(exists|j: int| first_override_of(before, path, j)) ==> override_pairs(after) == override_pairs(before).push(
        (path, name),
    )
}

/// Sets the override of the directory `path` to `name`, as [`override_set`] describes.
pub fn set_override(state: &mut ProjectLocalState, path: &str, name: &str)
    ensures
        override_set(old(state).overrides@, final(state).overrides@, path@, name@),
        final(state).installed_versions == old(state).installed_versions,
        final(state).active_channels == old(state).active_channels,
        final(state).linked_paths == old(state).linked_paths,
        final(state).default_version_or_channel_name == old(state).default_version_or_channel_name,
{
    let n = state.overrides.len();
    let mut i: usize = 0;
    while i < n
        invariant
            n == state.overrides@.len(),
            i <= n,
            *state == *old(state),
            forall|k: int| 0 <= k < i ==> !same_path_text(#[trigger] state.overrides@[k].path@, path@),
        decreases n - i,
    {
        if same_path(state.overrides[i].path.as_str(), path) {
            let ghost before = state.overrides@;
            let updated = DirectoryOverride {
                path: state.overrides[i].path.clone(),
                version_or_channel: name.to_owned(),
            };
            state.overrides.set(i, updated);
            proof {
                assert(first_override_of(before, path@, i as int));
                assert(override_pairs(state.overrides@) =~= override_pairs(before).update(
                    i as int,
                    (before[i as int].path@, name@),
                ));
            }
            return;
        }
        i = i + 1;
    }
    let ghost before = state.overrides@;
    state.overrides.push(DirectoryOverride { path: path.to_owned(), version_or_channel: name.to_owned() });
    proof {
        assert(override_pairs(state.overrides@) =~= override_pairs(before).push((path@, name@)));
        if exists|j: int| first_override_of(before, path@, j) {
            let j = choose|j: int| first_override_of(before, path@, j);
            assert(same_path_text(before[j].path@, path@));
        }
    }
}

/// A copy of an override.
fn copy_override(o: &DirectoryOverride) -> (r: DirectoryOverride)
    ensures
        r == *o,
{
    DirectoryOverride { path: o.path.clone(), version_or_channel: o.version_or_channel.clone() }
}

/// The overrides of other directories than the one `path` names, in their order.
pub open spec fn overrides_without(s: Seq<DirectoryOverride>, path: Seq<char>) -> Seq<DirectoryOverride> {
    s.filter(other_directory(path))
}

/// An override of another directory than the one `path` names.
pub open spec fn other_directory(path: Seq<char>) -> spec_fn(DirectoryOverride) -> bool {
    |o: DirectoryOverride| !same_path_text(o.path@, path)
}

/// Removes every override of the directory `path`; returns whether one was removed.
pub fn unset_override(state: &mut ProjectLocalState, path: &str) -> (removed: bool)
    ensures
        final(state).overrides@ == overrides_without(old(state).overrides@, path@),
        removed == (final(state).overrides@.len() < old(state).overrides@.len()),
        final(state).installed_versions == old(state).installed_versions,
        final(state).active_channels == old(state).active_channels,
        final(state).linked_paths == old(state).linked_paths,
        final(state).default_version_or_channel_name == old(state).default_version_or_channel_name,
{
    let ghost pred = other_directory(path@);
    let n = state.overrides.len();
    let mut kept: Vec<DirectoryOverride> = Vec::new();
    let mut i: usize = 0;
    proof {
        assert(state.overrides@.take(0).filter(pred) =~= Seq::<DirectoryOverride>::empty()) by {
            reveal(Seq::filter);
        }
    }
    while i < n
        invariant
            n == state.overrides@.len(),
            i <= n,
            kept@ == state.overrides@.take(i as int).filter(pred),
            pred == other_directory(path@),
        decreases n - i,
    {
        let o = &state.overrides[i];
        let ghost prefix = state.overrides@.take(i as int);
        proof {
            assert(state.overrides@.take(i + 1) =~= prefix.push(*o));
            prefix.lemma_filter_push(*o, pred);
        }
        if !same_path(o.path.as_str(), path) {
            kept.push(copy_override(o));
        }
        i = i + 1;
    }
    proof {
        assert(state.overrides@.take(n as int) =~= state.overrides@);
        state.overrides@.lemma_filter_len(pred);
    }
    let removed = kept.len() < n;
    state.overrides = kept;
    removed
}

/// The elements of `s` at the positions where `keep` holds, in order.
pub open spec fn kept_where<T>(s: Seq<T>, keep: Seq<bool>) -> Seq<T>
    decreases s.len(),
{
    if s.len() == 0 {
        s
    } else {
        let front = kept_where(s.drop_last(), keep.drop_last());
        if keep.last() {
            front.push(s.last())
        } else {
            front
        }
    }
}

/// Keeps the overrides whose directories exist: `exists[j]` tells whether the directory
/// of override `j` exists. Returns whether one was removed.
pub fn prune_overrides(state: &mut ProjectLocalState, exists: &Vec<bool>) -> (removed: bool)
    requires
        exists@.len() == old(state).overrides@.len(),
    ensures
        final(state).overrides@ == kept_where(old(state).overrides@, exists@),
        removed == (final(state).overrides@.len() < old(state).overrides@.len()),
        final(state).installed_versions == old(state).installed_versions,
        final(state).active_channels == old(state).active_channels,
        final(state).linked_paths == old(state).linked_paths,
        final(state).default_version_or_channel_name == old(state).default_version_or_channel_name,
{
    let n = state.overrides.len();
    let mut kept: Vec<DirectoryOverride> = Vec::new();
    let mut i: usize = 0;
    while i < n
        invariant
            n == state.overrides@.len(),
            n == exists@.len(),
            i <= n,
            kept@ == kept_where(state.overrides@.take(i as int), exists@.take(i as int)),
            kept@.len() <= i,
        decreases n - i,
    {
        let o = &state.overrides[i];
        proof {
            assert(state.overrides@.take(i + 1).drop_last() =~= state.overrides@.take(i as int));
            assert(exists@.take(i + 1).drop_last() =~= exists@.take(i as int));
        }
        if exists[i] {
            kept.push(copy_override(o));
        }
        i = i + 1;
    }
    proof {
        assert(state.overrides@.take(n as int) =~= state.overrides@);
        assert(exists@.take(n as int) =~= exists@);
    }
    let removed = kept.len() < n;
    state.overrides = kept;
    removed
}

/// The overrides sorted by directory, in the order of paths: the same overrides, each as
/// often as before, where an override is placed after the overrides before it whose paths
/// do not sort after its path.
#[verifier::spinoff_prover]
#[verifier::rlimit(40)]
pub fn override_status_rows(state: &ProjectLocalState) -> (r: Vec<DirectoryOverride>)
    ensures
        override_pairs(r@).to_multiset() == override_pairs(state.overrides@).to_multiset(),
        forall|a: int| 0 <= a && a + 1 < r@.len() ==> path_text_le(#[trigger] r@[a].path@, r@[a + 1].path@),
{
    let v = &state.overrides;
    let n = v.len();
    let mut out: Vec<DirectoryOverride> = Vec::new();
    let mut i: usize = 0;
    proof {
        assert(override_pairs(out@) =~= override_pairs(v@.take(0)));
    }
    while i < n
        invariant
            n == v@.len(),
            v == &state.overrides,
            i <= n,
            forall|a: int| 0 <= a && a + 1 < out@.len() ==> path_text_le(#[trigger] out@[a].path@, out@[a + 1].path@),
            override_pairs(out@).to_multiset() == override_pairs(v@.take(i as int)).to_multiset(),
        decreases n - i,
    {
        let x = copy_override(&v[i]);
        let m = out.len();
        let mut p: usize = 0;
        while p < m && path_le(out[p].path.as_str(), x.path.as_str())
            invariant
                m == out@.len(),
                p <= m,
                p > 0 ==> path_text_le(out@[p - 1].path@, x.path@),
            decreases m - p,
        {
            p = p + 1;
        }
        let ghost before = out@;
        let ghost gt = p < m && !path_text_le(before[p as int].path@, x.path@);
        proof {
            if p < m {
                lemma_components_le_total(path_components(before[p as int].path@), path_components(x.path@));
            }
        }
        out.insert(p, x);
        proof {
            let o = out@;
            assert(o =~= before.insert(p as int, x));
            assert forall|a: int| 0 <= a && a + 1 < o.len() implies path_text_le(#[trigger] o[a].path@, o[a + 1].path@) by {
                if a + 1 < p {
                    assert(o[a] == before[a] && o[a + 1] == before[a + 1]);
                } else if a + 1 == p {
                    assert(o[a] == before[a]);
                } else if a == p {
                    assert(o[a + 1] == before[a]);
                    assert(gt);
                } else {
                    assert(o[a] == before[a - 1] && o[a + 1] == before[a]);
                }
            }
            let w = override_pairs(before);
            let xp = (x.path@, x.version_or_channel@);
            assert(override_pairs(out@) =~= w.insert(p as int, xp));
            vstd::seq_lib::to_multiset_insert(w, p as int, xp);
            assert(v@.take(i + 1) =~= v@.take(i as int).push(v@[i as int]));
            assert(override_pairs(v@.take(i + 1)) =~= override_pairs(v@.take(i as int)).push(xp));
            override_pairs(v@.take(i as int)).to_multiset_ensures();
        }
        i = i + 1;
    }
    proof {
        assert(v@.take(n as int) =~= v@);
    }
    out
}

/// A directory with an override has a first override.
pub proof fn lemma_first_override_exists(s: Seq<DirectoryOverride>, path: Seq<char>, k: int)
    requires
        0 <= k < s.len(),
        same_path_text(s[k].path@, path),
    ensures
        exists|j: int| first_override_of(s, path, j),
    decreases k,
{
    if forall|q: int| 0 <= q < k ==> !same_path_text(#[trigger] s[q].path@, path) {
        assert(first_override_of(s, path, k));
    } else {
        let q = choose|q: int| 0 <= q < k && same_path_text(#[trigger] s[q].path@, path);
        lemma_first_override_exists(s, path, q);
    }
}

/// Law: after the override of a directory is set, the first override of that directory
/// names what was set.
pub proof fn law_set_override_is_read_back(
    before: Seq<DirectoryOverride>,
    after: Seq<DirectoryOverride>,
    path: Seq<char>,
    name: Seq<char>,
)
    requires
        override_set(before, after, path, name),
    ensures
        exists|j: int| first_override_of(after, path, j) && after[j].version_or_channel@ == name,
{
    if exists|j: int| first_override_of(before, path, j) {
        let j = choose|j: int|
            first_override_of(before, path, j) && override_pairs(after) == override_pairs(before).update(
                j,
                (before[j].path@, name),
            );
        assert(override_pairs(after).len() == after.len());
        assert forall|k: int| 0 <= k < j implies !same_path_text(#[trigger] after[k].path@, path) by {
            assert(override_pairs(after)[k] == override_pairs(before).update(j, (before[j].path@, name))[k]);
            assert(override_pairs(after)[k] == override_pairs(before)[k]);
            assert(!same_path_text(before[k].path@, path));
        }
        assert(override_pairs(after)[j] == (before[j].path@, name));
        assert(first_override_of(after, path, j));
    } else {
        let j = before.len() as int;
        assert(override_pairs(after).len() == after.len());
        assert forall|k: int| 0 <= k < j implies !same_path_text(#[trigger] after[k].path@, path) by {
            assert(override_pairs(after)[k] == override_pairs(before)[k]);
            if same_path_text(before[k].path@, path) {
                lemma_first_override_exists(before, path, k);
            }
        }
        assert(override_pairs(after)[j] == (path, name));
        assert(first_override_of(after, path, j));
    }
}

/// Law: once the overrides of a directory are unset, none is left of any path that names
/// it, and the overrides of other directories stay.
pub proof fn law_unset_leaves_no_override(before: Seq<DirectoryOverride>, path: Seq<char>)
    ensures
        forall|j: int|
            0 <= j < overrides_without(before, path).len() ==> !same_path_text(
                (#[trigger] overrides_without(before, path)[j]).path@,
                path,
            ),
        forall|j: int|
            0 <= j < before.len() && !same_path_text(before[j].path@, path) ==> overrides_without(before, path).contains(
                #[trigger] before[j],
            ),
{
    let pred = other_directory(path);
    assert forall|j: int| 0 <= j < overrides_without(before, path).len() implies !same_path_text(
        (#[trigger] overrides_without(before, path)[j]).path@,
        path,
    ) by {
        before.lemma_filter_pred(pred, j);
    }
    assert forall|j: int| 0 <= j < before.len() && !same_path_text(before[j].path@, path) implies overrides_without(before, path).contains(
        #[trigger] before[j],
    ) by {
        before.lemma_filter_contains(pred, j);
    }
}

} // verus!
