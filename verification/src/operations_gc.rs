//! Garbage collection of installed versions that nothing uses any more.
//!
//! The caller deletes the directories of the collected versions and, when pruning
//! links, tells which links point to files that no longer exist.
use vstd::prelude::*;

use crate::operations_metadata::{resolve_channel_to_version, spec_resolve};
use crate::project_metadata_m::ProjectMetadata;
use crate::state_config::ProjectLocalState;
use crate::command_override::kept_where;
use crate::text::{lemma_seq_views_push, seq_views};

verus! {

/// The version `v` is in use: the default resolves to it, a tracked channel last resolved
/// to it, or a directory override resolves to it.
pub open spec fn version_in_use(metadata: &ProjectMetadata, state: &ProjectLocalState, v: Seq<char>) -> bool {
    ||| (state.default_version_or_channel_name matches Some(d) && spec_resolve(d@, metadata) == Ok::<
        Seq<char>,
        crate::operations_metadata::ResolveErrorView,
    >(v))
    ||| exists|j: int|
        0 <= j < state.active_channels.value_seq().len()
            && #[trigger] state.active_channels.value_seq()[j].resolved_version@ == v
    ||| exists|j: int|
        0 <= j < state.overrides@.len() && spec_resolve(
            #[trigger] state.overrides@[j].version_or_channel@,
            metadata,
        ) == Ok::<Seq<char>, crate::operations_metadata::ResolveErrorView>(v)
}

/// Whether `v` holds a string with the characters of `s`.
pub fn vec_contains(v: &Vec<String>, s: &str) -> (r: bool)
    ensures
        r == seq_views(v@).contains(s@),
{
    let wanted = s.to_owned();
    let n = v.len();
    let mut i: usize = 0;
    while i < n
        invariant
            n == v@.len(),
            wanted@ == s@,
            i <= n,
            forall|j: int| 0 <= j < i ==> v@[j]@ != s@,
        decreases n - i,
    {
        if v[i] == wanted {
            proof {
                assert(seq_views(v@)[i as int] == s@);
            }
            return true;
        }
        i = i + 1;
    }
    proof {
        if seq_views(v@).contains(s@) {
            let j = choose|j: int| 0 <= j < seq_views(v@).len() && seq_views(v@)[j] == s@;
            assert(v@[j]@ == s@);
        }
    }
    false
}

/// The versions in use, as a list.
fn versions_in_use(metadata: &ProjectMetadata, state: &ProjectLocalState) -> (r: Vec<String>)
    ensures
        forall|v: Seq<char>| seq_views(r@).contains(v) <==> version_in_use(metadata, state, v),
{
    let mut active: Vec<String> = Vec::new();
    let ghost default_part = |v: Seq<char>|
        state.default_version_or_channel_name matches Some(d) && spec_resolve(d@, metadata) == Ok::<
            Seq<char>,
            crate::operations_metadata::ResolveErrorView,
        >(v);
    if let Some(d) = &state.default_version_or_channel_name {
        if let Ok(resolved) = resolve_channel_to_version(d.as_str(), metadata) {
            active.push(resolved);
        }
    }
    proof {
        assert forall|v: Seq<char>| seq_views(active@).contains(v) <==> default_part(v) by {
            if default_part(v) {
                assert(seq_views(active@)[0] == v);
            }
        }
    }
    let values_len = state.active_channels.len();
    let ghost channels = state.active_channels.value_seq();
    proof {
        use_type_invariant(&state.active_channels);
        state.active_channels.lemma_walk();
    }
    let mut i: usize = 0;
    while i < values_len
        invariant
            values_len == channels.len(),
            channels == state.active_channels.value_seq(),
            values_len == state.active_channels.key_seq().len(),
            i <= values_len,
            forall|v: Seq<char>|
                seq_views(active@).contains(v) <==> (default_part(v) || exists|j: int|
                    0 <= j < i && #[trigger] channels[j].resolved_version@ == v),
        decreases values_len - i,
    {
        let info = state.active_channels.value_at(i);
        let ghost before = active@;
        let item = info.resolved_version.clone();
        active.push(item);
        proof {
            lemma_seq_views_push(before, item);
            assert forall|v: Seq<char>|
                seq_views(active@).contains(v) <==> (default_part(v) || exists|j: int|
                    0 <= j < i + 1 && #[trigger] channels[j].resolved_version@ == v) by {
                assert(seq_views(active@).contains(v) <==> (seq_views(before).contains(v) || v == item@));
                if exists|j: int| 0 <= j < i + 1 && #[trigger] channels[j].resolved_version@ == v {
                    let j = choose|j: int| 0 <= j < i + 1 && #[trigger] channels[j].resolved_version@ == v;
                    if j == i {
                        assert(v == item@);
                    }
                }
                if v == item@ {
                    assert(channels[i as int].resolved_version@ == v);
                }
            }
        }
        i = i + 1;
    }
    let n_overrides = state.overrides.len();
    let mut o: usize = 0;
    while o < n_overrides
        invariant
            n_overrides == state.overrides@.len(),
            values_len == channels.len(),
            channels == state.active_channels.value_seq(),
            o <= n_overrides,
            forall|v: Seq<char>|
                seq_views(active@).contains(v) <==> (default_part(v) || (exists|j: int|
                    0 <= j < values_len && #[trigger] channels[j].resolved_version@ == v) || exists|j: int|
                    0 <= j < o && spec_resolve(#[trigger] state.overrides@[j].version_or_channel@, metadata)
                        == Ok::<Seq<char>, crate::operations_metadata::ResolveErrorView>(v)),
        decreases n_overrides - o,
    {
        let ov = &state.overrides[o];
        let ghost before = active@;
        let ghost ov_ok = spec_resolve(state.overrides@[o as int].version_or_channel@, metadata);
        if let Ok(resolved) = resolve_channel_to_version(ov.version_or_channel.as_str(), metadata) {
            active.push(resolved);
            proof {
                lemma_seq_views_push(before, resolved);
            }
        }
        proof {
            assert forall|v: Seq<char>|
                seq_views(active@).contains(v) <==> (default_part(v) || (exists|j: int|
                    0 <= j < values_len && #[trigger] channels[j].resolved_version@ == v) || exists|j: int|
                    0 <= j < o + 1 && spec_resolve(#[trigger] state.overrides@[j].version_or_channel@, metadata)
                        == Ok::<Seq<char>, crate::operations_metadata::ResolveErrorView>(v)) by {
                assert(seq_views(active@).contains(v) <==> (seq_views(before).contains(v) || ov_ok == Ok::<Seq<char>, crate::operations_metadata::ResolveErrorView>(v)));
                if exists|j: int| 0 <= j < o + 1 && spec_resolve(#[trigger] state.overrides@[j].version_or_channel@, metadata)
                    == Ok::<Seq<char>, crate::operations_metadata::ResolveErrorView>(v) {
                    let j = choose|j: int| 0 <= j < o + 1 && spec_resolve(#[trigger] state.overrides@[j].version_or_channel@, metadata)
                        == Ok::<Seq<char>, crate::operations_metadata::ResolveErrorView>(v);
                    if j == o {
                        assert(ov_ok == Ok::<Seq<char>, crate::operations_metadata::ResolveErrorView>(v));
                    }
                }
            }
        }
        o = o + 1;
    }
    active
}


/// The directory names of the installed versions that are not in use.
pub open spec fn unused_segment(metadata: &ProjectMetadata, state: &ProjectLocalState, s: Seq<char>) -> bool {
    exists|j: int|
        0 <= j < state.installed_versions.key_seq().len() && !version_in_use(
            metadata,
            state,
            #[trigger] state.installed_versions.key_seq()[j],
        ) && state.installed_versions.value_seq()[j].path_segment@ == s
}

/// What garbage collection does: `segments` lists the directories of the installed
/// versions of `before` that nothing uses, and `after` forgets every installed version
/// stored in one of them and keeps everything else.
pub open spec fn garbage_collected(
    metadata: &ProjectMetadata,
    before: ProjectLocalState,
    after: ProjectLocalState,
    segments: Seq<Seq<char>>,
) -> bool {
    &&& forall|s: Seq<char>| segments.contains(s) <==> unused_segment(metadata, &before, s)
    &&& forall|k: Seq<char>| #[trigger] after.installed_versions.spec_map().contains_key(k) <==> (
        before.installed_versions.spec_map().contains_key(k) && !segments.contains(
            before.installed_versions.spec_map()[k].path_segment@,
        ))
    &&& forall|k: Seq<char>| #[trigger] after.installed_versions.spec_map().contains_key(k)
        ==> after.installed_versions.spec_map()[k] == before.installed_versions.spec_map()[k]
    &&& after.default_version_or_channel_name == before.default_version_or_channel_name
    &&& after.active_channels == before.active_channels
    &&& after.linked_paths == before.linked_paths
    &&& after.overrides == before.overrides
}

/// Collects the installed versions that nothing uses, as [`garbage_collected`] describes:
/// returns the directory names of the unused versions. The caller deletes those
/// directories.
pub fn collect_unused_versions(project_metadata: &ProjectMetadata, project_state: &mut ProjectLocalState) -> (segments: Vec<String>)
    ensures
        garbage_collected(project_metadata, *old(project_state), *final(project_state), seq_views(segments@)),
{
    let ghost st0 = *project_state;
    let in_use = versions_in_use(project_metadata, project_state);
    let keys = project_state.installed_versions.keys();
    let n = keys.len();
    let ghost old_map = project_state.installed_versions.spec_map();
    let ghost ks = project_state.installed_versions.key_seq();
    let ghost vs = project_state.installed_versions.value_seq();
    proof {
        use_type_invariant(&project_state.installed_versions);
        project_state.installed_versions.lemma_walk();
    }
    let mut segments: Vec<String> = Vec::new();
    let mut i: usize = 0;
    while i < n
        invariant
            n == keys@.len(),
            n == ks.len(),
            n == vs.len(),
            ks == project_state.installed_versions.key_seq(),
            vs == project_state.installed_versions.value_seq(),
            forall|j: int| 0 <= j < n ==> #[trigger] keys@[j]@ == ks[j],
            forall|v: Seq<char>| seq_views(in_use@).contains(v) <==> version_in_use(project_metadata, project_state, v),
            i <= n,
            *project_state == st0,
            forall|s: Seq<char>|
                seq_views(segments@).contains(s) <==> exists|j: int|
                    0 <= j < i && !version_in_use(project_metadata, project_state, #[trigger] ks[j])
                        && vs[j].path_segment@ == s,
        decreases n - i,
    {
        let ghost before = segments@;
        let used = vec_contains(&in_use, keys[i].as_str());
        let ghost seg_i = vs[i as int].path_segment@;
        if !used {
            let seg = project_state.installed_versions.value_at(i).path_segment.clone();
            segments.push(seg);
            proof {
                lemma_seq_views_push(before, seg);
            }
        }
        proof {
            assert(keys@[i as int]@ == ks[i as int]);
            assert(used == version_in_use(project_metadata, project_state, ks[i as int]));
            assert(seq_views(segments@) == if used { seq_views(before) } else { seq_views(before).push(seg_i) });
            assert forall|s: Seq<char>|
                seq_views(segments@).contains(s) <==> exists|j: int|
                    0 <= j < i + 1 && !version_in_use(project_metadata, project_state, #[trigger] ks[j])
                        && vs[j].path_segment@ == s by {
                let here = !used && seg_i == s;
                if !used {
                    let w = seq_views(before);
                    if w.push(seg_i).contains(s) && !w.contains(s) {
                        let k = choose|k: int| 0 <= k < w.push(seg_i).len() && w.push(seg_i)[k] == s;
                        assert(k == w.len());
                    }
                    if w.contains(s) {
                        let k = choose|k: int| 0 <= k < w.len() && w[k] == s;
                        assert(w.push(seg_i)[k] == s);
                    }
                    if s == seg_i {
                        assert(w.push(seg_i)[w.len() as int] == s);
                    }
                }
                assert(seq_views(segments@).contains(s) <==> (seq_views(before).contains(s) || here));
                if exists|j: int| 0 <= j < i + 1 && !version_in_use(project_metadata, project_state, #[trigger] ks[j])
                        && vs[j].path_segment@ == s {
                    let j = choose|j: int| 0 <= j < i + 1 && !version_in_use(project_metadata, project_state, #[trigger] ks[j])
                        && vs[j].path_segment@ == s;
                    if j == i {
                        assert(here);
                    }
                }
            }
        }
        i = i + 1;
    }
    let ghost frozen = *project_state;
    let mut r: usize = 0;
    while r < n
        invariant
            n == keys@.len(),
            n == ks.len(),
            old_map.dom() == ks.to_set(),
            forall|j: int| 0 <= j < n ==> #[trigger] keys@[j]@ == ks[j],
            r <= n,
            project_state.default_version_or_channel_name == frozen.default_version_or_channel_name,
            project_state.active_channels == frozen.active_channels,
            project_state.linked_paths == frozen.linked_paths,
            project_state.overrides == frozen.overrides,
            forall|k: Seq<char>| #[trigger] project_state.installed_versions.spec_map().contains_key(k) <==> (
                old_map.contains_key(k) && !((exists|j: int| 0 <= j < r && ks[j] == k) && seq_views(segments@).contains(
                    old_map[k].path_segment@,
                ))),
            forall|k: Seq<char>| #[trigger] project_state.installed_versions.spec_map().contains_key(k) ==>
                project_state.installed_versions.spec_map()[k] == old_map[k],
        decreases n - r,
    {
        let key = &keys[r];
        let seg = match project_state.installed_versions.get(key.as_str()) {
            Some(info) => Some(info.path_segment.clone()),
            None => None,
        };
        let ghost before_map = project_state.installed_versions.spec_map();
        if let Some(seg) = seg {
            if vec_contains(&segments, seg.as_str()) {
                project_state.installed_versions.remove(key.as_str());
            }
        }
        proof {
            assert forall|k: Seq<char>| #[trigger] project_state.installed_versions.spec_map().contains_key(k) <==> (
                old_map.contains_key(k) && !((exists|j: int| 0 <= j < r + 1 && ks[j] == k) && seq_views(segments@).contains(
                    old_map[k].path_segment@,
                ))) by {
                if exists|j: int| 0 <= j < r + 1 && ks[j] == k {
                    let j = choose|j: int| 0 <= j < r + 1 && ks[j] == k;
                    if j < r {
                        assert(exists|j: int| 0 <= j < r && ks[j] == k);
                    }
                }
                if k != ks[r as int] {
                    if exists|j: int| 0 <= j < r + 1 && ks[j] == k {
                        let j = choose|j: int| 0 <= j < r + 1 && ks[j] == k;
                        assert(j != r);
                        assert(exists|j: int| 0 <= j < r && ks[j] == k);
                    }
                } else {
                    assert(exists|j: int| 0 <= j < r + 1 && ks[j] == k);
                }
            }
        }
        r = r + 1;
    }
    proof {
        assert forall|k: Seq<char>| #[trigger] old_map.contains_key(k) implies exists|j: int| 0 <= j < n && ks[j] == k by {
            assert(ks.to_set().contains(k));
        }
        assert(st0 == *old(project_state));
        assert forall|s: Seq<char>| seq_views(segments@).contains(s) <==> unused_segment(project_metadata, &st0, s) by {
        }
    }
    segments
}

/// What pruning dangling links does: `exists[j]` tells whether the target of the link at
/// position `j` of the walk of `before`'s links exists. `after` keeps exactly the links
/// whose targets exist, unchanged, and `dropped` lists the others in the order of the
/// walk; the rest of the state stays.
pub open spec fn links_pruned(
    before: ProjectLocalState,
    after: ProjectLocalState,
    exists: Seq<bool>,
    dropped: Seq<Seq<char>>,
) -> bool {
    let ks = before.linked_paths.key_seq();
    &&& forall|j: int| 0 <= j < ks.len() ==> after.linked_paths.spec_map().contains_key(#[trigger] ks[j]) == exists[j]
    &&& forall|k: Seq<char>| #[trigger] after.linked_paths.spec_map().contains_key(k)
        ==> before.linked_paths.spec_map().contains_key(k) && after.linked_paths.spec_map()[k]
        == before.linked_paths.spec_map()[k]
    &&& dropped == kept_where(ks, Seq::new(ks.len(), |j: int| !exists[j]))
    &&& after.installed_versions == before.installed_versions
    &&& after.default_version_or_channel_name == before.default_version_or_channel_name
    &&& after.active_channels == before.active_channels
    &&& after.overrides == before.overrides
}

/// Drops the links whose targets do not exist, as [`links_pruned`] describes, and returns
/// their names; the caller removes their symlinks.
pub fn prune_dangling_links(state: &mut ProjectLocalState, exists: &Vec<bool>) -> (dropped: Vec<String>)
    requires
        exists@.len() == old(state).linked_paths.key_seq().len(),
    ensures
        links_pruned(*old(state), *final(state), exists@, seq_views(dropped@)),
{
    proof {
        use_type_invariant(&state.linked_paths);
        state.linked_paths.lemma_walk();
    }
    let keys = state.linked_paths.keys();
    let n = keys.len();
    let ghost st0 = *state;
    let ghost ks = state.linked_paths.key_seq();
    let ghost old_map = state.linked_paths.spec_map();
    let ghost neg = Seq::new(n as nat, |j: int| !exists@[j]);
    let mut dropped: Vec<String> = Vec::new();
    let mut i: usize = 0;
    proof {
        assert(ks.take(0) =~= Seq::<Seq<char>>::empty());
        assert(seq_views(dropped@) =~= kept_where(ks.take(0), neg.take(0)));
    }
    while i < n
        invariant
            n == keys@.len(),
            n == ks.len(),
            n == exists@.len(),
            neg == Seq::new(n as nat, |j: int| !exists@[j]),
            forall|j: int| 0 <= j < n ==> #[trigger] keys@[j]@ == ks[j],
            ks.no_duplicates(),
            old_map.dom() == ks.to_set(),
            i <= n,
            forall|k: Seq<char>| #[trigger] state.linked_paths.spec_map().contains_key(k) <==> (old_map.contains_key(k)
                && !(exists|j: int| 0 <= j < i && ks[j] == k && !exists@[j])),
            forall|k: Seq<char>| #[trigger] state.linked_paths.spec_map().contains_key(k) ==> state.linked_paths.spec_map()[k]
                == old_map[k],
            seq_views(dropped@) == kept_where(ks.take(i as int), neg.take(i as int)),
            state.installed_versions == st0.installed_versions,
            state.default_version_or_channel_name == st0.default_version_or_channel_name,
            state.active_channels == st0.active_channels,
            state.overrides == st0.overrides,
        decreases n - i,
    {
        let ghost before_map = state.linked_paths.spec_map();
        let ghost before_dropped = dropped@;
        if !exists[i] {
            state.linked_paths.remove(keys[i].as_str());
            let name = keys[i].clone();
            dropped.push(name);
            proof {
                lemma_seq_views_push(before_dropped, name);
            }
        }
        proof {
            assert(ks.take(i + 1).drop_last() =~= ks.take(i as int));
            assert(neg.take(i + 1).drop_last() =~= neg.take(i as int));
            assert(keys@[i as int]@ == ks[i as int]);
            assert forall|k: Seq<char>| #[trigger] state.linked_paths.spec_map().contains_key(k) <==> (old_map.contains_key(k)
                && !(exists|j: int| 0 <= j < i + 1 && ks[j] == k && !exists@[j])) by {
                if exists|j: int| 0 <= j < i + 1 && ks[j] == k && !exists@[j] {
                    let j = choose|j: int| 0 <= j < i + 1 && ks[j] == k && !exists@[j];
                    if j < i {
                        assert(exists|j: int| 0 <= j < i && ks[j] == k && !exists@[j]);
                    }
                }
                if exists|j: int| 0 <= j < i && ks[j] == k && !exists@[j] {
                    let j = choose|j: int| 0 <= j < i && ks[j] == k && !exists@[j];
                    assert(0 <= j < i + 1 && ks[j] == k && !exists@[j]);
                }
            }
        }
        i = i + 1;
    }
    proof {
        assert(ks.take(n as int) =~= ks);
        assert(neg.take(n as int) =~= neg);
        assert forall|j: int| 0 <= j < ks.len() implies state.linked_paths.spec_map().contains_key(#[trigger] ks[j])
            == exists@[j] by {
            assert(ks.to_set().contains(ks[j]));
            if exists|j2: int| 0 <= j2 < n && ks[j2] == ks[j] && !exists@[j2] {
                let j2 = choose|j2: int| 0 <= j2 < n && ks[j2] == ks[j] && !exists@[j2];
                assert(j2 == j);
            }
            if !exists@[j] {
                assert(0 <= j < n && ks[j] == ks[j] && !exists@[j]);
            }
        }
        assert(st0 == *old(state));
    }
    dropped
}

/// Law: garbage collection keeps every installed version that is in use, unless an
/// unused installed version shares its directory.
pub proof fn law_gc_keeps_versions_in_use(
    metadata: &ProjectMetadata,
    before: ProjectLocalState,
    after: ProjectLocalState,
    segments: Seq<Seq<char>>,
    v: Seq<char>,
)
    requires
        garbage_collected(metadata, before, after, segments),
        before.installed_versions.inv(),
        before.installed_versions.spec_map().contains_key(v),
        version_in_use(metadata, &before, v),
        forall|k: Seq<char>|
            #[trigger] before.installed_versions.spec_map().contains_key(k) && !version_in_use(metadata, &before, k)
                ==> before.installed_versions.spec_map()[k].path_segment@ != before.installed_versions.spec_map()[v].path_segment@,
    ensures
        after.installed_versions.spec_map().contains_key(v),
        after.installed_versions.spec_map()[v] == before.installed_versions.spec_map()[v],
{
    let seg = before.installed_versions.spec_map()[v].path_segment@;
    if segments.contains(seg) {
        assert(unused_segment(metadata, &before, seg));
        let j = choose|j: int|
            0 <= j < before.installed_versions.key_seq().len() && !version_in_use(
                metadata,
                &before,
                #[trigger] before.installed_versions.key_seq()[j],
            ) && before.installed_versions.value_seq()[j].path_segment@ == seg;
        before.installed_versions.lemma_walk();
        let k = before.installed_versions.key_seq()[j];
        assert(before.installed_versions.key_seq().to_set().contains(k));
        assert(before.installed_versions.spec_map()[k] == before.installed_versions.value_seq()[j]);
    }
}

/// Law: garbage collection forgets every installed version that nothing uses.
pub proof fn law_gc_forgets_unused_versions(
    metadata: &ProjectMetadata,
    before: ProjectLocalState,
    after: ProjectLocalState,
    segments: Seq<Seq<char>>,
    v: Seq<char>,
)
    requires
        garbage_collected(metadata, before, after, segments),
        before.installed_versions.inv(),
        before.installed_versions.spec_map().contains_key(v),
        !version_in_use(metadata, &before, v),
    ensures
        !after.installed_versions.spec_map().contains_key(v),
{
    before.installed_versions.lemma_walk();
    let ks = before.installed_versions.key_seq();
    assert(ks.to_set().contains(v));
    let j = choose|j: int| 0 <= j < ks.len() && ks[j] == v;
    assert(before.installed_versions.spec_map()[ks[j]] == before.installed_versions.value_seq()[j]);
    assert(unused_segment(metadata, &before, before.installed_versions.spec_map()[v].path_segment@));
}

/// After garbage collection every installed version left is in use, so in any state that
/// shares the installed versions and what they are used by, no directory is unused.
proof fn lemma_nothing_left_unused(
    metadata: &ProjectMetadata,
    s0: ProjectLocalState,
    s1: ProjectLocalState,
    first: Seq<Seq<char>>,
    t: ProjectLocalState,
)
    requires
        garbage_collected(metadata, s0, s1, first),
        s0.installed_versions.inv(),
        s1.installed_versions.inv(),
        t.installed_versions == s1.installed_versions,
        t.default_version_or_channel_name == s1.default_version_or_channel_name,
        t.active_channels == s1.active_channels,
        t.overrides == s1.overrides,
    ensures
        forall|x: Seq<char>| !unused_segment(metadata, &t, x),
{
    s0.installed_versions.lemma_walk();
    s1.installed_versions.lemma_walk();
    assert forall|x: Seq<char>| !unused_segment(metadata, &t, x) by {
        if unused_segment(metadata, &t, x) {
            let j = choose|j: int|
                0 <= j < s1.installed_versions.key_seq().len() && !version_in_use(
                    metadata,
                    &t,
                    #[trigger] s1.installed_versions.key_seq()[j],
                ) && s1.installed_versions.value_seq()[j].path_segment@ == x;
            let k = s1.installed_versions.key_seq()[j];
            assert(!version_in_use(metadata, &s1, k));
            assert(s1.installed_versions.key_seq().to_set().contains(k));
            assert(s1.installed_versions.spec_map().contains_key(k));
            assert(s1.installed_versions.spec_map()[k] == s1.installed_versions.value_seq()[j]);
            assert(s0.installed_versions.spec_map().contains_key(k));
            assert(!version_in_use(metadata, &s0, k));
            let ks0 = s0.installed_versions.key_seq();
            assert(ks0.to_set().contains(k));
            let i = choose|i: int| 0 <= i < ks0.len() && ks0[i] == k;
            assert(s0.installed_versions.spec_map()[ks0[i]] == s0.installed_versions.value_seq()[i]);
            assert(unused_segment(metadata, &s0, s0.installed_versions.spec_map()[k].path_segment@));
            assert(first.contains(s0.installed_versions.spec_map()[k].path_segment@));
        }
    }
}

/// Law: garbage collection right after garbage collection collects nothing and leaves the
/// state as it was.
pub proof fn law_gc_is_idempotent(
    metadata: &ProjectMetadata,
    s0: ProjectLocalState,
    s1: ProjectLocalState,
    s2: ProjectLocalState,
    first: Seq<Seq<char>>,
    second: Seq<Seq<char>>,
)
    requires
        garbage_collected(metadata, s0, s1, first),
        garbage_collected(metadata, s1, s2, second),
        s0.installed_versions.inv(),
        s1.installed_versions.inv(),
    ensures
        second.len() == 0,
        s2.installed_versions.spec_map() == s1.installed_versions.spec_map(),
        s2.default_version_or_channel_name == s1.default_version_or_channel_name,
        s2.active_channels == s1.active_channels,
        s2.linked_paths == s1.linked_paths,
        s2.overrides == s1.overrides,
{
    lemma_nothing_left_unused(metadata, s0, s1, first, s1);
    if second.len() > 0 {
        assert(second.contains(second[0]));
    }
    assert(s2.installed_versions.spec_map() =~= s1.installed_versions.spec_map());
}

/// Nothing is kept where nothing is to be kept.
proof fn lemma_kept_where_none<T>(s: Seq<T>, keep: Seq<bool>)
    requires
        s.len() == keep.len(),
        forall|j: int| 0 <= j < keep.len() ==> !#[trigger] keep[j],
    ensures
        kept_where(s, keep).len() == 0,
    decreases s.len(),
{
    if s.len() > 0 {
        assert forall|j: int| 0 <= j < keep.drop_last().len() implies !#[trigger] keep.drop_last()[j] by {
            assert(keep.drop_last()[j] == keep[j]);
        }
        lemma_kept_where_none(s.drop_last(), keep.drop_last());
        assert(!keep[keep.len() - 1]);
    }
}

/// Law: pruning dangling links a second time, while the file system does not change
/// (whether a link's target exists depends only on its command path), drops no link and
/// keeps the links as the first pruning left them.
pub proof fn law_prune_is_idempotent(
    s1: ProjectLocalState,
    s2: ProjectLocalState,
    s3: ProjectLocalState,
    exists1: Seq<bool>,
    dropped1: Seq<Seq<char>>,
    exists2: Seq<bool>,
    dropped2: Seq<Seq<char>>,
    target_exists: spec_fn(Seq<char>) -> bool,
)
    requires
        exists1.len() == s1.linked_paths.key_seq().len(),
        forall|j: int|
            0 <= j < exists1.len() ==> #[trigger] exists1[j] == target_exists(
                s1.linked_paths.spec_map()[s1.linked_paths.key_seq()[j]].command_path@,
            ),
        links_pruned(s1, s2, exists1, dropped1),
        exists2.len() == s2.linked_paths.key_seq().len(),
        forall|j: int|
            0 <= j < exists2.len() ==> #[trigger] exists2[j] == target_exists(
                s2.linked_paths.spec_map()[s2.linked_paths.key_seq()[j]].command_path@,
            ),
        links_pruned(s2, s3, exists2, dropped2),
        s1.linked_paths.inv(),
        s2.linked_paths.inv(),
    ensures
        dropped2.len() == 0,
        s3.linked_paths.spec_map() == s2.linked_paths.spec_map(),
        s3.installed_versions == s2.installed_versions,
        s3.default_version_or_channel_name == s2.default_version_or_channel_name,
        s3.active_channels == s2.active_channels,
        s3.overrides == s2.overrides,
{
    s1.linked_paths.lemma_walk();
    s2.linked_paths.lemma_walk();
    let ks1 = s1.linked_paths.key_seq();
    let ks2 = s2.linked_paths.key_seq();
    assert forall|j: int| 0 <= j < exists2.len() implies #[trigger] exists2[j] by {
        let k = ks2[j];
        assert(ks2.to_set().contains(k));
        assert(s2.linked_paths.spec_map().contains_key(k));
        assert(s1.linked_paths.spec_map().contains_key(k));
        assert(ks1.to_set().contains(k));
        let j1 = choose|j1: int| 0 <= j1 < ks1.len() && ks1[j1] == k;
        assert(s2.linked_paths.spec_map().contains_key(ks1[j1]) == exists1[j1]);
    }
    lemma_kept_where_none(ks2, Seq::new(ks2.len(), |j: int| !exists2[j]));
    assert forall|k: Seq<char>| #[trigger] s2.linked_paths.spec_map().contains_key(k) implies s3.linked_paths.spec_map().contains_key(k) by {
        assert(ks2.to_set().contains(k));
        let j = choose|j: int| 0 <= j < ks2.len() && ks2[j] == k;
        assert(exists2[j]);
    }
    assert(s3.linked_paths.spec_map() =~= s2.linked_paths.spec_map());
}

/// Law: garbage collection with pruning of dangling links, run twice while the file system
/// does not change (whether a link's target exists depends only on its command path),
/// collects nothing and drops no link the second time, and leaves the state as the first
/// run left it.
pub proof fn law_gc_with_pruning_is_idempotent(
    metadata: &ProjectMetadata,
    s0: ProjectLocalState,
    s1: ProjectLocalState,
    s2: ProjectLocalState,
    s3: ProjectLocalState,
    s4: ProjectLocalState,
    collected1: Seq<Seq<char>>,
    exists1: Seq<bool>,
    dropped1: Seq<Seq<char>>,
    collected2: Seq<Seq<char>>,
    exists2: Seq<bool>,
    dropped2: Seq<Seq<char>>,
    target_exists: spec_fn(Seq<char>) -> bool,
)
    requires
        garbage_collected(metadata, s0, s1, collected1),
        exists1.len() == s1.linked_paths.key_seq().len(),
        forall|j: int|
            0 <= j < exists1.len() ==> #[trigger] exists1[j] == target_exists(
                s1.linked_paths.spec_map()[s1.linked_paths.key_seq()[j]].command_path@,
            ),
        links_pruned(s1, s2, exists1, dropped1),
        garbage_collected(metadata, s2, s3, collected2),
        exists2.len() == s3.linked_paths.key_seq().len(),
        forall|j: int|
            0 <= j < exists2.len() ==> #[trigger] exists2[j] == target_exists(
                s3.linked_paths.spec_map()[s3.linked_paths.key_seq()[j]].command_path@,
            ),
        links_pruned(s3, s4, exists2, dropped2),
        s0.installed_versions.inv(),
        s1.installed_versions.inv(),
        s1.linked_paths.inv(),
        s3.linked_paths.inv(),
    ensures
        collected2.len() == 0,
        dropped2.len() == 0,
        s4.installed_versions.spec_map() == s2.installed_versions.spec_map(),
        s4.linked_paths.spec_map() == s2.linked_paths.spec_map(),
        s4.default_version_or_channel_name == s2.default_version_or_channel_name,
        s4.active_channels == s2.active_channels,
        s4.overrides == s2.overrides,
{
    lemma_nothing_left_unused(metadata, s0, s1, collected1, s2);
    if collected2.len() > 0 {
        assert(collected2.contains(collected2[0]));
    }
    assert(s3.installed_versions.spec_map() =~= s2.installed_versions.spec_map());
    s1.linked_paths.lemma_walk();
    s3.linked_paths.lemma_walk();
    let ks1 = s1.linked_paths.key_seq();
    let ks3 = s3.linked_paths.key_seq();
    assert forall|j: int| 0 <= j < exists2.len() implies #[trigger] exists2[j] by {
        let k = ks3[j];
        assert(ks3.to_set().contains(k));
        assert(s2.linked_paths.spec_map().contains_key(k));
        assert(s1.linked_paths.spec_map().contains_key(k));
        assert(ks1.to_set().contains(k));
        let j1 = choose|j1: int| 0 <= j1 < ks1.len() && ks1[j1] == k;
        assert(s2.linked_paths.spec_map().contains_key(ks1[j1]) == exists1[j1]);
    }
    lemma_kept_where_none(ks3, Seq::new(ks3.len(), |j: int| !exists2[j]));
    assert forall|k: Seq<char>| #[trigger] s3.linked_paths.spec_map().contains_key(k) implies s4.linked_paths.spec_map().contains_key(k) by {
        assert(ks3.to_set().contains(k));
        let j = choose|j: int| 0 <= j < ks3.len() && ks3[j] == k;
        assert(exists2[j]);
    }
    assert(s4.linked_paths.spec_map() =~= s3.linked_paths.spec_map());
}

/// Law: garbage collection keeps every installed version that something uses — the
/// version the default resolves to, the version a tracked channel last resolved to, or
/// the version a directory override resolves to — unless another installed version shares
/// its directory (and is collected with it).
pub proof fn law_gc_keeps_used_versions(
    metadata: &ProjectMetadata,
    before: ProjectLocalState,
    after: ProjectLocalState,
    segments: Seq<Seq<char>>,
    v: Seq<char>,
)
    requires
        garbage_collected(metadata, before, after, segments),
        before.installed_versions.inv(),
        before.active_channels.inv(),
        before.installed_versions.spec_map().contains_key(v),
        (before.default_version_or_channel_name matches Some(d) && spec_resolve(d@, metadata) == Ok::<
            Seq<char>,
            crate::operations_metadata::ResolveErrorView,
        >(v)) || (exists|c: Seq<char>|
            #[trigger] before.active_channels.spec_map().contains_key(c)
                && before.active_channels.spec_map()[c].resolved_version@ == v) || (exists|j: int|
            0 <= j < before.overrides@.len() && spec_resolve(#[trigger] before.overrides@[j].version_or_channel@, metadata)
                == Ok::<Seq<char>, crate::operations_metadata::ResolveErrorView>(v)),
        forall|k: Seq<char>|
            #[trigger] before.installed_versions.spec_map().contains_key(k) && k != v
                ==> before.installed_versions.spec_map()[k].path_segment@ != before.installed_versions.spec_map()[v].path_segment@,
    ensures
        after.installed_versions.spec_map().contains_key(v),
        after.installed_versions.spec_map()[v] == before.installed_versions.spec_map()[v],
{
    before.installed_versions.lemma_walk();
    before.active_channels.lemma_walk();
    if exists|c: Seq<char>|
        #[trigger] before.active_channels.spec_map().contains_key(c) && before.active_channels.spec_map()[c].resolved_version@ == v {
        let c = choose|c: Seq<char>|
            #[trigger] before.active_channels.spec_map().contains_key(c) && before.active_channels.spec_map()[c].resolved_version@ == v;
        let cs = before.active_channels.key_seq();
        assert(cs.to_set().contains(c));
        let i = choose|i: int| 0 <= i < cs.len() && cs[i] == c;
        assert(before.active_channels.spec_map()[cs[i]] == before.active_channels.value_seq()[i]);
        assert(before.active_channels.value_seq()[i].resolved_version@ == v);
    }
    assert(version_in_use(metadata, &before, v));
    let seg = before.installed_versions.spec_map()[v].path_segment@;
    if segments.contains(seg) {
        assert(unused_segment(metadata, &before, seg));
        let ks = before.installed_versions.key_seq();
        let j = choose|j: int|
            0 <= j < ks.len() && !version_in_use(metadata, &before, #[trigger] ks[j])
                && before.installed_versions.value_seq()[j].path_segment@ == seg;
        let k = ks[j];
        assert(ks.to_set().contains(k));
        assert(before.installed_versions.spec_map()[k] == before.installed_versions.value_seq()[j]);
        assert(before.installed_versions.spec_map().contains_key(k));
    }
}

/// Law: garbage collection forgets an installed version that nothing uses — the default
/// does not resolve to it, no tracked channel last resolved to it, and no directory
/// override resolves to it.
pub proof fn law_gc_forgets_versions_nothing_uses(
    metadata: &ProjectMetadata,
    before: ProjectLocalState,
    after: ProjectLocalState,
    segments: Seq<Seq<char>>,
    v: Seq<char>,
)
    requires
        garbage_collected(metadata, before, after, segments),
        before.installed_versions.inv(),
        before.active_channels.inv(),
        before.installed_versions.spec_map().contains_key(v),
        !(before.default_version_or_channel_name matches Some(d) && spec_resolve(d@, metadata) == Ok::<
            Seq<char>,
            crate::operations_metadata::ResolveErrorView,
        >(v)),
        forall|c: Seq<char>|
            #[trigger] before.active_channels.spec_map().contains_key(c)
                ==> before.active_channels.spec_map()[c].resolved_version@ != v,
        forall|j: int|
            0 <= j < before.overrides@.len() ==> spec_resolve(#[trigger] before.overrides@[j].version_or_channel@, metadata)
                != Ok::<Seq<char>, crate::operations_metadata::ResolveErrorView>(v),
    ensures
        !after.installed_versions.spec_map().contains_key(v),
{
    before.active_channels.lemma_walk();
    let vs = before.active_channels.value_seq();
    let cs = before.active_channels.key_seq();
    assert forall|j: int| 0 <= j < vs.len() implies #[trigger] vs[j].resolved_version@ != v by {
        assert(before.active_channels.spec_map()[cs[j]] == vs[j]);
        assert(cs.to_set().contains(cs[j]));
    }
    assert(!version_in_use(metadata, &before, v));
    law_gc_forgets_unused_versions(metadata, before, after, segments, v);
}

} // verus!
