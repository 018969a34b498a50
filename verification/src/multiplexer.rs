//! What gup runs when it is invoked under another name, through a symlink in its bin
//! directory.
//!
//! In order of precedence: a directory override of the current directory or one of its
//! ancestors, nearest first; a link of that name; the default executable of the project of
//! that name; an executable of that name in the default version of any project.
//!
//! The caller loads what the search reads: for each managed project, in the order of the
//! global configuration, its local state (absent when it cannot be read) and, once it is
//! asked for, its metadata (or why it could not be had). The search asks for a project's
//! metadata only where gup needs it: it stops with [`MultiplexError::MetadataNotLoaded`]
//! at the first project whose metadata it needs and was not loaded; the caller loads it
//! and searches again.
use vstd::prelude::*;

use crate::global_paths::{path_join, spec_path_join, GupGlobalPaths, GupGlobalPathsView};
use crate::operations_metadata::{resolve_channel_to_version, spec_resolve, ResolveError, ResolveErrorView};
use crate::project_metadata_m::{ExecutableDetail, ProjectMetadata};
use crate::state_config::ProjectLocalState;
use crate::path_text::{same_path, same_path_text};
use crate::text::{clone_strings, seq_views, str_eq};

verus! {

/// What the search knows of one managed project.
#[derive(Debug)]
pub struct ProjectContext {
    /// The project's unique name.
    pub name: String,
    /// Its local state, when it could be read.
    pub state: Option<ProjectLocalState>,
    /// Its metadata, or why it could not be had; `None` while not loaded.
    pub metadata: Option<Result<ProjectMetadata, String>>,
}

/// Why the search failed.
#[derive(Debug, Clone)]
pub enum MultiplexError {
    /// The metadata of a project that the search needed could not be had.
    MetadataUnavailable { project: String, message: String },
    /// The search needs the metadata of a project, which is not loaded yet.
    MetadataNotLoaded { project: String },
    /// A version or channel of a project that the search needed does not resolve.
    Unresolvable { project: String, error: ResolveError },
}

/// The abstract content of [`MultiplexError`].
pub enum MultiplexErrorView {
    MetadataUnavailable { project: Seq<char>, message: Seq<char> },
    MetadataNotLoaded { project: Seq<char> },
    Unresolvable { project: Seq<char>, error: ResolveErrorView },
}

impl View for MultiplexError {
    type V = MultiplexErrorView;

    open spec fn view(&self) -> MultiplexErrorView {
        match self {
            MultiplexError::MetadataUnavailable { project, message } => MultiplexErrorView::MetadataUnavailable {
                project: project@,
                message: message@,
            },
            MultiplexError::MetadataNotLoaded { project } => MultiplexErrorView::MetadataNotLoaded {
                project: project@,
            },
            MultiplexError::Unresolvable { project, error } => MultiplexErrorView::Unresolvable {
                project: project@,
                error: error@,
            },
        }
    }
}

/// The outcome of one step of the search: nothing found, a command to run with the
/// arguments to put first, or a failure.
pub enum Lookup {
    Skip,
    Run { path: Seq<char>, args: Seq<Seq<char>> },
    Fail(MultiplexErrorView),
}

/// The first outcome that is not a skip.
pub open spec fn first_of(x: Lookup, rest: Lookup) -> Lookup {
    if x is Skip {
        rest
    } else {
        x
    }
}

/// The abstract content of the search's result.
pub open spec fn lookup_view(r: Result<Option<(String, Vec<String>)>, MultiplexError>) -> Lookup {
    match r {
        Ok(None) => Lookup::Skip,
        Ok(Some((p, a))) => Lookup::Run { path: p@, args: seq_views(a@) },
        Err(e) => Lookup::Fail(e@),
    }
}

/// The directory of the installed versions of a project.
pub open spec fn versions_dir(paths: GupGlobalPathsView, project: Seq<char>) -> Seq<char> {
    spec_path_join(spec_path_join(spec_path_join(paths.guphome, "projects"@), project), "versions"@)
}

/// The bin subdirectory of the metadata's default installation configuration, or nothing.
pub open spec fn bin_subdir_or_empty(md: &ProjectMetadata) -> Seq<char> {
    match md.default_install_config.bin_subdir {
        Some(b) => b@,
        None => Seq::empty(),
    }
}

/// Where executable `exe` of the version installed in `segment` lies.
pub open spec fn executable_path(
    paths: GupGlobalPathsView,
    project: Seq<char>,
    segment: Seq<char>,
    md: &ProjectMetadata,
    exe: ExecutableDetail,
) -> Seq<char> {
    spec_path_join(
        spec_path_join(spec_path_join(versions_dir(paths, project), segment), bin_subdir_or_empty(md)),
        exe.path_in_bin_subdir@,
    )
}

/// The first executable named `name`, looking from position `k` on.
pub open spec fn executable_named_from(exes: Seq<ExecutableDetail>, name: Seq<char>, k: int) -> Option<int>
    decreases exes.len() - k,
{
    if k < 0 || k >= exes.len() {
        None
    } else if exes[k].name@ == name {
        Some(k)
    } else {
        executable_named_from(exes, name, k + 1)
    }
}

/// Running executable `exe_name` of the version that `choice` resolves to: nothing when
/// that version is not installed or has no such executable; a resolution failure fails
/// the search when `strict`, and is skipped otherwise.
pub open spec fn run_choice(
    paths: GupGlobalPathsView,
    project: Seq<char>,
    st: &ProjectLocalState,
    md: &ProjectMetadata,
    choice: Seq<char>,
    exe_name: Seq<char>,
    strict: bool,
) -> Lookup {
    match spec_resolve(choice, md) {
        Err(e) => if strict {
            Lookup::Fail(MultiplexErrorView::Unresolvable { project, error: e })
        } else {
            Lookup::Skip
        },
        Ok(v) => if st.installed_versions.spec_map().contains_key(v) {
            match executable_named_from(md.executables@, exe_name, 0) {
                Some(k) => Lookup::Run {
                    path: executable_path(
                        paths,
                        project,
                        st.installed_versions.spec_map()[v].path_segment@,
                        md,
                        md.executables@[k],
                    ),
                    args: Seq::empty(),
                },
                None => Lookup::Skip,
            }
        } else {
            Lookup::Skip
        },
    }
}

/// The metadata of a project that the search needs: a failure when it could not be had,
/// or when it is not loaded yet.
pub open spec fn with_metadata(ctx: &ProjectContext, then: spec_fn(&ProjectMetadata) -> Lookup) -> Lookup {
    match &ctx.metadata {
        Some(Ok(md)) => then(md),
        Some(Err(m)) => Lookup::Fail(MultiplexErrorView::MetadataUnavailable { project: ctx.name@, message: m@ }),
        None => Lookup::Fail(MultiplexErrorView::MetadataNotLoaded { project: ctx.name@ }),
    }
}

/// Overrides of project `ctx` from position `k` on, for the directory `dir`.
pub open spec fn scan_overrides(
    paths: GupGlobalPathsView,
    ctx: &ProjectContext,
    st: &ProjectLocalState,
    dir: Seq<char>,
    invoked: Seq<char>,
    k: int,
) -> Lookup
    decreases st.overrides@.len() - k,
{
    if k < 0 || k >= st.overrides@.len() {
        Lookup::Skip
    } else {
        let o = st.overrides@[k];
        let here = if same_path_text(o.path@, dir) {
            with_metadata(
                ctx,
                |md: &ProjectMetadata| run_choice(paths, ctx.name@, st, md, o.version_or_channel@, invoked, true),
            )
        } else {
            Lookup::Skip
        };
        first_of(here, scan_overrides(paths, ctx, st, dir, invoked, k + 1))
    }
}

/// Overrides of the directory `dir` in the projects from position `j` on.
pub open spec fn scan_projects_at(
    paths: GupGlobalPathsView,
    ctxs: Seq<ProjectContext>,
    dir: Seq<char>,
    invoked: Seq<char>,
    j: int,
) -> Lookup
    decreases ctxs.len() - j,
{
    if j < 0 || j >= ctxs.len() {
        Lookup::Skip
    } else {
        let here = match &ctxs[j].state {
            Some(st) => scan_overrides(paths, &ctxs[j], st, dir, invoked, 0),
            None => Lookup::Skip,
        };
        first_of(here, scan_projects_at(paths, ctxs, dir, invoked, j + 1))
    }
}

/// Overrides of the directories from position `i` on.
pub open spec fn scan_ancestors(
    paths: GupGlobalPathsView,
    ctxs: Seq<ProjectContext>,
    dirs: Seq<Seq<char>>,
    invoked: Seq<char>,
    i: int,
) -> Lookup
    decreases dirs.len() - i,
{
    if i < 0 || i >= dirs.len() {
        Lookup::Skip
    } else {
        first_of(scan_projects_at(paths, ctxs, dirs[i], invoked, 0), scan_ancestors(paths, ctxs, dirs, invoked, i + 1))
    }
}

/// Links named `invoked` in the projects from position `j` on.
pub open spec fn scan_links(ctxs: Seq<ProjectContext>, invoked: Seq<char>, j: int) -> Lookup
    decreases ctxs.len() - j,
{
    if j < 0 || j >= ctxs.len() {
        Lookup::Skip
    } else {
        let here = match &ctxs[j].state {
            Some(st) => if st.linked_paths.spec_map().contains_key(invoked) {
                let info = st.linked_paths.spec_map()[invoked];
                Lookup::Run {
                    path: info.command_path@,
                    args: match info.arguments {
                        Some(a) => seq_views(a@),
                        None => Seq::empty(),
                    },
                }
            } else {
                Lookup::Skip
            },
            None => Lookup::Skip,
        };
        first_of(here, scan_links(ctxs, invoked, j + 1))
    }
}

/// The name of the executable a project runs by default: the metadata's default
/// executable, or else its first executable.
pub open spec fn default_executable(md: &ProjectMetadata) -> Option<Seq<char>> {
    match md.default_executable_name {
        Some(n) => Some(n@),
        None => if md.executables@.len() > 0 {
            Some(md.executables@[0].name@)
        } else {
            None
        },
    }
}

/// The default executable of project `ctx`, in the version its default resolves to.
pub open spec fn project_default(paths: GupGlobalPathsView, ctx: &ProjectContext) -> Lookup {
    match &ctx.state {
        Some(st) => match st.default_version_or_channel_name {
            Some(d) => with_metadata(
                ctx,
                |md: &ProjectMetadata|
                    match default_executable(md) {
                        Some(exe) => match spec_resolve(d@, md) {
                            Err(e) => Lookup::Fail(MultiplexErrorView::Unresolvable { project: ctx.name@, error: e }),
                            Ok(_) => run_choice(paths, ctx.name@, st, md, d@, exe, true),
                        },
                        None => match spec_resolve(d@, md) {
                            Err(e) => Lookup::Fail(MultiplexErrorView::Unresolvable { project: ctx.name@, error: e }),
                            Ok(_) => Lookup::Skip,
                        },
                    },
            ),
            None => Lookup::Skip,
        },
        None => Lookup::Skip,
    }
}

/// The project named `invoked`, looking from position `j` on.
pub open spec fn project_named_from(ctxs: Seq<ProjectContext>, invoked: Seq<char>, j: int) -> Option<int>
    decreases ctxs.len() - j,
{
    if j < 0 || j >= ctxs.len() {
        None
    } else if ctxs[j].name@ == invoked {
        Some(j)
    } else {
        project_named_from(ctxs, invoked, j + 1)
    }
}

/// Executables named `invoked` in the default versions of the projects from position `j`
/// on.
pub open spec fn scan_defaults(paths: GupGlobalPathsView, ctxs: Seq<ProjectContext>, invoked: Seq<char>, j: int) -> Lookup
    decreases ctxs.len() - j,
{
    if j < 0 || j >= ctxs.len() {
        Lookup::Skip
    } else {
        let here = match &ctxs[j].state {
            Some(st) => match st.default_version_or_channel_name {
                Some(d) => with_metadata(
                    &ctxs[j],
                    |md: &ProjectMetadata| run_choice(paths, ctxs[j].name@, st, md, d@, invoked, false),
                ),
                None => Lookup::Skip,
            },
            None => Lookup::Skip,
        };
        first_of(here, scan_defaults(paths, ctxs, invoked, j + 1))
    }
}

/// The whole search, for a command invoked as `invoked` in the directory whose ancestors,
/// the directory itself first, are `dirs`.
pub open spec fn spec_target(
    paths: GupGlobalPathsView,
    ctxs: Seq<ProjectContext>,
    dirs: Seq<Seq<char>>,
    invoked: Seq<char>,
) -> Lookup {
    first_of(
        scan_ancestors(paths, ctxs, dirs, invoked, 0),
        first_of(
            scan_links(ctxs, invoked, 0),
            first_of(
                match project_named_from(ctxs, invoked, 0) {
                    Some(j) => project_default(paths, &ctxs[j]),
                    None => Lookup::Skip,
                },
                scan_defaults(paths, ctxs, invoked, 0),
            ),
        ),
    )
}

/// The first executable named `name`.
fn find_executable(exes: &Vec<ExecutableDetail>, name: &str) -> (r: Option<usize>)
    ensures
        match r {
            Some(k) => executable_named_from(exes@, name@, 0) == Some(k as int) && k < exes@.len(),
            None => executable_named_from(exes@, name@, 0) is None,
        },
{
    let n = exes.len();
    let mut k: usize = 0;
    while k < n
        invariant
            n == exes@.len(),
            k <= n,
            executable_named_from(exes@, name@, 0) == executable_named_from(exes@, name@, k as int),
        decreases n - k,
    {
        if str_eq(exes[k].name.as_str(), name) {
            return Some(k);
        }
        k = k + 1;
    }
    None
}

/// The search step [`run_choice`].
fn run_choice_exec(
    paths: &GupGlobalPaths,
    project: &str,
    st: &ProjectLocalState,
    md: &ProjectMetadata,
    choice: &str,
    exe_name: &str,
    strict: bool,
) -> (r: Result<Option<(String, Vec<String>)>, MultiplexError>)
    ensures
        lookup_view(r) == run_choice(paths@, project@, st, md, choice@, exe_name@, strict),
{
    let version = match resolve_channel_to_version(choice, md) {
        Ok(v) => v,
        Err(e) => {
            if strict {
                return Err(MultiplexError::Unresolvable { project: project.to_owned(), error: e });
            } else {
                return Ok(None);
            }
        },
    };
    let info = match st.installed_versions.get(version.as_str()) {
        Some(info) => info,
        None => {
            return Ok(None);
        },
    };
    match find_executable(&md.executables, exe_name) {
        Some(k) => {
            let dir = paths.project_versions_dir(project);
            let version_dir = path_join(dir.as_str(), info.path_segment.as_str());
            let bin = match &md.default_install_config.bin_subdir {
                Some(b) => path_join(version_dir.as_str(), b.as_str()),
                None => path_join(version_dir.as_str(), ""),
            };
            proof {
                reveal_strlit("");
            }
            let full = path_join(bin.as_str(), md.executables[k].path_in_bin_subdir.as_str());
            let args: Vec<String> = Vec::new();
            proof {
                assert(seq_views(args@) =~= Seq::<Seq<char>>::empty());
            }
            Ok(Some((full, args)))
        },
        None => Ok(None),
    }
}

/// The overrides step for one project and one directory: [`scan_overrides`] from the
/// start.
fn scan_overrides_exec(
    paths: &GupGlobalPaths,
    ctx: &ProjectContext,
    st: &ProjectLocalState,
    dir: &str,
    invoked: &str,
) -> (r: Result<Option<(String, Vec<String>)>, MultiplexError>)
    ensures
        lookup_view(r) == scan_overrides(paths@, ctx, st, dir@, invoked@, 0),
{
    let n = st.overrides.len();
    let mut k: usize = 0;
    while k < n
        invariant
            n == st.overrides@.len(),
            k <= n,
            scan_overrides(paths@, ctx, st, dir@, invoked@, 0) == scan_overrides(paths@, ctx, st, dir@, invoked@, k as int),
        decreases n - k,
    {
        let o = &st.overrides[k];
        if same_path(o.path.as_str(), dir) {
            match &ctx.metadata {
                Some(Ok(md)) => {
                    let r = run_choice_exec(paths, ctx.name.as_str(), st, md, o.version_or_channel.as_str(), invoked, true);
                    if !matches!(r, Ok(None)) {
                        return r;
                    }
                },
                Some(Err(m)) => {
                    return Err(MultiplexError::MetadataUnavailable { project: ctx.name.clone(), message: m.clone() });
                },
                None => {
                    return Err(MultiplexError::MetadataNotLoaded { project: ctx.name.clone() });
                },
            }
        }
        k = k + 1;
    }
    Ok(None)
}

/// The overrides step for all projects and one directory: [`scan_projects_at`] from the
/// start.
fn scan_projects_at_exec(paths: &GupGlobalPaths, ctxs: &Vec<ProjectContext>, dir: &str, invoked: &str) -> (r: Result<
    Option<(String, Vec<String>)>,
    MultiplexError,
>)
    ensures
        lookup_view(r) == scan_projects_at(paths@, ctxs@, dir@, invoked@, 0),
{
    let n = ctxs.len();
    let mut j: usize = 0;
    while j < n
        invariant
            n == ctxs@.len(),
            j <= n,
            scan_projects_at(paths@, ctxs@, dir@, invoked@, 0) == scan_projects_at(paths@, ctxs@, dir@, invoked@, j as int),
        decreases n - j,
    {
        let ctx = &ctxs[j];
        if let Some(st) = &ctx.state {
            let r = scan_overrides_exec(paths, ctx, st, dir, invoked);
            if !matches!(r, Ok(None)) {
                return r;
            }
        }
        j = j + 1;
    }
    Ok(None)
}

/// Decides what to run for a command invoked as `invoked` in a directory whose ancestors,
/// the directory itself first, are `ancestors`, given what `projects` holds of each managed
/// project. Returns the executable and the arguments to put before the caller's, or
/// nothing when the search finds nothing.
pub fn determine_target_executable(
    invoked: &str,
    ancestors: &Vec<String>,
    projects: &Vec<ProjectContext>,
    paths: &GupGlobalPaths,
) -> (r: Result<Option<(String, Vec<String>)>, MultiplexError>)
    ensures
        lookup_view(r) == spec_target(paths@, projects@, seq_views(ancestors@), invoked@),
{
    let ghost dirs = seq_views(ancestors@);
    let na = ancestors.len();
    let mut i: usize = 0;
    while i < na
        invariant
            na == ancestors@.len(),
            dirs == seq_views(ancestors@),
            i <= na,
            scan_ancestors(paths@, projects@, dirs, invoked@, 0) == scan_ancestors(paths@, projects@, dirs, invoked@, i as int),
        decreases na - i,
    {
        let r = scan_projects_at_exec(paths, projects, ancestors[i].as_str(), invoked);
        if !matches!(r, Ok(None)) {
            return r;
        }
        i = i + 1;
    }
    let n = projects.len();
    let mut j: usize = 0;
    while j < n
        invariant
            n == projects@.len(),
            j <= n,
            scan_ancestors(paths@, projects@, dirs, invoked@, 0) is Skip,
            dirs == seq_views(ancestors@),
            scan_links(projects@, invoked@, 0) == scan_links(projects@, invoked@, j as int),
        decreases n - j,
    {
        if let Some(st) = &projects[j].state {
            if let Some(info) = st.linked_paths.get(invoked) {
                let args = match &info.arguments {
                    Some(a) => clone_strings(a),
                    None => Vec::new(),
                };
                proof {
                    if info.arguments is None {
                        assert(seq_views(args@) =~= Seq::<Seq<char>>::empty());
                    }
                }
                return Ok(Some((info.command_path.clone(), args)));
            }
        }
        j = j + 1;
    }
    let mut p: usize = 0;
    while p < n && !str_eq(projects[p].name.as_str(), invoked)
        invariant
            n == projects@.len(),
            p <= n,
            project_named_from(projects@, invoked@, 0) == project_named_from(projects@, invoked@, p as int),
        decreases n - p,
    {
        p = p + 1;
    }
    proof {
        assert(scan_ancestors(paths@, projects@, dirs, invoked@, 0) is Skip);
        assert(scan_links(projects@, invoked@, 0) is Skip);
    }
    if p < n {
        let ctx = &projects[p];
        if let Some(st) = &ctx.state {
            if let Some(d) = &st.default_version_or_channel_name {
                match &ctx.metadata {
                    None => {
                        return Err(MultiplexError::MetadataNotLoaded { project: ctx.name.clone() });
                    },
                    Some(Err(m)) => {
                        return Err(MultiplexError::MetadataUnavailable { project: ctx.name.clone(), message: m.clone() });
                    },
                    Some(Ok(md)) => {
                        let exe = match &md.default_executable_name {
                            Some(x) => Some(x.clone()),
                            None => if md.executables.len() > 0 {
                                Some(md.executables[0].name.clone())
                            } else {
                                None
                            },
                        };
                        match exe {
                            Some(x) => {
                                let r = run_choice_exec(paths, ctx.name.as_str(), st, md, d.as_str(), x.as_str(), true);
                                if !matches!(r, Ok(None)) {
                                    return r;
                                }
                            },
                            None => {
                                if let Err(e) = resolve_channel_to_version(d.as_str(), md) {
                                    return Err(MultiplexError::Unresolvable { project: ctx.name.clone(), error: e });
                                }
                            },
                        }
                    },
                }
            }
        }
    }
    let mut q: usize = 0;
    while q < n
        invariant
            n == projects@.len(),
            q <= n,
            scan_ancestors(paths@, projects@, dirs, invoked@, 0) is Skip,
            dirs == seq_views(ancestors@),
            scan_links(projects@, invoked@, 0) is Skip,
            match project_named_from(projects@, invoked@, 0) {
                Some(j) => project_default(paths@, &projects@[j]) is Skip,
                None => true,
            },
            scan_defaults(paths@, projects@, invoked@, 0) == scan_defaults(paths@, projects@, invoked@, q as int),
        decreases n - q,
    {
        let ctx = &projects[q];
        if let Some(st) = &ctx.state {
            if let Some(d) = &st.default_version_or_channel_name {
                match &ctx.metadata {
                    None => {
                        return Err(MultiplexError::MetadataNotLoaded { project: ctx.name.clone() });
                    },
                    Some(Err(m)) => {
                        return Err(MultiplexError::MetadataUnavailable { project: ctx.name.clone(), message: m.clone() });
                    },
                    Some(Ok(md)) => {
                        let r = run_choice_exec(paths, ctx.name.as_str(), st, md, d.as_str(), invoked, false);
                        if !matches!(r, Ok(None)) {
                            return r;
                        }
                    },
                }
            }
        }
        q = q + 1;
    }
    Ok(None)
}

/// Overrides of other directories are passed over.
proof fn lemma_scan_overrides_skips_other_dirs(
    paths: GupGlobalPathsView,
    ctx: &ProjectContext,
    st: &ProjectLocalState,
    dir: Seq<char>,
    invoked: Seq<char>,
    k: int,
    j: int,
)
    requires
        0 <= k <= j <= st.overrides@.len(),
        forall|q: int| k <= q < j ==> !same_path_text(#[trigger] st.overrides@[q].path@, dir),
    ensures
        scan_overrides(paths, ctx, st, dir, invoked, k) == scan_overrides(paths, ctx, st, dir, invoked, j),
    decreases j - k,
{
    if k < j {
        lemma_scan_overrides_skips_other_dirs(paths, ctx, st, dir, invoked, k + 1, j);
    }
}

/// Law: a directory override whose path names the current directory, in the first managed
/// project, decides what runs: the executable named as gup was invoked, in the installed
/// version that the override's version or channel resolves to.
pub proof fn law_override_of_current_directory_runs(
    paths: GupGlobalPathsView,
    ctxs: Seq<ProjectContext>,
    dirs: Seq<Seq<char>>,
    invoked: Seq<char>,
    st: ProjectLocalState,
    md: ProjectMetadata,
    j: int,
    v: Seq<char>,
    e: int,
)
    requires
        ctxs.len() > 0,
        dirs.len() > 0,
        ctxs[0].state == Some(st),
        ctxs[0].metadata == Some(Ok::<ProjectMetadata, String>(md)),
        0 <= j < st.overrides@.len(),
        same_path_text(st.overrides@[j].path@, dirs[0]),
        forall|q: int| 0 <= q < j ==> !same_path_text(#[trigger] st.overrides@[q].path@, dirs[0]),
        spec_resolve(st.overrides@[j].version_or_channel@, &md) == Ok::<Seq<char>, ResolveErrorView>(v),
        st.installed_versions.spec_map().contains_key(v),
        executable_named_from(md.executables@, invoked, 0) == Some(e),
    ensures
        spec_target(paths, ctxs, dirs, invoked) == (Lookup::Run {
            path: executable_path(
                paths,
                ctxs[0].name@,
                st.installed_versions.spec_map()[v].path_segment@,
                &md,
                md.executables@[e],
            ),
            args: Seq::empty(),
        }),
{
    let ctx = &ctxs[0];
    lemma_scan_overrides_skips_other_dirs(paths, ctx, &st, dirs[0], invoked, 0, j);
    assert(run_choice(paths, ctx.name@, &st, &md, st.overrides@[j].version_or_channel@, invoked, true) is Run);
}

/// Law: when no directory override applies, a link named as gup was invoked decides what
/// runs, before any project default.
pub proof fn law_link_before_defaults(
    paths: GupGlobalPathsView,
    ctxs: Seq<ProjectContext>,
    dirs: Seq<Seq<char>>,
    invoked: Seq<char>,
)
    requires
        scan_ancestors(paths, ctxs, dirs, invoked, 0) is Skip,
        !(scan_links(ctxs, invoked, 0) is Skip),
    ensures
        spec_target(paths, ctxs, dirs, invoked) == scan_links(ctxs, invoked, 0),
{
}

/// Law: an override found for a nearer directory wins over those of its ancestors.
pub proof fn law_nearest_directory_first(
    paths: GupGlobalPathsView,
    ctxs: Seq<ProjectContext>,
    dirs: Seq<Seq<char>>,
    invoked: Seq<char>,
)
    requires
        dirs.len() > 0,
        !(scan_projects_at(paths, ctxs, dirs[0], invoked, 0) is Skip),
    ensures
        spec_target(paths, ctxs, dirs, invoked) == scan_projects_at(paths, ctxs, dirs[0], invoked, 0),
{
}

/// The search asks for the metadata of `p` only when some project named `p` has none
/// loaded.
pub open spec fn asks_for_unloaded(ctxs: Seq<ProjectContext>, r: Lookup) -> bool {
    r matches Lookup::Fail(MultiplexErrorView::MetadataNotLoaded { project }) ==> exists|j: int|
        0 <= j < ctxs.len() && (#[trigger] ctxs[j]).name@ == project && ctxs[j].metadata is None
}

proof fn lemma_run_choice_loads_nothing(
    paths: GupGlobalPathsView,
    project: Seq<char>,
    st: &ProjectLocalState,
    md: &ProjectMetadata,
    choice: Seq<char>,
    exe_name: Seq<char>,
    strict: bool,
)
    ensures
        !(run_choice(paths, project, st, md, choice, exe_name, strict) matches Lookup::Fail(
            MultiplexErrorView::MetadataNotLoaded { .. },
        )),
{
}

proof fn lemma_scan_overrides_asks(
    paths: GupGlobalPathsView,
    ctxs: Seq<ProjectContext>,
    j: int,
    st: &ProjectLocalState,
    dir: Seq<char>,
    invoked: Seq<char>,
    k: int,
)
    requires
        0 <= j < ctxs.len(),
    ensures
        asks_for_unloaded(ctxs, scan_overrides(paths, &ctxs[j], st, dir, invoked, k)),
    decreases st.overrides@.len() - k,
{
    if 0 <= k < st.overrides@.len() {
        lemma_scan_overrides_asks(paths, ctxs, j, st, dir, invoked, k + 1);
        let o = st.overrides@[k];
        if let Some(Ok(md)) = ctxs[j].metadata {
            lemma_run_choice_loads_nothing(paths, ctxs[j].name@, st, &md, o.version_or_channel@, invoked, true);
        }
    }
}

proof fn lemma_scan_projects_asks(paths: GupGlobalPathsView, ctxs: Seq<ProjectContext>, dir: Seq<char>, invoked: Seq<char>, j: int)
    ensures
        asks_for_unloaded(ctxs, scan_projects_at(paths, ctxs, dir, invoked, j)),
    decreases ctxs.len() - j,
{
    if 0 <= j < ctxs.len() {
        lemma_scan_projects_asks(paths, ctxs, dir, invoked, j + 1);
        if let Some(st) = &ctxs[j].state {
            lemma_scan_overrides_asks(paths, ctxs, j, st, dir, invoked, 0);
        }
    }
}

proof fn lemma_scan_ancestors_asks(
    paths: GupGlobalPathsView,
    ctxs: Seq<ProjectContext>,
    dirs: Seq<Seq<char>>,
    invoked: Seq<char>,
    i: int,
)
    ensures
        asks_for_unloaded(ctxs, scan_ancestors(paths, ctxs, dirs, invoked, i)),
    decreases dirs.len() - i,
{
    if 0 <= i < dirs.len() {
        lemma_scan_ancestors_asks(paths, ctxs, dirs, invoked, i + 1);
        lemma_scan_projects_asks(paths, ctxs, dirs[i], invoked, 0);
    }
}

proof fn lemma_scan_defaults_asks(paths: GupGlobalPathsView, ctxs: Seq<ProjectContext>, invoked: Seq<char>, j: int)
    ensures
        asks_for_unloaded(ctxs, scan_defaults(paths, ctxs, invoked, j)),
    decreases ctxs.len() - j,
{
    if 0 <= j < ctxs.len() {
        lemma_scan_defaults_asks(paths, ctxs, invoked, j + 1);
        if let Some(st) = &ctxs[j].state {
            if let Some(d) = st.default_version_or_channel_name {
                if let Some(Ok(md)) = ctxs[j].metadata {
                    lemma_run_choice_loads_nothing(paths, ctxs[j].name@, st, &md, d@, invoked, false);
                }
            }
        }
    }
}

proof fn lemma_scan_links_never_fails(ctxs: Seq<ProjectContext>, invoked: Seq<char>, j: int)
    ensures
        !(scan_links(ctxs, invoked, j) is Fail),
    decreases ctxs.len() - j,
{
    if 0 <= j < ctxs.len() {
        lemma_scan_links_never_fails(ctxs, invoked, j + 1);
    }
}

proof fn lemma_project_named_from(ctxs: Seq<ProjectContext>, invoked: Seq<char>, j: int)
    ensures
        project_named_from(ctxs, invoked, j) matches Some(k) ==> 0 <= k < ctxs.len(),
    decreases ctxs.len() - j,
{
    if 0 <= j < ctxs.len() {
        lemma_project_named_from(ctxs, invoked, j + 1);
    }
}

/// Law: when the search stops for want of a project's metadata, that project is managed
/// and its metadata is indeed not loaded; loading it lets a repeated search go further.
pub proof fn law_search_asks_only_for_unloaded_metadata(
    paths: GupGlobalPathsView,
    ctxs: Seq<ProjectContext>,
    dirs: Seq<Seq<char>>,
    invoked: Seq<char>,
)
    ensures
        asks_for_unloaded(ctxs, spec_target(paths, ctxs, dirs, invoked)),
{
    lemma_scan_ancestors_asks(paths, ctxs, dirs, invoked, 0);
    lemma_scan_defaults_asks(paths, ctxs, invoked, 0);
    lemma_scan_links_never_fails(ctxs, invoked, 0);
    lemma_project_named_from(ctxs, invoked, 0);
    if let Some(j) = project_named_from(ctxs, invoked, 0) {
        let ctx = &ctxs[j];
        if let Some(st) = &ctx.state {
            if let Some(d) = st.default_version_or_channel_name {
                if let Some(Ok(md)) = ctx.metadata {
                    if let Some(exe) = default_executable(&md) {
                        lemma_run_choice_loads_nothing(paths, ctx.name@, st, &md, d@, exe, true);
                    }
                }
            }
        }
        assert(asks_for_unloaded(ctxs, project_default(paths, &ctxs[j])));
    }
}

/// `path` is the executable at position `k`, named `exe_name`, of the metadata of project
/// `j`, in the version of it installed as `v`: `<gup home>/projects/<project>/versions/
/// <version's directory>`, then the bin subdirectory of the metadata's installation
/// configuration (if any), then that executable's `path_in_bin_subdir`.
pub open spec fn runs_installed_executable(
    paths: GupGlobalPathsView,
    ctxs: Seq<ProjectContext>,
    j: int,
    v: Seq<char>,
    k: int,
    exe_name: Seq<char>,
    path: Seq<char>,
) -> bool {
    &&& 0 <= j < ctxs.len()
    &&& ctxs[j].state matches Some(st)
    &&& ctxs[j].metadata matches Some(Ok(md))
    &&& st.installed_versions.spec_map().contains_key(v)
    &&& 0 <= k < md.executables@.len()
    &&& md.executables@[k].name@ == exe_name
    &&& path == spec_path_join(
        spec_path_join(
            spec_path_join(
                spec_path_join(spec_path_join(spec_path_join(paths.guphome, "projects"@), ctxs[j].name@), "versions"@),
                st.installed_versions.spec_map()[v].path_segment@,
            ),
            match md.default_install_config.bin_subdir {
                Some(b) => b@,
                None => Seq::empty(),
            },
        ),
        md.executables@[k].path_in_bin_subdir@,
    )
}

/// `path` and `args` are the command and arguments of the link named `invoked` of
/// project `j`.
pub open spec fn runs_link(ctxs: Seq<ProjectContext>, j: int, invoked: Seq<char>, path: Seq<char>, args: Seq<Seq<char>>) -> bool {
    &&& 0 <= j < ctxs.len()
    &&& ctxs[j].state matches Some(st)
    &&& st.linked_paths.spec_map().contains_key(invoked)
    &&& path == st.linked_paths.spec_map()[invoked].command_path@
    &&& args == match st.linked_paths.spec_map()[invoked].arguments {
        Some(a) => seq_views(a@),
        None => Seq::empty(),
    }
}

/// The outcome, where it runs something, runs an installed executable named `exe_name`
/// with no arguments.
pub open spec fn is_installed_run(paths: GupGlobalPathsView, ctxs: Seq<ProjectContext>, r: Lookup, exe_name: Seq<char>) -> bool {
    r is Run ==> r->args.len() == 0 && exists|j: int, v: Seq<char>, k: int|
        #[trigger] runs_installed_executable(paths, ctxs, j, v, k, exe_name, r->path)
}

/// `name` is the executable that project `j` runs by default: the metadata's default
/// executable name, or else the name of its first executable.
pub open spec fn default_executable_of(ctxs: Seq<ProjectContext>, j: int, name: Seq<char>) -> bool {
    ctxs[j].metadata matches Some(Ok(md)) && name == match md.default_executable_name {
        Some(n) => n@,
        None => md.executables@[0].name@,
    }
}

proof fn lemma_executable_named_from_bounds(exes: Seq<ExecutableDetail>, name: Seq<char>, k: int)
    ensures
        executable_named_from(exes, name, k) matches Some(i) ==> 0 <= i < exes.len() && exes[i].name@ == name,
    decreases exes.len() - k,
{
    if 0 <= k < exes.len() {
        lemma_executable_named_from_bounds(exes, name, k + 1);
    }
}

proof fn lemma_run_choice_installed(
    paths: GupGlobalPathsView,
    ctxs: Seq<ProjectContext>,
    j: int,
    st: ProjectLocalState,
    md: ProjectMetadata,
    choice: Seq<char>,
    exe_name: Seq<char>,
    strict: bool,
)
    requires
        0 <= j < ctxs.len(),
        ctxs[j].state == Some(st),
        ctxs[j].metadata == Some(Ok::<ProjectMetadata, String>(md)),
    ensures
        is_installed_run(paths, ctxs, run_choice(paths, ctxs[j].name@, &st, &md, choice, exe_name, strict), exe_name),
        run_choice(paths, ctxs[j].name@, &st, &md, choice, exe_name, strict) is Run ==> exists|v: Seq<char>, k: int|
            #[trigger] runs_installed_executable(
                paths,
                ctxs,
                j,
                v,
                k,
                exe_name,
                run_choice(paths, ctxs[j].name@, &st, &md, choice, exe_name, strict)->path,
            ),
{
    lemma_executable_named_from_bounds(md.executables@, exe_name, 0);
    if let Ok(v) = spec_resolve(choice, &md) {
        if st.installed_versions.spec_map().contains_key(v) {
            if let Some(k) = executable_named_from(md.executables@, exe_name, 0) {
                let path = executable_path(paths, ctxs[j].name@, st.installed_versions.spec_map()[v].path_segment@, &md, md.executables@[k]);
                let r = run_choice(paths, ctxs[j].name@, &st, &md, choice, exe_name, strict);
                assert(r == Lookup::Run { path, args: Seq::empty() });
                assert(runs_installed_executable(paths, ctxs, j, v, k, exe_name, r->path));
            }
        }
    }
}

proof fn lemma_scan_overrides_installed(
    paths: GupGlobalPathsView,
    ctxs: Seq<ProjectContext>,
    j: int,
    st: ProjectLocalState,
    dir: Seq<char>,
    invoked: Seq<char>,
    k: int,
)
    requires
        0 <= j < ctxs.len(),
        ctxs[j].state == Some(st),
    ensures
        is_installed_run(paths, ctxs, scan_overrides(paths, &ctxs[j], &st, dir, invoked, k), invoked),
    decreases st.overrides@.len() - k,
{
    if 0 <= k < st.overrides@.len() {
        lemma_scan_overrides_installed(paths, ctxs, j, st, dir, invoked, k + 1);
        let o = st.overrides@[k];
        if let Some(Ok(md)) = ctxs[j].metadata {
            lemma_run_choice_installed(paths, ctxs, j, st, md, o.version_or_channel@, invoked, true);
        }
    }
}

proof fn lemma_scan_projects_installed(paths: GupGlobalPathsView, ctxs: Seq<ProjectContext>, dir: Seq<char>, invoked: Seq<char>, j: int)
    ensures
        is_installed_run(paths, ctxs, scan_projects_at(paths, ctxs, dir, invoked, j), invoked),
    decreases ctxs.len() - j,
{
    if 0 <= j < ctxs.len() {
        lemma_scan_projects_installed(paths, ctxs, dir, invoked, j + 1);
        if let Some(st) = ctxs[j].state {
            lemma_scan_overrides_installed(paths, ctxs, j, st, dir, invoked, 0);
        }
    }
}

proof fn lemma_scan_ancestors_installed(
    paths: GupGlobalPathsView,
    ctxs: Seq<ProjectContext>,
    dirs: Seq<Seq<char>>,
    invoked: Seq<char>,
    i: int,
)
    ensures
        is_installed_run(paths, ctxs, scan_ancestors(paths, ctxs, dirs, invoked, i), invoked),
    decreases dirs.len() - i,
{
    if 0 <= i < dirs.len() {
        lemma_scan_ancestors_installed(paths, ctxs, dirs, invoked, i + 1);
        lemma_scan_projects_installed(paths, ctxs, dirs[i], invoked, 0);
    }
}

proof fn lemma_scan_defaults_installed(paths: GupGlobalPathsView, ctxs: Seq<ProjectContext>, invoked: Seq<char>, j: int)
    ensures
        is_installed_run(paths, ctxs, scan_defaults(paths, ctxs, invoked, j), invoked),
    decreases ctxs.len() - j,
{
    if 0 <= j < ctxs.len() {
        lemma_scan_defaults_installed(paths, ctxs, invoked, j + 1);
        if let Some(st) = ctxs[j].state {
            if let Some(d) = st.default_version_or_channel_name {
                if let Some(Ok(md)) = ctxs[j].metadata {
                    lemma_run_choice_installed(paths, ctxs, j, st, md, d@, invoked, false);
                }
            }
        }
    }
}

proof fn lemma_scan_links_are_links(ctxs: Seq<ProjectContext>, invoked: Seq<char>, j: int)
    ensures
        scan_links(ctxs, invoked, j) is Run ==> exists|i: int|
            #[trigger] runs_link(ctxs, i, invoked, scan_links(ctxs, invoked, j)->path, scan_links(ctxs, invoked, j)->args),
    decreases ctxs.len() - j,
{
    if 0 <= j < ctxs.len() {
        lemma_scan_links_are_links(ctxs, invoked, j + 1);
        if let Some(st) = ctxs[j].state {
            if st.linked_paths.spec_map().contains_key(invoked) {
                let info = st.linked_paths.spec_map()[invoked];
                let args = match info.arguments {
                    Some(a) => seq_views(a@),
                    None => Seq::empty(),
                };
                assert(runs_link(ctxs, j, invoked, info.command_path@, args));
                assert(scan_links(ctxs, invoked, j) == Lookup::Run { path: info.command_path@, args });
                assert(runs_link(ctxs, j, invoked, scan_links(ctxs, invoked, j)->path, scan_links(ctxs, invoked, j)->args));
            } else {
                assert(scan_links(ctxs, invoked, j) == scan_links(ctxs, invoked, j + 1));
            }
        } else {
            assert(scan_links(ctxs, invoked, j) == scan_links(ctxs, invoked, j + 1));
        }
    }
}

proof fn lemma_project_named_is(ctxs: Seq<ProjectContext>, invoked: Seq<char>, j: int)
    ensures
        project_named_from(ctxs, invoked, j) matches Some(k) ==> ctxs[k].name@ == invoked,
    decreases ctxs.len() - j,
{
    if 0 <= j < ctxs.len() {
        lemma_project_named_is(ctxs, invoked, j + 1);
    }
}

/// Law: whatever the search decides to run is either the command of a link named as gup
/// was invoked, with that link's arguments, or, with no arguments, an executable of an
/// installed version of a managed project: the project's versions directory, the
/// version's directory, the metadata's bin subdirectory, then the executable's
/// `path_in_bin_subdir` from the metadata. That executable is named as gup was invoked,
/// or gup was invoked as the project's name and it is the project's default executable.
pub proof fn law_search_runs_links_or_installed_executables(
    paths: GupGlobalPathsView,
    ctxs: Seq<ProjectContext>,
    dirs: Seq<Seq<char>>,
    invoked: Seq<char>,
)
    ensures
        spec_target(paths, ctxs, dirs, invoked) is Run ==> (exists|i: int|
            #[trigger] runs_link(
                ctxs,
                i,
                invoked,
                spec_target(paths, ctxs, dirs, invoked)->path,
                spec_target(paths, ctxs, dirs, invoked)->args,
            )) || (spec_target(paths, ctxs, dirs, invoked)->args.len() == 0 && exists|j: int, v: Seq<char>, k: int|
            #[trigger] runs_installed_executable(paths, ctxs, j, v, k, invoked, spec_target(paths, ctxs, dirs, invoked)->path))
            || (spec_target(paths, ctxs, dirs, invoked)->args.len() == 0 && exists|j: int, v: Seq<char>, k: int, e: Seq<char>|
            #[trigger] runs_installed_executable(paths, ctxs, j, v, k, e, spec_target(paths, ctxs, dirs, invoked)->path)
                && ctxs[j].name@ == invoked && default_executable_of(ctxs, j, e)),
{
    lemma_scan_ancestors_installed(paths, ctxs, dirs, invoked, 0);
    lemma_scan_links_are_links(ctxs, invoked, 0);
    lemma_scan_defaults_installed(paths, ctxs, invoked, 0);
    lemma_project_named_from(ctxs, invoked, 0);
    lemma_project_named_is(ctxs, invoked, 0);
    let r = spec_target(paths, ctxs, dirs, invoked);
    let anc = scan_ancestors(paths, ctxs, dirs, invoked, 0);
    let links = scan_links(ctxs, invoked, 0);
    let named = match project_named_from(ctxs, invoked, 0) {
        Some(j) => project_default(paths, &ctxs[j]),
        None => Lookup::Skip,
    };
    let defaults = scan_defaults(paths, ctxs, invoked, 0);
    if !(anc is Skip) {
        assert(r == anc);
    } else if !(links is Skip) {
        assert(r == links);
    } else if !(named is Skip) {
        assert(r == named);
        let j = project_named_from(ctxs, invoked, 0)->Some_0;
        if r is Run {
            let st = ctxs[j].state->Some_0;
            let d = st.default_version_or_channel_name->Some_0;
            let md = ctxs[j].metadata->Some_0->Ok_0;
            let exe = default_executable(&md)->Some_0;
            assert(r == run_choice(paths, ctxs[j].name@, &st, &md, d@, exe, true));
            lemma_run_choice_installed(paths, ctxs, j, st, md, d@, exe, true);
            assert(default_executable_of(ctxs, j, exe));
            let (v2, k2) = choose|v2: Seq<char>, k2: int|
                #[trigger] runs_installed_executable(paths, ctxs, j, v2, k2, exe, r->path);
            assert(runs_installed_executable(paths, ctxs, j, v2, k2, exe, r->path) && ctxs[j].name@ == invoked
                && default_executable_of(ctxs, j, exe));
        }
    } else {
        assert(r == defaults);
    }
}

} // verus!
