//! Where gup keeps its files.
//!
//! ```text
//! ~/.gup/                           # gup home
//! ├── global_config.json            # global configuration
//! ├── .gup-lock                     # global lock file
//! ├── bin/                          # symlinks/shims for executables
//! └── projects/<project_name>/
//!     ├── metadata_cache.json
//!     ├── project_state.json
//!     └── versions/<version_dir>/
//! ```
//!
//! Paths are held as strings with `/` as separator; joining follows the rules of a
//! Unix path: a segment that starts with `/` replaces what it is joined to.
use vstd::prelude::*;
use vstd::string::StrSliceExecFns;
use vstd::string::StringExecFns;

use crate::whitespace::{trim, trimmed};

verus! {

/// `base` joined with `segment`.
pub open spec fn spec_path_join(base: Seq<char>, segment: Seq<char>) -> Seq<char> {
    if segment.len() > 0 && segment[0] == '/' {
        segment
    } else if base.len() == 0 || base.last() == '/' {
        base + segment
    } else {
        base + seq!['/'] + segment
    }
}

/// A path is absolute when it starts with `/`.
pub open spec fn spec_is_absolute(path: Seq<char>) -> bool {
    path.len() > 0 && path[0] == '/'
}

/// Joins `segment` onto `base`.
pub fn path_join(base: &str, segment: &str) -> (r: String)
    ensures
        r@ == spec_path_join(base@, segment@),
{
    if !segment.is_empty() && segment.get_char(0) == '/' {
        return segment.to_owned();
    }
    let mut joined = base.to_owned();
    if !base.is_empty() {
        let last = base.get_char(base.unicode_len() - 1);
        if last != '/' {
            joined.append("/");
        }
    }
    joined.append(segment);
    proof {
        reveal_strlit("/");
        if base@.len() > 0 && base@.last() != '/' {
            assert(joined@ == base@ + seq!['/'] + segment@);
        }
    }
    joined
}

/// Whether `path` is absolute.
pub fn is_absolute(path: &str) -> (r: bool)
    ensures
        r == spec_is_absolute(path@),
{
    !path.is_empty() && path.get_char(0) == '/'
}

/// The directories gup works in.
pub struct GupGlobalPaths {
    /// Root directory for gup (e.g. `~/.gup`).
    guphome: String,
    /// Directory of gup's own installation.
    gupselfhome: String,
    /// Binary directory of gup's own installation.
    gupselfbin: String,
}

/// The abstract content of [`GupGlobalPaths`].
pub struct GupGlobalPathsView {
    pub guphome: Seq<char>,
    pub gupselfhome: Seq<char>,
    pub gupselfbin: Seq<char>,
}

impl View for GupGlobalPaths {
    type V = GupGlobalPathsView;

    closed spec fn view(&self) -> GupGlobalPathsView {
        GupGlobalPathsView {
            guphome: self.guphome@,
            gupselfhome: self.gupselfhome@,
            gupselfbin: self.gupselfbin@,
        }
    }
}

impl GupGlobalPaths {
    /// The paths rooted at `guphome`, with gup's own installation in `gupselfhome` and its
    /// binaries in `gupselfbin`.
    pub fn new(guphome: String, gupselfhome: String, gupselfbin: String) -> (r: Self)
        ensures
            r@.guphome == guphome@,
            r@.gupselfhome == gupselfhome@,
            r@.gupselfbin == gupselfbin@,
    {
        GupGlobalPaths { guphome, gupselfhome, gupselfbin }
    }

    /// The root gup directory (e.g. `~/.gup`).
    pub fn guphome(&self) -> (r: &String)
        ensures
            r@ == self@.guphome,
    {
        &self.guphome
    }

    /// The global configuration file (e.g. `~/.gup/global_config.json`).
    pub fn global_config_file(&self) -> (r: String)
        ensures
            r@ == spec_path_join(self@.guphome, "global_config.json"@),
    {
        path_join(&self.guphome, "global_config.json")
    }

    /// The global lock file (e.g. `~/.gup/.gup-lock`).
    pub fn lock_file(&self) -> (r: String)
        ensures
            r@ == spec_path_join(self@.guphome, ".gup-lock"@),
    {
        path_join(&self.guphome, ".gup-lock")
    }

    /// The directory where symlinks or shims of managed executables are placed.
    pub fn gup_bin_dir(&self) -> (r: String)
        ensures
            r@ == spec_path_join(self@.guphome, "bin"@),
    {
        path_join(&self.guphome, "bin")
    }

    /// The directory of a managed project (e.g. `~/.gup/projects/nodejs`).
    pub fn project_dir(&self, project_unique_name: &str) -> (r: String)
        ensures
            r@ == spec_path_join(
                spec_path_join(self@.guphome, "projects"@),
                project_unique_name@,
            ),
    {
        let projects = path_join(&self.guphome, "projects");
        path_join(&projects, project_unique_name)
    }

    /// The cached metadata file of a project.
    pub fn project_metadata_cache_file(&self, project_unique_name: &str) -> (r: String)
        ensures
            r@ == spec_path_join(
                spec_path_join(spec_path_join(self@.guphome, "projects"@), project_unique_name@),
                "metadata_cache.json"@,
            ),
    {
        let dir = self.project_dir(project_unique_name);
        path_join(&dir, "metadata_cache.json")
    }

    /// The local state file of a project.
    pub fn project_state_file(&self, project_unique_name: &str) -> (r: String)
        ensures
            r@ == spec_path_join(
                spec_path_join(spec_path_join(self@.guphome, "projects"@), project_unique_name@),
                "project_state.json"@,
            ),
    {
        let dir = self.project_dir(project_unique_name);
        path_join(&dir, "project_state.json")
    }

    /// The directory holding the installed versions of a project.
    pub fn project_versions_dir(&self, project_unique_name: &str) -> (r: String)
        ensures
            r@ == spec_path_join(
                spec_path_join(spec_path_join(self@.guphome, "projects"@), project_unique_name@),
                "versions"@,
            ),
    {
        let dir = self.project_dir(project_unique_name);
        path_join(&dir, "versions")
    }

    /// The directory of one installed version of a project.
    pub fn specific_project_version_dir(&self, project_unique_name: &str, version_path_segment: &str) -> (r: String)
        ensures
            r@ == spec_path_join(
                spec_path_join(
                    spec_path_join(spec_path_join(self@.guphome, "projects"@), project_unique_name@),
                    "versions"@,
                ),
                version_path_segment@,
            ),
    {
        let dir = self.project_versions_dir(project_unique_name);
        path_join(&dir, version_path_segment)
    }

    /// The directory of gup's own installation.
    pub fn gupselfhome(&self) -> (r: &String)
        ensures
            r@ == self@.gupselfhome,
    {
        &self.gupselfhome
    }

    /// The binary directory of gup's own installation.
    pub fn gupselfbin(&self) -> (r: &String)
        ensures
            r@ == self@.gupselfbin,
    {
        &self.gupselfbin
    }

    /// gup's own configuration file.
    pub fn gupselfconfig_file(&self) -> (r: String)
        ensures
            r@ == spec_path_join(self@.gupselfhome, "gupself.json"@),
    {
        path_join(&self.gupselfhome, "gupself.json")
    }
}


/// Why the gup home directory could not be determined.
#[derive(Debug, Clone, PartialEq, Eq)]
pub enum PathsError {
    /// `GUP_DEPOT_PATH` holds a path that is not absolute (the trimmed value).
    DepotPathNotAbsolute { value: String },
    /// The home directory of the user is unknown.
    HomeDirUnknown,
    /// The home directory yields a gup home that is not absolute.
    InvalidHomeDir { path: String },
}

/// The abstract content of [`PathsError`].
pub enum PathsErrorView {
    DepotPathNotAbsolute { value: Seq<char> },
    HomeDirUnknown,
    InvalidHomeDir { path: Seq<char> },
}

impl View for PathsError {
    type V = PathsErrorView;

    open spec fn view(&self) -> PathsErrorView {
        match self {
            PathsError::DepotPathNotAbsolute { value } => PathsErrorView::DepotPathNotAbsolute {
                value: value@,
            },
            PathsError::HomeDirUnknown => PathsErrorView::HomeDirUnknown,
            PathsError::InvalidHomeDir { path } => PathsErrorView::InvalidHomeDir { path: path@ },
        }
    }
}

/// The view of a computed path or its error.
pub open spec fn path_result_view(r: Result<String, PathsError>) -> Result<Seq<char>, PathsErrorView> {
    match r {
        Ok(p) => Ok(p@),
        Err(e) => Err(e@),
    }
}

/// The default gup home, `.gup` in the user's home directory.
pub open spec fn spec_default_gup_home(home_dir: Option<Seq<char>>) -> Result<Seq<char>, PathsErrorView> {
    match home_dir {
        None => Err(PathsErrorView::HomeDirUnknown),
        Some(h) => {
            let p = spec_path_join(h, ".gup"@);
            if spec_is_absolute(p) {
                Ok(p)
            } else {
                Err(PathsErrorView::InvalidHomeDir { path: p })
            }
        },
    }
}

/// The gup home given the trimmed value of `GUP_DEPOT_PATH` (if set) and the user's home
/// directory (if known): an empty depot path falls back to the default, a relative one
/// is refused, an absolute one holds the gup home in its `gup` subdirectory.
pub open spec fn spec_gup_home(depot_trimmed: Option<Seq<char>>, home_dir: Option<Seq<char>>) -> Result<Seq<char>, PathsErrorView> {
    match depot_trimmed {
        None => spec_default_gup_home(home_dir),
        Some(v) => {
            if v.len() == 0 {
                spec_default_gup_home(home_dir)
            } else if !spec_is_absolute(v) {
                Err(PathsErrorView::DepotPathNotAbsolute { value: v })
            } else {
                Ok(spec_path_join(v, "gup"@))
            }
        },
    }
}

/// The view of an optional string.
pub open spec fn opt_str_view(s: Option<&str>) -> Option<Seq<char>> {
    match s {
        Some(v) => Some(v@),
        None => None,
    }
}

/// The default gup home, `.gup` in the user's home directory `home_dir`.
pub fn get_default_gup_home_path(home_dir: Option<&str>) -> (r: Result<String, PathsError>)
    ensures
        path_result_view(r) == spec_default_gup_home(opt_str_view(home_dir)),
{
    match home_dir {
        None => Err(PathsError::HomeDirUnknown),
        Some(h) => {
            let p = path_join(h, ".gup");
            if is_absolute(p.as_str()) {
                Ok(p)
            } else {
                Err(PathsError::InvalidHomeDir { path: p })
            }
        },
    }
}

/// The gup home from the already trimmed value of `GUP_DEPOT_PATH` and the home directory.
pub fn gup_home_from_trimmed_depot(depot_trimmed: Option<&str>, home_dir: Option<&str>) -> (r: Result<String, PathsError>)
    ensures
        path_result_view(r) == spec_gup_home(opt_str_view(depot_trimmed), opt_str_view(home_dir)),
{
    match depot_trimmed {
        None => get_default_gup_home_path(home_dir),
        Some(v) => {
            if v.is_empty() {
                get_default_gup_home_path(home_dir)
            } else if !is_absolute(v) {
                Err(PathsError::DepotPathNotAbsolute { value: v.to_owned() })
            } else {
                Ok(path_join(v, "gup"))
            }
        },
    }
}

/// The gup home from the value of `GUP_DEPOT_PATH` (if set) and the user's home directory
/// (if known). The depot path is trimmed of white space first.
pub fn get_gup_home_path(depot_path: Option<&str>, home_dir: Option<&str>) -> (r: Result<String, PathsError>)
    ensures
        path_result_view(r) == spec_gup_home(
            match depot_path {
                Some(v) => Some(trimmed(v@)),
                None => None,
            },
            opt_str_view(home_dir),
        ),
{
    match depot_path {
        None => gup_home_from_trimmed_depot(None, home_dir),
        Some(v) => {
            let t = trim(v);
            gup_home_from_trimmed_depot(Some(t.as_str()), home_dir)
        },
    }
}

} // verus!
