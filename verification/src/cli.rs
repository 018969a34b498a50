//! The commands of gup's command line, as plain values.
//!
//! The argument parser lives with the program; it hands the library these values.
use vstd::prelude::*;

use crate::operations_gc::vec_contains;
use crate::text::seq_views;

verus! {

/// Manage directory-specific version overrides for a project.
#[derive(Debug, Clone)]
pub enum OverrideSubCmd {
    /// Show the override of a project in the current directory.
    Status { project_name: String },
    /// Set the version or channel of a project in a directory (the current one by default).
    SetVersion { project_name: String, version_or_channel: String, path: Option<String> },
    /// Remove overrides of a project.
    Unset { project_name: String, nonexistent: bool, path: Option<String> },
}

/// Manage the software projects known to gup.
#[derive(Debug, Clone)]
pub enum ProjectSubCmd {
    /// Add a project from a registration file or URL.
    Add { registration_source: String },
    /// Stop managing a project.
    Remove { project_name: String },
    /// List the managed projects.
    List {},
    /// Download a project's metadata again.
    UpdateMetadata { project_name: String },
}

/// Release channels of gup itself.
#[derive(Debug, Clone, Copy, PartialEq, Eq, Structural)]
pub enum GupChannel {
    /// Thoroughly tested versions.
    Release,
    /// Pre-release versions.
    ReleasePreview,
    /// Bleeding edge.
    Dev,
}

/// The lower-case name of a channel.
pub open spec fn spec_channel_name(c: GupChannel) -> Seq<char> {
    match c {
        GupChannel::Release => "release"@,
        GupChannel::ReleasePreview => "releasepreview"@,
        GupChannel::Dev => "dev"@,
    }
}

impl GupChannel {
    /// The lower-case name of the channel, as used by gup's update servers.
    pub fn to_lowercase(&self) -> (r: &'static str)
        ensures
            r@ == spec_channel_name(*self),
    {
        match self {
            GupChannel::Release => "release",
            GupChannel::ReleasePreview => "releasepreview",
            GupChannel::Dev => "dev",
        }
    }
}

/// Manage this gup installation.
#[derive(Debug, Clone)]
pub enum SelfSubCmd {
    /// Update gup itself.
    Update {},
    /// Uninstall gup (not available in this build).
    Uninstall {},
}

/// gup's own settings.
#[derive(Debug, Clone)]
pub enum ConfigSubCmd {
    /// Show all settings.
    Show {},
    /// Whether shell start-up scripts are edited to put gup's bin directory on `PATH`.
    ModifyPath { value: Option<bool> },
}

/// Whether gup runs unattended (in continuous integration) or quietly.
#[derive(Debug, Clone, Copy)]
pub struct CiContext {
    pub ci_mode: bool,
    pub quiet: bool,
}

/// The environment variables whose presence marks a CI system.
pub open spec fn ci_variables() -> Seq<Seq<char>> {
    seq!["CI"@, "GITHUB_ACTIONS"@, "GITLAB_CI"@, "JENKINS_URL"@, "BUILDKITE"@, "GUP_CI"@]
}

/// The environment variable whose presence asks for quiet output.
pub open spec fn quiet_variable() -> Seq<char> {
    "GUP_QUIET"@
}

/// The context for an environment in which exactly the variables named in `set` are set:
/// CI mode where one of [`ci_variables`] is set, and quiet in CI mode or where
/// [`quiet_variable`] is set.
pub open spec fn ci_context_for(set: Seq<Seq<char>>) -> CiContext {
    let ci = exists|i: int| 0 <= i < ci_variables().len() && set.contains(#[trigger] ci_variables()[i]);
    CiContext { ci_mode: ci, quiet: ci || set.contains(quiet_variable()) }
}

/// The environment variables whose presence gup looks at: those of [`ci_variables`], then
/// [`quiet_variable`].
pub fn watched_variables() -> (r: Vec<&'static str>)
    ensures
        r@.map_values(|v: &str| v@) == ci_variables().push(quiet_variable()),
{
    let r = vec!["CI", "GITHUB_ACTIONS", "GITLAB_CI", "JENKINS_URL", "BUILDKITE", "GUP_CI", "GUP_QUIET"];
    proof {
        assert(r@.map_values(|v: &str| v@) =~= ci_variables().push(quiet_variable()));
    }
    r
}

impl CiContext {
    /// The context for an environment in which exactly the variables named in `set` are
    /// set, as [`ci_context_for`] describes.
    pub fn detect_from(set: &Vec<String>) -> (r: Self)
        ensures
            r == ci_context_for(seq_views(set@)),
    {
        let names = watched_variables();
        let ghost views = names@.map_values(|v: &str| v@);
        let mut ci = false;
        let mut i: usize = 0;
        proof {
            assert(views.len() == names@.len());
            assert(ci_variables().push(quiet_variable()).len() == 7);
        }
        while i < 6
            invariant
                names@.len() == 7,
                views == names@.map_values(|v: &str| v@),
                views == ci_variables().push(quiet_variable()),
                i <= 6,
                ci == exists|j: int| 0 <= j < i && seq_views(set@).contains(#[trigger] ci_variables()[j]),
            decreases 6 - i,
        {
            let found = vec_contains(set, names[i]);
            proof {
                assert(views[i as int] == names@[i as int]@);
                assert(ci_variables()[i as int] == views[i as int]);
                if found {
                    assert(0 <= i < i + 1 && seq_views(set@).contains(ci_variables()[i as int]));
                }
                if exists|j: int| 0 <= j < i + 1 && seq_views(set@).contains(#[trigger] ci_variables()[j]) {
                    let j = choose|j: int| 0 <= j < i + 1 && seq_views(set@).contains(#[trigger] ci_variables()[j]);
                    if j < i {
                        assert(exists|j: int| 0 <= j < i && seq_views(set@).contains(#[trigger] ci_variables()[j]));
                    }
                }
            }
            ci = ci || found;
            i = i + 1;
        }
        let quiet = vec_contains(set, names[6]);
        proof {
            assert(views[6] == names@[6]@);
            assert(views[6] == quiet_variable());
        }
        CiContext::from_environment(ci, quiet)
    }


    /// The context for an environment in which a CI system was or was not detected and
    /// quiet output was or was not asked for; CI implies quiet.
    pub fn from_environment(ci_detected: bool, quiet_requested: bool) -> (r: Self)
        ensures
            r.ci_mode == ci_detected,
            r.quiet == (ci_detected || quiet_requested),
    {
        CiContext { ci_mode: ci_detected, quiet: ci_detected || quiet_requested }
    }

    /// Whether interactive prompts are shown.
    pub fn should_prompt(&self) -> (r: bool)
        ensures
            r == !self.ci_mode,
    {
        !self.ci_mode
    }

    /// Whether progress bars are shown.
    pub fn should_show_progress(&self) -> (r: bool)
        ensures
            r == (!self.ci_mode && !self.quiet),
    {
        !self.ci_mode && !self.quiet
    }

    /// Whether banners and welcome messages are shown.
    pub fn should_show_banners(&self) -> (r: bool)
        ensures
            r == (!self.ci_mode && !self.quiet),
    {
        !self.ci_mode && !self.quiet
    }
}

/// Law: progress bars are shown (what [`CiContext::should_show_progress`] returns: neither
/// CI mode nor quiet) exactly when none of the watched environment variables is set.
pub proof fn law_progress_shown_without_watched_variables(set: Seq<Seq<char>>)
    ensures
        (!ci_context_for(set).ci_mode && !ci_context_for(set).quiet) <==> forall|i: int|
            0 <= i < ci_variables().push(quiet_variable()).len() ==> !set.contains(
                #[trigger] ci_variables().push(quiet_variable())[i],
            ),
{
    let w = ci_variables().push(quiet_variable());
    if !(!ci_context_for(set).ci_mode && !ci_context_for(set).quiet) {
        if set.contains(quiet_variable()) {
            assert(w[6] == quiet_variable());
        } else {
            let i = choose|i: int| 0 <= i < ci_variables().len() && set.contains(#[trigger] ci_variables()[i]);
            assert(w[i] == ci_variables()[i]);
        }
    } else {
        assert forall|i: int| 0 <= i < w.len() implies !set.contains(#[trigger] w[i]) by {
            if i < 6 {
                assert(w[i] == ci_variables()[i]);
            }
        }
    }
}

} // verus!
