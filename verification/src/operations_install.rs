//! What installing a version involves: the artifact to download, where it goes, how it
//! is unpacked, and the record kept of it afterwards.
//!
//! Downloading, unpacking and running the post-install hook are done by the caller,
//! following the plan computed here.
use vstd::prelude::*;

use crate::operations_metadata::{get_current_platform_id, MergedInstallConfig, NoMatchingPlatform};
use crate::project_metadata_m::ProjectMetadata;
use crate::state_config::{is_utc_stamp, now_rfc3339, ClockUnavailable, InstalledVersionConcreteInfo, ProjectLocalState};
use crate::text::{concat2, contains_substring, has_substring, lemma_seq_views_push, opt_view, replace_all, replaced, seq_views, str_eq};
use crate::whitespace::{split_words, trim, trimmed, words};

verus! {

/// The URL that `url::Url::join` gives for `suffix` against `base` (parsed with
/// `url::Url::parse`), as text; `None` when either step fails.
pub uninterp spec fn url_joined(base: Seq<char>, suffix: Seq<char>) -> Option<Seq<char>>;

/// Parses `base` as a URL and joins `suffix` onto it; the result is named by
/// [`url_joined`].
#[verifier::external_body]
fn join_url(base: &str, suffix: &str) -> (r: Option<String>)
    ensures
        opt_view(r) == url_joined(base@, suffix@),
{
    match url::Url::parse(base) {
        Ok(b) => match b.join(suffix) {
            Ok(u) => Some(u.to_string()),
            Err(_) => None,
        },
        Err(_) => None,
    }
}

/// How a downloaded artifact is unpacked.
#[derive(Debug, Clone, PartialEq, Eq)]
pub enum ArchiveKind {
    /// A gzip-compressed tarball.
    TarGz,
    /// A zip archive.
    Zip,
    /// A single executable, stored under the artifact's URL suffix.
    Binary,
    /// A format gup cannot unpack.
    Unsupported { format: String },
}

/// The archive kind named by an archive format.
pub open spec fn spec_archive_kind(format: Seq<char>, kind: ArchiveKind) -> bool {
    if format == "tar.gz"@ {
        kind == ArchiveKind::TarGz
    } else if format == "zip"@ {
        kind == ArchiveKind::Zip
    } else if format == "binary"@ {
        kind == ArchiveKind::Binary
    } else {
        kind is Unsupported && kind->Unsupported_format@ == format
    }
}

/// The archive kind named by an archive format.
pub fn archive_kind(format: &str) -> (r: ArchiveKind)
    ensures
        spec_archive_kind(format@, r),
{
    if str_eq(format, "tar.gz") {
        ArchiveKind::TarGz
    } else if str_eq(format, "zip") {
        ArchiveKind::Zip
    } else if str_eq(format, "binary") {
        ArchiveKind::Binary
    } else {
        ArchiveKind::Unsupported { format: format.to_owned() }
    }
}

/// Everything needed to install one version.
#[derive(Debug, Clone)]
pub struct InstallPlan {
    /// The platform id of the artifact.
    pub platform_id: String,
    /// The URL of the artifact.
    pub download_url: String,
    /// The URL suffix of the artifact, which names the file of a binary artifact.
    pub url_path_suffix: String,
    /// The installation parameters.
    pub merged_config: MergedInstallConfig,
    /// How the artifact is unpacked.
    pub archive: ArchiveKind,
    /// Directory name of the version under the project's versions directory.
    pub path_segment: String,
}

/// Why a version cannot be installed.
#[derive(Debug, Clone, PartialEq, Eq)]
pub enum InstallError {
    /// The metadata lists no platform for the running system.
    NoPlatform(NoMatchingPlatform),
    /// The version is not among the available versions.
    VersionNotAvailable { version: String, project_name: String },
    /// The version has no artifact for the platform.
    NoArtifact { platform_id: String, version: String, project_name: String },
    /// The download URL could not be formed.
    InvalidDownloadUrl { base: String, suffix: String },
}

/// What installing `version` on the platform `triple` involves: nothing when it is
/// installed already; otherwise the artifact of the platform for the version, its URL,
/// the installation configuration (the artifact's settings over the version's over the
/// project's) and the directory `<version>-<platform>`.
pub open spec fn install_plan_matches(
    metadata: &ProjectMetadata,
    version: Seq<char>,
    triple: Seq<char>,
    plan: InstallPlan,
) -> bool {
    let detail = metadata.available_versions.spec_map()[version];
    let artifact = detail.artifacts.spec_map()[triple];
    &&& plan.platform_id@ == triple
    &&& plan.url_path_suffix@ == artifact.url_path_suffix@
    &&& url_joined(metadata.base_download_url@, artifact.url_path_suffix@) == Some(plan.download_url@)
    &&& plan.merged_config.is_artifact_merge_of(metadata.default_install_config, detail.install_config_override, artifact)
    &&& spec_archive_kind(plan.merged_config.archive_format@, plan.archive)
    &&& plan.path_segment@ == version + "-"@ + triple
}

/// Computes how to install `version_to_install` on the platform whose target triple is
/// `current_triple`; `None` when the version is installed already.
pub fn plan_install(
    project_metadata: &ProjectMetadata,
    project_state: &ProjectLocalState,
    version_to_install: &str,
    current_triple: &str,
) -> (r: Result<Option<InstallPlan>, InstallError>)
    ensures
        project_state.installed_versions.spec_map().contains_key(version_to_install@) ==> r matches Ok(None),
        !project_state.installed_versions.spec_map().contains_key(version_to_install@) ==> {
            let versions = project_metadata.available_versions.spec_map();
            if !project_metadata.platforms.spec_map().contains_key(current_triple@) {
                r is Err && r->Err_0 is NoPlatform && r->Err_0->NoPlatform_0.triple@ == current_triple@
                    && seq_views(r->Err_0->NoPlatform_0.available_platforms@) == project_metadata.platforms.key_seq()
            } else if !versions.contains_key(version_to_install@) {
                r is Err && r->Err_0 is VersionNotAvailable && r->Err_0->VersionNotAvailable_version@ == version_to_install@
                    && r->Err_0->VersionNotAvailable_project_name@ == project_metadata.project_name@
            } else if !versions[version_to_install@].artifacts.spec_map().contains_key(current_triple@) {
                r is Err && r->Err_0 is NoArtifact && r->Err_0->NoArtifact_platform_id@ == current_triple@
                    && r->Err_0->NoArtifact_version@ == version_to_install@
                    && r->Err_0->NoArtifact_project_name@ == project_metadata.project_name@
            } else if url_joined(
                project_metadata.base_download_url@,
                versions[version_to_install@].artifacts.spec_map()[current_triple@].url_path_suffix@,
            ) is None {
                r is Err && r->Err_0 is InvalidDownloadUrl && r->Err_0->InvalidDownloadUrl_base@
                    == project_metadata.base_download_url@ && r->Err_0->InvalidDownloadUrl_suffix@
                    == versions[version_to_install@].artifacts.spec_map()[current_triple@].url_path_suffix@
            } else {
                r matches Ok(Some(plan)) && install_plan_matches(project_metadata, version_to_install@, current_triple@, plan)
            }
        },
{
    if project_state.installed_versions.contains_key(version_to_install) {
        return Ok(None);
    }
    let platform_id = match get_current_platform_id(project_metadata, current_triple) {
        Ok(p) => p,
        Err(e) => {
            return Err(InstallError::NoPlatform(e));
        },
    };
    let version_detail = match project_metadata.available_versions.get(version_to_install) {
        Some(d) => d,
        None => {
            return Err(InstallError::VersionNotAvailable {
                version: version_to_install.to_owned(),
                project_name: project_metadata.project_name.clone(),
            });
        },
    };
    let artifact_detail = match version_detail.artifacts.get(platform_id.as_str()) {
        Some(a) => a,
        None => {
            return Err(InstallError::NoArtifact {
                platform_id: platform_id,
                version: version_to_install.to_owned(),
                project_name: project_metadata.project_name.clone(),
            });
        },
    };
    let download_url = match join_url(project_metadata.base_download_url.as_str(), artifact_detail.url_path_suffix.as_str()) {
        Some(u) => u,
        None => {
            return Err(InstallError::InvalidDownloadUrl {
                base: project_metadata.base_download_url.clone(),
                suffix: artifact_detail.url_path_suffix.clone(),
            });
        },
    };
    let mut merged_config = MergedInstallConfig::new(
        &project_metadata.default_install_config,
        &version_detail.install_config_override,
    );
    merged_config.apply_artifact(artifact_detail);
    let archive = archive_kind(merged_config.archive_format.as_str());
    let with_dash = concat2(version_to_install, "-");
    let path_segment = concat2(with_dash.as_str(), platform_id.as_str());
    Ok(Some(InstallPlan {
        platform_id,
        download_url,
        url_path_suffix: artifact_detail.url_path_suffix.clone(),
        merged_config,
        archive,
        path_segment,
    }))
}

/// Records that `version` is installed in the directory `path_segment`, installed at the
/// time stamp `installed_at`.
pub fn insert_installed_version(
    project_state: &mut ProjectLocalState,
    version: &str,
    path_segment: &str,
    installed_at: String,
)
    ensures
        final(project_state).installed_versions.spec_map() == old(project_state).installed_versions.spec_map().insert(
            version@,
            final(project_state).installed_versions.spec_map()[version@],
        ),
        final(project_state).installed_versions.spec_map()[version@].version_string@ == version@,
        final(project_state).installed_versions.spec_map()[version@].path_segment@ == path_segment@,
        final(project_state).installed_versions.spec_map()[version@].installed_at@ == installed_at@,
        final(project_state).default_version_or_channel_name == old(project_state).default_version_or_channel_name,
        final(project_state).active_channels == old(project_state).active_channels,
        final(project_state).linked_paths == old(project_state).linked_paths,
        final(project_state).overrides == old(project_state).overrides,
{
    project_state.installed_versions.insert(
        version.to_owned(),
        InstalledVersionConcreteInfo {
            version_string: version.to_owned(),
            path_segment: path_segment.to_owned(),
            installed_at,
        },
    );
}

/// Records that `version` is installed in the directory `path_segment`, installed just
/// now, as [`insert_installed_version`] does with the clock's time stamp in UTC. The
/// state is left as it was when the clock gives no time.
pub fn record_installed_version(
    project_state: &mut ProjectLocalState,
    version: &str,
    path_segment: &str,
) -> (r: Result<(), ClockUnavailable>)
    ensures
        r is Err ==> *final(project_state) == *old(project_state),
        r is Ok ==> {
            &&& final(project_state).installed_versions.spec_map() == old(project_state).installed_versions.spec_map().insert(
                version@,
                final(project_state).installed_versions.spec_map()[version@],
            )
            &&& final(project_state).installed_versions.spec_map()[version@].version_string@ == version@
            &&& final(project_state).installed_versions.spec_map()[version@].path_segment@ == path_segment@
            &&& is_utc_stamp(final(project_state).installed_versions.spec_map()[version@].installed_at@)
            &&& final(project_state).default_version_or_channel_name == old(project_state).default_version_or_channel_name
            &&& final(project_state).active_channels == old(project_state).active_channels
            &&& final(project_state).linked_paths == old(project_state).linked_paths
            &&& final(project_state).overrides == old(project_state).overrides
        },
{
    match now_rfc3339() {
        Some(stamp) => {
            insert_installed_version(project_state, version, path_segment, stamp);
            Ok(())
        },
        None => Err(ClockUnavailable),
    }
}

/// A command to run after installation, in the installation directory.
#[derive(Debug, Clone)]
pub struct HookCommand {
    pub program: String,
    pub args: Vec<String>,
}

/// The placeholder in a post-install hook that stands for the installation directory.
pub open spec fn version_dir_placeholder() -> Seq<char> {
    "{GUP_PROJECT_VERSION_DIR}"@
}

/// The command that runs the post-install hook `hook` of a version installed in
/// `version_dir`: none for a missing or blank hook. The placeholder is replaced by the
/// directory. A hook whose first word is the shell (`sh`, or `cmd` on Windows), or that
/// holds the shell's flag (`-c`, or `/C`) anywhere, runs as `sh -c <hook>` (`cmd /C
/// <hook>`); any other runs its first word with the other words as arguments.
pub open spec fn hook_command_view(hook: Option<Seq<char>>, version_dir: Seq<char>, is_windows: bool) -> Option<
    (Seq<char>, Seq<Seq<char>>),
> {
    match hook {
        None => None,
        Some(t) => if trimmed(t).len() == 0 {
            None
        } else {
            let actual = replaced(t, version_dir_placeholder(), version_dir);
            let w = words(actual);
            let program = if w.len() > 0 {
                w[0]
            } else {
                actual
            };
            let shell = if is_windows {
                "cmd"@
            } else {
                "sh"@
            };
            let flag = if is_windows {
                "/C"@
            } else {
                "-c"@
            };
            if program == shell || has_substring(actual, flag) {
                Some((shell, seq![flag, actual]))
            } else {
                Some(
                    (
                        program,
                        if w.len() > 0 {
                            w.skip(1)
                        } else {
                            Seq::empty()
                        },
                    ),
                )
            }
        },
    }
}

/// The command for the post-install hook `hook` of a version installed in `version_dir`.
pub fn post_install_hook_command(hook: &Option<String>, version_dir: &str, is_windows: bool) -> (r: Option<HookCommand>)
    ensures
        match r {
            Some(c) => hook_command_view(opt_view(*hook), version_dir@, is_windows) == Some((c.program@, seq_views(c.args@))),
            None => hook_command_view(opt_view(*hook), version_dir@, is_windows) is None,
        },
{
    let template = match hook {
        Some(t) => t.as_str(),
        None => {
            return None;
        },
    };
    let t = trim(template);
    if t.unicode_len() == 0 {
        return None;
    }
    proof {
        reveal_strlit("{GUP_PROJECT_VERSION_DIR}");
    }
    let actual = replace_all(template, "{GUP_PROJECT_VERSION_DIR}", version_dir);
    let w = split_words(actual.as_str());
    proof {
        assert(seq_views(w@) == words(actual@));
    }
    let (shell, flag) = if is_windows {
        ("cmd", "/C")
    } else {
        ("sh", "-c")
    };
    let is_shell = if w.len() > 0 {
        str_eq(w[0].as_str(), shell)
    } else {
        str_eq(actual.as_str(), shell)
    };
    if is_shell || contains_substring(actual.as_str(), flag) {
        let args = vec![flag.to_owned(), actual];
        proof {
            assert(seq_views(args@) =~= seq![flag@, args@[1]@]);
        }
        Some(HookCommand { program: shell.to_owned(), args })
    } else {
        let program = if w.len() > 0 {
            w[0].clone()
        } else {
            actual.clone()
        };
        let mut args: Vec<String> = Vec::new();
        if w.len() > 0 {
            let mut k: usize = 1;
            proof {
                assert(seq_views(args@) =~= seq_views(w@).subrange(1, 1));
            }
            while k < w.len()
                invariant
                    1 <= k <= w@.len(),
                    seq_views(args@) == seq_views(w@).subrange(1, k as int),
                decreases w@.len() - k,
            {
                let ghost before = args@;
                let item = w[k].clone();
                args.push(item);
                proof {
                    lemma_seq_views_push(before, item);
                    assert(seq_views(w@).subrange(1, k + 1) =~= seq_views(w@).subrange(1, k as int).push(w@[k as int]@));
                }
                k = k + 1;
            }
            proof {
                assert(seq_views(w@).subrange(1, w@.len() as int) =~= seq_views(w@).skip(1));
            }
        } else {
            proof {
                assert(seq_views(args@) =~= Seq::<Seq<char>>::empty());
            }
        }
        Some(HookCommand { program, args })
    }
}

} // verus!
