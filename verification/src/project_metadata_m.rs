//! The metadata that describes a project: its platforms, versions, channels and
//! executables, and how its artifacts are installed.
//!
//! Maps of the metadata are [`StrMap`]s, keyed by platform id, version string or
//! channel name. The base download URL is kept as text.
use vstd::prelude::*;

use crate::strmap::StrMap;

verus! {

/// How the artifacts of a project or of one version are installed.
#[derive(Debug, Clone, Default)]
pub struct InstallConfig {
    /// Archive format of downloaded artifacts ("zip", "tar.gz", "binary").
    pub archive_format: Option<String>,
    /// Number of leading path components to strip when extracting.
    pub strip_components: Option<usize>,
    /// Subdirectory of the extracted archive that holds the executables.
    pub bin_subdir: Option<String>,
    /// Command run after a successful installation.
    pub post_install_hook: Option<String>,
}

/// The operating system and architecture of a platform.
#[derive(Debug, Clone)]
pub struct PlatformDetail {
    /// Operating system name (e.g. "linux").
    pub os: String,
    /// CPU architecture (e.g. "x86_64").
    pub arch: String,
    /// Pattern matched against target triples.
    pub target_triple_pattern: String,
}

/// An executable provided by a project.
#[derive(Debug, Clone)]
pub struct ExecutableDetail {
    /// Command name made available to users.
    pub name: String,
    /// Path of the executable relative to the bin subdirectory.
    pub path_in_bin_subdir: String,
}

/// The download artifact of one version for one platform.
#[derive(Debug, Clone)]
pub struct ArtifactDetail {
    /// Appended to the base download URL.
    pub url_path_suffix: String,
    /// SHA-256 checksum of the download.
    pub sha256: Option<String>,
    /// Overrides the archive format.
    pub archive_format: Option<String>,
    /// Overrides the number of stripped path components.
    pub strip_components: Option<usize>,
    /// Overrides the bin subdirectory.
    pub bin_subdir: Option<String>,
}

/// One version of a project.
#[derive(Debug)]
pub struct VersionDetail {
    /// Release date in ISO 8601 format.
    pub release_date: Option<String>,
    /// Artifacts by platform id.
    pub artifacts: StrMap<ArtifactDetail>,
    /// Overrides the project's default installation configuration.
    pub install_config_override: Option<InstallConfig>,
}

/// A channel: a rule that selects one version.
#[derive(Debug, Clone)]
pub struct ChannelDetail {
    /// Version prefix filter, or for "exact_match" the version itself.
    pub version_prefix: Option<String>,
    /// "latest_semver" or "exact_match".
    pub resolution_strategy: String,
}

/// Everything gup knows about a project from its metadata file.
#[derive(Debug)]
pub struct ProjectMetadata {
    /// Unique project identifier.
    pub project_name: String,
    /// Human-friendly name.
    pub display_name: Option<String>,
    /// What the project provides.
    pub description: Option<String>,
    /// Homepage or documentation URL.
    pub homepage_url: Option<String>,
    /// Version of the metadata format.
    pub metadata_format_version: String,
    /// Base URL for downloading artifacts.
    pub base_download_url: String,
    /// Supported platforms by platform id.
    pub platforms: StrMap<PlatformDetail>,
    /// Default installation configuration.
    pub default_install_config: InstallConfig,
    /// The executables the project provides.
    pub executables: Vec<ExecutableDetail>,
    /// Name of the primary executable.
    pub default_executable_name: Option<String>,
    /// Available versions by version string.
    pub available_versions: StrMap<VersionDetail>,
    /// Channels by name.
    pub channels: StrMap<ChannelDetail>,
}

} // verus!
