//! The versions database of one tool: available versions and channels.
use vstd::prelude::*;

use crate::strmap::StrMap;

verus! {

/// Where a version is downloaded from.
#[derive(Debug, Clone)]
pub struct VersionInfo {
    /// Path of the archive below the download server.
    pub url_path: String,
}

/// The version a channel points at.
#[derive(Debug, Clone)]
pub struct ChannelInfo {
    pub version: String,
}

/// The versions database.
#[derive(Debug)]
pub struct ProjectVersionsDB {
    /// Available versions by version string.
    pub available_versions: StrMap<VersionInfo>,
    /// Available channels by name.
    pub available_channels: StrMap<ChannelInfo>,
    /// Format version of the database.
    pub db_format_version: String,
}

} // verus!
