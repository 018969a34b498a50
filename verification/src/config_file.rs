//! The settings file format gup inherited: installed versions, channels, settings and
//! directory overrides of one tool.
use vstd::prelude::*;

use crate::strmap::StrMap;

verus! {

/// Whether a flag holds its default value, `false`; such a flag is left out when the
/// settings are written.
pub fn is_default(t: &bool) -> (r: bool)
    ensures
        r == !*t,
{
    !*t
}

/// Minutes between updates of the versions database, by default one day.
pub fn default_versionsdb_update_interval() -> (r: i64)
    ensures
        r == 1440,
{
    1440
}

/// Whether an update interval is the default one.
pub fn is_default_versionsdb_update_interval(i: &i64) -> (r: bool)
    ensures
        r == (*i == 1440),
{
    *i == default_versionsdb_update_interval()
}

/// An installed version.
#[derive(Debug, Clone)]
pub struct GupConfigVersion {
    /// Directory of the version.
    pub path: String,
}

/// An installed channel: downloaded directly, tracking a version, or linked to a command.
#[derive(Debug, Clone)]
pub enum GupConfigChannel {
    DirectDownloadChannel {
        path: String,
        url: String,
        local_etag: String,
        server_etag: String,
        version: String,
    },
    SystemChannel { version: String },
    LinkedChannel { command: String, args: Option<Vec<String>> },
}

/// Global settings.
#[derive(Debug, Clone, Copy, PartialEq, Eq, Structural)]
pub struct GupConfigSettings {
    /// Whether a symlink is created for each channel.
    pub create_channel_symlinks: bool,
    /// Minutes between updates of the versions database.
    pub versionsdb_update_interval: i64,
}

impl Default for GupConfigSettings {
    fn default() -> (r: Self)
        ensures
            !r.create_channel_symlinks,
            r.versionsdb_update_interval == 1440,
    {
        GupConfigSettings {
            create_channel_symlinks: false,
            versionsdb_update_interval: default_versionsdb_update_interval(),
        }
    }
}

/// A channel chosen for one directory.
#[derive(Debug, Clone)]
pub struct GupOverride {
    /// The directory.
    pub path: String,
    /// The channel used there.
    pub channel: String,
}

/// The whole settings file of one tool.
#[derive(Debug)]
pub struct GupConfig {
    /// The default channel.
    pub default: Option<String>,
    /// Installed versions by version string.
    pub installed_versions: StrMap<GupConfigVersion>,
    /// Installed channels by name.
    pub installed_channels: StrMap<GupConfigChannel>,
    /// Settings.
    pub settings: GupConfigSettings,
    /// Directory overrides.
    pub overrides: Vec<GupOverride>,
    /// When the versions database was last updated, as RFC 3339 text.
    pub last_version_db_update: Option<String>,
}

} // verus!
