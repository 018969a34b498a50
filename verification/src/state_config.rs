//! gup's global configuration and the local state of each project.
//!
//! Time stamps are kept as RFC 3339 text; maps are [`StrMap`]s keyed by project name,
//! version string, channel name or link name.
use vstd::prelude::*;

use crate::strmap::StrMap;
use crate::text::opt_view;

verus! {

/// A time stamp in UTC as `DateTime::to_rfc3339` writes it: it ends with the offset
/// `+00:00`.
pub open spec fn is_utc_stamp(t: Seq<char>) -> bool {
    t.len() >= 6 && t.subrange(t.len() - 6, t.len() as int) == "+00:00"@
}

/// The system clock reads a time that cannot be written as a time stamp: before 1970,
/// or beyond the dates `chrono` represents.
#[derive(Debug, Clone, Copy, PartialEq, Eq)]
pub struct ClockUnavailable;

/// The system time as seconds and nanoseconds since the Unix epoch, from
/// `SystemTime::now().duration_since(UNIX_EPOCH)`; `None` where the clock reads before
/// 1970. It depends on the clock, so only the range of the nanoseconds is stated.
#[verifier::external_body]
fn unix_time() -> (r: Option<(u64, u32)>)
    ensures
        r matches Some((_, n)) ==> n < 1_000_000_000,
{
    std::time::SystemTime::now().duration_since(std::time::UNIX_EPOCH).ok().map(|d| (d.as_secs(), d.subsec_nanos()))
}

/// The RFC 3339 text that `chrono` writes for the instant `secs` seconds and `nanos`
/// nanoseconds after the Unix epoch in UTC, or `None` where `DateTime::from_timestamp`
/// refuses the instant.
pub uninterp spec fn rfc3339_utc(secs: i64, nanos: u32) -> Option<Seq<char>>;

/// Writes an instant with `chrono::DateTime::from_timestamp` and `DateTime::to_rfc3339`;
/// the result is named by [`rfc3339_utc`], and its offset is always written as `+00:00`.
#[verifier::external_body]
fn format_rfc3339_utc(secs: i64, nanos: u32) -> (r: Option<String>)
    ensures
        opt_view(r) == rfc3339_utc(secs, nanos),
        r matches Some(t) ==> is_utc_stamp(t@),
{
    chrono::DateTime::from_timestamp(secs, nanos).map(|t| t.to_rfc3339())
}

/// The current time in RFC 3339 form, in UTC: the system time since the Unix epoch as
/// [`format_rfc3339_utc`] writes it. `None` where the clock reads before 1970 or a time
/// `chrono` cannot represent.
pub(crate) fn now_rfc3339() -> (r: Option<String>)
    ensures
        r matches Some(t) ==> is_utc_stamp(t@),
{
    match unix_time() {
        Some((secs, nanos)) => {
            if secs <= 9223372036854775807u64 {
                format_rfc3339_utc(secs as i64, nanos)
            } else {
                None
            }
        },
        None => None,
    }
}

/// A project that gup manages.
#[derive(Debug, Clone)]
pub struct ManagedProjectInfo {
    /// Unique identifier of the project.
    pub unique_name: String,
    /// Human-readable name.
    pub display_name: String,
    /// URL of the project's metadata.
    pub source_of_truth_url: String,
    /// When the metadata was last synchronized.
    pub last_metadata_sync: Option<String>,
    /// Preferred default channel or version.
    pub preferred_default: Option<String>,
}

/// gup's global configuration.
#[derive(Debug)]
pub struct GupGlobalConfig {
    /// Update channel of gup itself.
    pub self_update_channel: Option<String>,
    /// Minutes between background self-update checks.
    pub background_self_update_interval_minutes: Option<u64>,
    /// Minutes between self-update checks at start-up.
    pub startup_self_update_interval_minutes: Option<u64>,
    /// Whether shell scripts are edited to put the bin directory on `PATH`.
    pub modify_path_on_install: Option<bool>,
    /// When gup last checked for an update of itself.
    pub last_self_update: Option<String>,
    /// The managed projects by unique name.
    pub managed_projects: StrMap<ManagedProjectInfo>,
}

impl Default for GupGlobalConfig {
    fn default() -> (r: Self)
        ensures
            r.self_update_channel is None,
            r.background_self_update_interval_minutes is None,
            r.startup_self_update_interval_minutes is None,
            r.modify_path_on_install is None,
            r.last_self_update is None,
            r.managed_projects.spec_map() == Map::<Seq<char>, ManagedProjectInfo>::empty(),
            r.managed_projects.key_seq() == Seq::<Seq<char>>::empty(),
    {
        GupGlobalConfig {
            self_update_channel: None,
            background_self_update_interval_minutes: None,
            startup_self_update_interval_minutes: None,
            modify_path_on_install: None,
            last_self_update: None,
            managed_projects: StrMap::new(),
        }
    }
}

/// A version that is installed on disk.
#[derive(Debug, Clone)]
pub struct InstalledVersionConcreteInfo {
    /// The concrete version string.
    pub version_string: String,
    /// Directory name under the project's versions directory.
    pub path_segment: String,
    /// When the version was installed.
    pub installed_at: String,
}

/// A channel the user tracks, with the version it last resolved to.
#[derive(Debug, Clone)]
pub struct ActiveChannelInfo {
    /// The version the channel resolved to.
    pub resolved_version: String,
    /// When the resolution was last checked.
    pub last_checked: String,
}

/// A user-defined link to a custom executable.
#[derive(Debug, Clone)]
pub struct LinkedProjectInfo {
    /// Absolute path of the executable or script.
    pub command_path: String,
    /// Arguments passed before the ones given at the call.
    pub arguments: Option<Vec<String>>,
}

/// A version or channel chosen for one directory.
#[derive(Debug, Clone)]
pub struct DirectoryOverride {
    /// Absolute path of the directory.
    pub path: String,
    /// The version or channel used there.
    pub version_or_channel: String,
}

/// What gup knows about a project on this machine.
#[derive(Debug)]
pub struct ProjectLocalState {
    /// The default version or channel.
    pub default_version_or_channel_name: Option<String>,
    /// Installed versions by version string.
    pub installed_versions: StrMap<InstalledVersionConcreteInfo>,
    /// Tracked channels by name.
    pub active_channels: StrMap<ActiveChannelInfo>,
    /// Links by name.
    pub linked_paths: StrMap<LinkedProjectInfo>,
    /// Directory overrides.
    pub overrides: Vec<DirectoryOverride>,
}

impl Default for ProjectLocalState {
    fn default() -> (r: Self)
        ensures
            r.default_version_or_channel_name is None,
            r.installed_versions.spec_map() == Map::<Seq<char>, InstalledVersionConcreteInfo>::empty(),
            r.active_channels.spec_map() == Map::<Seq<char>, ActiveChannelInfo>::empty(),
            r.linked_paths.spec_map() == Map::<Seq<char>, LinkedProjectInfo>::empty(),
            r.overrides@ == Seq::<DirectoryOverride>::empty(),
    {
        ProjectLocalState {
            default_version_or_channel_name: None,
            installed_versions: StrMap::new(),
            active_channels: StrMap::new(),
            linked_paths: StrMap::new(),
            overrides: Vec::new(),
        }
    }
}

} // verus!
