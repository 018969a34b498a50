//! Central constants for gup.
use vstd::prelude::*;
use vstd::string::StringSliceAdditionalSpecFns;

verus! {

/// Application name.
pub const APP_NAME: &'static str = "gup";

/// The version of gup: the package version.
pub const GUP_VERSION: &'static str = "0.1.0";

/// Application display name.
pub const APP_DISPLAY_NAME: &'static str = "Generic Updater Program";

/// Marker that identifies the self-update cron job.
pub const SELFUPDATE_CRON_MARKER: &'static str = "4c79c12db1d34bbbab1f6c6f838f423f";

/// Opening marker of the gup section in shell start-up scripts.
pub const SHELL_SCRIPT_START_MARKER: &'static str = "# >>> gup initialize >>>";

/// Closing marker of the gup section in shell start-up scripts.
pub const SHELL_SCRIPT_END_MARKER: &'static str = "# <<< gup initialize <<<";

/// Header written right after the opening marker.
pub const SHELL_SCRIPT_HEADER: &'static str = "\n\n# !! Contents within this block are managed by gup !!\n\n";

/// GitHub organization used for self-updates.
pub const GITHUB_ORG: &'static str = "anthropics";

/// GitHub repository used for self-updates.
pub const GITHUB_REPO: &'static str = "gup";

/// Download base URL for self-updates.
pub const SELFUPDATE_BASE_URL: &'static str = "https://github.com/anthropics/gup/releases/download";

/// Number of attempts made for a download.
pub const RETRY_MAX_ATTEMPTS: u32 = 3;

/// Delay before the first retry, in milliseconds.
pub const RETRY_INITIAL_DELAY_MS: u64 = 1000;

/// Upper bound of the retry delay, in milliseconds.
pub const RETRY_MAX_DELAY_MS: u64 = 30000;

/// Default update channel of gup itself.
pub const DEFAULT_UPDATE_CHANNEL: &'static str = "release";

/// Self-update interval (in minutes) for background updates.
pub const DEFAULT_SELFUPDATE_INTERVAL: i64 = 1440;

/// The bytes of the opening marker.
pub open spec fn start_marker() -> Seq<u8> {
    SHELL_SCRIPT_START_MARKER.spec_bytes()
}

/// The bytes of the closing marker.
pub open spec fn end_marker() -> Seq<u8> {
    SHELL_SCRIPT_END_MARKER.spec_bytes()
}

/// The bytes of the section header.
pub open spec fn header_bytes() -> Seq<u8> {
    SHELL_SCRIPT_HEADER.spec_bytes()
}

} // verus!
