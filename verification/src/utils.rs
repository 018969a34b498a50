//! Identification of the platform gup runs on.
use vstd::prelude::*;

use crate::text::{concat2, str_eq};

verus! {

/// Why the platform could not be identified.
#[derive(Debug, Clone, PartialEq, Eq)]
pub enum PlatformError {
    /// The architecture is not one gup knows.
    UnsupportedArch { arch: String },
    /// The operating system is not one gup knows.
    UnsupportedOs { os: String },
}

/// The architecture part of a target triple for the architecture name `arch` (as
/// `std::env::consts::ARCH` gives it).
pub open spec fn spec_triple_arch(arch: Seq<char>) -> Option<Seq<char>> {
    if arch == "x86"@ {
        Some("i686"@)
    } else if arch == "x86_64"@ {
        Some("x86_64"@)
    } else if arch == "arm"@ {
        Some("arm"@)
    } else if arch == "aarch64"@ {
        Some("aarch64"@)
    } else {
        None
    }
}

/// The vendor, system and environment part of a target triple for the system name `os`;
/// `musl` and `gnu` tell which C environment the build targets.
pub open spec fn spec_triple_os(os: Seq<char>, musl: bool, gnu: bool) -> Option<Seq<char>> {
    if os == "linux"@ {
        if musl {
            Some("unknown-linux-musl"@)
        } else {
            Some("unknown-linux-gnu"@)
        }
    } else if os == "macos"@ {
        Some("apple-darwin"@)
    } else if os == "windows"@ {
        if gnu {
            Some("pc-windows-gnu"@)
        } else {
            Some("pc-windows-msvc"@)
        }
    } else if os == "freebsd"@ {
        Some("unknown-freebsd"@)
    } else {
        None
    }
}

/// The target triple, such as "x86_64-unknown-linux-gnu", for the given architecture,
/// system and C environment.
pub fn get_target_triple_id(arch: &str, os: &str, musl: bool, gnu: bool) -> (r: Result<String, PlatformError>)
    ensures
        match spec_triple_arch(arch@) {
            None => r is Err && r->Err_0 is UnsupportedArch && r->Err_0->UnsupportedArch_arch@ == arch@,
            Some(a) => match spec_triple_os(os@, musl, gnu) {
                None => r is Err && r->Err_0 is UnsupportedOs && r->Err_0->UnsupportedOs_os@ == os@,
                Some(o) => r is Ok && r->Ok_0@ == a + "-"@ + o,
            },
        },
{
    let a = if str_eq(arch, "x86") {
        "i686"
    } else if str_eq(arch, "x86_64") {
        "x86_64"
    } else if str_eq(arch, "arm") {
        "arm"
    } else if str_eq(arch, "aarch64") {
        "aarch64"
    } else {
        return Err(PlatformError::UnsupportedArch { arch: arch.to_owned() });
    };
    let o = if str_eq(os, "linux") {
        if musl {
            "unknown-linux-musl"
        } else {
            "unknown-linux-gnu"
        }
    } else if str_eq(os, "macos") {
        "apple-darwin"
    } else if str_eq(os, "windows") {
        if gnu {
            "pc-windows-gnu"
        } else {
            "pc-windows-msvc"
        }
    } else if str_eq(os, "freebsd") {
        "unknown-freebsd"
    } else {
        return Err(PlatformError::UnsupportedOs { os: os.to_owned() });
    };
    let with_dash = concat2(a, "-");
    Ok(concat2(with_dash.as_str(), o))
}

/// The architecture name gup reports for `arch`: "x86", "x86_64" or "aarch64".
pub fn get_arch(arch: &str) -> (r: Result<String, PlatformError>)
    ensures
        (arch@ == "x86"@ || arch@ == "x86_64"@ || arch@ == "aarch64"@) ==> r is Ok && r->Ok_0@ == arch@,
        !(arch@ == "x86"@ || arch@ == "x86_64"@ || arch@ == "aarch64"@) ==> r is Err && r->Err_0 is UnsupportedArch
            && r->Err_0->UnsupportedArch_arch@ == arch@,
{
    if str_eq(arch, "x86") || str_eq(arch, "x86_64") || str_eq(arch, "aarch64") {
        Ok(arch.to_owned())
    } else {
        Err(PlatformError::UnsupportedArch { arch: arch.to_owned() })
    }
}

} // verus!
