//! The parts of gup's error messages that depend on the failure: the suggestion for an
//! HTTP status and the list of available versions. The caller styles and prints them.
use vstd::prelude::*;

use crate::text::{concat2, join_strings, joined, seq_views};

verus! {

/// gup's user-facing errors.
#[derive(Debug, Clone, Copy)]
pub struct GupError;

/// The suggestion for an HTTP status code.
pub open spec fn http_suggestion(status_code: u16) -> Seq<char> {
    if status_code == 404 {
        "The file may have been moved or deleted"@
    } else if status_code == 403 {
        "You may not have permission to access this resource"@
    } else if 500 <= status_code <= 599 {
        "The server is experiencing issues, try again later"@
    } else {
        "Check if the URL is correct and accessible"@
    }
}

/// The last line of a version-not-found error.
pub open spec fn available_versions_text(available: Seq<Seq<char>>) -> Seq<char> {
    if available.len() == 0 {
        "No versions are currently available"@
    } else {
        "Available versions: "@ + joined(available, ", "@)
    }
}

impl GupError {
    /// The suggestion shown for a failed HTTP request with `status_code`.
    pub fn http_error_suggestion(status_code: u16) -> (r: &'static str)
        ensures
            r@ == http_suggestion(status_code),
    {
        if status_code == 404 {
            "The file may have been moved or deleted"
        } else if status_code == 403 {
            "You may not have permission to access this resource"
        } else if 500 <= status_code && status_code <= 599 {
            "The server is experiencing issues, try again later"
        } else {
            "Check if the URL is correct and accessible"
        }
    }

    /// The line listing the available versions, shown when a version or channel is not
    /// found.
    pub fn available_versions_line(available_versions: &Vec<String>) -> (r: String)
        ensures
            r@ == available_versions_text(seq_views(available_versions@)),
    {
        if available_versions.len() == 0 {
            "No versions are currently available".to_owned()
        } else {
            let list = join_strings(available_versions, ", ");
            concat2("Available versions: ", list.as_str())
        }
    }
}

} // verus!
