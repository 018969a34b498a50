//! The registration record that introduces a project to gup, and the checks made on a
//! registration source before its metadata is fetched.
use vstd::prelude::*;

use crate::project_metadata_m::ProjectMetadata;
use crate::text::opt_view;

verus! {

/// The URL that `url::Url::parse` reads from `s`, as its serialization; `None` when `s`
/// is not a URL.
pub uninterp spec fn url_parsed(s: Seq<char>) -> Option<Seq<char>>;

/// Parses `s` with `url::Url::parse` and writes the URL back as text; the result is named
/// by [`url_parsed`].
#[verifier::external_body]
fn parse_url(s: &str) -> (r: Option<String>)
    ensures
        opt_view(r) == url_parsed(s@),
{
    url::Url::parse(s).ok().map(|u| u.to_string())
}

/// Why a registration source was refused.
#[derive(Debug, Clone, Copy, PartialEq, Eq)]
pub enum RegistrationError {
    /// The source is not a URL.
    InvalidUrl,
}

/// The URL of the metadata named by a registration source (or by a managed project's
/// stored source), as `url::Url` serializes it; an error when the source is not a URL.
pub fn registration_url(source: &str) -> (r: Result<String, RegistrationError>)
    ensures
        match url_parsed(source@) {
            Some(u) => r is Ok && r->Ok_0@ == u,
            None => r is Err,
        },
{
    match parse_url(source) {
        Some(u) => Ok(u),
        None => Err(RegistrationError::InvalidUrl),
    }
}

/// The display name under which a newly added project is registered: the metadata's
/// display name, or its project name when it has none.
pub fn registered_display_name(metadata: &ProjectMetadata) -> (r: String)
    ensures
        r@ == match metadata.display_name {
            Some(d) => d@,
            None => metadata.project_name@,
        },
{
    match &metadata.display_name {
        Some(d) => d.clone(),
        None => metadata.project_name.clone(),
    }
}

/// Names and home page of a project.
#[derive(Debug, Clone)]
pub struct ProjectDefinition {
    pub unique_name: String,
    pub display_name: String,
    pub homepage_url: Option<String>,
}

/// Where the project's metadata is published.
#[derive(Debug, Clone)]
pub struct SourceOfTruth {
    /// Kind of source, `remote_json` for now.
    pub source_type: String,
    pub url: String,
}

/// A project registration.
#[derive(Debug, Clone)]
pub struct ProjectRegistration {
    pub project_definition: ProjectDefinition,
    pub source_of_truth: SourceOfTruth,
}

} // verus!
