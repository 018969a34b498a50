//! The decisions of gup's self-update check: which GitHub API URL a release channel
//! queries, where the release tag sits in the reply, and whether the tag found names a
//! newer release than the running one. The caller makes the request and reads the tag.
use vstd::prelude::*;
use vstd::string::StrSliceExecFns;

use crate::operations_metadata::{semver_less, semver_lt, semver_parse_text, semver_text};
use crate::text::{concat2, opt_view, str_eq};

verus! {

/// A release channel that gup does not know.
#[derive(Debug, Clone, PartialEq, Eq)]
pub struct UnknownChannel {
    pub channel: String,
}

/// The GitHub API URL that lists the releases of `org/repo` for `channel`: the latest
/// release for "release", the newest pre-release for "releasepreview", the newest release
/// of any kind for "dev"; none for another channel.
pub open spec fn release_api_url_text(channel: Seq<char>, org: Seq<char>, repo: Seq<char>) -> Option<Seq<char>> {
    let base = "https://api.github.com/repos/"@ + org + "/"@ + repo;
    if channel == "release"@ {
        Some(base + "/releases/latest"@)
    } else if channel == "releasepreview"@ {
        Some(base + "/releases?per_page=1&prerelease=true"@)
    } else if channel == "dev"@ {
        Some(base + "/releases?per_page=1"@)
    } else {
        None
    }
}

/// The GitHub API URL to query for `channel`, as [`release_api_url_text`] gives it, or the
/// channel back as unknown.
pub fn release_api_url(channel: &str, org: &str, repo: &str) -> (r: Result<String, UnknownChannel>)
    ensures
        match r {
            Ok(u) => release_api_url_text(channel@, org@, repo@) == Some(u@),
            Err(e) => release_api_url_text(channel@, org@, repo@) is None && e.channel@ == channel@,
        },
{
    let tail = if str_eq(channel, "release") {
        "/releases/latest"
    } else if str_eq(channel, "releasepreview") {
        "/releases?per_page=1&prerelease=true"
    } else if str_eq(channel, "dev") {
        "/releases?per_page=1"
    } else {
        return Err(UnknownChannel { channel: channel.to_owned() });
    };
    let a = concat2("https://api.github.com/repos/", org);
    let b = concat2(a.as_str(), "/");
    let c = concat2(b.as_str(), repo);
    let u = concat2(c.as_str(), tail);
    proof {
        assert(u@ =~= ("https://api.github.com/repos/"@ + org@ + "/"@ + repo@) + tail@);
    }
    Ok(u)
}

/// Whether the reply for `channel` is a list of releases whose first element holds the
/// tag ("releasepreview" and "dev"), rather than a single release.
pub fn release_reply_is_list(channel: &str) -> (r: bool)
    ensures
        r == (channel@ == "releasepreview"@ || channel@ == "dev"@),
{
    str_eq(channel, "releasepreview") || str_eq(channel, "dev")
}

/// The release tag that a GitHub API reply `reply` holds, read with `serde_json`: the
/// `tag_name` string of the first release where the reply is a list (`in_list`), of the
/// reply itself otherwise; `None` when the reply is not JSON or holds no such string.
pub uninterp spec fn json_release_tag(reply: Seq<char>, in_list: bool) -> Option<Seq<char>>;

/// Reads the release tag from a GitHub API reply with `serde_json::from_str`, as
/// `serde_json::Value`, then its first element where `in_list`, then the `tag_name`
/// string; the result is named by [`json_release_tag`].
#[verifier::external_body]
fn read_release_tag(reply: &str, in_list: bool) -> (r: Option<String>)
    ensures
        opt_view(r) == json_release_tag(reply@, in_list),
{
    let value: serde_json::Value = serde_json::from_str(reply).ok()?;
    let release = if in_list {
        value.as_array()?.first()?.clone()
    } else {
        value
    };
    release["tag_name"].as_str().map(String::from)
}

/// The release tag in the GitHub API reply `reply` for `channel`: from the first release
/// of the list for "releasepreview" and "dev", from the single release otherwise.
pub fn release_tag(reply: &str, channel: &str) -> (r: Option<String>)
    ensures
        opt_view(r) == json_release_tag(reply@, channel@ == "releasepreview"@ || channel@ == "dev"@),
{
    read_release_tag(reply, release_reply_is_list(channel))
}

/// `s` without one leading `v`.
pub open spec fn without_v(s: Seq<char>) -> Seq<char> {
    if s.len() > 0 && s[0] == 'v' {
        s.drop_first()
    } else {
        s
    }
}

/// `s` without one leading `v`.
fn strip_v(s: &str) -> (r: &str)
    ensures
        r@ == without_v(s@),
{
    let n = s.unicode_len();
    if n > 0 && s.get_char(0) == 'v' {
        let r = s.substring_char(1, n);
        proof {
            assert(r@ =~= s@.drop_first());
        }
        r
    } else {
        s
    }
}

/// The release that an update moves to, if any, from the running version `current` and
/// the latest release tag `latest`, each read without a leading `v`: where both are
/// semantic versions, the latest one (as text) when it is greater; otherwise the latest
/// text when the two texts differ.
pub open spec fn newer_release_text(current: Seq<char>, latest: Seq<char>) -> Option<Seq<char>> {
    let c = without_v(current);
    let l = without_v(latest);
    if semver_text(c) is Some && semver_text(l) is Some {
        if semver_lt(c, l) {
            semver_text(l)
        } else {
            None
        }
    } else if l != c {
        Some(l)
    } else {
        None
    }
}

/// The release to update to from `current` given the latest tag `latest_tag`, as
/// [`newer_release_text`] describes.
pub fn newer_release(current: &str, latest_tag: &str) -> (r: Option<String>)
    ensures
        opt_view(r) == newer_release_text(current@, latest_tag@),
{
    let c = strip_v(current);
    let l = strip_v(latest_tag);
    let pc = semver_parse_text(c);
    let pl = semver_parse_text(l);
    if pc.is_some() && pl.is_some() {
        if semver_less(c, l) {
            pl
        } else {
            None
        }
    } else if !str_eq(l, c) {
        Some(l.to_owned())
    } else {
        None
    }
}

/// Law: when the running version and the latest tag, each without one leading `v`, are
/// both semantic versions, an update is offered exactly when the latest is greater in the
/// order of semantic versions, pre-release or not, and what is offered is the latest
/// version as `semver` writes it.
pub proof fn law_update_offered_iff_latest_is_greater(current: Seq<char>, latest: Seq<char>, r: Option<Seq<char>>)
    requires
        r == newer_release_text(current, latest),
    ensures
        ({
            let c = if current.len() > 0 && current[0] == 'v' {
                current.drop_first()
            } else {
                current
            };
            let l = if latest.len() > 0 && latest[0] == 'v' {
                latest.drop_first()
            } else {
                latest
            };
            semver_text(c) is Some && semver_text(l) is Some ==> {
                &&& r is Some <==> semver_lt(c, l)
                &&& r is Some ==> r == semver_text(l)
            }
        }),
{
}

} // verus!
