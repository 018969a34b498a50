//! Resolution of channels to versions, merging of installation configurations, and
//! selection of the platform of the running system.
use vstd::prelude::*;

use crate::project_metadata_m::{ArtifactDetail, InstallConfig, ProjectMetadata};
use crate::text::{clone_opt_string, opt_view, seq_views, spec_starts_with, starts_with, str_eq};

verus! {

/// The text of the version that `semver::Version::parse` reads from `text` (as its
/// `Display` writes it), or `None` when the text is not a semantic version.
pub uninterp spec fn semver_text(text: Seq<char>) -> Option<Seq<char>>;

/// Whether the version parsed from `a` is less than the one parsed from `b` in the
/// order of `semver::Version`.
pub uninterp spec fn semver_lt(a: Seq<char>, b: Seq<char>) -> bool;

/// Parses `text` with `semver::Version::parse` and writes the version back as text;
/// the result is named by [`semver_text`]. A text that parses is written back as itself
/// (the parser refuses leading zeros in numbers and keeps identifiers verbatim, and
/// `Display` writes the same parts), and its version is not less than itself (`Version`
/// derives `Ord`).
#[verifier::external_body]
pub(crate) fn semver_parse_text(text: &str) -> (r: Option<String>)
    ensures
        opt_view(r) == semver_text(text@),
        r matches Some(u) ==> u@ == text@,
        r is Some ==> !semver_lt(text@, text@),
{
    semver::Version::parse(text).ok().map(|v| v.to_string())
}

/// Compares two semantic versions with the `<` of `semver::Version`; the result is named
/// by [`semver_lt`]. Where `a` is less than `b`, `a` is also less than every semantic
/// version that `b` is less than (the derived `Ord` of `Version` is transitive).
#[verifier::external_body]
pub(crate) fn semver_less(a: &str, b: &str) -> (r: bool)
    requires
        semver_text(a@) is Some,
        semver_text(b@) is Some,
    ensures
        r == semver_lt(a@, b@),
        forall|c: Seq<char>| r && semver_text(c) is Some && #[trigger] semver_lt(b@, c) ==> semver_lt(a@, c),
{
    match (semver::Version::parse(a), semver::Version::parse(b)) {
        (Ok(x), Ok(y)) => x < y,
        _ => false,
    }
}

/// Whether the semantic version `text` has a pre-release part: a `-` comes before any
/// `+` (the numbers hold no `-`, a pre-release part starts with one, and the build
/// metadata, which may hold `-`, starts with `+`).
pub open spec fn semver_has_pre(text: Seq<char>) -> bool {
    exists|i: int| 0 <= i < text.len() && text[i] == '-' && forall|j: int| 0 <= j < i ==> text[j] != '+'
}

/// Parses `text` with `semver::Version::parse` and tells whether its pre-release part is
/// non-empty, as [`semver_has_pre`] states for a text that parses.
#[verifier::external_body]
pub(crate) fn semver_is_prerelease(text: &str) -> (r: bool)
    requires
        semver_text(text@) is Some,
    ensures
        r == semver_has_pre(text@),
{
    match semver::Version::parse(text) {
        Ok(v) => !v.pre.is_empty(),
        Err(_) => false,
    }
}

/// The installation parameters of a version, after the version's overrides have been
/// laid over the project's defaults.
#[derive(Debug, Clone)]
pub struct MergedInstallConfig {
    /// "tar.gz", "zip" or "binary"; "tar.gz" when neither layer sets it.
    pub archive_format: String,
    /// Path components to strip; 0 when neither layer sets it.
    pub strip_components: usize,
    /// Subdirectory that holds the executables.
    pub bin_subdir: Option<String>,
    /// Command to run after installation.
    pub post_install_hook: Option<String>,
}

/// The value of the later layer when it sets one, else the earlier one.
pub open spec fn layered<T>(earlier: Option<T>, later: Option<T>) -> Option<T> {
    match later {
        Some(v) => Some(v),
        None => earlier,
    }
}

/// The field of an optional override.
pub open spec fn override_archive_format(o: Option<InstallConfig>) -> Option<Seq<char>> {
    match o {
        Some(c) => opt_view(c.archive_format),
        None => None,
    }
}

/// The field of an optional override.
pub open spec fn override_strip_components(o: Option<InstallConfig>) -> Option<usize> {
    match o {
        Some(c) => c.strip_components,
        None => None,
    }
}

/// The field of an optional override.
pub open spec fn override_bin_subdir(o: Option<InstallConfig>) -> Option<Seq<char>> {
    match o {
        Some(c) => opt_view(c.bin_subdir),
        None => None,
    }
}

/// The field of an optional override.
pub open spec fn override_post_install_hook(o: Option<InstallConfig>) -> Option<Seq<char>> {
    match o {
        Some(c) => opt_view(c.post_install_hook),
        None => None,
    }
}

impl MergedInstallConfig {
    /// `self` lays `version_override_config` over `default_config`: each field the
    /// override sets wins; unset archive format and strip count are "tar.gz" and 0.
    pub open spec fn is_merge_of(self, default_config: InstallConfig, version_override_config: Option<InstallConfig>) -> bool {
        &&& self.archive_format@ == match layered(
            opt_view(default_config.archive_format),
            override_archive_format(version_override_config),
        ) {
            Some(a) => a,
            None => "tar.gz"@,
        }
        &&& self.strip_components == match layered(
            default_config.strip_components,
            override_strip_components(version_override_config),
        ) {
            Some(n) => n,
            None => 0,
        }
        &&& opt_view(self.bin_subdir) == layered(
            opt_view(default_config.bin_subdir),
            override_bin_subdir(version_override_config),
        )
        &&& opt_view(self.post_install_hook) == layered(
            opt_view(default_config.post_install_hook),
            override_post_install_hook(version_override_config),
        )
    }

    /// Lays `version_override_config` over `default_config`: each field the override sets
    /// wins; unset archive format and strip count default to "tar.gz" and 0.
    pub fn new(default_config: &InstallConfig, version_override_config: &Option<InstallConfig>) -> (r: Self)
        ensures
            r.is_merge_of(*default_config, *version_override_config),
    {
        let mut final_config = MergedInstallConfig {
            archive_format: match &default_config.archive_format {
                Some(a) => a.clone(),
                None => "tar.gz".to_owned(),
            },
            strip_components: match default_config.strip_components {
                Some(n) => n,
                None => 0,
            },
            bin_subdir: clone_opt_string(&default_config.bin_subdir),
            post_install_hook: clone_opt_string(&default_config.post_install_hook),
        };
        if let Some(vc) = version_override_config {
            if let Some(val) = &vc.archive_format {
                final_config.archive_format = val.clone();
            }
            if let Some(val) = vc.strip_components {
                final_config.strip_components = val;
            }
            if vc.bin_subdir.is_some() {
                final_config.bin_subdir = clone_opt_string(&vc.bin_subdir);
            }
            if vc.post_install_hook.is_some() {
                final_config.post_install_hook = clone_opt_string(&vc.post_install_hook);
            }
        }
        final_config
    }
}

impl MergedInstallConfig {
    /// `self` lays the artifact's own settings over the merge of `version_override_config`
    /// over `default_config`: the artifact's archive format, strip count and bin
    /// subdirectory win where it sets them, then the version override's, then the
    /// project default's; unset archive format and strip count are "tar.gz" and 0.
    pub open spec fn is_artifact_merge_of(
        self,
        default_config: InstallConfig,
        version_override_config: Option<InstallConfig>,
        artifact: ArtifactDetail,
    ) -> bool {
        &&& self.archive_format@ == match layered(
            layered(opt_view(default_config.archive_format), override_archive_format(version_override_config)),
            opt_view(artifact.archive_format),
        ) {
            Some(a) => a,
            None => "tar.gz"@,
        }
        &&& self.strip_components == match layered(
            layered(default_config.strip_components, override_strip_components(version_override_config)),
            artifact.strip_components,
        ) {
            Some(n) => n,
            None => 0,
        }
        &&& opt_view(self.bin_subdir) == layered(
            layered(opt_view(default_config.bin_subdir), override_bin_subdir(version_override_config)),
            opt_view(artifact.bin_subdir),
        )
        &&& opt_view(self.post_install_hook) == layered(
            opt_view(default_config.post_install_hook),
            override_post_install_hook(version_override_config),
        )
    }

    /// Lays the artifact's own archive format, strip count and bin subdirectory over
    /// `self`, each where the artifact sets it.
    pub fn apply_artifact(&mut self, artifact: &ArtifactDetail)
        ensures
            final(self).archive_format@ == match opt_view(artifact.archive_format) {
                Some(a) => a,
                None => old(self).archive_format@,
            },
            final(self).strip_components == match artifact.strip_components {
                Some(n) => n,
                None => old(self).strip_components,
            },
            opt_view(final(self).bin_subdir) == layered(opt_view(old(self).bin_subdir), opt_view(artifact.bin_subdir)),
            opt_view(final(self).post_install_hook) == opt_view(old(self).post_install_hook),
    {
        if let Some(val) = &artifact.archive_format {
            self.archive_format = val.clone();
        }
        if let Some(val) = artifact.strip_components {
            self.strip_components = val;
        }
        if artifact.bin_subdir.is_some() {
            self.bin_subdir = clone_opt_string(&artifact.bin_subdir);
        }
    }
}

/// A version string takes part in a "latest_semver" channel with `prefix` when it starts
/// with the prefix (if any) and is a semantic version.
pub open spec fn semver_eligible(version: Seq<char>, prefix: Option<Seq<char>>) -> bool {
    &&& match prefix {
        Some(p) => spec_starts_with(version, p),
        None => true,
    }
    &&& semver_text(version) is Some
}

/// The greatest eligible version string among `keys`, by the order of `semver_lt`; among
/// equal ones the first is kept.
pub open spec fn latest_semver(keys: Seq<Seq<char>>, prefix: Option<Seq<char>>) -> Option<Seq<char>>
    decreases keys.len(),
{
    if keys.len() == 0 {
        None
    } else {
        let rest = latest_semver(keys.drop_last(), prefix);
        let k = keys.last();
        if !semver_eligible(k, prefix) {
            rest
        } else {
            match rest {
                None => Some(k),
                Some(m) => if semver_lt(m, k) {
                    Some(k)
                } else {
                    Some(m)
                },
            }
        }
    }
}

/// Among the eligible versions, `semver_lt` does not hold of a version and itself, and
/// chains.
pub open spec fn semver_lt_orders(keys: Seq<Seq<char>>, prefix: Option<Seq<char>>) -> bool {
    &&& forall|i: int| 0 <= i < keys.len() ==> !semver_lt(#[trigger] keys[i], keys[i])
    &&& forall|i: int, j: int, k: int|
        0 <= i < keys.len() && 0 <= j < keys.len() && 0 <= k < keys.len() && semver_eligible(keys[i], prefix)
            && semver_eligible(keys[j], prefix) && semver_eligible(keys[k], prefix) && #[trigger] semver_lt(keys[i], keys[j])
            && #[trigger] semver_lt(keys[j], keys[k]) ==> semver_lt(keys[i], keys[k])
}

/// Law: for any order that `semver_lt` might be on `keys`, the fold that defines a
/// "latest_semver" channel picks an eligible version of `keys` and no eligible version is
/// greater. (For the calls gup makes, [`resolve_channel_to_version`] states the same
/// without the hypothesis, from what `semver` shows of its order.)
pub proof fn law_latest_semver_is_greatest(keys: Seq<Seq<char>>, prefix: Option<Seq<char>>)
    requires
        semver_lt_orders(keys, prefix),
    ensures
        latest_semver(keys, prefix) matches Some(m) ==> {
            &&& semver_eligible(m, prefix)
            &&& keys.contains(m)
            &&& forall|i: int| 0 <= i < keys.len() && semver_eligible(keys[i], prefix) ==> !semver_lt(m, #[trigger] keys[i])
        },
        latest_semver(keys, prefix) is None ==> forall|i: int| 0 <= i < keys.len() ==> !semver_eligible(#[trigger] keys[i], prefix),
    decreases keys.len(),
{
    if keys.len() > 0 {
        let front = keys.drop_last();
        assert(semver_lt_orders(front, prefix)) by {
            assert forall|i: int| 0 <= i < front.len() implies !semver_lt(#[trigger] front[i], front[i]) by {
                assert(front[i] == keys[i]);
            }
            assert forall|i: int, j: int, k: int|
                0 <= i < front.len() && 0 <= j < front.len() && 0 <= k < front.len() && semver_eligible(front[i], prefix)
                    && semver_eligible(front[j], prefix) && semver_eligible(front[k], prefix) && #[trigger] semver_lt(
                    front[i],
                    front[j],
                ) && #[trigger] semver_lt(front[j], front[k]) implies semver_lt(front[i], front[k]) by {
                assert(front[i] == keys[i] && front[j] == keys[j] && front[k] == keys[k]);
            }
        }
        law_latest_semver_is_greatest(front, prefix);
        let last = keys.len() - 1;
        assert(keys[last] == keys.last());
        match latest_semver(front, prefix) {
            Some(m) => {
                let mi = choose|mi: int| 0 <= mi < front.len() && front[mi] == m;
                assert(keys[mi] == m);
                if semver_eligible(keys.last(), prefix) && semver_lt(m, keys.last()) {
                    assert forall|i: int| 0 <= i < keys.len() && semver_eligible(keys[i], prefix) implies !semver_lt(
                        keys.last(),
                        #[trigger] keys[i],
                    ) by {
                        if i < last {
                            assert(front[i] == keys[i]);
                            if semver_lt(keys[last], keys[i]) {
                                assert(semver_lt(keys[mi], keys[last]));
                                assert(semver_lt(keys[mi], keys[i]));
                            }
                        }
                    }
                } else {
                    assert forall|i: int| 0 <= i < keys.len() && semver_eligible(keys[i], prefix) implies !semver_lt(
                        m,
                        #[trigger] keys[i],
                    ) by {
                        if i < last {
                            assert(front[i] == keys[i]);
                        }
                    }
                }
            },
            None => {
                assert forall|i: int| 0 <= i < keys.len() && semver_eligible(keys[i], prefix) implies !semver_lt(
                    keys.last(),
                    #[trigger] keys[i],
                ) by {
                    if i < last {
                        assert(front[i] == keys[i]);
                    }
                }
                assert forall|i: int| 0 <= i < keys.len() implies !semver_eligible(#[trigger] keys[i], prefix) || latest_semver(keys, prefix) is Some by {
                    if i < last {
                        assert(front[i] == keys[i]);
                    }
                }
            },
        }
    }
}

/// Law: a name that is not a channel but an available version resolves to itself.
pub proof fn law_direct_version_resolves_to_itself(metadata: &ProjectMetadata, name: Seq<char>)
    requires
        !metadata.channels.spec_map().contains_key(name),
        metadata.available_versions.spec_map().contains_key(name),
    ensures
        spec_resolve(name, metadata) == Ok::<Seq<char>, ResolveErrorView>(name),
{
}

/// Law: an "exact_match" channel resolves to its version exactly when that version is
/// available.
pub proof fn law_exact_match_resolves_to_its_version(metadata: &ProjectMetadata, channel: Seq<char>, version: Seq<char>)
    requires
        metadata.channels.spec_map().contains_key(channel),
        metadata.channels.spec_map()[channel].resolution_strategy@ == "exact_match"@,
        metadata.channels.spec_map()[channel].version_prefix matches Some(v) && v@ == version,
    ensures
        (spec_resolve(channel, metadata) == Ok::<Seq<char>, ResolveErrorView>(version))
            == metadata.available_versions.spec_map().contains_key(version),
{
    reveal_strlit("exact_match");
    reveal_strlit("latest_semver");
    assert("exact_match"@.len() != "latest_semver"@.len());
}

/// Why a channel or version could not be resolved.
#[derive(Debug, Clone, PartialEq, Eq)]
pub enum ResolveError {
    /// Neither a resolvable channel nor an available version.
    VersionNotFound { project_name: String, version_or_channel: String, available_versions: Vec<String> },
    /// An "exact_match" channel without a version.
    ExactMatchWithoutVersion { channel: String },
    /// An "exact_match" channel whose version is not available.
    ExactMatchUnavailable { channel: String, version: String, project_name: String },
    /// A channel with a strategy that gup does not know.
    UnknownStrategy { strategy: String, channel: String, project_name: String },
}

/// The abstract content of [`ResolveError`].
pub enum ResolveErrorView {
    VersionNotFound { project_name: Seq<char>, version_or_channel: Seq<char>, available_versions: Seq<Seq<char>> },
    ExactMatchWithoutVersion { channel: Seq<char> },
    ExactMatchUnavailable { channel: Seq<char>, version: Seq<char>, project_name: Seq<char> },
    UnknownStrategy { strategy: Seq<char>, channel: Seq<char>, project_name: Seq<char> },
}

impl View for ResolveError {
    type V = ResolveErrorView;

    open spec fn view(&self) -> ResolveErrorView {
        match self {
            ResolveError::VersionNotFound { project_name, version_or_channel, available_versions } =>
                ResolveErrorView::VersionNotFound {
                project_name: project_name@,
                version_or_channel: version_or_channel@,
                available_versions: seq_views(available_versions@),
            },
            ResolveError::ExactMatchWithoutVersion { channel } => ResolveErrorView::ExactMatchWithoutVersion {
                channel: channel@,
            },
            ResolveError::ExactMatchUnavailable { channel, version, project_name } =>
                ResolveErrorView::ExactMatchUnavailable {
                channel: channel@,
                version: version@,
                project_name: project_name@,
            },
            ResolveError::UnknownStrategy { strategy, channel, project_name } =>
                ResolveErrorView::UnknownStrategy {
                strategy: strategy@,
                channel: channel@,
                project_name: project_name@,
            },
        }
    }
}

/// The view of a resolution result.
pub open spec fn resolve_result_view(r: Result<String, ResolveError>) -> Result<Seq<char>, ResolveErrorView> {
    match r {
        Ok(v) => Ok(v@),
        Err(e) => Err(e@),
    }
}

/// The error for a name that is neither a channel nor a version.
pub open spec fn version_not_found(metadata: &ProjectMetadata, name: Seq<char>) -> ResolveErrorView {
    ResolveErrorView::VersionNotFound {
        project_name: metadata.project_name@,
        version_or_channel: name,
        available_versions: metadata.available_versions.key_seq(),
    }
}

/// What `name` resolves to: a channel of the metadata is resolved by its strategy
/// ("latest_semver": the greatest semantic version among the versions with the channel's
/// prefix, written as `semver` writes it; "exact_match": the channel's version, which
/// must be available); otherwise an available version resolves to itself.
pub open spec fn spec_resolve(name: Seq<char>, metadata: &ProjectMetadata) -> Result<Seq<char>, ResolveErrorView> {
    if metadata.channels.spec_map().contains_key(name) {
        let detail = metadata.channels.spec_map()[name];
        let strategy = detail.resolution_strategy@;
        if strategy == "latest_semver"@ {
            match latest_semver(metadata.available_versions.key_seq(), opt_view(detail.version_prefix)) {
                Some(best) => Ok(semver_text(best)->Some_0),
                None => Err(version_not_found(metadata, name)),
            }
        } else if strategy == "exact_match"@ {
            match detail.version_prefix {
                None => Err(ResolveErrorView::ExactMatchWithoutVersion { channel: name }),
                Some(v) => if metadata.available_versions.spec_map().contains_key(v@) {
                    Ok(v@)
                } else {
                    Err(
                        ResolveErrorView::ExactMatchUnavailable {
                            channel: name,
                            version: v@,
                            project_name: metadata.project_name@,
                        },
                    )
                },
            }
        } else {
            Err(
                ResolveErrorView::UnknownStrategy {
                    strategy,
                    channel: name,
                    project_name: metadata.project_name@,
                },
            )
        }
    } else if metadata.available_versions.spec_map().contains_key(name) {
        Ok(name)
    } else {
        Err(version_not_found(metadata, name))
    }
}

/// `m` is an eligible version among `keys` and no eligible version of `keys` is greater.
pub open spec fn greatest_eligible(keys: Seq<Seq<char>>, prefix: Option<Seq<char>>, m: Seq<char>) -> bool {
    &&& semver_eligible(m, prefix)
    &&& exists|j: int| 0 <= j < keys.len() && keys[j] == m
    &&& forall|j: int| 0 <= j < keys.len() && semver_eligible(keys[j], prefix) ==> !semver_lt(m, #[trigger] keys[j])
}

/// The greatest eligible version string among the available versions of `metadata`.
fn find_latest_semver(metadata: &ProjectMetadata, prefix: &Option<String>) -> (r: Option<String>)
    ensures
        opt_view(r) == latest_semver(metadata.available_versions.key_seq(), opt_view(*prefix)),
        r matches Some(b) ==> semver_text(b@) is Some,
        r matches Some(b) ==> greatest_eligible(metadata.available_versions.key_seq(), opt_view(*prefix), b@),
        r is None ==> forall|j: int|
            0 <= j < metadata.available_versions.key_seq().len() ==> !semver_eligible(
                #[trigger] metadata.available_versions.key_seq()[j],
                opt_view(*prefix),
            ),
{
    let keys = metadata.available_versions.keys();
    let ghost ks = metadata.available_versions.key_seq();
    let n = keys.len();
    let mut best: Option<String> = None;
    let mut i: usize = 0;
    while i < n
        invariant
            n == keys@.len(),
            n == ks.len(),
            forall|j: int| 0 <= j < n ==> #[trigger] keys@[j]@ == ks[j],
            i <= n,
            opt_view(best) == latest_semver(ks.subrange(0, i as int), opt_view(*prefix)),
            best matches Some(b) ==> semver_text(b@) is Some,
            best matches Some(b) ==> greatest_eligible(ks.subrange(0, i as int), opt_view(*prefix), b@),
            best is None ==> forall|j: int| 0 <= j < i ==> !semver_eligible(#[trigger] ks[j], opt_view(*prefix)),
        decreases n - i,
    {
        let k = &keys[i];
        proof {
            assert(ks.subrange(0, i + 1).drop_last() =~= ks.subrange(0, i as int));
            assert(ks.subrange(0, i + 1).last() == k@);
        }
        let prefix_ok = match prefix {
            Some(p) => starts_with(k.as_str(), p.as_str()),
            None => true,
        };
        let ghost before = opt_view(best);
        let ghost pfx = opt_view(*prefix);
        let ghost front = ks.subrange(0, i as int);
        let ghost next = ks.subrange(0, i + 1);
        proof {
            assert forall|j: int| 0 <= j < i implies #[trigger] next[j] == front[j] && front[j] == ks[j] by {}
            assert(next[i as int] == ks[i as int]);
        }
        if prefix_ok {
            let parsed = semver_parse_text(k.as_str());
            if parsed.is_some() {
                match &best {
                    None => {
                        best = Some(k.clone());
                        proof {
                            assert(next[i as int] == k@);
                            assert forall|j: int| 0 <= j < next.len() && semver_eligible(next[j], pfx) implies !semver_lt(
                                k@,
                                #[trigger] next[j],
                            ) by {
                                if j < i {
                                    assert(semver_eligible(ks[j], pfx));
                                }
                            }
                        }
                    },
                    Some(b) => {
                        let less = semver_less(b.as_str(), k.as_str());
                        if less {
                            best = Some(k.clone());
                            proof {
                                assert(next[i as int] == k@);
                                assert forall|j: int| 0 <= j < next.len() && semver_eligible(next[j], pfx) implies !semver_lt(
                                    k@,
                                    #[trigger] next[j],
                                ) by {
                                    if j < i {
                                        assert(front[j] == next[j]);
                                        if semver_lt(k@, next[j]) {
                                            assert(semver_text(next[j]) is Some);
                                            assert(semver_lt(b@, next[j]));
                                        }
                                    }
                                }
                            }
                        } else {
                            proof {
                                let bb = b@;
                                assert(exists|j: int| 0 <= j < front.len() && front[j] == bb);
                                let j0 = choose|j: int| 0 <= j < front.len() && front[j] == bb;
                                assert(next[j0] == bb);
                                assert forall|j: int| 0 <= j < next.len() && semver_eligible(next[j], pfx) implies !semver_lt(
                                    bb,
                                    #[trigger] next[j],
                                ) by {
                                    if j < i {
                                        assert(front[j] == next[j]);
                                    }
                                }
                            }
                        }
                    },
                }
            }
        }
        proof {
            if opt_view(best) == before {
                if best is Some {
                    let bb = best->Some_0@;
                    let j0 = choose|j: int| 0 <= j < front.len() && front[j] == bb;
                    assert(next[j0] == bb);
                    assert forall|j: int| 0 <= j < next.len() && semver_eligible(next[j], pfx) implies !semver_lt(
                        bb,
                        #[trigger] next[j],
                    ) by {
                        if j < i {
                            assert(front[j] == next[j]);
                        }
                    }
                }
            }
        }
        i = i + 1;
    }
    proof {
        assert(ks.subrange(0, n as int) =~= ks);
    }
    best
}

/// The available versions of `metadata`, in the order of its map.
fn available_version_names(metadata: &ProjectMetadata) -> (r: Vec<String>)
    ensures
        seq_views(r@) == metadata.available_versions.key_seq(),
{
    let keys = metadata.available_versions.keys();
    proof {
        assert(seq_views(keys@) =~= metadata.available_versions.key_seq());
    }
    keys
}

/// Resolves a channel name or version string to a concrete version of the project.
pub fn resolve_channel_to_version(channel_name: &str, metadata: &ProjectMetadata) -> (r: Result<String, ResolveError>)
    ensures
        resolve_result_view(r) == spec_resolve(channel_name@, metadata),
        metadata.channels.spec_map().contains_key(channel_name@)
            && metadata.channels.spec_map()[channel_name@].resolution_strategy@ == "latest_semver"@ ==> {
            let pfx = opt_view(metadata.channels.spec_map()[channel_name@].version_prefix);
            let keys = metadata.available_versions.key_seq();
            &&& r matches Ok(v) ==> metadata.available_versions.spec_map().contains_key(v@) && greatest_eligible(
                keys,
                pfx,
                v@,
            )
            &&& r is Err ==> forall|j: int| 0 <= j < keys.len() ==> !semver_eligible(#[trigger] keys[j], pfx)
        },
{
    proof {
        use_type_invariant(&metadata.available_versions);
        metadata.available_versions.lemma_walk();
    }
    match metadata.channels.get(channel_name) {
        Some(channel_detail) => {
            let strategy = channel_detail.resolution_strategy.as_str();
            if str_eq(strategy, "latest_semver") {
                match find_latest_semver(metadata, &channel_detail.version_prefix) {
                    Some(best) => {
                        let text = semver_parse_text(best.as_str());
                        proof {
                            let keys = metadata.available_versions.key_seq();
                            if text is Some {
                                let j0 = choose|j: int| 0 <= j < keys.len() && keys[j] == best@;
                                assert(keys.to_set().contains(best@));
                            }
                        }
                        match text {
                            Some(t) => Ok(t),
                            None => Err(ResolveError::VersionNotFound {
                                project_name: metadata.project_name.clone(),
                                version_or_channel: channel_name.to_owned(),
                                available_versions: available_version_names(metadata),
                            }),
                        }
                    },
                    None => Err(ResolveError::VersionNotFound {
                        project_name: metadata.project_name.clone(),
                        version_or_channel: channel_name.to_owned(),
                        available_versions: available_version_names(metadata),
                    }),
                }
            } else if str_eq(strategy, "exact_match") {
                match &channel_detail.version_prefix {
                    None => Err(ResolveError::ExactMatchWithoutVersion { channel: channel_name.to_owned() }),
                    Some(v) => {
                        if metadata.available_versions.contains_key(v.as_str()) {
                            Ok(v.clone())
                        } else {
                            Err(ResolveError::ExactMatchUnavailable {
                                channel: channel_name.to_owned(),
                                version: v.clone(),
                                project_name: metadata.project_name.clone(),
                            })
                        }
                    },
                }
            } else {
                Err(ResolveError::UnknownStrategy {
                    strategy: strategy.to_owned(),
                    channel: channel_name.to_owned(),
                    project_name: metadata.project_name.clone(),
                })
            }
        },
        None => {
            if metadata.available_versions.contains_key(channel_name) {
                Ok(channel_name.to_owned())
            } else {
                Err(ResolveError::VersionNotFound {
                    project_name: metadata.project_name.clone(),
                    version_or_channel: channel_name.to_owned(),
                    available_versions: available_version_names(metadata),
                })
            }
        },
    }
}


/// The metadata lists no platform for the running system.
#[derive(Debug, Clone, PartialEq, Eq)]
pub struct NoMatchingPlatform {
    /// The target triple of the running system.
    pub triple: String,
    /// The platform ids the metadata lists.
    pub available_platforms: Vec<String>,
}

/// The platform id of the running system, whose target triple is `current_triple`: the
/// triple itself when the metadata lists it as a platform.
pub fn get_current_platform_id(metadata: &ProjectMetadata, current_triple: &str) -> (r: Result<String, NoMatchingPlatform>)
    ensures
        metadata.platforms.spec_map().contains_key(current_triple@) ==> r is Ok && r->Ok_0@ == current_triple@,
        !metadata.platforms.spec_map().contains_key(current_triple@) ==> r is Err && r->Err_0.triple@ == current_triple@
            && seq_views(r->Err_0.available_platforms@) == metadata.platforms.key_seq(),
{
    if metadata.platforms.contains_key(current_triple) {
        Ok(current_triple.to_owned())
    } else {
        let keys = metadata.platforms.keys();
        proof {
            assert(seq_views(keys@) =~= metadata.platforms.key_seq());
        }
        Err(NoMatchingPlatform { triple: current_triple.to_owned(), available_platforms: keys })
    }
}

} // verus!
