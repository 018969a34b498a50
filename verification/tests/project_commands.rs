use gup::command_add::{add_target, record_added, record_added_at, record_channel, record_channel_at, AddError};
use gup::command_api::run_command_api;
use gup::command_default::{set_default, set_default_at, DefaultError};
use gup::command_link::{check_link_name, record_link, LinkError};
use gup::command_override::{
    override_status_rows, override_target, prune_overrides, set_override, unset_override, OverrideError,
};
use gup::command_remove::{remove_from_state, RemoveRefused, Removed};
use gup::command_update::{channels_to_update, needs_update, update_target, UpdateError};
use gup::global_paths::GupGlobalPaths;
use gup::operations_gc::{collect_unused_versions, prune_dangling_links};
use gup::operations_install::{insert_installed_version, record_installed_version};
use gup::operations_metadata::ResolveError;
use gup::project_metadata_m::{
    ChannelDetail, ExecutableDetail, InstallConfig, ProjectMetadata, VersionDetail,
};
use gup::state_config::{
    ActiveChannelInfo, DirectoryOverride, InstalledVersionConcreteInfo, LinkedProjectInfo, ProjectLocalState,
};
use gup::strmap::StrMap;

fn version() -> VersionDetail {
    VersionDetail { release_date: None, artifacts: StrMap::new(), install_config_override: None }
}

fn metadata() -> ProjectMetadata {
    let mut channels = StrMap::new();
    channels.insert(
        "stable".to_string(),
        ChannelDetail { version_prefix: None, resolution_strategy: "latest_semver".to_string() },
    );
    channels.insert(
        "lts".to_string(),
        ChannelDetail {
            version_prefix: Some("1.0.0".to_string()),
            resolution_strategy: "exact_match".to_string(),
        },
    );
    channels.insert(
        "broken".to_string(),
        ChannelDetail { version_prefix: None, resolution_strategy: "exact_match".to_string() },
    );
    let mut versions = StrMap::new();
    versions.insert("1.0.0".to_string(), version());
    versions.insert("1.1.0".to_string(), version());
    versions.insert("2.0.0".to_string(), version());
    ProjectMetadata {
        project_name: "tool".to_string(),
        display_name: None,
        description: None,
        homepage_url: None,
        metadata_format_version: "1".to_string(),
        base_download_url: "https://example.com/dl/".to_string(),
        platforms: StrMap::new(),
        default_install_config: InstallConfig::default(),
        executables: vec![ExecutableDetail {
            name: "tool".to_string(),
            path_in_bin_subdir: "tool".to_string(),
        }],
        default_executable_name: Some("tool".to_string()),
        available_versions: versions,
        channels,
    }
}

fn installed(state: &mut ProjectLocalState, v: &str) {
    state.installed_versions.insert(
        v.to_string(),
        InstalledVersionConcreteInfo {
            version_string: v.to_string(),
            path_segment: format!("{}-x86_64-unknown-linux-gnu", v),
            installed_at: "2024-03-01T10:00:00+00:00".to_string(),
        },
    );
}

fn track_channel(state: &mut ProjectLocalState, channel: &str, v: &str) {
    state.active_channels.insert(
        channel.to_string(),
        ActiveChannelInfo {
            resolved_version: v.to_string(),
            last_checked: "2024-03-01T10:00:00+00:00".to_string(),
        },
    );
}

#[test]
fn remove_link_goes_first() {
    let md = metadata();
    let mut st = ProjectLocalState::default();
    installed(&mut st, "1.0.0");
    record_link(&mut st, "1.0.0", "/opt/x", &vec![]);
    let r = remove_from_state(&md, &mut st, "1.0.0");
    assert!(matches!(r, Ok(Removed::Link)));
    assert!(!st.linked_paths.contains_key("1.0.0"));
    assert!(st.installed_versions.contains_key("1.0.0"));
}

#[test]
fn remove_refuses_default_channel_and_override_users() {
    let md = metadata();
    let mut st = ProjectLocalState::default();
    installed(&mut st, "1.0.0");
    installed(&mut st, "1.1.0");
    installed(&mut st, "2.0.0");
    st.default_version_or_channel_name = Some("1.0.0".to_string());
    track_channel(&mut st, "stable", "2.0.0");
    st.overrides.push(DirectoryOverride {
        path: "/work".to_string(),
        version_or_channel: "1.1.0".to_string(),
    });
    assert!(matches!(remove_from_state(&md, &mut st, "1.0.0"), Err(RemoveRefused::IsDefault)));
    match remove_from_state(&md, &mut st, "2.0.0") {
        Err(RemoveRefused::UsedByChannel { channel }) => assert_eq!(channel, "stable"),
        other => panic!("unexpected {:?}", other),
    }
    match remove_from_state(&md, &mut st, "1.1.0") {
        Err(RemoveRefused::UsedByOverride { path }) => assert_eq!(path, "/work"),
        other => panic!("unexpected {:?}", other),
    }
    assert!(matches!(remove_from_state(&md, &mut st, "9.9.9"), Err(RemoveRefused::NotInstalled)));
    assert_eq!(st.installed_versions.len(), 3);
}

#[test]
fn remove_unused_version_returns_its_directory() {
    let md = metadata();
    let mut st = ProjectLocalState::default();
    installed(&mut st, "1.0.0");
    installed(&mut st, "1.1.0");
    st.default_version_or_channel_name = Some("1.1.0".to_string());
    match remove_from_state(&md, &mut st, "1.0.0") {
        Ok(Removed::Version { path_segment }) => {
            assert_eq!(path_segment, "1.0.0-x86_64-unknown-linux-gnu")
        }
        other => panic!("unexpected {:?}", other),
    }
    assert!(!st.installed_versions.contains_key("1.0.0"));
}

#[test]
fn default_is_set_only_to_installed_versions() {
    let md = metadata();
    let mut st = ProjectLocalState::default();
    installed(&mut st, "2.0.0");
    assert!(matches!(set_default(&md, &mut st, "9.9"), Err(DefaultError::NotAVersionOrChannel)));
    match set_default(&md, &mut st, "1.0.0") {
        Err(DefaultError::NotInstalled { version }) => assert_eq!(version, "1.0.0"),
        other => panic!("unexpected {:?}", other),
    }
    assert!(matches!(
        set_default(&md, &mut st, "broken"),
        Err(DefaultError::Unresolvable(ResolveError::ExactMatchWithoutVersion { .. }))
    ));
    assert_eq!(st.default_version_or_channel_name, None);
    assert!(st.active_channels.is_empty());
    assert_eq!(set_default(&md, &mut st, "stable").unwrap(), "2.0.0");
    assert_eq!(st.default_version_or_channel_name.as_deref(), Some("stable"));
    assert_eq!(st.active_channels.get("stable").unwrap().resolved_version, "2.0.0");
    assert_eq!(set_default(&md, &mut st, "2.0.0").unwrap(), "2.0.0");
    assert_eq!(st.active_channels.len(), 1);
}

#[test]
fn default_version_then_remove_is_refused() {
    let md = metadata();
    let mut st = ProjectLocalState::default();
    installed(&mut st, "1.1.0");
    assert_eq!(set_default(&md, &mut st, "1.1.0").unwrap(), "1.1.0");
    assert!(matches!(remove_from_state(&md, &mut st, "1.1.0"), Err(RemoveRefused::IsDefault)));
    assert!(st.installed_versions.contains_key("1.1.0"));
}

#[test]
fn add_resolves_channels_and_sets_first_default() {
    let md = metadata();
    let t = add_target(&md, "stable").unwrap();
    assert_eq!(t.version, "2.0.0");
    assert!(t.is_channel);
    let t2 = add_target(&md, "1.0.0").unwrap();
    assert_eq!(t2.version, "1.0.0");
    assert!(!t2.is_channel);
    assert!(matches!(add_target(&md, "nope"), Err(AddError::NotAVersionOrChannel)));
    assert!(matches!(add_target(&md, "broken"), Err(AddError::Unresolvable(_))));

    let mut st = ProjectLocalState::default();
    installed(&mut st, "2.0.0");
    assert!(record_added(&mut st, "stable", &t).unwrap());
    assert_eq!(st.default_version_or_channel_name.as_deref(), Some("stable"));
    assert_eq!(st.active_channels.get("stable").unwrap().resolved_version, "2.0.0");
    installed(&mut st, "1.0.0");
    assert!(!record_added(&mut st, "1.0.0", &t2).unwrap());
    assert_eq!(st.default_version_or_channel_name.as_deref(), Some("stable"));
    assert_eq!(st.active_channels.len(), 1);
}

#[test]
fn update_visits_tracked_channels_and_default_sorted() {
    let md = metadata();
    let mut st = ProjectLocalState::default();
    track_channel(&mut st, "stable", "1.1.0");
    track_channel(&mut st, "broken", "1.0.0");
    st.default_version_or_channel_name = Some("lts".to_string());
    assert_eq!(channels_to_update(&md, &st), vec!["broken", "lts", "stable"]);
    st.default_version_or_channel_name = Some("1.0.0".to_string());
    assert_eq!(channels_to_update(&md, &st), vec!["broken", "stable"]);
}

#[test]
fn update_target_and_needs_update() {
    let md = metadata();
    assert!(matches!(update_target(&md, "missing"), Err(UpdateError::NotFound)));
    assert!(matches!(update_target(&md, "broken"), Err(UpdateError::Unresolvable(_))));
    assert_eq!(update_target(&md, "stable").unwrap(), "2.0.0");
    let mut st = ProjectLocalState::default();
    track_channel(&mut st, "stable", "1.1.0");
    assert!(needs_update(&st, "stable", "2.0.0"));
    record_channel(&mut st, "stable", "2.0.0").unwrap();
    assert!(needs_update(&st, "stable", "2.0.0"));
    installed(&mut st, "2.0.0");
    assert!(!needs_update(&st, "stable", "2.0.0"));
}

#[test]
fn link_names_are_checked_and_recorded() {
    let md = metadata();
    let mut st = ProjectLocalState::default();
    installed(&mut st, "1.0.0");
    assert_eq!(check_link_name(&md, &st, "1.0.0"), Err(LinkError::InstalledVersion));
    let w = check_link_name(&md, &st, "stable").unwrap();
    assert!(w.shadows_channel);
    assert!(!w.shadows_version);
    let w = check_link_name(&md, &st, "2.0.0").unwrap();
    assert!(!w.shadows_channel);
    assert!(w.shadows_version);
    record_link(&mut st, "dev", "/home/u/build/tool", &vec!["--fast".to_string()]);
    assert_eq!(check_link_name(&md, &st, "dev"), Err(LinkError::AlreadyLinked));
    let info = st.linked_paths.get("dev").unwrap();
    assert_eq!(info.command_path, "/home/u/build/tool");
    assert_eq!(info.arguments, Some(vec!["--fast".to_string()]));
    record_link(&mut st, "plain", "/bin/true", &vec![]);
    assert_eq!(st.linked_paths.get("plain").unwrap().arguments, None);
}

#[test]
fn link_then_remove_restores_links() {
    let md = metadata();
    let mut st = ProjectLocalState::default();
    record_link(&mut st, "a", "/a", &vec![]);
    let before = st.linked_paths.keys();
    record_link(&mut st, "dev", "/dev", &vec![]);
    assert!(matches!(remove_from_state(&md, &mut st, "dev"), Ok(Removed::Link)));
    assert_eq!(st.linked_paths.keys(), before);
}

#[test]
fn overrides_are_checked_set_and_unset() {
    let md = metadata();
    let mut st = ProjectLocalState::default();
    installed(&mut st, "2.0.0");
    assert_eq!(override_target(&md, &st, "stable").unwrap(), "2.0.0");
    match override_target(&md, &st, "lts") {
        Err(OverrideError::NotInstalled { version }) => assert_eq!(version, "1.0.0"),
        other => panic!("unexpected {:?}", other),
    }
    assert!(matches!(override_target(&md, &st, "x"), Err(OverrideError::Unresolvable(_))));

    set_override(&mut st, "/a", "stable");
    set_override(&mut st, "/b", "2.0.0");
    set_override(&mut st, "/a", "2.0.0");
    assert_eq!(st.overrides.len(), 2);
    assert_eq!(st.overrides[0].path, "/a");
    assert_eq!(st.overrides[0].version_or_channel, "2.0.0");
    assert!(unset_override(&mut st, "/a"));
    assert!(!unset_override(&mut st, "/a"));
    assert_eq!(st.overrides.len(), 1);
    assert_eq!(st.overrides[0].path, "/b");
}

#[test]
fn overrides_of_missing_directories_are_pruned() {
    let mut st = ProjectLocalState::default();
    set_override(&mut st, "/gone", "1");
    set_override(&mut st, "/here", "2");
    set_override(&mut st, "/also-gone", "3");
    assert!(prune_overrides(&mut st, &vec![false, true, false]));
    assert_eq!(st.overrides.len(), 1);
    assert_eq!(st.overrides[0].path, "/here");
    assert!(!prune_overrides(&mut st, &vec![true]));
}

#[test]
fn gc_collects_versions_nothing_uses() {
    let md = metadata();
    let mut st = ProjectLocalState::default();
    installed(&mut st, "1.0.0");
    installed(&mut st, "1.1.0");
    installed(&mut st, "2.0.0");
    st.default_version_or_channel_name = Some("stable".to_string());
    st.overrides.push(DirectoryOverride {
        path: "/w".to_string(),
        version_or_channel: "1.1.0".to_string(),
    });
    let segments = collect_unused_versions(&md, &mut st);
    assert_eq!(segments, vec!["1.0.0-x86_64-unknown-linux-gnu"]);
    assert!(!st.installed_versions.contains_key("1.0.0"));
    assert!(st.installed_versions.contains_key("1.1.0"));
    assert!(st.installed_versions.contains_key("2.0.0"));
    let again = collect_unused_versions(&md, &mut st);
    assert!(again.is_empty());
    assert_eq!(st.installed_versions.len(), 2);
}

#[test]
fn gc_keeps_versions_of_tracked_channels() {
    let md = metadata();
    let mut st = ProjectLocalState::default();
    installed(&mut st, "1.0.0");
    track_channel(&mut st, "old", "1.0.0");
    let segments = collect_unused_versions(&md, &mut st);
    assert!(segments.is_empty());
    assert!(st.installed_versions.contains_key("1.0.0"));
}

#[test]
fn api_command_is_refused() {
    let paths = GupGlobalPaths::new("/h/.gup".to_string(), "/h/.gup".to_string(), "/h/.gup/bin".to_string());
    assert_eq!(
        run_command_api("getconfig1", &paths),
        Err("API command 'getconfig1' is not supported in gup. This was a Julia-specific feature.".to_string())
    );
}

#[test]
fn overrides_match_paths_by_components() {
    let mut st = ProjectLocalState::default();
    set_override(&mut st, "/w/p/", "1.0.0");
    set_override(&mut st, "/w//p", "2.0.0");
    assert_eq!(st.overrides.len(), 1);
    assert_eq!(st.overrides[0].path, "/w/p/");
    assert_eq!(st.overrides[0].version_or_channel, "2.0.0");
    set_override(&mut st, "/w/q", "1.0.0");
    assert!(unset_override(&mut st, "/w/./p"));
    assert_eq!(st.overrides.len(), 1);
    assert_eq!(st.overrides[0].path, "/w/q");
}

#[test]
fn override_status_rows_sort_by_path_components() {
    let mut st = ProjectLocalState::default();
    set_override(&mut st, "/a-b", "1");
    set_override(&mut st, "/a/b", "2");
    set_override(&mut st, "/a", "3");
    let rows = override_status_rows(&st);
    let paths: Vec<&str> = rows.iter().map(|o| o.path.as_str()).collect();
    assert_eq!(paths, vec!["/a", "/a/b", "/a-b"]);
    assert_eq!(rows[1].version_or_channel, "2");
}

#[test]
fn dangling_links_are_pruned() {
    let mut st = ProjectLocalState::default();
    for (name, path) in [("a", "/gone/a"), ("b", "/here/b"), ("c", "/gone/c")] {
        st.linked_paths.insert(name.to_string(), LinkedProjectInfo { command_path: path.to_string(), arguments: None });
    }
    let dropped = prune_dangling_links(&mut st, &vec![false, true, false]);
    assert_eq!(dropped, vec!["a", "c"]);
    assert_eq!(st.linked_paths.len(), 1);
    assert_eq!(st.linked_paths.get("b").unwrap().command_path, "/here/b");
    assert!(prune_dangling_links(&mut st, &vec![true]).is_empty());
}

#[test]
fn records_take_the_time_stamp_given() {
    let md = metadata();
    let mut st = ProjectLocalState::default();
    insert_installed_version(&mut st, "2.0.0", "2.0.0-x", "2024-05-06T00:00:00+00:00".to_string());
    let info = st.installed_versions.get("2.0.0").unwrap();
    assert_eq!(info.path_segment, "2.0.0-x");
    assert_eq!(info.installed_at, "2024-05-06T00:00:00+00:00");
    record_channel_at(&mut st, "stable", "2.0.0", "t1".to_string());
    assert_eq!(st.active_channels.get("stable").unwrap().last_checked, "t1");
    let t = add_target(&md, "stable").unwrap();
    assert!(record_added_at(&mut st, "stable", &t, "t2".to_string()));
    assert_eq!(st.active_channels.get("stable").unwrap().last_checked, "t2");
    st.default_version_or_channel_name = None;
    st.active_channels = StrMap::new();
    assert_eq!(set_default_at(&md, &mut st, "stable", "t3".to_string()).unwrap(), "2.0.0");
    assert_eq!(st.active_channels.get("stable").unwrap().last_checked, "t3");
    assert!(matches!(set_default_at(&md, &mut st, "9.9", "t4".to_string()), Err(DefaultError::NotAVersionOrChannel)));
    record_installed_version(&mut st, "1.0.0", "1.0.0-x").unwrap();
    assert!(st.installed_versions.get("1.0.0").unwrap().installed_at.ends_with("+00:00"));
}
