use gup::archive_paths::{tar_entry_target, zip_entry_target, PathPart, UnsafeEntry};
use gup::cli::{watched_variables, CiContext, GupChannel};
use gup::command_list::{
    channel_rows, format_channel_detail, link_rows, project_rows, status_of, version_rows,
};
use gup::command_status::{all_projects_status_row, status_rows};
use gup::config_file::{
    default_versionsdb_update_interval, is_default, is_default_versionsdb_update_interval,
    GupConfigSettings,
};
use gup::error_handling::GupError;
use gup::global_config_manager::{add_managed_project, set_modify_path};
use gup::global_paths::GupGlobalPaths;
use gup::human::{has_fitting_digit_runs, human_sort_strings};
use gup::multiplexer::{determine_target_executable, MultiplexError, ProjectContext};
use gup::operations_install::post_install_hook_command;
use gup::operations_symlink::{default_symlink_names, executable_symlink_path};
use gup::ordering::{sort_strings, str_le};
use gup::project_metadata_m::{
    ChannelDetail, ExecutableDetail, InstallConfig, ProjectMetadata, VersionDetail,
};
use gup::state_config::{
    DirectoryOverride, GupGlobalConfig, InstalledVersionConcreteInfo, LinkedProjectInfo, ManagedProjectInfo,
    ProjectLocalState,
};
use gup::strmap::StrMap;
use gup::text::replace_all;
use gup::whitespace::{split_words, trim};

fn s(x: &str) -> String {
    x.to_string()
}

fn metadata(name: &str, exes: &[&str], default_exe: Option<&str>) -> ProjectMetadata {
    let mut channels = StrMap::new();
    channels.insert(
        s("stable"),
        ChannelDetail { version_prefix: None, resolution_strategy: s("latest_semver") },
    );
    let mut versions = StrMap::new();
    for v in ["1.9.0", "1.10.0", "2.0.0-beta.1"] {
        versions.insert(
            s(v),
            VersionDetail { release_date: None, artifacts: StrMap::new(), install_config_override: None },
        );
    }
    ProjectMetadata {
        project_name: s(name),
        display_name: None,
        description: None,
        homepage_url: None,
        metadata_format_version: s("1"),
        base_download_url: s("https://example.com/"),
        platforms: StrMap::new(),
        default_install_config: InstallConfig {
            archive_format: None,
            strip_components: None,
            bin_subdir: Some(s("bin")),
            post_install_hook: None,
        },
        executables: exes
            .iter()
            .map(|e| ExecutableDetail { name: s(e), path_in_bin_subdir: s(e) })
            .collect(),
        default_executable_name: default_exe.map(s),
        available_versions: versions,
        channels,
    }
}

fn install(st: &mut ProjectLocalState, v: &str) {
    st.installed_versions.insert(
        s(v),
        InstalledVersionConcreteInfo {
            version_string: s(v),
            path_segment: format!("{}-linux", v),
            installed_at: s("2024-05-06T07:08:09+00:00"),
        },
    );
}

fn paths() -> GupGlobalPaths {
    GupGlobalPaths::new(s("/home/u/.gup"), s("/home/u/.gup"), s("/home/u/.gup/bin"))
}

#[test]
fn channel_names_and_ci_context() {
    assert_eq!(GupChannel::Release.to_lowercase(), "release");
    assert_eq!(GupChannel::ReleasePreview.to_lowercase(), "releasepreview");
    assert_eq!(GupChannel::Dev.to_lowercase(), "dev");
    let ci = CiContext::from_environment(true, false);
    assert!(ci.quiet);
    assert!(!ci.should_prompt());
    assert!(!ci.should_show_progress());
    let quiet = CiContext::from_environment(false, true);
    assert!(quiet.should_prompt());
    assert!(!quiet.should_show_banners());
    let plain = CiContext::from_environment(false, false);
    assert!(plain.should_show_progress());
}

#[test]
fn settings_defaults() {
    assert_eq!(default_versionsdb_update_interval(), 1440);
    assert!(is_default_versionsdb_update_interval(&1440));
    assert!(!is_default_versionsdb_update_interval(&60));
    assert!(is_default(&false));
    assert!(!is_default(&true));
    let d = GupConfigSettings::default();
    assert!(!d.create_channel_symlinks);
    assert_eq!(d.versionsdb_update_interval, 1440);
}

#[test]
fn default_global_config_is_empty() {
    let config = GupGlobalConfig::default();
    assert!(config.managed_projects.is_empty());
    assert_eq!(config.self_update_channel, None);
    assert_eq!(config.background_self_update_interval_minutes, None);
    assert_eq!(config.modify_path_on_install, None);
}

#[test]
fn modify_path_setting_reports_changes() {
    let mut config = GupGlobalConfig::default();
    assert!(set_modify_path(&mut config, true));
    assert!(!set_modify_path(&mut config, true));
    assert!(set_modify_path(&mut config, false));
    assert_eq!(config.modify_path_on_install, Some(false));
}

#[test]
fn error_suggestions() {
    assert_eq!(GupError::http_error_suggestion(404), "The file may have been moved or deleted");
    assert_eq!(
        GupError::http_error_suggestion(403),
        "You may not have permission to access this resource"
    );
    assert_eq!(
        GupError::http_error_suggestion(503),
        "The server is experiencing issues, try again later"
    );
    assert_eq!(GupError::http_error_suggestion(418), "Check if the URL is correct and accessible");
    assert_eq!(GupError::available_versions_line(&vec![]), "No versions are currently available");
    assert_eq!(
        GupError::available_versions_line(&vec![s("1.0"), s("2.0")]),
        "Available versions: 1.0, 2.0"
    );
}

#[test]
fn channel_details() {
    let d = |p: Option<&str>, st: &str| ChannelDetail { version_prefix: p.map(s), resolution_strategy: s(st) };
    assert_eq!(
        format_channel_detail(&d(Some("1."), "latest_semver")),
        "Strategy: latest_semver, Prefix: 1."
    );
    assert_eq!(format_channel_detail(&d(None, "latest_semver")), "Strategy: latest_semver (no prefix)");
    assert_eq!(format_channel_detail(&d(Some("1.2.3"), "exact_match")), "Strategy: exact_match, Version: 1.2.3");
    assert_eq!(format_channel_detail(&d(None, "exact_match")), "Strategy: exact_match, Version: N/A");
    assert_eq!(format_channel_detail(&d(None, "weird")), "Strategy: weird");
    assert_eq!(status_of(true, true, true), "Default, Installed");
    assert_eq!(status_of(true, false, true), "Default, Available");
    assert_eq!(status_of(false, false, false), "-");
}

#[test]
fn human_order_puts_numbers_in_order() {
    let sorted = human_sort_strings(&vec![s("file10"), s("file2"), s("file1")]);
    assert_eq!(sorted, vec!["file1", "file2", "file10"]);
    assert!(has_fitting_digit_runs("v1.10.0"));
    assert!(!has_fitting_digit_runs("build12345678901"));
    assert!(has_fitting_digit_runs("2024010112"));
    assert!(has_fitting_digit_runs("r00000000000000000005"));
    assert!(has_fitting_digit_runs("4294967295"));
    assert!(!has_fitting_digit_runs("4294967296"));
    let sorted = human_sort_strings(&vec![s("b2024010112"), s("b999"), s("b2024010111")]);
    assert_eq!(sorted, vec![s("b999"), s("b2024010111"), s("b2024010112")]);
    assert_eq!(sort_strings(&vec![s("b"), s("ab"), s("a")]), vec!["a", "ab", "b"]);
    assert!(str_le("a", "ab"));
    assert!(!str_le("b", "ab"));
}

#[test]
fn list_tables() {
    let md = metadata("tool", &["tool"], Some("tool"));
    let mut st = ProjectLocalState::default();
    install(&mut st, "1.10.0");
    install(&mut st, "0.9.0");
    st.default_version_or_channel_name = Some(s("stable"));
    let rows = channel_rows(&md, &st);
    assert_eq!(rows.len(), 1);
    assert_eq!(rows[0].name, "stable");
    assert_eq!(rows[0].resolves_to, Ok(s("2.0.0-beta.1")));
    assert_eq!(rows[0].status, "Default, Available");
    assert_eq!(rows[0].details, "Strategy: latest_semver (no prefix)");

    let vrows = version_rows(&md, &st);
    let names: Vec<&str> = vrows.iter().map(|r| r.version.as_str()).collect();
    assert_eq!(names, vec!["0.9.0", "1.9.0", "1.10.0", "2.0.0-beta.1"]);
    assert_eq!(vrows[0].status, "Installed");
    assert_eq!(vrows[1].status, "Available");
    assert_eq!(vrows[2].status, "Installed");
    assert_eq!(vrows[3].status, "Default, Available");

    st.linked_paths.insert(
        s("dev"),
        LinkedProjectInfo { command_path: s("/src/tool"), arguments: Some(vec![s("-a"), s("-b")]) },
    );
    let lrows = link_rows(&st);
    assert_eq!(lrows[0].link_name, "dev");
    assert_eq!(lrows[0].arguments, "-a -b");

    let mut config = GupGlobalConfig::default();
    add_managed_project(&mut config, "zeta", "Zeta", "https://z/meta.json");
    add_managed_project(&mut config, "alpha", "Alpha", "https://a/meta.json");
    let prows = project_rows(&config);
    let names: Vec<&str> = prows.iter().map(|r| r.name.as_str()).collect();
    assert_eq!(names, vec!["alpha", "zeta"]);
    assert_eq!(prows[0].display_name, "Alpha");
    assert_eq!(prows[1].source_url, "https://z/meta.json");
}

#[test]
fn status_table() {
    let md = metadata("tool", &["tool"], Some("tool"));
    let mut st = ProjectLocalState::default();
    install(&mut st, "1.9.0");
    install(&mut st, "1.10.0");
    st.default_version_or_channel_name = Some(s("1.9.0"));
    st.active_channels.insert(
        s("stable"),
        gup::state_config::ActiveChannelInfo { resolved_version: s("1.10.0"), last_checked: s("x") },
    );
    st.linked_paths.insert(s("dev"), LinkedProjectInfo { command_path: s("/src/tool"), arguments: None });
    let (versions, channels, links, rows) = status_rows(&md, &st);
    assert_eq!(versions, vec!["1.9.0", "1.10.0"]);
    assert_eq!(channels, vec!["stable"]);
    assert_eq!(links, vec!["dev"]);
    assert_eq!(rows.len(), 4);
    assert_eq!(rows[0].is_default_marker, "*");
    assert_eq!(rows[0].details, "Installed: 2024-05-06");
    assert_eq!(rows[0].update_available, "Yes (direct)");
    assert_eq!(rows[1].update_available, "-");
    assert_eq!(rows[2].details, "Tracks: latest_semver, Currently: 1.10.0");
    assert_eq!(rows[2].update_available, "Yes (to 2.0.0-beta.1)");
    assert_eq!(rows[3].details, "-> /src/tool ");
    assert_eq!(rows[3].update_available, "N/A");
    let summary = all_projects_status_row("tool", Some(&st));
    assert_eq!(summary.default, "1.9.0");
    assert_eq!(summary.installed_count, 2);
    let missing = all_projects_status_row("other", None);
    assert_eq!(missing.default, "-");
    assert_eq!(missing.installed_count, 0);
}

fn context(name: &str, st: Option<ProjectLocalState>, md: Result<ProjectMetadata, String>) -> ProjectContext {
    ProjectContext { name: s(name), state: st, metadata: Some(md) }
}

#[test]
fn multiplexer_prefers_overrides_then_links_then_defaults() {
    let md = metadata("tool", &["tool", "toolc"], Some("tool"));
    let mut st = ProjectLocalState::default();
    install(&mut st, "1.9.0");
    install(&mut st, "1.10.0");
    st.default_version_or_channel_name = Some(s("1.10.0"));
    st.overrides.push(DirectoryOverride { path: s("/work"), version_or_channel: s("1.9.0") });
    st.linked_paths.insert(
        s("tool-dev"),
        LinkedProjectInfo { command_path: s("/src/tool"), arguments: Some(vec![s("--dev")]) },
    );
    let ctxs = vec![context("tool", Some(st), Ok(md))];
    let p = paths();

    let in_work = vec![s("/work/sub"), s("/work"), s("/")];
    let r = determine_target_executable("toolc", &in_work, &ctxs, &p).unwrap().unwrap();
    assert_eq!(r.0, "/home/u/.gup/projects/tool/versions/1.9.0-linux/bin/toolc");
    assert!(r.1.is_empty());

    let elsewhere = vec![s("/tmp"), s("/")];
    let r = determine_target_executable("toolc", &elsewhere, &ctxs, &p).unwrap().unwrap();
    assert_eq!(r.0, "/home/u/.gup/projects/tool/versions/1.10.0-linux/bin/toolc");

    let r = determine_target_executable("tool", &elsewhere, &ctxs, &p).unwrap().unwrap();
    assert_eq!(r.0, "/home/u/.gup/projects/tool/versions/1.10.0-linux/bin/tool");

    let r = determine_target_executable("tool-dev", &in_work, &ctxs, &p).unwrap().unwrap();
    assert_eq!(r, (s("/src/tool"), vec![s("--dev")]));

    assert!(determine_target_executable("other", &elsewhere, &ctxs, &p).unwrap().is_none());
}

#[test]
fn multiplexer_reports_missing_metadata() {
    let mut st = ProjectLocalState::default();
    st.default_version_or_channel_name = Some(s("1.0"));
    let ctxs = vec![context("tool", Some(st), Err(s("offline")))];
    match determine_target_executable("x", &vec![s("/")], &ctxs, &paths()) {
        Err(MultiplexError::MetadataUnavailable { project, message }) => {
            assert_eq!(project, "tool");
            assert_eq!(message, "offline");
        }
        other => panic!("unexpected {:?}", other),
    }
}

#[test]
fn multiplexer_asks_for_metadata_it_needs() {
    let mut st = ProjectLocalState::default();
    install(&mut st, "1.9.0");
    st.default_version_or_channel_name = Some(s("1.9.0"));
    st.linked_paths.insert(s("dev"), LinkedProjectInfo { command_path: s("/src/dev"), arguments: None });
    let mut ctxs = vec![ProjectContext { name: s("tool"), state: Some(st), metadata: None }];
    let dirs = vec![s("/")];
    let r = determine_target_executable("dev", &dirs, &ctxs, &paths()).unwrap().unwrap();
    assert_eq!(r.0, "/src/dev");
    match determine_target_executable("tool", &dirs, &ctxs, &paths()) {
        Err(MultiplexError::MetadataNotLoaded { project }) => assert_eq!(project, "tool"),
        other => panic!("unexpected {:?}", other),
    }
    ctxs[0].metadata = Some(Ok(metadata("tool", &["tool"], Some("tool"))));
    let r = determine_target_executable("tool", &dirs, &ctxs, &paths()).unwrap().unwrap();
    assert_eq!(r.0, "/home/u/.gup/projects/tool/versions/1.9.0-linux/bin/tool");
}

#[test]
fn archive_entries_lose_leading_directories() {
    let n = |x: &str| PathPart::Normal(s(x));
    let parts = vec![n("pkg-1.0"), n("bin"), n("tool")];
    assert_eq!(tar_entry_target(&parts, 1), Ok(vec![s("bin"), s("tool")]));
    assert_eq!(tar_entry_target(&parts, 5), Ok(vec![]));
    assert_eq!(
        tar_entry_target(&vec![n("a"), PathPart::ParentDir, n("b")], 1),
        Err(UnsafeEntry::UnsafeComponent)
    );
    assert_eq!(tar_entry_target(&vec![PathPart::RootDir, n("b")], 0), Err(UnsafeEntry::NonStandardComponent));
    assert_eq!(zip_entry_target(&vec![n("top"), PathPart::CurDir, n("f")], 1), vec![s("f")]);
}

#[test]
fn white_space_and_replacement() {
    assert_eq!(trim("  \t hello world \n"), "hello world");
    assert_eq!(trim("\u{3000}x\u{a0}"), "x");
    assert_eq!(split_words("  make   install\tnow "), vec!["make", "install", "now"]);
    assert!(split_words(" \n ").is_empty());
    assert_eq!(replace_all("a{X}b{X}", "{X}", "/d"), "a/db/d");
}

#[test]
fn post_install_hook_commands_on_windows() {
    let c = post_install_hook_command(&Some(s("cmd /C echo hi")), "/v", true).unwrap();
    assert_eq!(c.program, "cmd");
    assert_eq!(c.args, vec![s("/C"), s("cmd /C echo hi")]);
    let c = post_install_hook_command(&Some(s("sh -c 'echo hi'")), "/v", true).unwrap();
    assert_eq!(c.program, "sh");
    assert_eq!(c.args, vec![s("-c"), s("'echo"), s("hi'")]);
}

#[test]
fn post_install_hook_commands() {
    assert!(post_install_hook_command(&None, "/v", false).is_none());
    assert!(post_install_hook_command(&Some(s("   ")), "/v", false).is_none());
    let c = post_install_hook_command(&Some(s("chmod +x {GUP_PROJECT_VERSION_DIR}/bin/tool")), "/v", false).unwrap();
    assert_eq!(c.program, "chmod");
    assert_eq!(c.args, vec![s("+x"), s("/v/bin/tool")]);
    let c = post_install_hook_command(&Some(s("sh -c 'echo hi'")), "/v", false).unwrap();
    assert_eq!(c.program, "sh");
    assert_eq!(c.args, vec![s("-c"), s("sh -c 'echo hi'")]);
    let c = post_install_hook_command(&Some(s("./setup --config x")), "/v", false).unwrap();
    assert_eq!(c.program, "sh");
}

#[test]
fn symlink_names() {
    let single = metadata("tool", &["tool"], Some("tool"));
    assert_eq!(default_symlink_names("tool", &single), vec!["tool"]);
    let multi = metadata("py", &["python", "pip"], Some("python"));
    assert_eq!(default_symlink_names("py", &multi), vec!["py_python", "py_pip"]);
}

#[test]
fn test_symlink_path_generation() {
    let temp_dir = tempfile::TempDir::new().unwrap();
    let home = format!("{}/gup", temp_dir.path().display());
    let paths = GupGlobalPaths::new(home.clone(), home.clone(), format!("{}/bin", home));
    let expected_path = format!("{}/bin/test-exe", home);
    let actual_path = executable_symlink_path("test-exe", &paths);
    assert_eq!(expected_path, actual_path);
}

#[test]
fn project_rows_follow_unique_names() {
    let mut config = GupGlobalConfig::default();
    let info = |name: &str| ManagedProjectInfo {
        unique_name: s(name),
        display_name: format!("{} display", name),
        source_of_truth_url: format!("https://{}/meta.json", name),
        last_metadata_sync: None,
        preferred_default: None,
    };
    config.managed_projects.insert(s("a"), info("tool10"));
    config.managed_projects.insert(s("b"), info("tool2"));
    let prows = project_rows(&config);
    let names: Vec<&str> = prows.iter().map(|r| r.name.as_str()).collect();
    assert_eq!(names, vec!["tool2", "tool10"]);
    assert_eq!(prows[0].display_name, "tool2 display");
    assert_eq!(prows[1].source_url, "https://tool10/meta.json");
}

#[test]
fn multiplexer_matches_override_paths_by_components() {
    let md = metadata("tool", &["tool"], Some("tool"));
    let mut st = ProjectLocalState::default();
    install(&mut st, "1.9.0");
    install(&mut st, "1.10.0");
    st.default_version_or_channel_name = Some(s("1.10.0"));
    st.overrides.push(DirectoryOverride { path: s("/work//"), version_or_channel: s("1.9.0") });
    let ctxs = vec![context("tool", Some(st), Ok(md))];
    let in_work = vec![s("/work"), s("/")];
    let r = determine_target_executable("tool", &in_work, &ctxs, &paths()).unwrap().unwrap();
    assert_eq!(r.0, "/home/u/.gup/projects/tool/versions/1.9.0-linux/bin/tool");
}

#[test]
fn ci_context_from_set_variables() {
    assert_eq!(watched_variables().len(), 7);
    let none = CiContext::detect_from(&vec![]);
    assert!(none.should_show_progress() && none.should_prompt());
    let gh = CiContext::detect_from(&vec![s("GITHUB_ACTIONS")]);
    assert!(gh.ci_mode && gh.quiet && !gh.should_show_progress());
    let q = CiContext::detect_from(&vec![s("GUP_QUIET"), s("HOME")]);
    assert!(!q.ci_mode && q.quiet && q.should_prompt() && !q.should_show_progress());
    let other = CiContext::detect_from(&vec![s("PATH")]);
    assert!(!other.ci_mode && !other.quiet);
}
