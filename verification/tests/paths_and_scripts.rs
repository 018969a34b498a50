use gup::constants::{SHELL_SCRIPT_END_MARKER, SHELL_SCRIPT_START_MARKER};
use gup::global_config_manager::{add_managed_project, is_project_managed, remove_managed_project};
use gup::global_paths::{get_default_gup_home_path, get_gup_home_path, path_join, GupGlobalPaths, PathsError};
use gup::operations_install::{archive_kind, plan_install, record_installed_version, ArchiveKind, InstallError};
use gup::operations_shell::{
    add_binfolder_to_path_in_shell_scripts, find_shell_scripts_to_be_modified,
    remove_binfolder_from_path_in_shell_scripts, shell_script_candidates, MarkerError, ShellScript,
};
use gup::project_registration::{registration_url, RegistrationError};
use gup::project_metadata_m::{
    ArtifactDetail, InstallConfig, PlatformDetail, ProjectMetadata, VersionDetail,
};
use gup::state_config::{GupGlobalConfig, ProjectLocalState};
use gup::strmap::StrMap;

fn s(x: &str) -> String {
    x.to_string()
}

#[test]
fn gup_directories() {
    let p = GupGlobalPaths::new(s("/home/u/.gup"), s("/opt/gup"), s("/opt/gup/bin"));
    assert_eq!(p.guphome(), "/home/u/.gup");
    assert_eq!(p.global_config_file(), "/home/u/.gup/global_config.json");
    assert_eq!(p.lock_file(), "/home/u/.gup/.gup-lock");
    assert_eq!(p.gup_bin_dir(), "/home/u/.gup/bin");
    assert_eq!(p.project_dir("node"), "/home/u/.gup/projects/node");
    assert_eq!(p.project_metadata_cache_file("node"), "/home/u/.gup/projects/node/metadata_cache.json");
    assert_eq!(p.project_state_file("node"), "/home/u/.gup/projects/node/project_state.json");
    assert_eq!(p.project_versions_dir("node"), "/home/u/.gup/projects/node/versions");
    assert_eq!(
        p.specific_project_version_dir("node", "18.0.0-x86_64-unknown-linux-gnu"),
        "/home/u/.gup/projects/node/versions/18.0.0-x86_64-unknown-linux-gnu"
    );
    assert_eq!(p.gupselfhome(), "/opt/gup");
    assert_eq!(p.gupselfbin(), "/opt/gup/bin");
    assert_eq!(p.gupselfconfig_file(), "/opt/gup/gupself.json");
    assert_eq!(path_join("/a/", "b"), "/a/b");
    assert_eq!(path_join("/a", "/b"), "/b");
}

#[test]
fn gup_home_from_environment() {
    assert_eq!(get_gup_home_path(None, Some("/home/u")), Ok(s("/home/u/.gup")));
    assert_eq!(get_gup_home_path(Some("  /data \n"), Some("/home/u")), Ok(s("/data/gup")));
    assert_eq!(get_gup_home_path(Some("   "), Some("/home/u")), Ok(s("/home/u/.gup")));
    assert_eq!(
        get_gup_home_path(Some(" rel/dir "), Some("/home/u")),
        Err(PathsError::DepotPathNotAbsolute { value: s("rel/dir") })
    );
    assert_eq!(get_default_gup_home_path(None), Err(PathsError::HomeDirUnknown));
    assert_eq!(
        get_default_gup_home_path(Some("home")),
        Err(PathsError::InvalidHomeDir { path: s("home/.gup") })
    );
}

#[test]
fn registry_add_then_remove_restores() {
    let mut config = GupGlobalConfig::default();
    add_managed_project(&mut config, "keep", "Keep", "https://k/m.json");
    assert!(!is_project_managed(&config, "node"));
    add_managed_project(&mut config, "node", "Node.js", "https://n/m.json");
    assert!(is_project_managed(&config, "node"));
    assert_eq!(config.managed_projects.get("node").unwrap().display_name, "Node.js");
    assert!(remove_managed_project(&mut config, "node"));
    assert!(!remove_managed_project(&mut config, "node"));
    assert_eq!(config.managed_projects.keys(), vec!["keep"]);
}

fn script(name: &str, contents: &str) -> ShellScript {
    ShellScript { file_name: s(name), contents: contents.as_bytes().to_vec() }
}

#[test]
fn shell_scripts_selected_and_edited_in_turn() {
    assert_eq!(shell_script_candidates(), vec![".bashrc", ".profile", ".bash_profile", ".bash_login", ".zshrc"]);
    let chosen = find_shell_scripts_to_be_modified("/home/u", true, &vec![true, false, false, true, false], true);
    assert_eq!(chosen, vec!["/home/u/.bashrc", "/home/u/.bash_login", "/home/u/.zshrc"]);
    let chosen = find_shell_scripts_to_be_modified("/home/u", false, &vec![false, false, false, false, false], true);
    assert!(chosen.is_empty());

    let scripts = vec![script(".bashrc", "alias ll='ls -l'\n"), script(".zshrc", "")];
    let added = add_binfolder_to_path_in_shell_scripts("/home/u/.gup/bin", &scripts);
    assert_eq!(added.len(), 2);
    let bash = String::from_utf8(added[0].clone().unwrap()).unwrap();
    assert!(bash.starts_with("alias ll='ls -l'\n\n# >>> gup initialize >>>"));
    assert!(bash.contains("export PATH=/home/u/.gup/bin${PATH:+:${PATH}}"));
    let zsh = String::from_utf8(added[1].clone().unwrap()).unwrap();
    assert!(zsh.contains("path=('/home/u/.gup/bin' $path)"));

    let edited = vec![script(".bashrc", &bash), script(".zshrc", "plain")];
    let removed = remove_binfolder_from_path_in_shell_scripts(&edited);
    assert_eq!(String::from_utf8(removed[0].clone().unwrap().unwrap()).unwrap(), "alias ll='ls -l'\n\n\n");
    assert_eq!(removed[1], Ok(None));
}

#[test]
fn shell_script_edits_stop_at_the_first_broken_script() {
    let broken = format!("{}\n{}\n{}", SHELL_SCRIPT_START_MARKER, SHELL_SCRIPT_END_MARKER, SHELL_SCRIPT_END_MARKER);
    let scripts = vec![script(".bashrc", ""), script(".profile", &broken), script(".zshrc", "")];
    let added = add_binfolder_to_path_in_shell_scripts("/b", &scripts);
    assert_eq!(added.len(), 2);
    assert!(added[0].is_ok());
    assert_eq!(added[1], Err(MarkerError::MultipleSections));
}

fn install_metadata() -> ProjectMetadata {
    let mut platforms = StrMap::new();
    platforms.insert(
        s("x86_64-unknown-linux-gnu"),
        PlatformDetail { os: s("linux"), arch: s("x86_64"), target_triple_pattern: s(".*") },
    );
    let mut artifacts = StrMap::new();
    artifacts.insert(
        s("x86_64-unknown-linux-gnu"),
        ArtifactDetail {
            url_path_suffix: s("v1/tool-1.0.0-linux.zip"),
            sha256: None,
            archive_format: None,
            strip_components: None,
            bin_subdir: None,
        },
    );
    let mut versions = StrMap::new();
    versions.insert(
        s("1.0.0"),
        VersionDetail {
            release_date: None,
            artifacts,
            install_config_override: Some(InstallConfig {
                archive_format: Some(s("zip")),
                strip_components: Some(1),
                bin_subdir: None,
                post_install_hook: None,
            }),
        },
    );
    ProjectMetadata {
        project_name: s("tool"),
        display_name: None,
        description: None,
        homepage_url: None,
        metadata_format_version: s("1"),
        base_download_url: s("https://dl.example.com/releases/"),
        platforms,
        default_install_config: InstallConfig::default(),
        executables: vec![],
        default_executable_name: None,
        available_versions: versions,
        channels: StrMap::new(),
    }
}

#[test]
fn install_plans() {
    let md = install_metadata();
    let mut st = ProjectLocalState::default();
    let plan = plan_install(&md, &st, "1.0.0", "x86_64-unknown-linux-gnu").unwrap().unwrap();
    assert_eq!(plan.download_url, "https://dl.example.com/releases/v1/tool-1.0.0-linux.zip");
    assert_eq!(plan.archive, ArchiveKind::Zip);
    assert_eq!(plan.merged_config.strip_components, 1);
    assert_eq!(plan.path_segment, "1.0.0-x86_64-unknown-linux-gnu");
    assert!(matches!(
        plan_install(&md, &st, "1.0.0", "aarch64-apple-darwin"),
        Err(InstallError::NoPlatform(_))
    ));
    assert!(matches!(
        plan_install(&md, &st, "2.0.0", "x86_64-unknown-linux-gnu"),
        Err(InstallError::VersionNotAvailable { .. })
    ));
    record_installed_version(&mut st, "1.0.0", &plan.path_segment).unwrap();
    assert!(st.installed_versions.get("1.0.0").unwrap().installed_at.ends_with("+00:00"));
    assert_eq!(st.installed_versions.get("1.0.0").unwrap().path_segment, "1.0.0-x86_64-unknown-linux-gnu");
    assert!(plan_install(&md, &st, "1.0.0", "x86_64-unknown-linux-gnu").unwrap().is_none());
    assert_eq!(archive_kind("tar.gz"), ArchiveKind::TarGz);
    assert_eq!(archive_kind("rar"), ArchiveKind::Unsupported { format: s("rar") });
}

#[test]
fn artifact_settings_override_version_and_project() {
    let mut md = install_metadata();
    let mut artifacts = StrMap::new();
    artifacts.insert(
        s("x86_64-unknown-linux-gnu"),
        ArtifactDetail {
            url_path_suffix: s("v2/tool"),
            sha256: None,
            archive_format: Some(s("binary")),
            strip_components: Some(3),
            bin_subdir: Some(s("bin")),
        },
    );
    md.available_versions.insert(
        s("2.0.0"),
        VersionDetail {
            release_date: None,
            artifacts,
            install_config_override: Some(InstallConfig {
                archive_format: Some(s("zip")),
                strip_components: Some(1),
                bin_subdir: Some(s("other")),
                post_install_hook: Some(s("make")),
            }),
        },
    );
    let st = ProjectLocalState::default();
    let plan = plan_install(&md, &st, "2.0.0", "x86_64-unknown-linux-gnu").unwrap().unwrap();
    assert_eq!(plan.archive, ArchiveKind::Binary);
    assert_eq!(plan.merged_config.archive_format, "binary");
    assert_eq!(plan.merged_config.strip_components, 3);
    assert_eq!(plan.merged_config.bin_subdir.as_deref(), Some("bin"));
    assert_eq!(plan.merged_config.post_install_hook.as_deref(), Some("make"));
}

#[test]
fn registration_sources_are_parsed_as_urls() {
    assert_eq!(registration_url("https://example.com/meta.json").unwrap(), "https://example.com/meta.json");
    assert_eq!(registration_url("HTTPS://Example.COM").unwrap(), "https://example.com/");
    assert_eq!(registration_url("not a url"), Err(RegistrationError::InvalidUrl));
    assert_eq!(registration_url("./local/reg.toml"), Err(RegistrationError::InvalidUrl));
}
