use gup::operations_metadata::{
    get_current_platform_id, resolve_channel_to_version, MergedInstallConfig, ResolveError,
};
use gup::project_metadata_m::{
    ChannelDetail, ExecutableDetail, InstallConfig, PlatformDetail, ProjectMetadata, VersionDetail,
};
use gup::strmap::StrMap;
use gup::utils::{get_arch, get_target_triple_id, PlatformError};

fn version(date: &str) -> VersionDetail {
    VersionDetail {
        release_date: Some(date.to_string()),
        artifacts: StrMap::new(),
        install_config_override: None,
    }
}

fn create_test_metadata() -> ProjectMetadata {
    let mut platforms = StrMap::new();
    platforms.insert(
        "linux-x64".to_string(),
        PlatformDetail {
            os: "linux".to_string(),
            arch: "x86_64".to_string(),
            target_triple_pattern: "x86_64.*linux.*".to_string(),
        },
    );

    let mut channels = StrMap::new();
    channels.insert(
        "stable".to_string(),
        ChannelDetail {
            version_prefix: None,
            resolution_strategy: "latest_semver".to_string(),
        },
    );
    channels.insert(
        "v1.0".to_string(),
        ChannelDetail {
            version_prefix: Some("1.0.".to_string()),
            resolution_strategy: "latest_semver".to_string(),
        },
    );

    let mut versions = StrMap::new();
    versions.insert("1.0.0".to_string(), version("2024-01-01T00:00:00Z"));
    versions.insert("1.0.1".to_string(), version("2024-01-15T00:00:00Z"));
    versions.insert("1.1.0".to_string(), version("2024-02-01T00:00:00Z"));

    ProjectMetadata {
        project_name: "test-project".to_string(),
        display_name: Some("Test Project".to_string()),
        description: Some("A test project".to_string()),
        homepage_url: Some("https://example.com".to_string()),
        metadata_format_version: "1.0.0".to_string(),
        base_download_url: "https://example.com/releases/".to_string(),
        platforms,
        default_install_config: InstallConfig::default(),
        executables: vec![ExecutableDetail {
            name: "test".to_string(),
            path_in_bin_subdir: "test".to_string(),
        }],
        default_executable_name: Some("test".to_string()),
        available_versions: versions,
        channels,
    }
}

#[test]
fn test_resolve_channel_latest_semver() {
    let metadata = create_test_metadata();

    // Test latest_semver resolution
    let result = resolve_channel_to_version("stable", &metadata);
    assert!(result.is_ok());
    assert_eq!(result.unwrap(), "1.1.0"); // Should pick latest version
}

#[test]
fn test_resolve_channel_with_prefix() {
    let metadata = create_test_metadata();

    // Test prefix-based resolution
    let result = resolve_channel_to_version("v1.0", &metadata);
    assert!(result.is_ok());
    assert_eq!(result.unwrap(), "1.0.1"); // Should pick latest 1.0.x
}

#[test]
fn test_resolve_direct_version() {
    let metadata = create_test_metadata();

    // Test direct version resolution
    let result = resolve_channel_to_version("1.0.0", &metadata);
    assert!(result.is_ok());
    assert_eq!(result.unwrap(), "1.0.0");
}

#[test]
fn test_resolve_unknown_channel() {
    let metadata = create_test_metadata();

    // Test unknown channel
    let result = resolve_channel_to_version("nonexistent", &metadata);
    assert!(result.is_err());
}

#[test]
fn resolve_unknown_channel_lists_available_versions() {
    let metadata = create_test_metadata();
    match resolve_channel_to_version("nonexistent", &metadata) {
        Err(ResolveError::VersionNotFound { project_name, version_or_channel, available_versions }) => {
            assert_eq!(project_name, "test-project");
            assert_eq!(version_or_channel, "nonexistent");
            assert_eq!(available_versions, vec!["1.0.0", "1.0.1", "1.1.0"]);
        }
        other => panic!("unexpected result {:?}", other),
    }
}

#[test]
fn resolve_latest_semver_orders_numerically_and_skips_non_semver() {
    let mut metadata = create_test_metadata();
    metadata.available_versions.insert("1.10.0".to_string(), version("2024-03-01"));
    metadata.available_versions.insert("1.9.0".to_string(), version("2024-02-15"));
    metadata.available_versions.insert("nightly".to_string(), version("2024-03-02"));
    metadata.available_versions.insert("2.0.0-beta.1".to_string(), version("2024-03-03"));
    assert_eq!(resolve_channel_to_version("stable", &metadata).unwrap(), "2.0.0-beta.1");
    metadata.channels.insert(
        "one".to_string(),
        ChannelDetail { version_prefix: Some("1.".to_string()), resolution_strategy: "latest_semver".to_string() },
    );
    assert_eq!(resolve_channel_to_version("one", &metadata).unwrap(), "1.10.0");
    metadata.channels.insert(
        "none".to_string(),
        ChannelDetail { version_prefix: Some("3.".to_string()), resolution_strategy: "latest_semver".to_string() },
    );
    assert!(matches!(
        resolve_channel_to_version("none", &metadata),
        Err(ResolveError::VersionNotFound { .. })
    ));
}

#[test]
fn resolve_exact_match_and_unknown_strategy() {
    let mut metadata = create_test_metadata();
    metadata.channels.insert(
        "pinned".to_string(),
        ChannelDetail { version_prefix: Some("1.0.1".to_string()), resolution_strategy: "exact_match".to_string() },
    );
    assert_eq!(resolve_channel_to_version("pinned", &metadata).unwrap(), "1.0.1");
    metadata.channels.insert(
        "gone".to_string(),
        ChannelDetail { version_prefix: Some("0.9.0".to_string()), resolution_strategy: "exact_match".to_string() },
    );
    assert_eq!(
        resolve_channel_to_version("gone", &metadata),
        Err(ResolveError::ExactMatchUnavailable {
            channel: "gone".to_string(),
            version: "0.9.0".to_string(),
            project_name: "test-project".to_string(),
        })
    );
    metadata.channels.insert(
        "bare".to_string(),
        ChannelDetail { version_prefix: None, resolution_strategy: "exact_match".to_string() },
    );
    assert_eq!(
        resolve_channel_to_version("bare", &metadata),
        Err(ResolveError::ExactMatchWithoutVersion { channel: "bare".to_string() })
    );
    metadata.channels.insert(
        "dated".to_string(),
        ChannelDetail { version_prefix: None, resolution_strategy: "latest_by_date".to_string() },
    );
    assert_eq!(
        resolve_channel_to_version("dated", &metadata),
        Err(ResolveError::UnknownStrategy {
            strategy: "latest_by_date".to_string(),
            channel: "dated".to_string(),
            project_name: "test-project".to_string(),
        })
    );
}

#[test]
fn merged_install_config_layers_overrides() {
    let defaults = InstallConfig {
        archive_format: None,
        strip_components: Some(1),
        bin_subdir: Some("bin".to_string()),
        post_install_hook: None,
    };
    let merged = MergedInstallConfig::new(&defaults, &None);
    assert_eq!(merged.archive_format, "tar.gz");
    assert_eq!(merged.strip_components, 1);
    assert_eq!(merged.bin_subdir.as_deref(), Some("bin"));
    assert_eq!(merged.post_install_hook, None);
    let over = InstallConfig {
        archive_format: Some("zip".to_string()),
        strip_components: None,
        bin_subdir: None,
        post_install_hook: Some("chmod +x bin/*".to_string()),
    };
    let merged = MergedInstallConfig::new(&defaults, &Some(over));
    assert_eq!(merged.archive_format, "zip");
    assert_eq!(merged.strip_components, 1);
    assert_eq!(merged.bin_subdir.as_deref(), Some("bin"));
    assert_eq!(merged.post_install_hook.as_deref(), Some("chmod +x bin/*"));
    let merged = MergedInstallConfig::new(&InstallConfig::default(), &None);
    assert_eq!(merged.archive_format, "tar.gz");
    assert_eq!(merged.strip_components, 0);
}

#[test]
fn platform_id_is_the_listed_triple() {
    let mut metadata = create_test_metadata();
    assert_eq!(get_current_platform_id(&metadata, "linux-x64").unwrap(), "linux-x64");
    let err = get_current_platform_id(&metadata, "x86_64-unknown-linux-gnu").unwrap_err();
    assert_eq!(err.triple, "x86_64-unknown-linux-gnu");
    assert_eq!(err.available_platforms, vec!["linux-x64"]);
    metadata.platforms.insert(
        "x86_64-unknown-linux-gnu".to_string(),
        PlatformDetail { os: "linux".to_string(), arch: "x86_64".to_string(), target_triple_pattern: String::new() },
    );
    assert!(get_current_platform_id(&metadata, "x86_64-unknown-linux-gnu").is_ok());
}

#[test]
fn test_get_target_triple_id() {
    assert_eq!(get_target_triple_id("x86_64", "linux", false, false).unwrap(), "x86_64-unknown-linux-gnu");
    assert_eq!(get_target_triple_id("x86_64", "linux", true, false).unwrap(), "x86_64-unknown-linux-musl");
    assert_eq!(get_target_triple_id("aarch64", "macos", false, false).unwrap(), "aarch64-apple-darwin");
    assert_eq!(get_target_triple_id("x86_64", "windows", false, false).unwrap(), "x86_64-pc-windows-msvc");
    assert_eq!(get_target_triple_id("x86_64", "windows", false, true).unwrap(), "x86_64-pc-windows-gnu");
    assert_eq!(get_target_triple_id("x86", "freebsd", false, false).unwrap(), "i686-unknown-freebsd");
    assert_eq!(
        get_target_triple_id("mips", "linux", false, false),
        Err(PlatformError::UnsupportedArch { arch: "mips".to_string() })
    );
    assert_eq!(
        get_target_triple_id("arm", "plan9", false, false),
        Err(PlatformError::UnsupportedOs { os: "plan9".to_string() })
    );
}

#[test]
fn arch_names() {
    assert_eq!(get_arch("x86_64").unwrap(), "x86_64");
    assert_eq!(get_arch("aarch64").unwrap(), "aarch64");
    assert!(get_arch("riscv64").is_err());
}

#[test]
fn own_version_is_the_package_version() {
    assert_eq!(gup::get_own_version(), Some(String::from("0.1.0")));
}
