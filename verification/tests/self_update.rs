use gup::operations_selfupdate::{newer_release, release_api_url, release_reply_is_list, release_tag, UnknownChannel};

#[test]
fn release_api_urls_per_channel() {
    assert_eq!(
        release_api_url("release", "org", "repo").unwrap(),
        "https://api.github.com/repos/org/repo/releases/latest"
    );
    assert_eq!(
        release_api_url("releasepreview", "org", "repo").unwrap(),
        "https://api.github.com/repos/org/repo/releases?per_page=1&prerelease=true"
    );
    assert_eq!(
        release_api_url("dev", "org", "repo").unwrap(),
        "https://api.github.com/repos/org/repo/releases?per_page=1"
    );
    assert_eq!(
        release_api_url("nightly", "org", "repo"),
        Err(UnknownChannel { channel: String::from("nightly") })
    );
    assert!(!release_reply_is_list("release"));
    assert!(release_reply_is_list("releasepreview"));
    assert!(release_reply_is_list("dev"));
}

#[test]
fn newer_release_compares_semantic_versions() {
    assert_eq!(newer_release("0.1.0", "v0.2.0"), Some(String::from("0.2.0")));
    assert_eq!(newer_release("v0.10.0", "0.9.0"), None);
    assert_eq!(newer_release("0.1.0", "v0.1.0"), None);
    assert_eq!(newer_release("1.0.0", "v1.0.0-rc.1"), None);
    assert_eq!(newer_release("1.0.0-rc.1", "1.0.0"), Some(String::from("1.0.0")));
}

#[test]
fn newer_release_falls_back_to_text() {
    assert_eq!(newer_release("0.1.0", "nightly"), Some(String::from("nightly")));
    assert_eq!(newer_release("vnightly", "nightly"), None);
    assert_eq!(newer_release("01.0.0", "v01.0.0"), None);
}

#[test]
fn release_tags_are_read_from_replies() {
    assert_eq!(release_tag(r#"{"tag_name": "v1.2.0", "name": "x"}"#, "release"), Some(String::from("v1.2.0")));
    assert_eq!(release_tag(r#"[{"tag_name": "v2.0.0-rc.1"}, {"tag_name": "v1.0.0"}]"#, "dev"), Some(String::from("v2.0.0-rc.1")));
    assert_eq!(release_tag(r#"[{"tag_name": "v2.0.0-rc.1"}]"#, "release"), None);
    assert_eq!(release_tag(r#"[]"#, "releasepreview"), None);
    assert_eq!(release_tag("not json", "release"), None);
}
