use scrobcord::updater::{
    is_newer_version, release_status, update_info_from_release, validate_release_url,
    ReleaseStatus,
};

#[test]
fn newer_patch_is_detected() {
    assert!(is_newer_version("0.1.1", "0.1.0"));
}

#[test]
fn newer_minor_is_detected() {
    assert!(is_newer_version("0.2.0", "0.1.9"));
}

#[test]
fn same_version_is_not_newer() {
    assert!(!is_newer_version("0.1.0", "0.1.0"));
}

#[test]
fn older_version_is_not_newer() {
    assert!(!is_newer_version("0.0.9", "0.1.0"));
}

#[test]
fn prerelease_suffix_ignored_in_comparison() {
    assert!(!is_newer_version("0.1.0-beta", "0.1.0"));
    assert!(is_newer_version("0.2.0-beta", "0.1.0"));
}

#[test]
fn newer_major_beats_minor_and_patch() {
    assert!(is_newer_version("1.0.0", "0.99.99"));
    assert!(!is_newer_version("0.99.99", "1.0.0"));
}

#[test]
fn missing_or_unparsable_parts_count_as_zero() {
    assert!(!is_newer_version("1", "1.0.0"));
    assert!(!is_newer_version("1.0.0", "1"));
    assert!(is_newer_version("1.0.1", "1"));
    assert!(!is_newer_version("1.x.0", "1.0.0"));
    assert!(!is_newer_version("", "0.0.0"));
    assert!(is_newer_version("0.0.1.5", "0.0.0.9"));
    assert!(!is_newer_version("0.0.0.9", "0.0.0.1"));
    assert!(is_newer_version("+2.0.0", "1.0.0"));
    assert!(!is_newer_version("4294967296.0.0", "1.0.0"));
}

#[test]
fn newer_is_irreflexive_and_asymmetric_on_examples() {
    let vs = ["0.1.0", "0.2.0-beta", "1.0", "1.0.0-rc1", "2.1.3", "", "v1.0.0"];
    for a in vs.iter() {
        assert!(!is_newer_version(a, a));
        for b in vs.iter() {
            assert!(!(is_newer_version(a, b) && is_newer_version(b, a)));
        }
    }
}

#[test]
fn release_not_found_means_no_update() {
    match release_status("0.1.0", 404) {
        ReleaseStatus::NoRelease(info) => {
            assert!(!info.available);
            assert_eq!(info.latest_version, "0.1.0");
            assert_eq!(info.current_version, "0.1.0");
            assert_eq!(info.release_url, "");
        }
        _ => panic!("expected NoRelease"),
    }
}

#[test]
fn release_http_error_message() {
    match release_status("0.1.0", 500) {
        ReleaseStatus::Failed(m) => assert_eq!(m, "GitHub API エラー: HTTP 500"),
        _ => panic!("expected failure"),
    }
    match release_status("0.1.0", 301) {
        ReleaseStatus::Failed(m) => assert_eq!(m, "GitHub API エラー: HTTP 301"),
        _ => panic!("expected failure"),
    }
    assert!(matches!(release_status("0.1.0", 200), ReleaseStatus::ReadBody));
    assert!(matches!(release_status("0.1.0", 299), ReleaseStatus::ReadBody));
}

#[test]
fn release_tag_prefix_is_stripped() {
    let info = update_info_from_release("0.1.0", "v0.2.0", "https://github.com/x/y/releases/tag/v0.2.0");
    assert!(info.available);
    assert_eq!(info.latest_version, "0.2.0");
    assert_eq!(info.current_version, "0.1.0");
    assert_eq!(info.release_url, "https://github.com/x/y/releases/tag/v0.2.0");
    let same = update_info_from_release("0.1.0", "vv0.1.0", "");
    assert!(!same.available);
    assert_eq!(same.latest_version, "0.1.0");
    let empty = update_info_from_release("0.1.0", "", "");
    assert!(!empty.available);
    assert_eq!(empty.latest_version, "");
}

#[test]
fn release_url_must_be_github() {
    assert!(validate_release_url("https://github.com/kakeru-ikeda/Scrobcord/releases").is_ok());
    assert_eq!(
        validate_release_url("https://evil.example/").unwrap_err(),
        "不正な URL です"
    );
    assert!(validate_release_url("http://github.com/").is_err());
    assert!(validate_release_url("").is_err());
}

#[test]
fn newer_is_transitive_on_examples() {
    let vs = ["0.0.1", "0.1.0", "0.1.1-beta", "0.2", "1.0.0", "1.0.0-rc", "10.0.0", "x"];
    for a in vs.iter() {
        for b in vs.iter() {
            for c in vs.iter() {
                if is_newer_version(a, b) && is_newer_version(b, c) {
                    assert!(is_newer_version(a, c), "{} {} {}", a, b, c);
                }
            }
        }
    }
}
