use portkiller::update::{
    download_url, evaluate_release, is_newer_version, trim_leading_v, version_triple_of,
};

#[test]
fn test_version_comparison() {
    assert!(is_newer_version("1.0.0", "0.9.0"));
    assert!(is_newer_version("0.2.0", "0.1.5"));
    assert!(is_newer_version("0.1.6", "0.1.5"));
    assert!(!is_newer_version("0.1.5", "0.1.5"));
    assert!(!is_newer_version("0.1.4", "0.1.5"));
    assert!(is_newer_version("1.0.0", "0.99.99"));
}

#[test]
fn version_parts_tolerate_noise() {
    assert_eq!(version_triple_of("1.2.3"), (1, 2, 3));
    assert_eq!(version_triple_of("1.2"), (1, 2, 0));
    assert_eq!(version_triple_of(""), (0, 0, 0));
    assert_eq!(version_triple_of("1.x.2"), (1, 2, 0));
    assert_eq!(version_triple_of("10.20.30.40"), (10, 20, 30));
}

#[test]
fn tag_prefix_is_trimmed() {
    assert_eq!(trim_leading_v("v1.2.3"), "1.2.3");
    assert_eq!(trim_leading_v("vv2.0"), "2.0");
    assert_eq!(trim_leading_v("1.2.3"), "1.2.3");
    assert_eq!(trim_leading_v(""), "");
}

#[test]
fn release_evaluation_skips_prereleases() {
    assert!(evaluate_release("v9.9.9", true, None, "0.1.0").is_none());
}

#[test]
fn release_evaluation_reports_newer_versions() {
    let info = evaluate_release("v1.2.3", false, Some("notes".to_string()), "1.0.0")
        .expect("newer release expected");
    assert_eq!(info.version, "1.2.3");
    assert_eq!(info.download_url, download_url());
    assert_eq!(info.release_notes.as_deref(), Some("notes"));
}

#[test]
fn release_evaluation_ignores_older_versions() {
    assert!(evaluate_release("v0.9.0", false, None, "1.0.0").is_none());
    assert!(evaluate_release("1.0.0", false, None, "1.0.0").is_none());
}
