use devcontainer::catalog::{
    catalog_entries, catalog_entry_for_version, compare_versions_desc, exact_catalog_entry,
    generate_lockfile_entry, latest_version, manual_catalog_entries, resolve_wanted_version,
    LockfileEntry,
};
use devcontainer::features::parse_feature_reference;
use devcontainer::versions::{major_string, parse_selector, parse_version, ParsedVersion, VersionSelector};
use std::cmp::Ordering;

#[test]
fn parses_selectors_and_versions() {
    assert_eq!(parse_selector("1"), Some(VersionSelector::Major(1)));
    assert_eq!(parse_selector("1.2"), Some(VersionSelector::MajorMinor(1, 2)));
    assert_eq!(
        parse_selector("1.2.3"),
        Some(VersionSelector::Exact(ParsedVersion { major: 1, minor: 2, patch: 3 }))
    );
    assert_eq!(parse_selector("1.2.3.4"), None);
    assert_eq!(parse_selector("x"), None);
    assert_eq!(parse_selector("+7"), Some(VersionSelector::Major(7)));
    assert_eq!(parse_selector("18446744073709551616"), None);
    assert_eq!(parse_version("2.1"), Some(ParsedVersion { major: 2, minor: 1, patch: 0 }));
    assert_eq!(major_string("12.0.1"), Some("12".to_string()));
    assert_eq!(major_string("latest"), None);
    assert!(VersionSelector::Major(1).matches("1.9.9"));
    assert!(!VersionSelector::MajorMinor(1, 2).matches("1.3.0"));
}

#[test]
fn versions_compare_newest_first() {
    assert_eq!(compare_versions_desc("1.2.0", "1.10.0"), Ordering::Greater);
    assert_eq!(compare_versions_desc("2.0", "1.9.9"), Ordering::Less);
    assert_eq!(compare_versions_desc("1.0", "1.0.0"), Ordering::Equal);
}

#[test]
fn catalog_lists_newest_version_first() {
    assert_eq!(manual_catalog_entries().len(), 9);
    let entries = catalog_entries("ghcr.io/devcontainers/features/git", &vec![]).expect("entries");
    let versions: Vec<_> = entries.iter().map(|e| e.version.clone()).collect();
    assert_eq!(versions, vec!["1.2.0", "1.1.5", "1.0.5", "1.0.4"]);
    assert_eq!(latest_version("ghcr.io/codspace/versioning/foo", &vec![]), Some("2.11.1".to_string()));
    assert!(catalog_entries("ghcr.io/unknown/feature", &vec![]).is_none());
    let entry = catalog_entry_for_version("ghcr.io/devcontainers/features/git", "1.1.5", &vec![]).expect("entry");
    assert_eq!(entry.integrity, "sha256:2ab83ca71d55d5c00a1255b07f3a83a53cd2de77ce8b9637abad38095d672a5b");
    let pinned = exact_catalog_entry(
        "ghcr.io/devcontainers/features/git-lfs@sha256:24d5802c837b2519b666a8403a9514c7296d769c9607048e9f1e040e7d7e331c",
        &vec![],
    )
    .expect("pinned");
    assert_eq!(pinned.version, "1.0.6");
}

#[test]
fn wanted_versions_follow_tags_and_lockfile() {
    let feature = parse_feature_reference("ghcr.io/devcontainers/features/git:1.0").expect("feature");
    assert_eq!(resolve_wanted_version(&feature, None, &vec![]), Some("1.0.5".to_string()));
    let latest = parse_feature_reference("ghcr.io/devcontainers/features/git:latest").expect("feature");
    assert_eq!(resolve_wanted_version(&latest, None, &vec![]), Some("1.2.0".to_string()));
    let untagged = parse_feature_reference("ghcr.io/devcontainers/features/git").expect("feature");
    let lockfile = vec![(
        "ghcr.io/devcontainers/features/git".to_string(),
        LockfileEntry {
            version: "1.1.5".to_string(),
            resolved: String::new(),
            integrity: String::new(),
            depends_on: None,
        },
    )];
    assert_eq!(resolve_wanted_version(&untagged, Some(&lockfile), &vec![]), Some("1.1.5".to_string()));
    assert_eq!(resolve_wanted_version(&untagged, None, &vec![]), None);
}

#[test]
fn lockfile_entries_pin_catalog_versions() {
    let feature = parse_feature_reference("ghcr.io/devcontainers/features/git:1").expect("feature");
    let (key, entry) = generate_lockfile_entry(&feature, &vec![]).expect("entry");
    assert_eq!(key, "ghcr.io/devcontainers/features/git:1");
    assert_eq!(entry.version, "1.2.0");
    assert_eq!(
        entry.resolved,
        "ghcr.io/devcontainers/features/git@sha256:1111111111111111111111111111111111111111111111111111111111111111"
    );
    let unknown = parse_feature_reference("ghcr.io/devcontainers/features/git:9").expect("feature");
    assert!(generate_lockfile_entry(&unknown, &vec![]).is_none());
}
