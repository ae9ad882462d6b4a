use devcontainer::configuration::should_use_native_read_configuration;
use devcontainer::control::{
    ensure_no_disallowed_features, feature_matches_prefix, fixture_control_manifest,
};
use devcontainer::features::{feature_id_without_version, lockfile_path, parse_feature_reference};

#[test]
fn configuration_read_configuration_with_additional_flags_is_supported_natively() {
    assert!(should_use_native_read_configuration(&[
        "--workspace-folder".to_string(),
        "/workspace".to_string(),
        "--include-merged-configuration".to_string(),
    ]));
}

#[test]
fn configuration_read_configuration_accepts_docker_compose_path_flag() {
    assert!(should_use_native_read_configuration(&[
        "--workspace-folder".to_string(),
        "/workspace".to_string(),
        "--docker-compose-path".to_string(),
        "trigger-compose-v2".to_string(),
    ]));
}

#[test]
fn configuration_feature_id_without_version_handles_tags_and_digests() {
    assert_eq!(
        feature_id_without_version("ghcr.io/devcontainers/features/git:1.0"),
        "ghcr.io/devcontainers/features/git"
    );
    assert_eq!(
        feature_id_without_version(
            "ghcr.io/devcontainers/features/git-lfs@sha256:24d5802c837b2519b666a8403a9514c7296d769c9607048e9f1e040e7d7e331c"
        ),
        "ghcr.io/devcontainers/features/git-lfs"
    );
}

#[test]
fn configuration_lockfile_path_matches_upstream_dotfile_rule() {
    assert_eq!(
        lockfile_path("/tmp/workspace/.devcontainer.json"),
        "/tmp/workspace/.devcontainer-lock.json"
    );
    assert_eq!(
        lockfile_path("/tmp/workspace/.devcontainer/devcontainer.json"),
        "/tmp/workspace/.devcontainer/devcontainer-lock.json"
    );
}

#[test]
fn disallowed_feature_matching_accepts_exact_ids_and_supported_separators() {
    assert!(feature_matches_prefix("example.io/test/node", "example.io/test/node"));
    assert!(feature_matches_prefix("example.io/test/node:1", "example.io/test/node"));
    assert!(feature_matches_prefix("example.io/test/node/js", "example.io/test/node"));
    assert!(feature_matches_prefix("example.io/test/node@sha256:abc", "example.io/test/node"));
    assert!(!feature_matches_prefix("example.io/test/nodej", "example.io/test/node"));
    assert!(!feature_matches_prefix("example.io/test/node.js", "example.io/test/node"));
}

#[test]
fn ensure_no_disallowed_features_accepts_allowed_feature_sets() {
    let manifest = fixture_control_manifest();
    ensure_no_disallowed_features(&manifest, &vec!["ghcr.io/devcontainers/features/git:1".to_string()])
        .expect("allowed features");
}

#[test]
fn ensure_no_disallowed_features_rejects_fixture_disallowed_features() {
    let manifest = fixture_control_manifest();
    let error = ensure_no_disallowed_features(
        &manifest,
        &vec!["ghcr.io/devcontainers/features/problematic-feature:1".to_string()],
    )
    .expect_err("disallowed feature");
    assert!(error.contains("problematic-feature:1"), "{error}");
    assert!(error.contains("https://containers.dev/"), "{error}");
}

#[test]
fn feature_references_split_into_base_tag_and_digest() {
    let tagged = parse_feature_reference("ghcr.io/devcontainers/features/git:1.0").expect("tagged");
    assert_eq!(tagged.base, "ghcr.io/devcontainers/features/git");
    assert_eq!(tagged.tag.as_deref(), Some("1.0"));
    assert_eq!(tagged.digest, None);
    let pinned = parse_feature_reference("ghcr.io/devcontainers/features/git@sha256:abc").expect("digest");
    assert_eq!(pinned.digest.as_deref(), Some("sha256:abc"));
    let bare = parse_feature_reference("https://example.com/features/node").expect("url");
    assert_eq!(bare.base, "https://example.com/features/node");
    assert!(parse_feature_reference("./local-feature").is_none());
}

#[test]
fn feature_id_without_version_ignores_colons_before_the_last_slash() {
    assert_eq!(feature_id_without_version("localhost:5000/features/node"), "localhost:5000/features/node");
    assert_eq!(feature_id_without_version("localhost:5000/features/node:2"), "localhost:5000/features/node");
}
