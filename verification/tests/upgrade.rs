use devcontainer::features::{feature_id_without_version, lockfile_path, validate_upgrade_options};

#[test]
fn upgrade_feature_id_without_version_handles_tags_and_digests() {
    assert_eq!(
        feature_id_without_version("ghcr.io/devcontainers/features/git:1.0"),
        "ghcr.io/devcontainers/features/git"
    );
    assert_eq!(
        feature_id_without_version(
            "ghcr.io/devcontainers/features/git-lfs@sha256:24d5802c837b2519b666a8403a9514c7296d769c9607048e9f1e040e7d7e331c"
        ),
        "ghcr.io/devcontainers/features/git-lfs"
    );
}

#[test]
fn upgrade_lockfile_path_matches_upstream_dotfile_rule() {
    assert_eq!(
        lockfile_path("/tmp/workspace/.devcontainer.json"),
        "/tmp/workspace/.devcontainer-lock.json"
    );
    assert_eq!(
        lockfile_path("/tmp/workspace/.devcontainer/devcontainer.json"),
        "/tmp/workspace/.devcontainer/devcontainer-lock.json"
    );
}

#[test]
fn upgrade_options_need_feature_and_version_together() {
    let only_feature = vec!["--feature".to_string(), "ghcr.io/x/y".to_string()];
    assert_eq!(
        validate_upgrade_options(&only_feature),
        Err("The '--target-version' and '--feature' flag must be used together.".to_string())
    );
    let bad_version = vec![
        "--feature".to_string(),
        "ghcr.io/x/y".to_string(),
        "--target-version".to_string(),
        "1.x".to_string(),
    ];
    assert_eq!(
        validate_upgrade_options(&bad_version),
        Err("Invalid version '1.x'. Must be in the form of 'x', 'x.y', or 'x.y.z'".to_string())
    );
    let good = vec![
        "--feature".to_string(),
        "ghcr.io/x/y".to_string(),
        "--target-version".to_string(),
        "1.2".to_string(),
    ];
    assert_eq!(validate_upgrade_options(&good), Ok(()));
    assert_eq!(validate_upgrade_options(&[]), Ok(()));
}
