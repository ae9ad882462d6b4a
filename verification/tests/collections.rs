use devcontainer::collections::{
    collection_reference_version, collection_slug, humanize_collection_slug, id_label_map,
    normalize_collection_reference, published_feature_install_script,
};

#[test]
fn normalizes_references_with_tags_and_digests() {
    assert_eq!(normalize_collection_reference("ghcr.io/a/features/node:1"), "ghcr.io/a/features/node");
    assert_eq!(normalize_collection_reference("ghcr.io/a/features/node@sha256:x"), "ghcr.io/a/features/node");
    assert_eq!(normalize_collection_reference("localhost:5000/a/b"), "localhost:5000/a/b");
    assert_eq!(collection_slug("ghcr.io/a/features/Node-JS:1"), Some("node-js".to_string()));
    assert_eq!(collection_reference_version("ghcr.io/a/features/node:1.2"), "1.2");
    assert_eq!(collection_reference_version("ghcr.io/a/features/node@sha256:x"), "sha256:x");
    assert_eq!(collection_reference_version("ghcr.io/a/features/node"), "latest");
}

#[test]
fn humanizes_slugs() {
    assert_eq!(humanize_collection_slug("docker-from--docker"), "Docker From Docker");
    assert_eq!(humanize_collection_slug(""), "");
}

#[test]
fn install_scripts_for_published_features() {
    assert_eq!(published_feature_install_script("ghcr.io/devcontainers/features/git:1"), "#!/bin/sh\nset -eu\n");
    assert!(published_feature_install_script("ghcr.io/devcontainers/features/common-utils:2").contains("useradd"));
}

#[test]
fn id_labels_default_to_folder_and_config() {
    assert_eq!(
        id_label_map(&[], "/w", "/w/c.json"),
        vec![
            ("devcontainer.local_folder".to_string(), "/w".to_string()),
            ("devcontainer.config_file".to_string(), "/w/c.json".to_string())
        ]
    );
    let args = vec![
        "--id-label".to_string(),
        "a=1".to_string(),
        "--id-label".to_string(),
        "broken".to_string(),
        "--id-label".to_string(),
        "a=2=3".to_string(),
    ];
    assert_eq!(id_label_map(&args, "/w", "/w/c.json"), vec![("a".to_string(), "2=3".to_string())]);
}
