use devcontainer::json_value::JsonValue;
use devcontainer::lockfile::{generate_lockfile, replace_text, updated_feature_version_text};

fn s(text: &str) -> JsonValue {
    JsonValue::Str(text.to_string())
}

fn object(entries: Vec<(&str, JsonValue)>) -> JsonValue {
    JsonValue::Object(entries.into_iter().map(|(k, v)| (k.to_string(), v)).collect())
}

fn with_features(ids: Vec<&str>) -> JsonValue {
    object(vec![
        ("features", object(ids.into_iter().map(|id| (id, object(vec![]))).collect())),
        ("image", s("debian:bookworm")),
    ])
}

#[test]
fn lockfile_pins_tagged_and_latest_features_and_skips_local_ones() {
    let configuration = with_features(vec![
        "./local-feature",
        "ghcr.io/devcontainers/features/git:1.0",
        "ghcr.io/devcontainers/features/github-cli",
    ]);
    let entries = generate_lockfile(&configuration, &vec![]).expect("lockfile");
    assert_eq!(entries.len(), 2);
    assert_eq!(entries[0].0, "ghcr.io/devcontainers/features/git:1.0");
    assert_eq!(entries[0].1.version, "1.0.5");
    assert_eq!(
        entries[0].1.integrity,
        "sha256:2222222222222222222222222222222222222222222222222222222222222222"
    );
    assert_eq!(entries[1].0, "ghcr.io/devcontainers/features/github-cli");
    assert_eq!(entries[1].1.version, "1.0.9");
}

#[test]
fn lockfile_keeps_exact_version_tags() {
    let configuration = with_features(vec!["ghcr.io/devcontainers/features/git:1.1.5"]);
    let entries = generate_lockfile(&configuration, &vec![]).expect("lockfile");
    assert_eq!(entries.len(), 1);
    assert_eq!(entries[0].1.version, "1.1.5");
    assert_eq!(
        entries[0].1.resolved,
        "ghcr.io/devcontainers/features/git@sha256:2ab83ca71d55d5c00a1255b07f3a83a53cd2de77ce8b9637abad38095d672a5b"
    );
}

#[test]
fn lockfile_refuses_unknown_published_features() {
    let configuration = with_features(vec!["ghcr.io/example/unknown:1"]);
    assert_eq!(
        generate_lockfile(&configuration, &vec![]).err(),
        Some("Unsupported feature for native lockfile generation: ghcr.io/example/unknown:1".to_string())
    );
}

#[test]
fn lockfile_of_configuration_without_features_is_empty() {
    let configuration = object(vec![("image", s("debian:bookworm"))]);
    assert_eq!(generate_lockfile(&configuration, &vec![]).expect("lockfile").len(), 0);
}

#[test]
fn replace_text_matches_str_replace() {
    assert_eq!(replace_text("a-b-c", "-", "+"), "a+b+c");
    assert_eq!(replace_text("aaa", "aa", "b"), "ba");
    assert_eq!(replace_text("ab", "", "x"), "xaxbx");
    assert_eq!(replace_text("", "", "x"), "x");
    assert_eq!(replace_text("abc", "z", "y"), "abc");
    for (text, pattern, to) in [("one two one", "one", "1"), ("xyz", "y", ""), ("aXbXc", "X", "--")] {
        assert_eq!(replace_text(text, pattern, to), text.replace(pattern, to));
    }
}

#[test]
fn updated_feature_version_text_rewrites_the_declared_key() {
    let configuration = with_features(vec!["ghcr.io/devcontainers/features/git:1.0"]);
    let raw = "{\"features\": {\"ghcr.io/devcontainers/features/git:1.0\": {}}}";
    assert_eq!(
        updated_feature_version_text(raw, &configuration, "ghcr.io/devcontainers/features/git", "2"),
        Some("{\"features\": {\"ghcr.io/devcontainers/features/git:2\": {}}}".to_string())
    );
    assert_eq!(
        updated_feature_version_text(raw, &configuration, "ghcr.io/devcontainers/features/node", "2"),
        None
    );
    assert_eq!(
        updated_feature_version_text(raw, &configuration, "ghcr.io/devcontainers/features/git", "1.0"),
        None
    );
}
