use devcontainer::catalog::LockfileEntry;
use devcontainer::features::parse_feature_reference;
use devcontainer::json_value::JsonValue;
use devcontainer::outdated::{
    build_feature_version_info, build_outdated_payload, render_outdated_text, version_info_json,
};

fn s(text: &str) -> JsonValue {
    JsonValue::Str(text.to_string())
}

fn object(entries: Vec<(&str, JsonValue)>) -> JsonValue {
    JsonValue::Object(entries.into_iter().map(|(k, v)| (k.to_string(), v)).collect())
}

fn field<'a>(value: &'a JsonValue, key: &str) -> Option<&'a JsonValue> {
    match value {
        JsonValue::Object(entries) => entries.iter().find(|(k, _)| k == key).map(|(_, v)| v),
        _ => None,
    }
}

fn git_lockfile() -> Vec<(String, LockfileEntry)> {
    vec![(
        "ghcr.io/devcontainers/features/git:1.0".to_string(),
        LockfileEntry {
            version: "1.0.4".to_string(),
            resolved: "ghcr.io/devcontainers/features/git@sha256:0bb490abcc0a3fb23937d29e2c18a225b51c5584edc0d9eb4131569a980f60b6".to_string(),
            integrity: "sha256:0bb490abcc0a3fb23937d29e2c18a225b51c5584edc0d9eb4131569a980f60b6".to_string(),
            depends_on: None,
        },
    )]
}

fn git_configuration() -> JsonValue {
    object(vec![
        ("features", object(vec![
            ("./local-feature", object(vec![])),
            ("ghcr.io/devcontainers/features/git:1.0", s("latest")),
        ])),
        ("image", s("debian:bookworm")),
    ])
}

#[test]
fn upgrade_outdated_payload_reports_remote_feature_versions() {
    let lockfile = git_lockfile();
    let payload = build_outdated_payload(&git_configuration(), Some(&lockfile), &vec![]);
    let features = field(&payload, "features").expect("features");
    let git = field(features, "ghcr.io/devcontainers/features/git:1.0").expect("git");
    assert_eq!(field(git, "current"), Some(&s("1.0.4")));
    assert_eq!(field(git, "wanted"), Some(&s("1.0.5")));
    assert_eq!(field(git, "latest"), Some(&s("1.2.0")));
    assert!(field(features, "./local-feature").is_none());
}

#[test]
fn outdated_payload_without_lockfile_reports_the_wanted_version_as_current() {
    let payload = build_outdated_payload(&git_configuration(), None, &vec![]);
    let features = field(&payload, "features").expect("features");
    let git = field(features, "ghcr.io/devcontainers/features/git:1.0").expect("git");
    assert_eq!(
        git,
        &object(vec![
            ("current", s("1.0.5")),
            ("latest", s("1.2.0")),
            ("latestMajor", s("1")),
            ("wanted", s("1.0.5")),
            ("wantedMajor", s("1")),
        ])
    );
}

#[test]
fn outdated_payload_of_a_configuration_without_features_is_empty() {
    let configuration = object(vec![("image", s("debian:bookworm"))]);
    let payload = build_outdated_payload(&configuration, None, &vec![]);
    assert_eq!(payload, object(vec![("features", object(vec![]))]));
}

#[test]
fn version_info_keeps_keys_in_order_and_skips_missing_values() {
    let info = version_info_json(Some("1.0.4".to_string()), Some("2.3.1".to_string()), None);
    assert_eq!(
        info,
        object(vec![
            ("current", s("1.0.4")),
            ("wanted", s("2.3.1")),
            ("wantedMajor", s("2")),
        ])
    );
    assert_eq!(version_info_json(None, None, None), object(vec![]));
}

#[test]
fn digest_references_want_the_exact_catalog_version() {
    let reference = parse_feature_reference(
        "ghcr.io/devcontainers/features/git-lfs@sha256:24d5802c837b2519b666a8403a9514c7296d769c9607048e9f1e040e7d7e331c",
    )
    .expect("reference");
    let info = build_feature_version_info(&reference, None, &vec![]);
    assert_eq!(
        info,
        object(vec![("current", s("1.0.6")), ("wanted", s("1.0.6")), ("wantedMajor", s("1"))])
    );
}

#[test]
fn digest_references_want_the_locked_version() {
    let id = "ghcr.io/devcontainers/features/git@sha256:0bb490abcc0a3fb23937d29e2c18a225b51c5584edc0d9eb4131569a980f60b6";
    let reference = parse_feature_reference(id).expect("reference");
    let mut lockfile = git_lockfile();
    lockfile[0].0 = id.to_string();
    let info = build_feature_version_info(&reference, Some(&lockfile), &vec![]);
    assert_eq!(field(&info, "current"), Some(&s("1.0.4")));
    assert_eq!(field(&info, "wanted"), Some(&s("1.0.4")));
    assert_eq!(field(&info, "latest"), Some(&s("1.2.0")));
}

#[test]
fn outdated_table_pads_each_column_to_its_widest_cell() {
    let lockfile = git_lockfile();
    let payload = build_outdated_payload(&git_configuration(), Some(&lockfile), &vec![]);
    let text = render_outdated_text(&payload);
    let expected = [
        "Feature                             Current  Wanted  Latest",
        "\nghcr.io/devcontainers/features/git  1.0.4    1.0.5   1.2.0 ",
    ]
    .concat();
    assert_eq!(text, expected);
}

#[test]
fn outdated_table_of_an_empty_payload_is_the_header() {
    let text = render_outdated_text(&object(vec![]));
    assert_eq!(text, "Feature  Current  Wanted  Latest");
}

#[test]
fn outdated_table_shows_a_dash_for_missing_versions() {
    let payload = object(vec![(
        "features",
        object(vec![("ghcr.io/x/y:2", object(vec![("current", s("2.0.0"))]))]),
    )]);
    let text = render_outdated_text(&payload);
    assert_eq!(
        text,
        ["Feature      Current  Wanted  Latest", "\nghcr.io/x/y  2.0.0    -       -     "].concat()
    );
}
