use devcontainer::collection_commands::{features_action, templates_action, CollectionAction};
use devcontainer::collection_commands::{
    build_feature_info_payload, build_template_metadata_payload, catalog_template_configuration,
    embedded_template_slug, feature_test_project_folder, feature_test_report, manifest_docs_contents,
    published_template_manifest, scenario_names, select_feature_test_scenarios, ManifestDocOptions,
    ScenarioDirectory,
};
use devcontainer::json_value::JsonValue;

fn s(text: &str) -> JsonValue {
    JsonValue::Str(text.to_string())
}

fn object(entries: Vec<(&str, JsonValue)>) -> JsonValue {
    JsonValue::Object(entries.into_iter().map(|(k, v)| (k.to_string(), v)).collect())
}

fn field<'a>(value: &'a JsonValue, key: &str) -> Option<&'a JsonValue> {
    match value {
        JsonValue::Object(entries) => entries.iter().find(|(k, _)| k == key).map(|(_, v)| v),
        _ => None,
    }
}

fn strings(values: &[&str]) -> Vec<String> {
    values.iter().map(|v| v.to_string()).collect()
}

#[test]
fn feature_info_summarizes_a_local_manifest_with_defaults() {
    let manifest = object(vec![("id", s("demo")), ("name", s("Demo Feature"))]);
    let payload = build_feature_info_payload("manifest", "./demo", Ok(manifest)).expect("payload");
    assert_eq!(field(&payload, "id"), Some(&s("demo")));
    assert_eq!(field(&payload, "name"), Some(&s("Demo Feature")));
    assert_eq!(field(&payload, "version"), Some(&s("0.0.0")));
    assert_eq!(field(&payload, "options"), Some(&object(vec![])));
}

#[test]
fn feature_info_reads_published_catalog_manifests() {
    let payload = build_feature_info_payload(
        "manifest",
        "ghcr.io/devcontainers/features/azure-cli:1",
        Err("not read".to_string()),
    )
    .expect("payload");
    assert_eq!(field(&payload, "id"), Some(&s("azure-cli")));
    assert_eq!(field(&payload, "version"), Some(&s("1.2.1")));
    let generic = build_feature_info_payload("manifest", "ghcr.io/acme/features/my-tool:2", Err(String::new()))
        .expect("generic");
    assert_eq!(field(&generic, "name"), Some(&s("My Tool")));
    assert_eq!(field(&generic, "version"), Some(&s("2")));
}

#[test]
fn feature_info_rejects_unsupported_modes_and_unknown_features() {
    assert_eq!(
        build_feature_info_payload("tags", "./demo", Ok(object(vec![]))),
        Err("Unsupported features info mode: tags".to_string())
    );
    assert_eq!(
        build_feature_info_payload("manifest", "ghcr.io/acme/other/x:1", Ok(object(vec![]))),
        Err("Unknown published feature: ghcr.io/acme/other/x:1".to_string())
    );
    assert_eq!(
        build_feature_info_payload("manifest", "./missing", Err("no such file".to_string())),
        Err("no such file".to_string())
    );
}

#[test]
fn template_metadata_reads_published_and_local_manifests() {
    let known = build_template_metadata_payload(
        "ghcr.io/devcontainers/templates/docker-from-docker@sha256:0123456789abcdef",
        Err(String::new()),
        None,
    )
    .expect("known");
    assert_eq!(field(&known, "id"), Some(&s("docker-from-docker")));
    assert_eq!(field(&known, "name"), Some(&s("Docker from Docker")));
    let generic = build_template_metadata_payload(
        "ghcr.io/devcontainers/templates/anaconda-postgres:latest",
        Err(String::new()),
        None,
    )
    .expect("generic");
    assert_eq!(field(&generic, "id"), Some(&s("anaconda-postgres")));
    assert_eq!(field(&generic, "name"), Some(&s("Anaconda Postgres")));
    assert_eq!(field(&generic, "description"), Some(&s("")));
    let local = build_template_metadata_payload(
        "/tmp/demo-template",
        Ok(object(vec![("id", s("demo-template")), ("name", s("Demo Template"))])),
        None,
    )
    .expect("local");
    assert_eq!(field(&local, "id"), Some(&s("demo-template")));
    assert_eq!(field(&local, "description"), Some(&s("")));
    assert_eq!(
        build_template_metadata_payload("ghcr.io/acme/other/x", Err(String::new()), None),
        Err("Unknown published template: ghcr.io/acme/other/x".to_string())
    );
}

#[test]
fn embedded_templates_use_their_own_manifest() {
    assert_eq!(embedded_template_slug("ghcr.io/devcontainers/templates/alpine:latest"), Some("alpine".to_string()));
    assert_eq!(embedded_template_slug("ghcr.io/devcontainers/templates/rust:1"), None);
    let embedded = object(vec![("id", s("alpine")), ("name", s("Alpine"))]);
    let manifest =
        published_template_manifest("ghcr.io/devcontainers/templates/alpine:latest", Some(&embedded)).expect("manifest");
    assert_eq!(manifest, embedded);
    let fallback = published_template_manifest("ghcr.io/devcontainers/templates/alpine:3", None).expect("fallback");
    assert_eq!(field(&fallback, "version"), Some(&s("3")));
}

#[test]
fn catalog_template_configuration_applies_args_and_extra_features() {
    let manifest = object(vec![("name", s("Docker from Docker"))]);
    let args = object(vec![("installZsh", s("false")), ("dockerVersion", s("20.10"))]);
    let extra = JsonValue::Array(vec![
        object(vec![("id", s("ghcr.io/devcontainers/features/git:1")), ("options", object(vec![("ppa", s("true"))]))]),
        object(vec![("options", object(vec![]))]),
        object(vec![("id", s("ghcr.io/devcontainers/features/node:1"))]),
    ]);
    let config = catalog_template_configuration("ghcr.io/x/templates/y", Some(&manifest), Ok(Some(args)), Ok(Some(extra)))
        .expect("config");
    assert_eq!(field(&config, "image"), Some(&s("mcr.microsoft.com/devcontainers/base:ubuntu")));
    let features = field(&config, "features").expect("features");
    let common = field(features, "ghcr.io/devcontainers/features/common-utils:1").expect("common");
    assert_eq!(field(common, "installZsh"), Some(&s("false")));
    assert_eq!(field(common, "upgradePackages"), Some(&s("false")));
    let docker = field(features, "ghcr.io/devcontainers/features/docker-from-docker:1").expect("docker");
    assert_eq!(field(docker, "version"), Some(&s("20.10")));
    assert_eq!(field(docker, "moby"), Some(&s("true")));
    assert_eq!(
        field(features, "ghcr.io/devcontainers/features/git:1"),
        Some(&object(vec![("ppa", s("true"))]))
    );
    assert_eq!(field(features, "ghcr.io/devcontainers/features/node:1"), Some(&object(vec![])));
    match features {
        JsonValue::Object(entries) => assert_eq!(entries.len(), 4),
        _ => panic!("features is an object"),
    }
}

#[test]
fn catalog_template_configuration_reports_errors_in_order() {
    assert_eq!(
        catalog_template_configuration("ghcr.io/x/y", None, Err("bad args".to_string()), Ok(None)),
        Err("Unknown published template: ghcr.io/x/y".to_string())
    );
    let manifest = object(vec![]);
    assert_eq!(
        catalog_template_configuration("ghcr.io/x/y", Some(&manifest), Err("bad args".to_string()), Err("bad features".to_string())),
        Err("bad args".to_string())
    );
    assert_eq!(
        catalog_template_configuration("ghcr.io/x/y", Some(&manifest), Ok(None), Err("bad features".to_string())),
        Err("bad features".to_string())
    );
    let config = catalog_template_configuration("ghcr.io/x/y", Some(&manifest), Ok(None), Ok(None)).expect("config");
    assert_eq!(field(&config, "name"), Some(&s("Docker from Docker")));
}

#[test]
fn manifest_docs_include_collection_and_repository_metadata() {
    let manifest = object(vec![
        ("id", s("docs-feature")),
        ("name", s("Docs Feature")),
        ("description", s("Generated docs")),
    ]);
    let options = ManifestDocOptions {
        registry: Some("ghcr.io".to_string()),
        namespace: Some("devcontainers/features".to_string()),
        github_owner: Some("devcontainers".to_string()),
        github_repo: Some("cli".to_string()),
    };
    let content = manifest_docs_contents(&manifest, "Feature", &options);
    assert_eq!(
        content,
        "# Docs Feature\n\nGenerated docs\n\n## OCI Reference\n\n`ghcr.io/devcontainers/features/docs-feature`\n\n## Source Repository\n\nhttps://github.com/devcontainers/cli\n"
    );
    let bare = ManifestDocOptions { registry: None, namespace: None, github_owner: None, github_repo: None };
    assert_eq!(manifest_docs_contents(&object(vec![]), "Feature", &bare), "# Feature\n\nGenerated documentation.\n");
}

#[test]
fn feature_test_scenarios_are_sorted_unique_and_filtered() {
    let dirs = vec![
        ScenarioDirectory { name: "node".to_string(), has_test_script: true, has_duplicate_script: true, named_scenarios: strings(&["node_lts", "alpha"]) },
        ScenarioDirectory { name: "_global".to_string(), has_test_script: false, has_duplicate_script: false, named_scenarios: strings(&["alpha", "global_all"]) },
        ScenarioDirectory { name: "go".to_string(), has_test_script: true, has_duplicate_script: false, named_scenarios: vec![] },
    ];
    assert_eq!(
        select_feature_test_scenarios(&dirs, &[]),
        strings(&["alpha", "global_all", "go", "node", "node executed twice with randomized options", "node_lts"])
    );
    assert_eq!(
        select_feature_test_scenarios(&dirs, &strings(&["-f", "node", "--skip-duplicated"])),
        strings(&["alpha", "node", "node_lts"])
    );
    assert_eq!(
        select_feature_test_scenarios(&dirs, &strings(&["--filter", "no", "--skip-autogenerated"])),
        strings(&["node executed twice with randomized options", "node_lts"])
    );
}

#[test]
fn feature_test_project_folder_prefers_options_then_operands() {
    assert_eq!(feature_test_project_folder(&strings(&["--project-folder", "/a", "/b"])), Ok("/a".to_string()));
    assert_eq!(feature_test_project_folder(&strings(&["--projectFolder", "/c"])), Ok("/c".to_string()));
    assert_eq!(feature_test_project_folder(&strings(&["/d", "--skip-duplicated"])), Ok("/d".to_string()));
    assert_eq!(
        feature_test_project_folder(&strings(&["--skip-duplicated"])),
        Err("features test requires a project folder".to_string())
    );
}

#[test]
fn scenario_names_and_report_lines() {
    let parsed = object(vec![("first", object(vec![])), ("second", object(vec![]))]);
    assert_eq!(scenario_names(&parsed), strings(&["first", "second"]));
    assert_eq!(scenario_names(&JsonValue::Array(vec![])), Vec::<String>::new());
    let report = feature_test_report(&strings(&["a", "b"]), &[]);
    assert_eq!(
        report,
        strings(&[
            "  ================== TEST REPORT ==================",
            "\u{2705} Passed:      'a'",
            "\u{2705} Passed:      'b'",
            "Cleaning up 2 test containers",
        ])
    );
    assert_eq!(feature_test_report(&vec![], &strings(&["--preserve-test-containers"])).len(), 1);
}

#[test]
fn features_command_lines_pick_their_action() {
    assert_eq!(features_action(&[]), Ok(CollectionAction::List));
    assert_eq!(features_action(&strings(&["ls"])), Ok(CollectionAction::List));
    assert_eq!(features_action(&strings(&["info", "manifest", "./f"])), Ok(CollectionAction::Info));
    assert_eq!(
        features_action(&strings(&["info", "manifest"])),
        Err("features info requires manifest <feature>".to_string())
    );
    assert_eq!(features_action(&strings(&["package"])), Err("features package requires <target>".to_string()));
    assert_eq!(features_action(&strings(&["publish", "./f"])), Ok(CollectionAction::Publish));
    assert_eq!(features_action(&strings(&["test"])), Ok(CollectionAction::Test));
    assert_eq!(features_action(&strings(&["bogus"])), Err("Unsupported features subcommand: bogus".to_string()));
    assert_eq!(templates_action(&strings(&["apply"])), Ok(CollectionAction::Apply));
    assert_eq!(templates_action(&strings(&["metadata"])), Err("templates metadata requires <target>".to_string()));
    assert_eq!(templates_action(&strings(&["generate-docs", "./t"])), Ok(CollectionAction::GenerateDocs));
    assert_eq!(templates_action(&strings(&["x"])), Err("Unsupported templates subcommand: x".to_string()));
}
