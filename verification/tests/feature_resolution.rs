use devcontainer::feature_metadata::{apply_feature_metadata, feature_metadata_entry};
use devcontainer::feature_options::{
    feature_object, feature_option_values_from_manifest, feature_options, json_value_to_env,
};
use devcontainer::feature_resolution::{
    build_features_resolve_dependencies_payload, cyclic_dependency_error, declared_features,
    published_feature_manifest, resolve_feature_install_order, resolve_feature_spec, resolve_feature_support,
    FeatureInstallationSource, InstallStop,
};
use devcontainer::json::to_json_text;
use devcontainer::json_value::JsonValue;

fn s(text: &str) -> JsonValue {
    JsonValue::Str(text.to_string())
}

fn n(text: &str) -> JsonValue {
    JsonValue::Number(text.to_string())
}

fn arr(items: Vec<JsonValue>) -> JsonValue {
    JsonValue::Array(items)
}

fn object(entries: Vec<(&str, JsonValue)>) -> JsonValue {
    let mut sorted: Vec<(String, JsonValue)> = entries.into_iter().map(|(k, v)| (k.to_string(), v)).collect();
    sorted.sort_by(|a, b| a.0.cmp(&b.0));
    JsonValue::Object(sorted)
}

fn entries(value: JsonValue) -> Vec<(String, JsonValue)> {
    match value {
        JsonValue::Object(e) => e,
        _ => vec![],
    }
}

fn override_order_configuration() -> JsonValue {
    object(vec![
        ("image", s("debian:bookworm")),
        ("features", object(vec![("feature-a", object(vec![])), ("feature-b", object(vec![]))])),
        ("overrideFeatureInstallOrder", arr(vec![s("feature-b"), s("feature-a")])),
    ])
}

#[test]
fn collections_feature_dependency_resolution_respects_override_order() {
    let payload = build_features_resolve_dependencies_payload(&override_order_configuration());
    assert_eq!(
        to_json_text(&payload),
        r#"{"command":"features resolve-dependencies","outcome":"success","resolvedFeatures":["feature-b","feature-a"]}"#
    );
}

#[test]
fn features_feature_dependency_resolution_respects_override_order() {
    let payload = build_features_resolve_dependencies_payload(&override_order_configuration());
    let JsonValue::Object(e) = payload else { panic!("object") };
    let resolved = &e.iter().find(|(k, _)| k == "resolvedFeatures").expect("resolved").1;
    assert_eq!(resolved, &arr(vec![s("feature-b"), s("feature-a")]));
}

#[test]
fn override_order_skips_undeclared_and_non_text_entries() {
    let configuration = object(vec![
        ("features", object(vec![("a", object(vec![])), ("b", object(vec![])), ("c", object(vec![]))])),
        ("overrideFeatureInstallOrder", arr(vec![s("c"), n("1"), s("zzz"), s("a")])),
    ]);
    let payload = build_features_resolve_dependencies_payload(&configuration);
    assert_eq!(
        to_json_text(&payload),
        r#"{"command":"features resolve-dependencies","outcome":"success","resolvedFeatures":["c","a","b"]}"#
    );
}

fn local_manifest(id: &str, depends_on: Vec<&str>) -> JsonValue {
    object(vec![
        ("id", s(id)),
        ("version", s("1.0.0")),
        ("dependsOn", object(depends_on.into_iter().map(|d| (d, object(vec![]))).collect())),
    ])
}

#[test]
fn install_order_puts_dependencies_first() {
    let declared = entries(object(vec![("./a", object(vec![])), ("./b", object(vec![]))]));
    let manifests = vec![
        ("./a".to_string(), local_manifest("a", vec!["./b"])),
        ("./b".to_string(), local_manifest("b", vec![])),
    ];
    let configuration = object(vec![]);
    let order = resolve_feature_install_order(&declared, &configuration, &manifests).expect("order");
    assert_eq!(order, vec!["./b".to_string(), "./a".to_string()]);
}

#[test]
fn install_order_reports_a_dependency_cycle() {
    let declared = entries(object(vec![("./a", object(vec![]))]));
    let manifests = vec![
        ("./a".to_string(), local_manifest("a", vec!["./b"])),
        ("./b".to_string(), local_manifest("b", vec!["./a"])),
    ];
    let result = resolve_feature_install_order(&declared, &object(vec![]), &manifests);
    assert_eq!(result, Err(InstallStop::Cyclic("./a".to_string())));
    assert_eq!(cyclic_dependency_error("./a"), "Detected cyclic feature dependency at ./a");
}

#[test]
fn install_order_asks_for_a_missing_local_manifest() {
    let declared = entries(object(vec![("./a", object(vec![])), ("ghcr.io/devcontainers/features/github-cli:1", object(vec![]))]));
    let manifests = vec![("./a".to_string(), local_manifest("a", vec!["./c"]))];
    let result = resolve_feature_install_order(&declared, &object(vec![]), &manifests);
    assert_eq!(result, Err(InstallStop::NeedManifest("./c".to_string())));
}

#[test]
fn published_manifests_are_known_by_base_reference() {
    let manifest = published_feature_manifest("ghcr.io/devcontainers/features/azure-cli:1").expect("manifest");
    assert_eq!(
        to_json_text(&manifest),
        r#"{"id":"azure-cli","name":"Azure CLI","options":{"version":{"default":"latest","type":"string"}},"version":"1.2.1"}"#
    );
    let generic = published_feature_manifest("ghcr.io/acme/features/my-tool:2").expect("generic");
    assert_eq!(to_json_text(&generic), r#"{"id":"my-tool","name":"My Tool","options":{},"version":"2"}"#);
    assert!(published_feature_manifest("ghcr.io/acme/templates/thing").is_none());
}

#[test]
fn feature_spec_of_an_unknown_published_feature_falls_back_to_its_slug() {
    let spec = resolve_feature_spec("ghcr.io/acme/other/my-thing:3", &object(vec![]), "/ws/.devcontainer", &vec![])
        .expect("spec");
    assert_eq!(
        to_json_text(&spec.manifest),
        r#"{"id":"my-thing","name":"My Thing","options":{},"version":"latest"}"#
    );
    assert_eq!(
        to_json_text(&spec.source_information),
        r#"{"type":"oci","userFeatureId":"ghcr.io/acme/other/my-thing:3","userFeatureIdWithoutVersion":"ghcr.io/acme/other/my-thing"}"#
    );
    assert!(matches!(spec.installation.source, FeatureInstallationSource::Published(ref id) if id == "ghcr.io/acme/other/my-thing:3"));
    assert!(spec.depends_on.is_empty());
}

#[test]
fn feature_spec_of_a_local_feature_uses_its_manifest() {
    let manifests = vec![("./local".to_string(), local_manifest("local", vec!["./other"]))];
    let spec = resolve_feature_spec("./local", &object(vec![]), "/ws/.devcontainer", &manifests).expect("spec");
    assert_eq!(
        to_json_text(&spec.source_information),
        r#"{"resolvedFilePath":"/ws/.devcontainer/./local","type":"file-path","userFeatureId":"./local"}"#
    );
    assert!(matches!(spec.installation.source, FeatureInstallationSource::Local(ref dir) if dir == "/ws/.devcontainer/./local"));
    assert_eq!(spec.depends_on, vec!["./other".to_string()]);
    assert!(resolve_feature_spec("./missing", &object(vec![]), "/ws", &manifests).is_none());
}

#[test]
fn feature_support_reports_feature_sets_in_install_order() {
    let declared = entries(object(vec![(
        "ghcr.io/devcontainers/features/github-cli:1",
        object(vec![("version", s("2.0"))]),
    )]));
    let support = resolve_feature_support(&declared, &object(vec![]), "/ws", &vec![])
        .expect("resolved")
        .expect("features");
    assert_eq!(support.ordered_feature_ids, vec!["ghcr.io/devcontainers/features/github-cli:1".to_string()]);
    assert_eq!(
        to_json_text(&support.features_configuration),
        concat_parts(&[
            r#"{"featureSets":[{"features":[{"id":"github-cli","included":true,"name":"GitHub CLI","#,
            r#""options":{"version":"2.0"},"value":{"version":"2.0"},"version":"1.0.9"}],"#,
            r#""internalVersion":"2","sourceInformation":{"type":"oci","userFeatureId":"ghcr.io/devcontainers/features/github-cli:1","#,
            r#""userFeatureIdWithoutVersion":"ghcr.io/devcontainers/features/github-cli"}}]}"#,
        ])
    );
    assert!(support.metadata_entries.is_empty());
    assert_eq!(support.installations[0].env, vec![("VERSION".to_string(), "2.0".to_string())]);
    assert!(resolve_feature_support(&vec![], &object(vec![]), "/ws", &vec![]).expect("ok").is_none());
}

fn concat_parts(parts: &[&str]) -> String {
    parts.concat()
}

#[test]
fn additional_features_are_put_over_the_declared_ones() {
    let configuration = object(vec![("features", object(vec![("a", s("1")), ("b", s("2"))]))]);
    let additional = object(vec![("b", s("3")), ("c", s("4"))]);
    let declared = declared_features(&configuration, Some(&additional)).expect("declared");
    assert_eq!(JsonValue::Object(declared), object(vec![("a", s("1")), ("b", s("3")), ("c", s("4"))]));
    assert_eq!(
        declared_features(&configuration, Some(&arr(vec![]))),
        Err("--additional-features must be a JSON object".to_string())
    );
}

#[test]
fn feature_options_put_configured_values_over_defaults() {
    let manifest = object(vec![(
        "options",
        object(vec![
            ("version", object(vec![("type", s("string")), ("default", s("latest"))])),
            ("installTools", object(vec![("type", s("boolean")), ("default", JsonValue::Bool(true))])),
            ("note", object(vec![("type", s("string"))])),
        ]),
    )]);
    let value = object(vec![("version", s("3.11")), ("extra-flag", n("2"))]);
    assert_eq!(
        to_json_text(&feature_options(&manifest, &value)),
        r#"{"extra-flag":2,"installTools":true,"version":"3.11"}"#
    );
    assert_eq!(
        feature_option_values_from_manifest(&manifest, &value),
        vec![
            ("EXTRA_FLAG".to_string(), "2".to_string()),
            ("INSTALLTOOLS".to_string(), "true".to_string()),
            ("VERSION".to_string(), "3.11".to_string()),
        ]
    );
    assert_eq!(json_value_to_env(&JsonValue::Null), "");
    assert_eq!(json_value_to_env(&arr(vec![s("a"), n("1")])), r#"["a",1]"#);
}

#[test]
fn feature_object_moves_legacy_customizations_under_vscode() {
    let manifest = object(vec![
        ("id", s("legacy")),
        ("extensions", arr(vec![s("ms-python.python")])),
        ("settings", object(vec![("editor.tabSize", n("4"))])),
        ("customizations", object(vec![("vscode", object(vec![("extensions", arr(vec![s("first.one")]))]))])),
    ]);
    let feature = feature_object(&manifest, &object(vec![]), &s("latest"));
    assert_eq!(
        to_json_text(&feature),
        concat_parts(&[
            r#"{"customizations":{"vscode":{"extensions":["first.one","ms-python.python"],"settings":{"editor.tabSize":4}}},"#,
            r#""id":"legacy","included":true,"options":{},"value":"latest"}"#,
        ])
    );
}

#[test]
fn metadata_entry_keeps_only_metadata_keys() {
    let manifest = object(vec![
        ("id", s("demo")),
        ("init", JsonValue::Bool(true)),
        ("containerEnv", object(vec![("A", s("1"))])),
        ("postCreateCommand", s("echo hi")),
        ("installsAfter", arr(vec![])),
    ]);
    assert_eq!(
        to_json_text(&feature_metadata_entry(&manifest)),
        r#"{"containerEnv":{"A":"1"},"init":true,"postCreateCommand":"echo hi"}"#
    );
    assert_eq!(feature_metadata_entry(&s("x")), object(vec![]));
}

#[test]
fn feature_metadata_merges_into_the_configuration() {
    let configuration = object(vec![
        ("capAdd", arr(vec![s("SYS_PTRACE")])),
        ("containerEnv", object(vec![("A", s("1"))])),
        ("mounts", arr(vec![s("type=volume,source=a,target=/data")])),
        ("postCreateCommand", s("echo config")),
        ("remoteUser", s("root")),
    ]);
    let metadata = vec![
        object(vec![
            ("init", JsonValue::Bool(true)),
            ("privileged", JsonValue::Bool(false)),
            ("capAdd", arr(vec![s("SYS_PTRACE"), s("NET_ADMIN")])),
            ("containerEnv", object(vec![("A", s("2")), ("B", s("3"))])),
            ("mounts", arr(vec![object(vec![("source", s("b")), ("target", s("/data")), ("type", s("bind"))])])),
            ("postCreateCommand", s("echo feature")),
            ("remoteUser", s("vscode")),
            ("customizations", object(vec![("vscode", object(vec![]))])),
        ]),
    ];
    let merged = apply_feature_metadata(&configuration, &metadata, true);
    assert_eq!(
        to_json_text(&merged),
        concat_parts(&[
            r#"{"capAdd":["SYS_PTRACE","NET_ADMIN"],"containerEnv":{"A":"2","B":"3"},"init":true,"#,
            r#""mounts":[{"source":"b","target":"/data","type":"bind"}],"#,
            r#""postCreateCommand":{"0":"echo config","1":"echo feature"},"remoteUser":"vscode"}"#,
        ])
    );
    let with_customizations = apply_feature_metadata(&configuration, &metadata, false);
    let JsonValue::Object(e) = with_customizations else { panic!("object") };
    assert!(e.iter().any(|(k, _)| k == "customizations"));
}
