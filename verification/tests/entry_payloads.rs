use devcontainer::entry_payloads::{
    build_build_payload, build_entry_outdated_payload, build_entry_read_payload, build_lifecycle_payload,
    lifecycle_commands, native_only_mode_enabled, parse_remote_env,
};
use devcontainer::json::to_json_text;
use devcontainer::json_value::JsonValue;

fn s(text: &str) -> JsonValue {
    JsonValue::Str(text.to_string())
}

fn object(entries: Vec<(&str, JsonValue)>) -> JsonValue {
    let mut sorted: Vec<(String, JsonValue)> = entries.into_iter().map(|(k, v)| (k.to_string(), v)).collect();
    sorted.sort_by(|a, b| a.0.cmp(&b.0));
    JsonValue::Object(sorted)
}

fn field<'a>(value: &'a JsonValue, key: &str) -> Option<&'a JsonValue> {
    match value {
        JsonValue::Object(entries) => entries.iter().find(|(k, _)| k == key).map(|(_, v)| v),
        _ => None,
    }
}

fn args(list: &[&str]) -> Vec<String> {
    list.iter().map(|a| a.to_string()).collect()
}

#[test]
fn main_read_configuration_payload_includes_optional_sections() {
    let configuration = object(vec![
        ("image", s("mcr.microsoft.com/devcontainers/base:ubuntu")),
        ("features", object(vec![("ghcr.io/devcontainers/features/git:1", object(vec![]))])),
    ]);
    let payload = build_entry_read_payload(
        "/ws",
        "/ws/.devcontainer/devcontainer.json",
        &configuration,
        &args(&["--workspace-folder", "/ws", "--include-merged-configuration", "--include-features-configuration"]),
    );
    assert_eq!(field(field(&payload, "configuration").unwrap(), "image"), Some(&s("mcr.microsoft.com/devcontainers/base:ubuntu")));
    assert_eq!(
        field(field(&payload, "mergedConfiguration").unwrap(), "image"),
        Some(&s("mcr.microsoft.com/devcontainers/base:ubuntu"))
    );
    let features = field(field(&payload, "featuresConfiguration").unwrap(), "features").unwrap();
    assert!(field(features, "ghcr.io/devcontainers/features/git:1").is_some());
    assert_eq!(
        to_json_text(field(&payload, "metadata").unwrap()),
        r#"{"configFile":"/ws/.devcontainer/devcontainer.json","format":"jsonc","pathResolution":"native-rust","workspaceFolder":"/ws"}"#
    );
}

#[test]
fn build_payload_contains_docker_plan_and_flags() {
    let configuration = object(vec![("build", object(vec![("dockerfile", s("Dockerfile")), ("context", s(".."))]))]);
    let payload = build_build_payload(
        "/ws",
        "/ws/.devcontainer/devcontainer.json",
        &configuration,
        &args(&[
            "--workspace-folder",
            "/ws",
            "--buildkit",
            "never",
            "--no-cache",
            "--cache-from",
            "ghcr.io/example/cache",
            "--label",
            "devcontainer.test=true",
        ]),
    );
    let docker = field(&payload, "docker").unwrap();
    assert_eq!(
        to_json_text(field(docker, "args").unwrap()),
        r#"["build","--no-cache","--cache-from","ghcr.io/example/cache","--label","devcontainer.test=true","--file","Dockerfile",".."]"#
    );
    assert_eq!(field(&payload, "buildKit"), Some(&s("never")));
    assert_eq!(field(&payload, "push"), Some(&JsonValue::Bool(false)));
    assert_eq!(field(docker, "program"), Some(&s("docker")));
}

#[test]
fn build_arguments_default_the_dockerfile_and_context() {
    let payload = build_build_payload("/ws", "/ws/c.json", &object(vec![]), &args(&["--image-name", "img", "--platform", "linux/arm64", "--push"]));
    let docker = field(&payload, "docker").unwrap();
    assert_eq!(
        to_json_text(field(docker, "args").unwrap()),
        r#"["build","--tag","img","--platform","linux/arm64","--file","Dockerfile","."]"#
    );
    assert_eq!(field(&payload, "buildKit"), Some(&s("auto")));
    assert_eq!(field(&payload, "push"), Some(&JsonValue::Bool(true)));
}

#[test]
fn lifecycle_payload_collects_commands_mounts_and_remote_env() {
    let configuration = object(vec![
        ("image", s("mcr.microsoft.com/devcontainers/base:ubuntu")),
        ("onCreateCommand", s("echo create")),
        ("postCreateCommand", s("echo post")),
    ]);
    let payload = build_lifecycle_payload(
        "up",
        "/ws",
        "/ws/.devcontainer/devcontainer.json",
        &configuration,
        &args(&[
            "--workspace-folder",
            "/ws",
            "--mount",
            "type=bind,source=/tmp,target=/workspace",
            "--remote-env",
            "HELLO=world",
        ]),
    );
    assert_eq!(field(&payload, "command"), Some(&s("up")));
    assert_eq!(field(&payload, "mounts"), Some(&JsonValue::Array(vec![s("type=bind,source=/tmp,target=/workspace")])));
    assert_eq!(field(field(&payload, "remoteEnv").unwrap(), "HELLO"), Some(&s("world")));
    let JsonValue::Array(commands) = field(&payload, "lifecycleCommands").unwrap() else { panic!("array") };
    assert_eq!(commands.len(), 2);
    assert_eq!(field(&payload, "configuration"), Some(&JsonValue::Null));
    assert_eq!(
        to_json_text(&JsonValue::Array(lifecycle_commands(&configuration))),
        r#"[{"name":"onCreateCommand","value":"echo create"},{"name":"postCreateCommand","value":"echo post"}]"#
    );
}

#[test]
fn remote_env_keeps_the_last_value_of_a_name() {
    let env = parse_remote_env(&args(&["--remote-env", "A=1", "--remote-env", "B", "--remote-env", "A=2=3"]));
    assert_eq!(JsonValue::Object(env), object(vec![("A", s("2=3"))]));
}

#[test]
fn outdated_payload_reports_feature_versions() {
    let configuration = object(vec![
        ("image", s("mcr.microsoft.com/devcontainers/base:ubuntu")),
        ("features", object(vec![("ghcr.io/devcontainers/features/node:1", object(vec![])), ("local", object(vec![]))])),
    ]);
    let payload = build_entry_outdated_payload("/ws", "/ws/c.json", &configuration);
    let features = field(&payload, "features").unwrap();
    let node = field(features, "ghcr.io/devcontainers/features/node:1").unwrap();
    assert_eq!(field(node, "currentVersion"), Some(&s("1")));
    assert_eq!(field(node, "latestVersion"), Some(&s("unknown")));
    assert_eq!(field(field(features, "local").unwrap(), "currentVersion"), Some(&s("unversioned")));
}

#[test]
fn native_only_mode_uses_environment_switch() {
    assert!(native_only_mode_enabled(Some("1")));
    assert!(!native_only_mode_enabled(Some("false")));
    assert!(!native_only_mode_enabled(Some(" No ")));
    assert!(!native_only_mode_enabled(Some("")));
    assert!(native_only_mode_enabled(Some("TRUE")));
    assert!(!native_only_mode_enabled(None));
}
