use devcontainer::compose_mounts::{
    compose_mount_definition, compose_mount_definition_from_str, parse_mount_option_scalar, ComposeVolumeEntry,
};
use devcontainer::compose_override::{compose_override_content, compose_volumes, compose_workspace_volume};
use devcontainer::json_value::JsonValue;
use devcontainer::runtime::ResolvedConfig;

fn s(text: &str) -> JsonValue {
    JsonValue::Str(text.to_string())
}

fn n(text: &str) -> JsonValue {
    JsonValue::Number(text.to_string())
}

fn object(entries: Vec<(&str, JsonValue)>) -> JsonValue {
    let mut sorted: Vec<(String, JsonValue)> = entries.into_iter().map(|(k, v)| (k.to_string(), v)).collect();
    sorted.sort_by(|a, b| a.0.cmp(&b.0));
    JsonValue::Object(sorted)
}

fn fields(entries: Vec<(&str, JsonValue)>) -> Vec<(String, JsonValue)> {
    match object(entries) {
        JsonValue::Object(e) => e,
        _ => unreachable!(),
    }
}

fn resolved(configuration: JsonValue) -> ResolvedConfig {
    ResolvedConfig {
        workspace_folder: "/home/me/project".to_string(),
        config_file: "/home/me/project/.devcontainer/devcontainer.json".to_string(),
        configuration,
    }
}

#[test]
fn mount_option_scalars_are_booleans_integers_or_text() {
    assert_eq!(parse_mount_option_scalar("\"true\""), JsonValue::Bool(true));
    assert_eq!(parse_mount_option_scalar("false"), JsonValue::Bool(false));
    assert_eq!(parse_mount_option_scalar("+0042"), n("42"));
    assert_eq!(parse_mount_option_scalar("-0"), n("0"));
    assert_eq!(parse_mount_option_scalar("-9223372036854775808"), n("-9223372036854775808"));
    assert_eq!(parse_mount_option_scalar("18446744073709551615"), n("18446744073709551615"));
    assert_eq!(parse_mount_option_scalar("18446744073709551616"), s("18446744073709551616"));
    assert_eq!(parse_mount_option_scalar("-+1"), s("-+1"));
    assert_eq!(parse_mount_option_scalar("private"), s("private"));
}

#[test]
fn mount_strings_become_long_syntax_fields() {
    let definition = compose_mount_definition_from_str(
        "type=bind,src=\"/a\",dst=/b,ro,bind-propagation=rprivate,volume-nocopy=true,tmpfs.size=64,external=false",
    )
    .expect("definition");
    assert_eq!(
        definition.fields,
        fields(vec![
            ("bind", object(vec![("propagation", s("rprivate"))])),
            ("read_only", JsonValue::Bool(true)),
            ("source", s("/a")),
            ("target", s("/b")),
            ("tmpfs", object(vec![("size", n("64"))])),
            ("type", s("bind")),
            ("volume", object(vec![("external", JsonValue::Bool(false)), ("nocopy", JsonValue::Bool(true))])),
        ])
    );
    assert!(compose_mount_definition_from_str("type=volume,source=x").is_none());
    assert_eq!(definition.mount_type().as_deref(), Some("bind"));
    assert_eq!(definition.short_syntax(), None);
    let short = compose_mount_definition_from_str("source=/a,target=/b,readonly").expect("short");
    assert_eq!(short.short_syntax().as_deref(), Some("/a:/b:ro"));
}

#[test]
fn mount_objects_become_long_syntax_fields() {
    match compose_mount_definition(&object(vec![
        ("src", s("cache")),
        ("destination", s("/cache")),
        ("readOnly", JsonValue::Bool(true)),
        ("external", JsonValue::Bool(true)),
        ("consistency", s("delegated")),
    ])) {
        Some(ComposeVolumeEntry::Long(d)) => assert_eq!(
            d.fields,
            fields(vec![
                ("consistency", s("delegated")),
                ("read_only", JsonValue::Bool(true)),
                ("source", s("cache")),
                ("target", s("/cache")),
                ("type", s("bind")),
                ("volume", object(vec![("external", JsonValue::Bool(true))])),
            ])
        ),
        _ => panic!("expected long syntax"),
    }
    assert!(compose_mount_definition(&object(vec![("source", s("x"))])).is_none());
    assert!(compose_mount_definition(&n("1")).is_none());
}

#[test]
fn workspace_volume_uses_short_syntax_for_plain_binds() {
    match compose_workspace_volume(&resolved(object(vec![])), "/workspaces/project") {
        Some(ComposeVolumeEntry::Short(v)) => assert_eq!(v, "/home/me/project:/workspaces/project"),
        _ => panic!("expected short syntax"),
    }
    let volume_mount = object(vec![("workspaceMount", s("type=volume,source=v,target=/w"))]);
    assert!(compose_workspace_volume(&resolved(volume_mount), "/w").is_none());
    let consistent = object(vec![("workspaceMount", s("source=/a,target=/w,consistency=cached"))]);
    assert!(matches!(
        compose_workspace_volume(&resolved(consistent), "/w"),
        Some(ComposeVolumeEntry::Long(_))
    ));
    let with_mounts = object(vec![("mounts", JsonValue::Array(vec![s("source=/c,target=/c"), s("nothing")]))]);
    assert_eq!(compose_volumes(&resolved(with_mounts), "/w").len(), 2);
}

#[test]
fn override_file_pins_labels_image_volumes_and_settings() {
    let configuration = object(vec![
        ("dockerComposeFile", s("docker-compose.yml")),
        ("service", s("app")),
        ("containerEnv", object(vec![("A", s("it's"))])),
        ("containerUser", s("node")),
        ("privileged", JsonValue::Bool(true)),
        ("capAdd", JsonValue::Array(vec![s("SYS_PTRACE")])),
        ("entrypoint", s("/init")),
        ("mounts", JsonValue::Array(vec![s("type=volume,source=cache,target=/cache,volume-nocopy=true")])),
    ]);
    let content = compose_override_content(
        &resolved(configuration),
        &["--id-label".to_string(), "price=$5".to_string()],
        "/workspaces/project",
        Some("my-image"),
        true,
    )
    .expect("content");
    let expected = [
        "services:\n",
        "  'app':\n",
        "    labels:\n",
        "      - 'devcontainer.local_folder=/home/me/project'\n",
        "      - 'devcontainer.config_file=/home/me/project/.devcontainer/devcontainer.json'\n",
        "      - 'devcontainer.metadata={\"containerEnv\":{\"A\":\"it''s\"},\"containerUser\":\"node\",\"workspaceFolder\":\"/workspaces/project\"}'\n",
        "      - 'price=$$5'\n",
        "    image: 'my-image'\n",
        "\n",
        "    volumes:\n",
        "      - '/home/me/project:/workspaces/project'\n",
        "      - source: 'cache'\n",
        "        target: '/cache'\n",
        "        type: 'volume'\n",
        "        volume:\n",
        "          nocopy: true\n",
        "    environment:\n",
        "      A: 'it''s'\n",
        "    user: 'node'\n",
        "    privileged: true\n",
        "    cap_add:\n",
        "      - 'SYS_PTRACE'\n",
        "    entrypoint: '/init'\n",
        "    deploy:\n",
        "      resources:\n",
        "        reservations:\n",
        "          devices:\n",
        "            - capabilities: [gpu]\n",
    ]
    .concat();
    assert_eq!(content, expected);
}

#[test]
fn override_file_needs_a_service() {
    let content = compose_override_content(&resolved(object(vec![])), &[], "/w", None, false);
    assert_eq!(content, Err("Compose configuration must define service".to_string()));
}

#[test]
fn override_file_runs_as_the_remote_user_without_a_container_user() {
    let configuration = object(vec![
        ("service", s("app")),
        ("remoteUser", s("vscode")),
    ]);
    let content = compose_override_content(&resolved(configuration), &[], "/w", None, false).expect("content");
    assert!(content.contains("    user: 'vscode'\n"));
    let both = object(vec![
        ("service", s("app")),
        ("remoteUser", s("vscode")),
        ("containerUser", s("root")),
    ]);
    let content = compose_override_content(&resolved(both), &[], "/w", None, false).expect("content");
    assert!(content.contains("    user: 'root'\n"));
    assert!(!content.contains("vscode'\n    "));
}
