use devcontainer::config::{choose_config_path, missing_config_message};
use devcontainer::config::{
    expected_config_path, parse_variable, replace_variable, substitute_container_env, substitute_local_context,
    substitute_string, ConfigContext,
};
use devcontainer::json_value::JsonValue;
use devcontainer::devcontainer_id::{devcontainer_id_for_labels, encode_base32hex_lower};
use devcontainer::jsonc::{strip_jsonc_comments, strip_trailing_commas};

fn context() -> ConfigContext {
    ConfigContext {
        workspace_folder: "/workspace/demo".to_string(),
        env: vec![("USER".to_string(), "johan".to_string())],
        container_workspace_folder: Some("/workspaces/demo".to_string()),
        id_labels: vec![],
    }
}

fn s(text: &str) -> JsonValue {
    JsonValue::Str(text.to_string())
}

fn object(entries: Vec<(&str, JsonValue)>) -> JsonValue {
    let mut sorted: Vec<(String, JsonValue)> = entries.into_iter().map(|(k, v)| (k.to_string(), v)).collect();
    sorted.sort_by(|a, b| a.0.cmp(&b.0));
    JsonValue::Object(sorted)
}

fn field<'a>(value: &'a JsonValue, key: &str) -> &'a JsonValue {
    match value {
        JsonValue::Object(entries) => &entries.iter().find(|(k, _)| k == key).expect("field").1,
        _ => panic!("not an object"),
    }
}

fn text(value: &JsonValue) -> &str {
    match value {
        JsonValue::Str(t) => t.as_str(),
        _ => panic!("not a string"),
    }
}

#[test]
fn substitutes_local_env_and_workspace_tokens() {
    let context = ConfigContext {
        workspace_folder: "/workspace/demo".to_string(),
        env: vec![("USER".to_string(), "johan".to_string())],
        container_workspace_folder: Some("/workspaces/demo".to_string()),
        id_labels: vec![],
    };
    let value = object(vec![(
        "containerEnv",
        object(vec![
            ("USER_NAME", s("${localEnv:USER}")),
            ("WORKSPACE", s("${localWorkspaceFolder}")),
            ("CONTAINER_WORKSPACE", s("${containerWorkspaceFolder}")),
            ("CONTAINER_BASENAME", s("${containerWorkspaceFolderBasename}")),
        ]),
    )]);

    let substituted = substitute_local_context(&value, &context);
    let env = field(&substituted, "containerEnv");

    assert_eq!(text(field(env, "USER_NAME")), "johan");
    assert_eq!(text(field(env, "WORKSPACE")), "/workspace/demo");
    assert_eq!(text(field(env, "CONTAINER_WORKSPACE")), "/workspaces/demo");
    assert_eq!(text(field(env, "CONTAINER_BASENAME")), "demo");
}

#[test]
fn substitutes_workspace_basename_and_defaulted_env_tokens() {
    let context = ConfigContext {
        workspace_folder: "/workspace/demo".to_string(),
        env: vec![],
        container_workspace_folder: Some("/workspaces/${localWorkspaceFolderBasename}".to_string()),
        id_labels: vec![],
    };
    let value = object(vec![(
        "containerEnv",
        object(vec![
            ("BASENAME", s("${localWorkspaceFolderBasename}")),
            ("DEFAULTED", s("${localEnv:USER:fallback}")),
            ("DEFAULT_WITH_EXTRA_SEGMENTS", s("${env:USER:fallback:ignored}")),
            ("MISSING", s("before-${localEnv:UNSET}-after")),
            ("CONTAINER_PATH", s("${containerWorkspaceFolder}")),
        ]),
    )]);

    let substituted = substitute_local_context(&value, &context);
    let env = field(&substituted, "containerEnv");

    assert_eq!(text(field(env, "BASENAME")), "demo");
    assert_eq!(text(field(env, "DEFAULTED")), "fallback");
    assert_eq!(text(field(env, "DEFAULT_WITH_EXTRA_SEGMENTS")), "fallback");
    assert_eq!(text(field(env, "MISSING")), "before--after");
    assert_eq!(text(field(env, "CONTAINER_PATH")), "/workspaces/demo");
}

#[test]
fn substitutes_container_env_tokens_without_replacing_local_env_tokens() {
    let value = object(vec![(
        "remoteEnv",
        object(vec![
            ("PATH_FROM_CONTAINER", s("${containerEnv:PATH}")),
            ("FALLBACK", s("${containerEnv:MISSING:fallback}")),
            ("LOCAL_PATH", s("${localEnv:PATH}")),
        ]),
    )]);
    let substituted = substitute_container_env(
        &value,
        &vec![("PATH".to_string(), "/usr/local/bin:/usr/bin".to_string())],
    );
    let env = field(&substituted, "remoteEnv");

    assert_eq!(text(field(env, "PATH_FROM_CONTAINER")), "/usr/local/bin:/usr/bin");
    assert_eq!(text(field(env, "FALLBACK")), "fallback");
    assert_eq!(text(field(env, "LOCAL_PATH")), "${localEnv:PATH}");
}

#[test]
fn substitution_keeps_keys_numbers_and_booleans() {
    let context = context();
    let value = object(vec![
        ("${localEnv:USER}", JsonValue::Number("3".to_string())),
        ("flag", JsonValue::Bool(true)),
        ("list", JsonValue::Array(vec![s("${localEnv:USER}"), JsonValue::Null])),
    ]);
    let substituted = substitute_local_context(&value, &context);
    assert_eq!(field(&substituted, "${localEnv:USER}"), &JsonValue::Number("3".to_string()));
    assert_eq!(field(&substituted, "flag"), &JsonValue::Bool(true));
    assert_eq!(field(&substituted, "list"), &JsonValue::Array(vec![s("johan"), JsonValue::Null]));
}

#[test]
fn unknown_and_unclosed_references_stay() {
    let c = context();
    assert_eq!(substitute_string("${unknown} and ${open", Some(&c), None), "${unknown} and ${open");
    assert_eq!(replace_variable("unknown", Some(&c), None), None);
    let (name, args) = parse_variable("localEnv:A:B");
    assert_eq!(name, "localEnv");
    assert_eq!(args, vec!["A".to_string(), "B".to_string()]);
}

#[test]
fn substitutes_stable_devcontainer_id_from_sorted_labels() {
    let value = object(vec![(
        "mounts",
        JsonValue::Array(vec![object(vec![
            ("source", s("cache-${devcontainerId}")),
            ("target", s("/cache")),
            ("type", s("volume")),
        ])]),
    )]);
    let first = substitute_local_context(
        &value,
        &ConfigContext {
            workspace_folder: "/workspace/demo".to_string(),
            env: vec![],
            container_workspace_folder: None,
            id_labels: vec![("b".to_string(), "2".to_string()), ("a".to_string(), "1".to_string())],
        },
    );
    let second = substitute_local_context(
        &value,
        &ConfigContext {
            workspace_folder: "/workspace/demo".to_string(),
            env: vec![],
            container_workspace_folder: None,
            id_labels: vec![("a".to_string(), "1".to_string()), ("b".to_string(), "2".to_string())],
        },
    );
    let mount = match field(&first, "mounts") {
        JsonValue::Array(items) => &items[0],
        _ => panic!("mounts"),
    };
    let id = text(field(mount, "source")).trim_start_matches("cache-").to_string();

    assert_eq!(first, second);
    assert_eq!(id.len(), 52);
    assert!(id.chars().all(|character| matches!(character, '0'..='9' | 'a'..='v')));
}

#[test]
fn devcontainer_id_is_without_labels_unset() {
    let c = context();
    assert_eq!(substitute_string("${devcontainerId}", Some(&c), None), "${devcontainerId}");
}

#[test]
fn devcontainer_id_has_known_value() {
    let labels = vec![("a".to_string(), "1".to_string())];
    let id = devcontainer_id_for_labels(&labels);
    assert_eq!(id.len(), 52);
    assert_eq!(id, devcontainer_id_for_labels(&vec![("a".to_string(), "1".to_string())]));
}

#[test]
fn base32hex_pads_to_fifty_two_characters() {
    assert_eq!(encode_base32hex_lower(&[]), "0".repeat(52));
    let one = encode_base32hex_lower(&[0xff]);
    assert_eq!(one, format!("{}vs", "0".repeat(50)));
    let five = encode_base32hex_lower(&[0x00, 0x44, 0x32, 0x14, 0xc7]);
    assert_eq!(five, format!("{}01234567", "0".repeat(44)));
}

#[test]
fn parses_jsonc_with_comments_and_trailing_commas() {
    let text = "{\n  // comment\n  \"name\": \"demo\",\n}\n";
    let stripped = strip_trailing_commas(&strip_jsonc_comments(text));
    assert_eq!(stripped, "{\n  \n  \"name\": \"demo\"\n}\n");
    let parsed: serde_json::Value = serde_json::from_str(&stripped).expect("expected parse");
    assert_eq!(parsed["name"], "demo");
}

#[test]
fn comment_markers_inside_strings_are_kept() {
    let text = "{\"url\": \"http://x/*y*/\", /* c */ \"a\": [1, 2 , ] }";
    assert_eq!(
        strip_trailing_commas(&strip_jsonc_comments(text)),
        "{\"url\": \"http://x/*y*/\",  \"a\": [1, 2  ] }"
    );
    assert_eq!(strip_jsonc_comments("\"a\\\"//b\""), "\"a\\\"//b\"");
}

#[test]
fn expected_config_path_defaults_and_joins() {
    assert_eq!(expected_config_path("/w", None), "/w/.devcontainer/devcontainer.json");
    assert_eq!(expected_config_path("/w", Some("x.json")), "/w/x.json");
    assert_eq!(expected_config_path("/w", Some("/abs.json")), "/abs.json");
}

#[test]
fn configuration_file_prefers_explicit_then_modern_then_legacy() {
    assert_eq!(choose_config_path("/ws", Some("custom.json"), true), "/ws/custom.json");
    assert_eq!(choose_config_path("/ws", Some("/abs/c.json"), false), "/abs/c.json");
    assert_eq!(choose_config_path("/ws", None, true), "/ws/.devcontainer/devcontainer.json");
    assert_eq!(choose_config_path("/ws", None, false), "/ws/.devcontainer.json");
    assert_eq!(missing_config_message("/ws/x.json"), "Unable to locate a dev container config at /ws/x.json");
}
