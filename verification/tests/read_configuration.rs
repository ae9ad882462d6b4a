use devcontainer::json::to_json_text;
use devcontainer::json_value::{json_clone, JsonValue};
use devcontainer::read_configuration::{
    container_metadata_entries, inspect_details, merged_configuration_payload, pick_config_metadata,
    read_configuration_payload, read_configuration_value, workspace_payload,
};
use devcontainer::runtime::ResolvedConfig;

fn s(text: &str) -> JsonValue {
    JsonValue::Str(text.to_string())
}

fn object(entries: Vec<(&str, JsonValue)>) -> JsonValue {
    let mut sorted: Vec<(String, JsonValue)> = entries.into_iter().map(|(k, v)| (k.to_string(), v)).collect();
    sorted.sort_by(|a, b| a.0.cmp(&b.0));
    JsonValue::Object(sorted)
}

fn field<'a>(value: &'a JsonValue, key: &str) -> Option<&'a JsonValue> {
    match value {
        JsonValue::Object(entries) => entries.iter().find(|(k, _)| k == key).map(|(_, v)| v),
        _ => None,
    }
}

#[test]
fn config_metadata_is_picked_from_the_configuration() {
    let configuration = object(vec![
        ("image", s("debian:bookworm")),
        ("remoteUser", s("vscode")),
        ("postCreateCommand", s("make")),
    ]);
    assert_eq!(
        to_json_text(&pick_config_metadata(&configuration)),
        r#"{"postCreateCommand":"make","remoteUser":"vscode"}"#
    );
}

#[test]
fn merged_configuration_puts_feature_metadata_before_the_configuration() {
    let configuration = object(vec![
        ("image", s("debian:bookworm")),
        ("containerEnv", object(vec![("CONFIG_ENV", s("present"))])),
    ]);
    let feature = object(vec![
        ("containerEnv", object(vec![("LOCAL_FEATURE_ENV", s("enabled"))])),
        ("init", JsonValue::Bool(true)),
    ]);
    let merged = merged_configuration_payload(&configuration, &vec![feature]);
    assert_eq!(field(&merged, "image"), Some(&s("debian:bookworm")));
    assert_eq!(field(&merged, "init"), Some(&JsonValue::Bool(true)));
    let env = field(&merged, "containerEnv").expect("env");
    assert_eq!(field(env, "LOCAL_FEATURE_ENV"), Some(&s("enabled")));
    assert_eq!(field(env, "CONFIG_ENV"), Some(&s("present")));
}

fn loaded() -> ResolvedConfig {
    ResolvedConfig {
        workspace_folder: "/home/me/project".to_string(),
        config_file: "/home/me/project/.devcontainer/devcontainer.json".to_string(),
        configuration: object(vec![("image", s("debian:bookworm")), ("remoteEnv", object(vec![("P", s("${containerEnv:PATH}"))]))]),
    }
}

#[test]
fn read_configuration_adds_the_config_file_path() {
    let value = read_configuration_value(Some(&loaded()), None);
    assert_eq!(
        field(&value, "configFilePath"),
        Some(&s("/home/me/project/.devcontainer/devcontainer.json"))
    );
    let env = vec![("PATH".to_string(), "/usr/bin".to_string())];
    let substituted = read_configuration_value(Some(&loaded()), Some(&env));
    assert_eq!(field(field(&substituted, "remoteEnv").expect("remoteEnv"), "P"), Some(&s("/usr/bin")));
    assert_eq!(read_configuration_value(None, None), object(vec![]));
}

#[test]
fn workspace_payload_reports_folder_and_mount() {
    let resolved = loaded();
    assert_eq!(
        to_json_text(&workspace_payload(&resolved)),
        r#"{"workspaceFolder":"/workspaces/project","workspaceMount":"type=bind,source=/home/me/project,target=/workspaces/project"}"#
    );
    let compose = ResolvedConfig {
        configuration: object(vec![("dockerComposeFile", s("compose.yml")), ("service", s("app")), ("workspaceFolder", s("/app"))]),
        ..loaded()
    };
    assert_eq!(to_json_text(&workspace_payload(&compose)), r#"{"workspaceFolder":"/app"}"#);
}

#[test]
fn inspect_details_read_environment_and_labels() {
    let inspected = JsonValue::Array(vec![object(vec![(
        "Config",
        object(vec![
            ("Env", JsonValue::Array(vec![s("PATH=/usr/bin"), s("EMPTY="), s("NOEQUALS"), s("A=b=c")])),
            (
                "Labels",
                object(vec![
                    ("devcontainer.local_folder", s("/home/me/project")),
                    ("devcontainer.metadata", s("[{\"remoteUser\":\"vscode\"}]")),
                ]),
            ),
        ]),
    )])]);
    let details = inspect_details(&inspected).expect("details");
    assert_eq!(
        details.container_env,
        vec![
            ("PATH".to_string(), "/usr/bin".to_string()),
            ("EMPTY".to_string(), String::new()),
            ("A".to_string(), "b=c".to_string()),
        ]
    );
    assert_eq!(details.local_folder.as_deref(), Some("/home/me/project"));
    assert_eq!(details.metadata_label.as_deref(), Some("[{\"remoteUser\":\"vscode\"}]"));
    assert_eq!(
        inspect_details(&JsonValue::Array(vec![])).err(),
        Some("Container engine did not return inspect details".to_string())
    );
}

#[test]
fn container_metadata_entries_take_the_container_environment() {
    let label = JsonValue::Array(vec![object(vec![("remoteEnv", object(vec![("P", s("${containerEnv:PATH}"))]))])]);
    let env = vec![("PATH".to_string(), "/usr/bin".to_string())];
    let entries = container_metadata_entries(Some(&label), None, &env);
    assert_eq!(to_json_text(&entries[0]), r#"{"remoteEnv":{"P":"/usr/bin"}}"#);
    assert!(container_metadata_entries(None, None, &env).is_empty());
}

#[test]
fn read_payload_includes_sections_as_asked() {
    let configuration = object(vec![("image", s("debian:bookworm"))]);
    let merged = object(vec![("image", s("debian:bookworm"))]);
    let payload = read_configuration_payload(json_clone(&configuration), None, None, json_clone(&merged), false, true, false);
    assert_eq!(
        to_json_text(&payload),
        r#"{"configuration":{"image":"debian:bookworm"},"featuresConfiguration":{"featureSets":[]},"mergedConfiguration":{"image":"debian:bookworm"}}"#
    );
    let inspected = read_configuration_payload(json_clone(&configuration), None, None, json_clone(&merged), false, true, true);
    assert!(field(&inspected, "featuresConfiguration").is_none());
    let plain = read_configuration_payload(configuration, Some(object(vec![])), None, merged, false, false, false);
    assert_eq!(to_json_text(&plain), r#"{"configuration":{"image":"debian:bookworm"},"workspace":{}}"#);
}
