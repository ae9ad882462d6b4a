use devcontainer::host_requirements::{cpus_text, memory_bytes_text};
use devcontainer::json_value::JsonValue;
use devcontainer::merge::merge_configuration;
use devcontainer::metadata::merged_container_metadata;

fn s(text: &str) -> JsonValue {
    JsonValue::Str(text.to_string())
}

fn n(text: &str) -> JsonValue {
    JsonValue::Number(text.to_string())
}

fn object(entries: Vec<(&str, JsonValue)>) -> JsonValue {
    let mut sorted: Vec<(String, JsonValue)> = entries.into_iter().map(|(k, v)| (k.to_string(), v)).collect();
    sorted.sort_by(|a, b| a.0.cmp(&b.0));
    JsonValue::Object(sorted)
}

fn field<'a>(value: &'a JsonValue, key: &str) -> Option<&'a JsonValue> {
    match value {
        JsonValue::Object(entries) => entries.iter().find(|(k, _)| k == key).map(|(_, v)| v),
        _ => None,
    }
}

fn keys(value: &JsonValue) -> Vec<String> {
    match value {
        JsonValue::Object(entries) => entries.iter().map(|(k, _)| k.clone()).collect(),
        _ => vec![],
    }
}

#[test]
fn merged_configuration_normalizes_forward_ports_before_deduplication() {
    let merged = merge_configuration(
        &object(vec![("image", s("debian:bookworm"))]),
        &vec![
            object(vec![("forwardPorts", JsonValue::Array(vec![n("3000")]))]),
            object(vec![("forwardPorts", JsonValue::Array(vec![s("localhost:3000"), s("0.0.0.0:4000")]))]),
        ],
    );

    assert_eq!(field(&merged, "forwardPorts"), Some(&JsonValue::Array(vec![n("3000"), s("0.0.0.0:4000")])));
}

#[test]
fn merge_drops_lifecycle_keys_and_lists_each_entrys_commands() {
    let merged = merge_configuration(
        &object(vec![
            ("image", s("debian")),
            ("postCreateCommand", s("echo config")),
            ("customizations", object(vec![])),
            ("shutdownAction", s("none")),
        ]),
        &vec![
            object(vec![("postCreateCommand", s("echo first"))]),
            object(vec![]),
            object(vec![("postCreateCommand", JsonValue::Array(vec![s("echo"), s("second")]))]),
        ],
    );
    assert_eq!(keys(&merged), vec!["image".to_string(), "postCreateCommands".to_string()]);
    assert_eq!(
        field(&merged, "postCreateCommands"),
        Some(&JsonValue::Array(vec![s("echo first"), JsonValue::Array(vec![s("echo"), s("second")])]))
    );
}

#[test]
fn merge_unites_capabilities_and_keeps_string_entrypoints() {
    let merged = merge_configuration(
        &object(vec![]),
        &vec![
            object(vec![
                ("capAdd", JsonValue::Array(vec![s("SYS_PTRACE"), n("1")])),
                ("entrypoint", s("/start.sh")),
                ("init", JsonValue::Bool(true)),
            ]),
            object(vec![
                ("capAdd", JsonValue::Array(vec![s("NET_ADMIN"), s("SYS_PTRACE")])),
                ("entrypoint", n("5")),
                ("privileged", JsonValue::Bool(false)),
            ]),
        ],
    );
    assert_eq!(field(&merged, "capAdd"), Some(&JsonValue::Array(vec![s("SYS_PTRACE"), s("NET_ADMIN")])));
    assert_eq!(field(&merged, "entrypoints"), Some(&JsonValue::Array(vec![s("/start.sh")])));
    assert_eq!(field(&merged, "init"), Some(&JsonValue::Bool(true)));
    assert_eq!(field(&merged, "privileged"), None);
    assert_eq!(field(&merged, "securityOpt"), None);
}

#[test]
fn merge_keeps_the_last_mount_for_each_target() {
    let merged = merge_configuration(
        &object(vec![]),
        &vec![
            object(vec![(
                "mounts",
                JsonValue::Array(vec![s("type=bind,source=/a,target=/cache"), s("type=tmpfs,destination=/tmp")]),
            )]),
            object(vec![(
                "mounts",
                JsonValue::Array(vec![
                    object(vec![("source", s("vol")), ("target", s("/cache")), ("type", s("volume"))]),
                    n("7"),
                ]),
            )]),
        ],
    );
    assert_eq!(
        field(&merged, "mounts"),
        Some(&JsonValue::Array(vec![
            s("type=tmpfs,destination=/tmp"),
            object(vec![("source", s("vol")), ("target", s("/cache")), ("type", s("volume"))]),
            n("7"),
        ]))
    );
}

#[test]
fn merge_lists_customizations_per_tool_and_combines_environments() {
    let merged = merge_configuration(
        &object(vec![("remoteUser", s("root"))]),
        &vec![
            object(vec![
                ("customizations", object(vec![("vscode", object(vec![("a", n("1"))]))])),
                ("remoteEnv", object(vec![("A", s("1")), ("B", s("1"))])),
                ("remoteUser", s("node")),
            ]),
            object(vec![
                ("customizations", object(vec![("vscode", object(vec![("b", n("2"))])), ("other", s("x"))])),
                ("remoteEnv", object(vec![("B", s("2"))])),
                ("hostRequirements", object(vec![("cpus", n("2"))])),
            ]),
        ],
    );
    assert_eq!(
        field(&merged, "customizations"),
        Some(&object(vec![
            ("other", JsonValue::Array(vec![s("x")])),
            (
                "vscode",
                JsonValue::Array(vec![object(vec![("a", n("1"))]), object(vec![("b", n("2"))])]),
            ),
        ]))
    );
    assert_eq!(field(&merged, "remoteEnv"), Some(&object(vec![("A", s("1")), ("B", s("2"))])));
    assert_eq!(field(&merged, "remoteUser"), Some(&s("node")));
    assert_eq!(field(&merged, "hostRequirements"), Some(&object(vec![("cpus", n("2.0"))])));
}

#[test]
fn merged_configuration_merges_host_requirements_field_by_field() {
    let merged = merge_configuration(
        &object(vec![("image", s("debian:bookworm"))]),
        &vec![
            object(vec![("hostRequirements", object(vec![("cpus", n("2")), ("gpu", s("optional"))]))]),
            object(vec![("hostRequirements", object(vec![("memory", s("4gb"))]))]),
            object(vec![("hostRequirements", object(vec![("gpu", object(vec![("cores", n("4"))]))]))]),
        ],
    );
    let host = field(&merged, "hostRequirements").expect("host requirements");
    assert_eq!(field(host, "cpus"), Some(&n("2.0")));
    assert_eq!(field(host, "memory"), Some(&s("4000000000")));
    assert_eq!(field(host, "gpu"), Some(&object(vec![("cores", n("4"))])));
    assert_eq!(keys(host).len(), 3);
}

#[test]
fn memory_sizes_are_written_in_bytes() {
    assert_eq!(memory_bytes_text("4gb"), Some("4000000000".to_string()));
    assert_eq!(memory_bytes_text("512MB"), Some("512000000".to_string()));
    assert_eq!(memory_bytes_text("007kb"), Some("7000".to_string()));
    assert_eq!(memory_bytes_text("0tb"), Some("0".to_string()));
    assert_eq!(memory_bytes_text("1024"), Some("1024".to_string()));
    assert_eq!(memory_bytes_text("1.5gb"), None);
    assert_eq!(memory_bytes_text("gb"), None);
    assert_eq!(cpus_text("4"), "4.0");
    assert_eq!(cpus_text("2.5"), "2.5");
}

#[test]
fn merged_keys_stay_in_order() {
    let merged = merge_configuration(
        &object(vec![("zeta", n("1")), ("alpha", n("2"))]),
        &vec![object(vec![("waitFor", s("postCreateCommand")), ("containerUser", s("u"))])],
    );
    assert_eq!(
        keys(&merged),
        vec!["alpha".to_string(), "containerUser".to_string(), "waitFor".to_string(), "zeta".to_string()]
    );
}

#[test]
fn merged_container_metadata_prefers_last_scalar_and_merges_objects() {
    let metadata = JsonValue::Array(vec![
        object(vec![("workspaceFolder", s("/first")), ("remoteEnv", object(vec![("A", s("1"))]))]),
        object(vec![("workspaceFolder", s("/second")), ("remoteEnv", object(vec![("B", s("2"))]))]),
    ]);

    let merged = merged_container_metadata(Some(&metadata));

    assert_eq!(field(&merged, "workspaceFolder"), Some(&s("/second")));
    let env = field(&merged, "remoteEnv").expect("remoteEnv");
    assert_eq!(field(env, "A"), Some(&s("1")));
    assert_eq!(field(env, "B"), Some(&s("2")));
}

#[test]
fn merged_container_metadata_flattens_multiple_lifecycle_entries() {
    let metadata = JsonValue::Array(vec![
        object(vec![("postCreateCommand", s("echo first"))]),
        object(vec![(
            "postCreateCommand",
            object(vec![
                ("alpha", s("echo second")),
                ("beta", JsonValue::Array(vec![s("printf"), s("%s"), s("third")])),
            ]),
        )]),
    ]);

    let merged = merged_container_metadata(Some(&metadata));
    let commands = field(&merged, "postCreateCommand").expect("expected flattened object");
    assert_eq!(keys(commands).len(), 3);
    assert_eq!(keys(commands), vec!["0".to_string(), "1".to_string(), "2".to_string()]);
    assert_eq!(field(commands, "1"), Some(&s("echo second")));
}

#[test]
fn container_metadata_of_a_single_object_or_nothing() {
    let single = object(vec![("postStartCommand", s("echo hi")), ("waitFor", s("postStartCommand"))]);
    let merged = merged_container_metadata(Some(&single));
    assert_eq!(field(&merged, "postStartCommand"), Some(&s("echo hi")));
    assert_eq!(field(&merged, "waitFor"), Some(&s("postStartCommand")));
    assert_eq!(merged_container_metadata(None), object(vec![]));
    assert_eq!(merged_container_metadata(Some(&s("not metadata"))), object(vec![]));
}

#[test]
fn numbered_commands_sort_as_text() {
    let entries: Vec<JsonValue> =
        (0..11).map(|i| object(vec![("onCreateCommand", s(&format!("c{i}")))])).collect();
    let merged = merged_container_metadata(Some(&JsonValue::Array(entries)));
    let commands = field(&merged, "onCreateCommand").expect("commands");
    assert_eq!(keys(commands)[0..3].to_vec(), vec!["0".to_string(), "1".to_string(), "10".to_string()]);
    assert_eq!(field(commands, "10"), Some(&s("c10")));
}
