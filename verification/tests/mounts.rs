use devcontainer::json_value::JsonValue;
use devcontainer::metadata;
use devcontainer::mounts::{mount_option_target, mount_value_to_engine_arg, split_mount_options};

#[test]
fn metadata_mount_option_target_reads_quoted_targets() {
    assert_eq!(
        metadata::mount_option_target(r#"type=bind,source=/tmp/src,target="/workspace,with,comma""#),
        Some("/workspace,with,comma".to_string())
    );
}

#[test]
fn mounts_mount_option_target_reads_quoted_targets() {
    assert_eq!(
        mount_option_target(r#"type=bind,source=/tmp/src,target="/workspace,with,comma""#),
        Some("/workspace,with,comma".to_string())
    );
}

fn object(entries: Vec<(&str, JsonValue)>) -> JsonValue {
    JsonValue::Object(entries.into_iter().map(|(k, v)| (k.to_string(), v)).collect())
}

#[test]
fn mount_value_to_engine_arg_preserves_read_only_and_alias_keys() {
    let mount = mount_value_to_engine_arg(&object(vec![
        ("dst", JsonValue::Str("/workspace/cache".to_string())),
        ("readOnly", JsonValue::Bool(true)),
        ("src", JsonValue::Str("/cache".to_string())),
        ("type", JsonValue::Str("bind".to_string())),
    ]))
    .expect("mount argument");

    assert_eq!(mount, "type=bind,source=/cache,target=/workspace/cache,readonly");
}

#[test]
fn mount_value_to_engine_arg_preserves_additional_scalar_options() {
    let mount = mount_value_to_engine_arg(&object(vec![
        ("consistency", JsonValue::Str("delegated".to_string())),
        ("external", JsonValue::Bool(true)),
        ("source", JsonValue::Str("devcontainer-cache".to_string())),
        ("target", JsonValue::Str("/cache".to_string())),
        ("type", JsonValue::Str("volume".to_string())),
    ]))
    .expect("mount argument");

    assert_eq!(
        mount,
        "type=volume,source=devcontainer-cache,target=/cache,consistency=delegated,external=true"
    );
}

#[test]
fn mount_options_split_outside_quotes() {
    assert_eq!(
        split_mount_options(" type=bind , target=\"a,b\" ,"),
        vec!["type=bind".to_string(), "target=\"a,b\"".to_string()]
    );
    assert_eq!(mount_option_target("type=volume,dst=/data"), Some("/data".to_string()));
    assert_eq!(mount_option_target("type=volume"), None);
    assert_eq!(mount_value_to_engine_arg(&JsonValue::Null), None);
    assert_eq!(mount_value_to_engine_arg(&object(vec![])), None);
}
