use devcontainer::native::{should_use_native_collection, should_use_native_read_configuration};

#[test]
fn non_list_collection_subcommands_fall_back_to_node() {
    assert!(!should_use_native_collection(&["apply".to_string()]));
}

#[test]
fn read_configuration_with_additional_flags_falls_back_to_node() {
    assert!(!should_use_native_read_configuration(&[
        "--workspace-folder".to_string(),
        "/workspace".to_string(),
        "--include-merged-configuration".to_string(),
    ]));
}

#[test]
fn native_read_configuration_accepts_workspace_and_config() {
    assert!(should_use_native_read_configuration(&[
        "--workspace-folder".to_string(),
        "/workspace".to_string(),
        "--config".to_string(),
        "/workspace/.devcontainer.json".to_string(),
    ]));
    assert!(should_use_native_read_configuration(&[]));
    assert!(!should_use_native_read_configuration(&["positional".to_string()]));
}

#[test]
fn native_collection_lists_without_subcommand() {
    assert!(should_use_native_collection(&[]));
    assert!(should_use_native_collection(&["ls".to_string()]));
    assert!(should_use_native_collection(&["list".to_string()]));
}
