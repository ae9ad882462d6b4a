use devcontainer::json_value::JsonValue;
use devcontainer::runtime::{
    default_image_name, default_remote_workspace_folder, remote_user, remote_workspace_folder,
    workspace_mount, ResolvedConfig,
};

#[test]
fn default_remote_workspace_folder_uses_workspace_basename() {
    assert_eq!(default_remote_workspace_folder(Some("/tmp/project")), "/workspaces/project");
    assert_eq!(default_remote_workspace_folder(None), "/workspaces/workspace");
}

fn resolved(entries: Vec<(&str, JsonValue)>) -> ResolvedConfig {
    ResolvedConfig {
        workspace_folder: "/tmp/example".to_string(),
        config_file: "/tmp/example/.devcontainer/devcontainer.json".to_string(),
        configuration: JsonValue::Object(entries.into_iter().map(|(k, v)| (k.to_string(), v)).collect()),
    }
}

#[test]
fn remote_workspace_folder_prefers_configured_workspace_folder() {
    let r = resolved(vec![("workspaceFolder", JsonValue::Str("/configured".to_string()))]);
    assert_eq!(remote_workspace_folder(&r), "/configured");
}

#[test]
fn remote_workspace_folder_falls_back_to_workspace_mount_target() {
    let r = resolved(vec![(
        "workspaceMount",
        JsonValue::Str("type=bind,source=/tmp/example,target=/mounted".to_string()),
    )]);
    assert_eq!(remote_workspace_folder(&r), "/mounted");
}

#[test]
fn workspace_mount_defaults_to_a_bind_mount() {
    let r = resolved(vec![]);
    assert_eq!(workspace_mount(&r, "/workspaces/example"), "type=bind,source=/tmp/example,target=/workspaces/example");
    assert_eq!(remote_workspace_folder(&r), "/workspaces/example");
}

#[test]
fn remote_user_falls_back_to_root() {
    let r = resolved(vec![("containerUser", JsonValue::Str("vscode".to_string()))]);
    assert_eq!(remote_user(&r.configuration), "vscode");
    assert_eq!(remote_user(&resolved(vec![]).configuration), "root");
}

#[test]
fn default_image_name_replaces_other_characters() {
    assert_eq!(default_image_name("/tmp/My Project"), "devcontainer-My-Project");
    assert_eq!(default_image_name("/"), "devcontainer-workspace");
}
