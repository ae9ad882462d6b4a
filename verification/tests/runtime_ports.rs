use devcontainer::compose::uses_compose_config;
use devcontainer::control::sanitize_control_manifest;
use devcontainer::exec::exec_engine_args;
use devcontainer::json_value::JsonValue;
use devcontainer::lifecycle::{
    lifecycle_command_group, lifecycle_exec_args, selected_lifecycle_steps, LifecycleCommand, LifecycleMode,
    LifecycleStep,
};
use devcontainer::mounts::mount_value_to_engine_arg;
use devcontainer::uid_update::{should_update_remote_user_uid, uid_update_details};

fn s(text: &str) -> JsonValue {
    JsonValue::Str(text.to_string())
}

fn object(entries: Vec<(&str, JsonValue)>) -> JsonValue {
    let mut sorted: Vec<(String, JsonValue)> = entries.into_iter().map(|(k, v)| (k.to_string(), v)).collect();
    sorted.sort_by(|a, b| a.0.cmp(&b.0));
    JsonValue::Object(sorted)
}

fn strings(values: &[&str]) -> Vec<String> {
    values.iter().map(|v| v.to_string()).collect()
}

#[test]
fn compose_detects_compose_configs() {
    assert!(uses_compose_config(&object(vec![
        ("dockerComposeFile", s("docker-compose.yml")),
        ("service", s("app")),
    ])));
    assert!(!uses_compose_config(&object(vec![("image", s("alpine:3.20"))])));
}

#[test]
fn tests_detects_compose_configs() {
    assert!(uses_compose_config(&object(vec![
        ("dockerComposeFile", s("docker-compose.yml")),
        ("service", s("app")),
    ])));
    assert!(!uses_compose_config(&object(vec![("image", s("alpine:3.20"))])));
}

#[test]
fn exec_engine_args_include_workdir_user_and_remote_env() {
    let args = exec_engine_args(
        &strings(&["--remote-env", "CLI_ENV=cli"]),
        &object(vec![
            ("remoteUser", s("vscode")),
            ("remoteEnv", object(vec![("CONFIG_ENV", s("config"))])),
        ]),
        &vec![],
        "/workspace",
        "container-id",
        strings(&["/bin/echo", "hello"]),
        false,
        false,
    );

    assert_eq!(args[0], "exec");
    assert!(args.contains(&"--workdir".to_string()));
    assert!(args.contains(&"/workspace".to_string()));
    assert!(args.contains(&"--user".to_string()));
    assert!(args.contains(&"vscode".to_string()));
    assert!(args.contains(&"container-id".to_string()));
    assert!(args.contains(&"/bin/echo".to_string()));
    assert!(args.iter().any(|arg| arg == "CONFIG_ENV=config"));
    assert!(args.iter().any(|arg| arg == "CLI_ENV=cli"));
}

#[test]
fn lifecycle_command_group_supports_strings_arrays_and_objects() {
    assert!(lifecycle_command_group(&s("echo hello")).is_some());
    assert!(lifecycle_command_group(&JsonValue::Array(vec![s("/bin/echo"), s("hello")])).is_some());
    assert!(lifecycle_command_group(&object(vec![
        ("a", s("echo one")),
        ("b", JsonValue::Array(vec![s("/bin/echo"), s("two")])),
    ]))
    .is_some());
}

#[test]
fn selected_lifecycle_steps_respect_mode_and_wait_for() {
    let steps = selected_lifecycle_steps(
        &object(vec![
            ("onCreateCommand", s("echo on-create")),
            ("updateContentCommand", s("echo update")),
            ("postCreateCommand", s("echo post-create")),
            ("postStartCommand", s("echo post-start")),
            ("postAttachCommand", s("echo post-attach")),
            ("waitFor", s("postStartCommand")),
        ]),
        &strings(&["--skip-non-blocking-commands"]),
        LifecycleMode::RunUserCommands,
        false,
    );

    assert_eq!(steps.len(), 4);

    let reused = selected_lifecycle_steps(
        &object(vec![
            ("postStartCommand", s("echo post-start")),
            ("postAttachCommand", s("echo post-attach")),
        ]),
        &[],
        LifecycleMode::UpReused,
        false,
    );

    assert_eq!(reused.len(), 1);
}

#[test]
fn selected_lifecycle_steps_insert_dotfiles_after_post_create() {
    let steps = selected_lifecycle_steps(
        &object(vec![
            ("postCreateCommand", s("echo post-create")),
            ("postStartCommand", s("echo post-start")),
        ]),
        &strings(&["--dotfiles-repository", "./dotfiles"]),
        LifecycleMode::RunUserCommands,
        false,
    );

    assert!(matches!(steps[0], LifecycleStep::CommandGroup(_)));
    assert!(matches!(steps[1], LifecycleStep::InstallDotfiles));
    assert!(matches!(steps[2], LifecycleStep::CommandGroup(_)));
}

#[test]
fn lifecycle_exec_args_use_absolute_shell_path() {
    let args = lifecycle_exec_args(
        &[],
        &object(vec![]),
        &vec![],
        "/workspaces/sample",
        "container-id",
        LifecycleCommand::Shell("echo hello".to_string()),
    );

    assert!(
        args.contains(&"/bin/sh".to_string()),
        "expected lifecycle shell command to use /bin/sh: {args:?}"
    );
}

#[test]
fn mount_argument_preserves_read_only_and_alias_keys() {
    let mount = mount_value_to_engine_arg(&object(vec![
        ("type", s("bind")),
        ("src", s("/cache")),
        ("dst", s("/workspace/cache")),
        ("readOnly", JsonValue::Bool(true)),
    ]))
    .expect("mount argument");

    assert_eq!(mount, "type=bind,source=/cache,target=/workspace/cache,readonly");
}

#[test]
fn mount_argument_preserves_additional_scalar_options() {
    let mount = mount_value_to_engine_arg(&object(vec![
        ("type", s("volume")),
        ("source", s("devcontainer-cache")),
        ("target", s("/cache")),
        ("external", JsonValue::Bool(true)),
        ("consistency", s("delegated")),
    ]))
    .expect("mount argument");

    assert_eq!(
        mount,
        "type=volume,source=devcontainer-cache,target=/cache,consistency=delegated,external=true"
    );
}

#[test]
fn container_remote_user_uid_update_defaults_to_on_for_supported_platforms() {
    assert!(should_update_remote_user_uid(&object(vec![("remoteUser", s("vscode"))]), &[], true));
}

#[test]
fn uid_update_remote_user_uid_update_defaults_to_on_for_supported_platforms() {
    assert!(should_update_remote_user_uid(&object(vec![("remoteUser", s("vscode"))]), &[], true));
}

#[test]
fn container_remote_user_uid_update_can_inspect_image_user_when_config_omits_users() {
    assert!(should_update_remote_user_uid(&object(vec![]), &[], true));
}

#[test]
fn uid_update_remote_user_uid_update_can_inspect_image_user_when_config_omits_users() {
    assert!(should_update_remote_user_uid(&object(vec![]), &[], true));
}

fn uid_update_overrides() {
    assert!(!should_update_remote_user_uid(
        &object(vec![("remoteUser", s("vscode"))]),
        &strings(&["--update-remote-user-uid-default", "off"]),
        true,
    ));
    assert!(!should_update_remote_user_uid(
        &object(vec![("remoteUser", s("vscode")), ("updateRemoteUserUID", JsonValue::Bool(false))]),
        &[],
        true,
    ));
    assert!(!should_update_remote_user_uid(&object(vec![("remoteUser", s("vscode"))]), &[], false));
}

#[test]
fn container_remote_user_uid_update_respects_option_and_config_overrides() {
    uid_update_overrides();
}

#[test]
fn uid_update_remote_user_uid_update_respects_option_and_config_overrides() {
    uid_update_overrides();
}

#[test]
fn container_uid_update_details_fall_back_to_the_image_user() {
    let details = uid_update_details(
        &object(vec![]),
        "/tmp/example-workspace",
        "ghcr.io/example/app:latest",
        "node",
        None,
        None,
    )
    .expect("uid update details");

    assert_eq!(details.remote_user, "node");
    assert_eq!(details.image_user, "node");
    assert!(details.updated_image_name.starts_with("vsc-example-workspace-"));
    assert!(details.updated_image_name.ends_with("-uid"));
}

#[test]
fn uid_update_uid_update_details_fall_back_to_the_image_user() {
    let details = uid_update_details(
        &object(vec![]),
        "/tmp/example-workspace",
        "ghcr.io/example/app:latest",
        "node",
        None,
        Some("linux/amd64"),
    )
    .expect("uid update details");

    assert_eq!(details.remote_user, "node");
    assert_eq!(details.image_user, "node");
    assert_eq!(details.platform.as_deref(), Some("linux/amd64"));
    assert!(details.updated_image_name.starts_with("vsc-example-workspace-"));
    assert!(details.updated_image_name.ends_with("-uid"));
}

fn preserve_image_user() {
    let details = uid_update_details(
        &object(vec![("remoteUser", s("vscode"))]),
        "/tmp/example-workspace",
        "ghcr.io/example/app:latest",
        "node",
        None,
        None,
    )
    .expect("uid update details");

    assert_eq!(details.remote_user, "vscode");
    assert_eq!(details.image_user, "node");
}

#[test]
fn container_uid_update_details_preserve_the_image_user_when_remote_user_is_overridden() {
    preserve_image_user();
}

#[test]
fn uid_update_uid_update_details_preserve_the_image_user_when_remote_user_is_overridden() {
    preserve_image_user();
}

fn digest_pinned() {
    let details = uid_update_details(
        &object(vec![("remoteUser", s("vscode"))]),
        "/tmp/example-workspace",
        "ghcr.io/example/app@sha256:0123456789abcdef",
        "node",
        None,
        None,
    )
    .expect("uid update details");

    assert!(details.updated_image_name.starts_with("vsc-example-workspace-"));
    assert!(details.updated_image_name.ends_with("-uid"));
    assert!(!details.updated_image_name.contains('@'));
}

#[test]
fn container_uid_update_details_use_a_local_tag_for_digest_pinned_images() {
    digest_pinned();
}

#[test]
fn uid_update_uid_update_details_use_a_local_tag_for_digest_pinned_images() {
    digest_pinned();
}

#[test]
fn sanitize_control_manifest_filters_invalid_entries() {
    let manifest = sanitize_control_manifest(&object(vec![
        (
            "disallowedFeatures",
            JsonValue::Array(vec![
                object(vec![("featureIdPrefix", s("example.io/test/node"))]),
                object(vec![("featureIdPrefix", JsonValue::Number("3".to_string()))]),
            ]),
        ),
        (
            "featureAdvisories",
            JsonValue::Array(vec![
                object(vec![
                    ("featureId", s("example.io/test/node")),
                    ("introducedInVersion", s("1.0.0")),
                    ("fixedInVersion", s("1.1.0")),
                    ("description", s("desc")),
                ]),
                object(vec![("featureId", s("example.io/test/invalid"))]),
            ]),
        ),
    ]));

    assert_eq!(manifest.disallowed_features.len(), 1);
    assert_eq!(manifest.feature_advisories.len(), 1);
}

#[test]
fn sanitized_manifest_keeps_documentation_links_and_ignores_non_objects() {
    let manifest = sanitize_control_manifest(&object(vec![(
        "disallowedFeatures",
        JsonValue::Array(vec![
            s("example.io/test/node"),
            object(vec![("featureIdPrefix", s("a/b")), ("documentationURL", s("https://x"))]),
        ]),
    )]));
    assert_eq!(manifest.disallowed_features.len(), 1);
    assert_eq!(manifest.disallowed_features[0].feature_id_prefix, "a/b");
    assert_eq!(manifest.disallowed_features[0].documentation_url.as_deref(), Some("https://x"));
    assert!(manifest.feature_advisories.is_empty());
    let none = sanitize_control_manifest(&JsonValue::Array(vec![]));
    assert!(none.disallowed_features.is_empty());
}
