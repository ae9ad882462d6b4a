use devcontainer::json_value::JsonValue;
use devcontainer::shell::{split_shell_words, substitute_compose_env};
use devcontainer::uid_update::{
    has_registry_hostname, is_missing_local_image_inspect_error, is_updatable_user,
    parse_image_inspect_output, should_update_remote_user_uid, uid_update_base_image,
    uid_update_image_name, uid_update_local_image_name, uid_update_remote_user,
    uid_update_run_args_user, uses_podman_engine,
};

#[test]
fn shell_words_follow_quotes_and_escapes() {
    assert_eq!(
        split_shell_words(r#"sh -c 'echo "hi there"' a\ b "x\"y""#),
        vec!["sh", "-c", "echo \"hi there\"", "a b", "x\"y"].into_iter().map(String::from).collect::<Vec<_>>()
    );
    assert_eq!(split_shell_words("say 'unclosed"), vec!["say".to_string(), "'unclosed".to_string()]);
    assert!(split_shell_words("   ").is_empty());
}

#[test]
fn compose_env_interpolation() {
    let env = vec![("NAME".to_string(), "demo".to_string()), ("EMPTY".to_string(), String::new())];
    assert_eq!(substitute_compose_env("\"${NAME}-x\"", &env), "demo-x");
    assert_eq!(substitute_compose_env("${EMPTY:-fallback}", &env), "fallback");
    assert_eq!(substitute_compose_env("${EMPTY-fallback}", &env), "");
    assert_eq!(substitute_compose_env("${MISSING-${NAME}}", &env), "${NAME}");
    assert_eq!(substitute_compose_env("${MISSING}", &env), "");
}

#[test]
fn uid_update_users_and_images() {
    assert!(!is_updatable_user("root"));
    assert!(!is_updatable_user("1000"));
    assert!(is_updatable_user("vscode"));
    assert!(is_missing_local_image_inspect_error("Error: No such image: x"));
    assert!(!is_missing_local_image_inspect_error("permission denied"));
    assert!(has_registry_hostname("ghcr.io/a/b"));
    assert!(has_registry_hostname("localhost/x"));
    assert!(!has_registry_hostname("ubuntu:22.04"));
    let podman = vec!["--docker-path".to_string(), "/usr/bin/Podman".to_string()];
    assert!(uses_podman_engine(&podman));
    assert_eq!(uid_update_base_image(&podman, "ubuntu"), "localhost/ubuntu");
    assert_eq!(uid_update_base_image(&[], "ubuntu"), "ubuntu");
    let local = uid_update_local_image_name("/tmp/My App");
    assert!(local.starts_with("vsc-my-app-"));
    assert_eq!(local.len(), "vsc-my-app-".len() + 64);
    assert_eq!(uid_update_image_name("/tmp/My App", "ubuntu"), format!("{local}-uid"));
    let own = format!("{local}-features");
    assert_eq!(uid_update_image_name("/tmp/My App", &own), format!("{own}-uid"));
}

#[test]
fn uid_update_decisions_read_the_configuration() {
    let configuration = JsonValue::Object(vec![(
        "runArgs".to_string(),
        JsonValue::Array(vec![
            JsonValue::Str("--user".to_string()),
            JsonValue::Str("dev".to_string()),
            JsonValue::Str("-u=later".to_string()),
        ]),
    )]);
    assert_eq!(uid_update_run_args_user(&configuration), Some("later".to_string()));
    assert_eq!(uid_update_remote_user(&configuration, Some("dev"), "root"), Some("dev".to_string()));
    assert_eq!(uid_update_remote_user(&configuration, None, "root"), None);
    assert!(should_update_remote_user_uid(&configuration, &[], true));
    assert!(!should_update_remote_user_uid(&configuration, &[], false));
    let never = vec!["--update-remote-user-uid-default".to_string(), "never".to_string()];
    assert!(!should_update_remote_user_uid(&configuration, &never, true));
    let details = parse_image_inspect_output("\nlinux/amd64\n");
    assert_eq!(details.user, "root");
    assert_eq!(details.platform.as_deref(), Some("linux/amd64"));
}
