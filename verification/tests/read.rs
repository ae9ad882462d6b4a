use devcontainer::read::should_use_native_read_configuration;

#[test]
fn read_read_configuration_with_additional_flags_is_supported_natively() {
    assert!(should_use_native_read_configuration(&[
        "--workspace-folder".to_string(),
        "/workspace".to_string(),
        "--include-merged-configuration".to_string(),
    ]));
}

#[test]
fn read_read_configuration_accepts_docker_compose_path_flag() {
    assert!(should_use_native_read_configuration(&[
        "--workspace-folder".to_string(),
        "/workspace".to_string(),
        "--docker-compose-path".to_string(),
        "trigger-compose-v2".to_string(),
    ]));
}

#[test]
fn read_configuration_accepts_feature_resolution_flags() {
    assert!(should_use_native_read_configuration(&[
        "--workspace-folder".to_string(),
        "/workspace".to_string(),
        "--include-features-configuration".to_string(),
        "--additional-features".to_string(),
        "{\"ghcr.io/devcontainers/features/git:1\":{}}".to_string(),
        "--skip-feature-auto-mapping".to_string(),
    ]));
}
