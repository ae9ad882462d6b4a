use devcontainer::compose::{
    compose_args, compose_image_name_separator, default_service_image_name, escape_compose_label,
    escape_compose_scalar, parse_semver_prefix, reject_unsupported_build_options,
    sanitize_project_name, ComposeSpec,
};
use devcontainer::engine::{compose_request, ProcessResult};

#[test]
fn parse_semver_prefix_reads_plain_semver_versions() {
    assert_eq!(parse_semver_prefix("2.24.0"), Some((2, 24, 0)));
    assert_eq!(parse_semver_prefix("v2.8.1-desktop.1"), Some((2, 8, 1)));
}

#[test]
fn compose_image_name_separator_defaults_to_hyphen_without_runtime_args() {
    let request = compose_request(&[], vec!["version".to_string(), "--short".to_string()]);
    assert_eq!(request.program, "docker");
    assert_eq!(request.args, vec!["compose".to_string(), "version".to_string(), "--short".to_string()]);
    assert_eq!(compose_image_name_separator(None), '-');
}

#[test]
fn old_compose_versions_use_underscores() {
    let old = ProcessResult { status_code: 0, stdout: "1.29.2\n".to_string(), stderr: String::new() };
    assert_eq!(compose_image_name_separator(Some(&old)), '_');
    let new = ProcessResult { status_code: 0, stdout: "v2.8.0".to_string(), stderr: String::new() };
    assert_eq!(compose_image_name_separator(Some(&new)), '-');
    let failed = ProcessResult { status_code: 1, stdout: "1.0.0".to_string(), stderr: String::new() };
    assert_eq!(compose_image_name_separator(Some(&failed)), '-');
    assert_eq!(compose_image_name_separator(None), '-');
}

#[test]
fn semver_prefix_edge_cases() {
    assert_eq!(parse_semver_prefix("2"), Some((2, 0, 0)));
    assert_eq!(parse_semver_prefix("vv3.1"), Some((3, 1, 0)));
    assert_eq!(parse_semver_prefix("2."), None);
    assert_eq!(parse_semver_prefix("desktop"), None);
}

#[test]
fn project_names_keep_lowercase_letters_digits_dashes_and_underscores() {
    assert_eq!(sanitize_project_name("My Project_1-x!"), "myproject_1-x");
}

#[test]
fn compose_arguments_list_project_files_and_subcommand() {
    let spec = ComposeSpec {
        files: vec!["a.yml".to_string(), "b.yml".to_string()],
        service: "app".to_string(),
        image: None,
        has_build: false,
        project_name: "demo".to_string(),
    };
    assert_eq!(
        compose_args(&spec, "up", &["-d"]),
        vec!["--project-name", "demo", "-f", "a.yml", "-f", "b.yml", "up", "-d"]
            .into_iter()
            .map(String::from)
            .collect::<Vec<_>>()
    );
    assert_eq!(default_service_image_name(&spec, '_'), "demo_app");
}

#[test]
fn compose_builds_refuse_unsupported_options() {
    assert_eq!(
        reject_unsupported_build_options(&["--platform".to_string(), "linux/amd64".to_string()]),
        Err("--platform not supported for compose builds.".to_string())
    );
    assert_eq!(reject_unsupported_build_options(&["--no-cache".to_string()]), Ok(()));
}

#[test]
fn yaml_escapes_double_quotes_and_dollars() {
    assert_eq!(escape_compose_label("it's $HOME"), "it''s $$HOME");
    assert_eq!(escape_compose_scalar("it's $HOME"), "it''s $HOME");
}
