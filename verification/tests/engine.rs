use devcontainer::engine::{
    compose_request, engine_request, is_build_request, stderr_or_stdout, ProcessLogLevel,
    ProcessResult,
};

fn env_get<'a>(env: &'a [(String, String)], key: &str) -> Option<&'a str> {
    env.iter().rev().find(|(k, _)| k == key).map(|(_, v)| v.as_str())
}

#[test]
fn engine_request_applies_terminal_env_and_log_level() {
    let request = engine_request(
        &[
            "--log-level".to_string(),
            "debug".to_string(),
            "--terminal-columns".to_string(),
            "160".to_string(),
            "--terminal-rows".to_string(),
            "48".to_string(),
        ],
        vec!["ps".to_string()],
    );

    assert_eq!(request.log_level, ProcessLogLevel::Debug);
    assert_eq!(env_get(&request.env, "COLUMNS"), Some("160"));
    assert_eq!(env_get(&request.env, "LINES"), Some("48"));
}

#[test]
fn detects_build_requests_for_compose_invocations() {
    assert!(is_build_request(&["build".to_string()]));
    assert!(is_build_request(&["compose".to_string(), "build".to_string(), "app".to_string()]));
    assert!(is_build_request(&[
        "--project-name".to_string(),
        "workspace".to_string(),
        "-f".to_string(),
        "docker-compose.yml".to_string(),
        "build".to_string(),
        "app".to_string(),
    ]));
    assert!(is_build_request(&[
        "compose".to_string(),
        "--project-name".to_string(),
        "workspace".to_string(),
        "build".to_string(),
        "app".to_string(),
    ]));
    assert!(!is_build_request(&[
        "--project-name".to_string(),
        "workspace".to_string(),
        "up".to_string(),
    ]));
    assert!(!is_build_request(&["compose".to_string(), "up".to_string()]));
}

#[test]
fn compose_request_applies_buildkit_env_for_default_docker_compose_builds() {
    let request = compose_request(
        &["--buildkit".to_string(), "never".to_string()],
        vec!["build".to_string(), "app".to_string()],
    );

    assert_eq!(env_get(&request.env, "DOCKER_BUILDKIT"), Some("0"));
}

#[test]
fn buildkit_auto_enables_buildkit_and_other_requests_are_untouched() {
    let build = engine_request(&["--buildkit".to_string(), "auto".to_string()], vec!["build".to_string()]);
    assert_eq!(env_get(&build.env, "DOCKER_BUILDKIT"), Some("1"));
    let run = engine_request(&["--buildkit".to_string(), "never".to_string()], vec!["run".to_string()]);
    assert_eq!(env_get(&run.env, "DOCKER_BUILDKIT"), None);
    assert_eq!(run.log_level, ProcessLogLevel::Info);
    assert_eq!(run.program, "docker");
    let custom = compose_request(
        &["--docker-compose-path".to_string(), "podman-compose".to_string()],
        vec!["up".to_string()],
    );
    assert_eq!(custom.program, "podman-compose");
    assert_eq!(custom.args, vec!["up".to_string()]);
}

#[test]
fn failure_message_prefers_stderr() {
    let both = ProcessResult { status_code: 1, stdout: " out ".to_string(), stderr: "  err\n".to_string() };
    assert_eq!(stderr_or_stdout(&both), "err");
    let only_out = ProcessResult { status_code: 1, stdout: " out ".to_string(), stderr: " \n".to_string() };
    assert_eq!(stderr_or_stdout(&only_out), "out");
}
