use devcontainer::exec::{exec_command_and_args, host_exec_command_and_args, native_exec_request};

#[test]
fn exec_execute_native_exec_runs_non_interactive_command() {
    let host_env: Vec<(String, String)> = vec![("HOME".to_string(), "/root".to_string())];
    let request = native_exec_request(
        &[
            "/bin/sh".to_string(),
            "-c".to_string(),
            "printf native-exec".to_string(),
        ],
        Some("/tmp/project".to_string()),
        &host_env,
    )
    .expect("exec result");

    assert_eq!(request.program, "/bin/sh");
    assert_eq!(request.args, vec!["-c".to_string(), "printf native-exec".to_string()]);
    assert_eq!(request.cwd.as_deref(), Some("/tmp/project"));
    assert_eq!(request.env, host_env);
}

#[test]
fn exec_command_and_args_rejects_unknown_options() {
    let error = exec_command_and_args(&[
        "--workspace-folder".to_string(),
        "/tmp/workspace".to_string(),
        "--mystery".to_string(),
    ])
    .expect_err("expected unsupported option");

    assert_eq!(error, "Unsupported exec option: --mystery");
}

#[test]
fn exec_command_and_args_accepts_docker_compose_path() {
    let args = exec_command_and_args(&[
        "--docker-compose-path".to_string(),
        "/usr/local/bin/podman-compose".to_string(),
        "/bin/echo".to_string(),
        "hello".to_string(),
    ])
    .expect("command args");

    assert_eq!(args, vec!["/bin/echo".to_string(), "hello".to_string()]);
}

#[test]
fn exec_requires_a_command() {
    assert_eq!(
        exec_command_and_args(&["--interactive".to_string()]),
        Err("exec requires a command to run".to_string())
    );
    assert_eq!(
        exec_command_and_args(&["--container-id".to_string()]),
        Err("exec requires a command to run".to_string())
    );
}

#[test]
fn host_exec_uses_workspace_folder_and_remote_env() {
    let args = vec![
        "--workspace-folder".to_string(),
        "/tmp".to_string(),
        "--remote-env".to_string(),
        "FOO=bar".to_string(),
        "/bin/echo".to_string(),
        "hi".to_string(),
    ];
    let (folder, command) = host_exec_command_and_args(&args, None).expect("command");
    assert_eq!(folder, "/tmp");
    assert_eq!(command, vec!["/bin/echo".to_string(), "hi".to_string()]);
    let request = native_exec_request(&args, None, &vec![("FOO".to_string(), "old".to_string())])
        .expect("request");
    assert_eq!(request.program, "/bin/echo");
    assert_eq!(request.args, vec!["hi".to_string()]);
    assert_eq!(request.cwd.as_deref(), Some("/tmp"));
    assert_eq!(request.env, vec![("FOO".to_string(), "bar".to_string())]);
    assert_eq!(
        host_exec_command_and_args(&["/bin/true".to_string()], None),
        Err("Unable to determine workspace folder".to_string())
    );
}
