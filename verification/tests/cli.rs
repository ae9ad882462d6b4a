use devcontainer::cli::{
    command_description, command_help_text, help_text, is_supported_command, native_collection_payload, is_command_help_request, parse_log_format, should_use_native_collection,
    should_use_native_read_configuration,
};
use devcontainer::cli_host::CliHost;
use devcontainer::exec::native_exec_request;

#[test]
fn detects_subcommand_help_requests() {
    assert!(is_command_help_request(&["--help".to_string()]));
    assert!(is_command_help_request(&["-h".to_string()]));
    assert!(!is_command_help_request(&["list".to_string()]));
}

#[test]
fn main_non_list_collection_subcommands_fall_back_to_node() {
    assert!(!should_use_native_collection(&["apply".to_string()]));
}

#[test]
fn main_read_configuration_with_additional_flags_is_supported_natively() {
    assert!(should_use_native_read_configuration(&[
        "--workspace-folder".to_string(),
        "/workspace".to_string(),
        "--include-merged-configuration".to_string(),
    ]));
}

#[test]
fn detects_subcommand_help_requests_without_needing_node() {
    assert!(is_command_help_request(&["--help".to_string()]));
    assert!(is_command_help_request(&["-h".to_string()]));
    assert!(!is_command_help_request(&["list".to_string()]));
}

#[test]
fn main_execute_native_exec_runs_non_interactive_command() {
    let host_env: Vec<(String, String)> = vec![("PATH".to_string(), "/usr/bin:/bin".to_string())];
    let request = native_exec_request(
        &[
            "/bin/sh".to_string(),
            "-c".to_string(),
            "printf native-exec".to_string(),
        ],
        Some("/workspace".to_string()),
        &host_env,
    )
    .expect("exec request");

    assert_eq!(request.program, "/bin/sh");
    assert_eq!(request.args, vec!["-c".to_string(), "printf native-exec".to_string()]);
    assert_eq!(request.cwd.as_deref(), Some("/workspace"));
    assert_eq!(request.env, host_env);
}

#[test]
fn log_format_option_is_read_before_the_command() {
    let args = vec!["--log-format".to_string(), "json".to_string(), "build".to_string()];
    assert_eq!(parse_log_format(&args), ("json", 2));
    let short = vec!["--log-format".to_string(), "json".to_string()];
    assert_eq!(parse_log_format(&short), ("text", 0));
}

#[test]
fn describes_known_and_unknown_commands() {
    assert_eq!(command_description("up"), "Create and run dev container");
    assert_eq!(command_description("upgrade"), "Upgrade lockfile");
    assert_eq!(command_description("mystery"), "Native devcontainer command");
}

#[test]
fn read_configuration_rejects_unknown_or_positional_arguments() {
    assert!(!should_use_native_read_configuration(&["--mystery".to_string(), "x".to_string()]));
    assert!(!should_use_native_read_configuration(&["workspace".to_string()]));
    assert!(should_use_native_read_configuration(&["--include-features-configuration".to_string()]));
}

#[test]
fn help_lists_every_top_level_command_with_its_description() {
    let expected = [
        "devcontainer (native Rust CLI)\n",
        "\nUsage:\n  devcontainer [--log-format text|json] <command> [args...]\n\n",
        "Supported top-level commands:\n",
        "  - read-configuration: Read configuration\n",
        "  - build: Build a dev container image\n",
        "  - up: Create and run dev container\n",
        "  - set-up: Set up an existing container as a dev container\n",
        "  - run-user-commands: Run user commands\n",
        "  - outdated: Show current and available versions\n",
        "  - upgrade: Upgrade lockfile\n",
        "  - exec: Execute a command on a running dev container\n",
        "  - features: Features commands\n",
        "  - templates: Templates commands\n",
        "\nReference:\n",
        "  - docs/cli/command-reference.md (generated from pinned upstream metadata)\n",
        "  - docs/upstream/parity-inventory.md (measured native parity inventory)\n",
    ]
    .concat();
    assert_eq!(help_text(), expected);
}

#[test]
fn command_help_for_runtime_commands_names_the_command() {
    let expected = [
        "Create and run dev container\n",
        "Usage:\n  devcontainer up [args...]\n",
        "\nCurrent state:\n",
        "  - native runtime path is available\n",
        "  - upstream feature integration and some option coverage remain partial\n",
        "\nReference:\n",
        "  - docs/cli/command-reference.md\n",
        "  - docs/upstream/parity-inventory.md\n",
    ]
    .concat();
    assert_eq!(command_help_text("up"), expected);
}

#[test]
fn command_help_for_an_unknown_command_gives_its_usage_only() {
    let expected = [
        "Native devcontainer command\n",
        "Usage:\n  devcontainer frobnicate [args...]\n",
        "\nReference:\n",
        "  - docs/cli/command-reference.md\n",
        "  - docs/upstream/parity-inventory.md\n",
    ]
    .concat();
    assert_eq!(command_help_text("frobnicate"), expected);
}

#[test]
fn command_lookup_tries_each_path_folder_in_order() {
    let host = CliHost {
        cwd: "/work".to_string(),
        env: vec![
            ("HOME".to_string(), "/root".to_string()),
            ("PATH".to_string(), "/usr/local/bin:/usr/bin".to_string()),
        ],
    };
    assert_eq!(
        host.lookup_candidates("docker"),
        vec!["/usr/local/bin/docker".to_string(), "/usr/bin/docker".to_string()]
    );
    assert_eq!(host.lookup_candidates("./bin/tool"), vec!["./bin/tool".to_string()]);
}

#[test]
fn command_lookup_without_path_finds_nothing() {
    let host = CliHost { cwd: "/work".to_string(), env: vec![] };
    assert!(host.lookup_candidates("docker").is_empty());
}

#[test]
fn supported_commands_are_the_top_level_ones() {
    assert!(is_supported_command("read-configuration"));
    assert!(is_supported_command("upgrade"));
    assert!(!is_supported_command("frobnicate"));
}

#[test]
fn native_collection_listing_is_empty() {
    assert_eq!(native_collection_payload("features"), "{\"features\":[]}");
    assert_eq!(native_collection_payload("templates"), "{\"templates\":[]}");
    assert_eq!(native_collection_payload("other"), "{}");
}
