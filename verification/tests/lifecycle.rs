use devcontainer::dotfiles::{
    dotfiles_install_command, normalize_dotfiles_repository, shell_parent, shell_path_argument,
    shell_single_quote,
};
use devcontainer::json_value::JsonValue;
use devcontainer::lifecycle::{
    lifecycle_command_group, lifecycle_stage_runs_in_mode, selected_lifecycle_steps, LifecycleMode,
    LifecycleStep,
};

#[test]
fn dotfiles_install_command_defaults_target_path_and_marker_folder() {
    let command = dotfiles_install_command(&["--dotfiles-repository".to_string(), "owner/repo".to_string()])
        .expect("dotfiles command");

    assert!(command.contains("https://github.com/owner/repo.git"));
    assert!(command.contains("~/.devcontainer/.dotfilesMarker"));
    assert!(command.contains("~/dotfiles"));
}

#[test]
fn shell_quoting_helpers() {
    assert_eq!(shell_single_quote("it's"), "'it'\"'\"'s'");
    assert_eq!(shell_path_argument("~/x y"), "~/x y");
    assert_eq!(shell_path_argument("/x y"), "'/x y'");
    assert_eq!(shell_parent("a/b/c"), "a/b");
    assert_eq!(shell_parent("c"), ".");
    assert_eq!(normalize_dotfiles_repository("git@host:x.git"), "git@host:x.git");
    assert_eq!(normalize_dotfiles_repository("owner/repo"), "https://github.com/owner/repo.git");
}

#[test]
fn stages_run_by_mode() {
    assert!(lifecycle_stage_runs_in_mode("onCreateCommand", LifecycleMode::UpCreated));
    assert!(!lifecycle_stage_runs_in_mode("onCreateCommand", LifecycleMode::UpStarted));
    assert!(lifecycle_stage_runs_in_mode("postStartCommand", LifecycleMode::UpStarted));
    assert!(lifecycle_stage_runs_in_mode("postAttachCommand", LifecycleMode::UpReused));
    assert!(!lifecycle_stage_runs_in_mode("postStartCommand", LifecycleMode::UpReused));
}

#[test]
fn command_groups_from_strings_arrays_and_objects() {
    assert!(lifecycle_command_group(&JsonValue::Str("echo hi".to_string())).is_some());
    assert!(lifecycle_command_group(&JsonValue::Array(vec![
        JsonValue::Str("/bin/echo".to_string()),
        JsonValue::Str("hi".to_string())
    ]))
    .is_some());
    assert!(lifecycle_command_group(&JsonValue::Array(vec![])).is_none());
    assert!(lifecycle_command_group(&JsonValue::Object(vec![
        ("a".to_string(), JsonValue::Bool(true))
    ]))
    .is_none());
    let group = lifecycle_command_group(&JsonValue::Object(vec![
        ("a".to_string(), JsonValue::Str("one".to_string())),
        ("b".to_string(), JsonValue::Null),
        ("c".to_string(), JsonValue::Str("two".to_string())),
    ]))
    .expect("group");
    assert_eq!(group.len(), 2);
}

#[test]
fn steps_follow_the_wait_for_stage_and_dotfiles() {
    let configuration = JsonValue::Object(vec![
        ("onCreateCommand".to_string(), JsonValue::Str("a".to_string())),
        ("postCreateCommand".to_string(), JsonValue::Str("b".to_string())),
        ("postAttachCommand".to_string(), JsonValue::Str("c".to_string())),
    ]);
    let steps = selected_lifecycle_steps(&configuration, &[], LifecycleMode::UpCreated, false);
    assert_eq!(steps.len(), 3);
    let args = vec![
        "--dotfiles-repository".to_string(),
        "o/r".to_string(),
        "--skip-post-attach".to_string(),
    ];
    let steps = selected_lifecycle_steps(&configuration, &args, LifecycleMode::UpCreated, false);
    assert_eq!(steps.len(), 3);
    assert!(matches!(steps[2], LifecycleStep::InstallDotfiles));
    let skip = vec!["--skip-non-blocking-commands".to_string()];
    let steps = selected_lifecycle_steps(&configuration, &skip, LifecycleMode::UpCreated, false);
    assert_eq!(steps.len(), 1);
    let reused = selected_lifecycle_steps(&configuration, &[], LifecycleMode::UpReused, false);
    assert_eq!(reused.len(), 1);
    assert!(selected_lifecycle_steps(&configuration, &["--skip-post-create".to_string()], LifecycleMode::UpCreated, false).is_empty());
}

#[test]
fn a_group_fails_with_its_first_failure_in_order() {
    use_group_result();
}

fn use_group_result() {
    let ok = devcontainer::engine::ProcessResult { status_code: 0, stdout: "fine".to_string(), stderr: String::new() };
    let bad = devcontainer::engine::ProcessResult { status_code: 2, stdout: " out \n".to_string(), stderr: "  ".to_string() };
    assert_eq!(devcontainer::lifecycle::group_result(&vec![]), Ok(()));
    assert_eq!(
        devcontainer::lifecycle::group_result(&vec![devcontainer::lifecycle::GroupOutcome::Finished(ok)]),
        Ok(())
    );
    assert_eq!(
        devcontainer::lifecycle::group_result(&vec![
            devcontainer::lifecycle::GroupOutcome::Finished(bad),
            devcontainer::lifecycle::GroupOutcome::Failed("later".to_string()),
        ]),
        Err("out".to_string())
    );
    assert_eq!(
        devcontainer::lifecycle::group_result(&vec![
            devcontainer::lifecycle::GroupOutcome::Panicked,
            devcontainer::lifecycle::GroupOutcome::Failed("later".to_string()),
        ]),
        Err("Lifecycle command thread panicked unexpectedly".to_string())
    );
    assert!(devcontainer::exec::exec_runs_interactively(&["--interactive".to_string()]));
    assert!(!devcontainer::exec::exec_runs_interactively(&[]));
}
