use devcontainer::phase4::{
    evaluate_phase4, CommandPortingInput, IntrospectionPortingInput, OutputCompatibilityInput,
    Phase4Input, Phase4MissingCheck,
};

fn complete_input() -> Phase4Input {
    Phase4Input {
        introspection_porting: IntrospectionPortingInput {
            ok: true,
            read_configuration_ported: true,
            metadata_resolve_ported: true,
        },
        execution_porting: CommandPortingInput {
            ok: true,
            ported_commands: ["build", "up", "exec"].iter().map(|c| c.to_string()).collect(),
        },
        collection_porting: CommandPortingInput {
            ok: true,
            ported_commands: ["features", "templates"].iter().map(|c| c.to_string()).collect(),
        },
        output_compatibility: OutputCompatibilityInput {
            ok: true,
            json_schema_parity: true,
            text_output_parity: true,
        },
    }
}

#[test]
fn marks_phase4_complete_when_all_porting_checks_pass() {
    let input = complete_input();
    let result = evaluate_phase4(&input);

    assert!(result.complete);
    assert!(result.summary.contains("Phase 4 complete"));
    assert!(result.missing_checks.is_empty());
}

#[test]
fn fails_phase4_when_execution_commands_are_partially_ported() {
    let mut input = complete_input();
    input.execution_porting.ported_commands = vec!["build".to_string(), "up".to_string()];

    let result = evaluate_phase4(&input);

    assert!(!result.complete);
    assert_eq!(result.missing_checks, vec![Phase4MissingCheck::ExecutionPorting]);
}

#[test]
fn fails_phase4_when_output_compatibility_is_not_preserved() {
    let mut input = complete_input();
    input.output_compatibility = OutputCompatibilityInput {
        ok: false,
        json_schema_parity: false,
        text_output_parity: true,
    };

    let result = evaluate_phase4(&input);

    assert!(!result.complete);
    assert_eq!(result.missing_checks, vec![Phase4MissingCheck::OutputCompatibility]);
}

#[test]
fn phase4_summary_lists_missing_checks_in_order() {
    let mut input = complete_input();
    input.introspection_porting.ok = false;
    input.collection_porting.ported_commands = vec!["  features ".to_string(), "".to_string()];
    let result = evaluate_phase4(&input);
    assert_eq!(
        result.missing_checks,
        vec![Phase4MissingCheck::IntrospectionPorting, Phase4MissingCheck::CollectionPorting]
    );
    assert_eq!(
        result.summary,
        "Phase 4 incomplete. Missing: introspection-porting, collection-porting."
    );
}

#[test]
fn phase4_trims_ported_command_names() {
    let mut input = complete_input();
    input.execution_porting.ported_commands =
        vec![" build".to_string(), "up\t".to_string(), "\nexec\n".to_string()];
    let result = evaluate_phase4(&input);
    assert!(result.complete);
    assert_eq!(
        result.summary,
        "Phase 4 complete with command porting and output compatibility checks satisfied."
    );
}
