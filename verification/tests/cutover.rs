use devcontainer::cutover::{
    evaluate_cutover, CutoverMissingCheck, CutoverReadinessInput, DefaultReleaseCutoverInput,
    FallbackRemovalInput, IntegrationParityInput, PerformanceBenchmarksInput,
};

fn complete_input() -> CutoverReadinessInput {
    CutoverReadinessInput {
        integration_parity: IntegrationParityInput {
            ok: true,
            baseline: "node-cli".to_string(),
            parity_suite_path: "src/test/native-parity".to_string(),
            covered_commands: ["read-configuration", "build", "up", "exec", "features", "templates"]
                .iter()
                .map(|c| c.to_string())
                .collect(),
        },
        performance_benchmarks: PerformanceBenchmarksInput {
            ok: true,
            report_path: "docs/standalone/cutover.md".to_string(),
            startup_latency_ms: 220,
            peak_memory_mb: 96,
        },
        default_release_cutover: DefaultReleaseCutoverInput {
            ok: true,
            native_default: true,
            node_fallback_window: "1 major cycle".to_string(),
        },
        fallback_removal: FallbackRemovalInput {
            ok: true,
            criteria: "No Sev1 regressions across two releases".to_string(),
            removal_issue: "https://example.test/issues/123".to_string(),
            planned: true,
        },
    }
}

#[test]
fn marks_cutover_complete_when_all_checks_pass() {
    let input = complete_input();
    let result = evaluate_cutover(&input);

    assert!(result.complete);
    assert!(result.summary.contains("Cutover readiness complete"));
    assert!(result.missing_checks.is_empty());
}

#[test]
fn fails_cutover_when_parity_coverage_is_incomplete() {
    let mut input = complete_input();
    input.integration_parity.covered_commands =
        vec!["read-configuration".to_string(), "build".to_string()];

    let result = evaluate_cutover(&input);

    assert!(!result.complete);
    assert_eq!(result.missing_checks, vec![CutoverMissingCheck::IntegrationParity]);
}

#[test]
fn cutover_summary_names_the_parity_suite() {
    let result = evaluate_cutover(&complete_input());
    assert_eq!(
        result.summary,
        "Cutover readiness complete with parity suite at src/test/native-parity."
    );
}

#[test]
fn cutover_reports_every_failed_check() {
    let mut input = complete_input();
    input.integration_parity.baseline = "   ".to_string();
    input.performance_benchmarks.startup_latency_ms = 0;
    input.default_release_cutover.node_fallback_window = String::new();
    input.fallback_removal.planned = false;
    let result = evaluate_cutover(&input);
    assert_eq!(
        result.missing_checks,
        vec![
            CutoverMissingCheck::IntegrationParity,
            CutoverMissingCheck::PerformanceBenchmarks,
            CutoverMissingCheck::DefaultReleaseCutover,
            CutoverMissingCheck::FallbackRemoval,
        ]
    );
    assert_eq!(
        result.summary,
        "Cutover readiness incomplete. Missing: integration-parity, performance-benchmarks, default-release-cutover, fallback-removal."
    );
}
