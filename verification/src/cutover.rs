//! Readiness evaluation for making the native CLI the default.
use vstd::prelude::*;
use crate::checks::{all_listed, is_blank, lists_all};
use crate::text::{join, join_strings, trim, views};

verus! {

/// Parity test coverage of the native commands.
pub struct IntegrationParityInput {
    pub ok: bool,
    pub baseline: String,
    pub parity_suite_path: String,
    pub covered_commands: Vec<String>,
}

/// Benchmark results of the native CLI.
pub struct PerformanceBenchmarksInput {
    pub ok: bool,
    pub report_path: String,
    pub startup_latency_ms: u64,
    pub peak_memory_mb: u64,
}

/// Whether the native CLI ships as the default.
pub struct DefaultReleaseCutoverInput {
    pub ok: bool,
    pub native_default: bool,
    pub node_fallback_window: String,
}

/// The plan for removing the fallback bridge.
pub struct FallbackRemovalInput {
    pub ok: bool,
    pub criteria: String,
    pub removal_issue: String,
    pub planned: bool,
}

/// Everything the cutover evaluation looks at.
pub struct CutoverReadinessInput {
    pub integration_parity: IntegrationParityInput,
    pub performance_benchmarks: PerformanceBenchmarksInput,
    pub default_release_cutover: DefaultReleaseCutoverInput,
    pub fallback_removal: FallbackRemovalInput,
}

/// A cutover check that did not pass.
#[derive(Debug, Clone, Copy, PartialEq, Eq, Structural)]
pub enum CutoverMissingCheck {
    IntegrationParity,
    PerformanceBenchmarks,
    DefaultReleaseCutover,
    FallbackRemoval,
}

/// The outcome of the cutover evaluation.
#[derive(Debug)]
pub struct CutoverReadinessEvaluation {
    pub complete: bool,
    pub summary: String,
    pub missing_checks: Vec<CutoverMissingCheck>,
}

/// The commands that the parity suite must cover.
pub open spec fn parity_commands() -> Seq<Seq<char>> {
    seq!["read-configuration"@, "build"@, "up"@, "exec"@, "features"@, "templates"@]
}

pub open spec fn filled(s: String) -> bool {
    trim(s@).len() > 0
}

pub open spec fn integration_parity_ok(i: IntegrationParityInput) -> bool {
    i.ok && filled(i.baseline) && filled(i.parity_suite_path) && lists_all(
        i.covered_commands@,
        parity_commands(),
    )
}

pub open spec fn performance_ok(i: PerformanceBenchmarksInput) -> bool {
    i.ok && filled(i.report_path) && i.startup_latency_ms > 0 && i.peak_memory_mb > 0
}

pub open spec fn default_release_ok(i: DefaultReleaseCutoverInput) -> bool {
    i.ok && i.native_default && filled(i.node_fallback_window)
}

pub open spec fn fallback_removal_ok(i: FallbackRemovalInput) -> bool {
    i.ok && filled(i.criteria) && filled(i.removal_issue) && i.planned
}

/// The failed checks, in the fixed order in which they are evaluated.
pub open spec fn cutover_missing(input: CutoverReadinessInput) -> Seq<CutoverMissingCheck> {
    (if integration_parity_ok(input.integration_parity) {
        Seq::empty()
    } else {
        seq![CutoverMissingCheck::IntegrationParity]
    }) + (if performance_ok(input.performance_benchmarks) {
        Seq::empty()
    } else {
        seq![CutoverMissingCheck::PerformanceBenchmarks]
    }) + (if default_release_ok(input.default_release_cutover) {
        Seq::empty()
    } else {
        seq![CutoverMissingCheck::DefaultReleaseCutover]
    }) + (if fallback_removal_ok(input.fallback_removal) {
        Seq::empty()
    } else {
        seq![CutoverMissingCheck::FallbackRemoval]
    })
}

pub open spec fn cutover_label(c: CutoverMissingCheck) -> Seq<char> {
    match c {
        CutoverMissingCheck::IntegrationParity => "integration-parity"@,
        CutoverMissingCheck::PerformanceBenchmarks => "performance-benchmarks"@,
        CutoverMissingCheck::DefaultReleaseCutover => "default-release-cutover"@,
        CutoverMissingCheck::FallbackRemoval => "fallback-removal"@,
    }
}

/// The summary line: the parity suite path when complete, else the failed checks.
pub open spec fn cutover_summary(input: CutoverReadinessInput) -> Seq<char> {
    let missing = cutover_missing(input);
    if missing.len() == 0 {
        "Cutover readiness complete with parity suite at "@
            + input.integration_parity.parity_suite_path@ + "."@
    } else {
        "Cutover readiness incomplete. Missing: "@ + join(
            missing.map_values(|c| cutover_label(c)),
            ", "@,
        ) + "."@
    }
}

/// Whether parity coverage is recorded and complete.
pub fn has_integration_parity(input: &IntegrationParityInput) -> (r: bool)
    ensures
        r == integration_parity_ok(*input),
{
    let required: [&str; 6] = ["read-configuration", "build", "up", "exec", "features", "templates"];
    proof {
        assert(required@.map_values(|c: &str| c@) =~= parity_commands());
    }
    input.ok && !is_blank(input.baseline.as_str()) && !is_blank(input.parity_suite_path.as_str())
        && all_listed(&input.covered_commands, &required)
}

/// Whether benchmark results are recorded.
pub fn has_performance_benchmarks(input: &PerformanceBenchmarksInput) -> (r: bool)
    ensures
        r == performance_ok(*input),
{
    input.ok && !is_blank(input.report_path.as_str()) && input.startup_latency_ms > 0
        && input.peak_memory_mb > 0
}

/// Whether the native default is in place with a fallback window.
pub fn has_default_release_cutover(input: &DefaultReleaseCutoverInput) -> (r: bool)
    ensures
        r == default_release_ok(*input),
{
    input.ok && input.native_default && !is_blank(input.node_fallback_window.as_str())
}

/// Whether the fallback removal is planned with criteria and an issue.
pub fn has_fallback_removal(input: &FallbackRemovalInput) -> (r: bool)
    ensures
        r == fallback_removal_ok(*input),
{
    input.ok && !is_blank(input.criteria.as_str()) && !is_blank(input.removal_issue.as_str())
        && input.planned
}

fn cutover_label_str(c: CutoverMissingCheck) -> (r: &'static str)
    ensures
        r@ == cutover_label(c),
{
    match c {
        CutoverMissingCheck::IntegrationParity => "integration-parity",
        CutoverMissingCheck::PerformanceBenchmarks => "performance-benchmarks",
        CutoverMissingCheck::DefaultReleaseCutover => "default-release-cutover",
        CutoverMissingCheck::FallbackRemoval => "fallback-removal",
    }
}

/// Evaluates cutover readiness: the failed checks, in order, and the summary line.
pub fn evaluate_cutover(input: &CutoverReadinessInput) -> (r: CutoverReadinessEvaluation)
    ensures
        r.missing_checks@ == cutover_missing(*input),
        r.complete == (cutover_missing(*input).len() == 0),
        r.complete == (integration_parity_ok(input.integration_parity) && performance_ok(
            input.performance_benchmarks,
        ) && default_release_ok(input.default_release_cutover) && fallback_removal_ok(
            input.fallback_removal,
        )),
        r.summary@ == cutover_summary(*input),
{
    let mut missing_checks: Vec<CutoverMissingCheck> = Vec::new();
    if !has_integration_parity(&input.integration_parity) {
        missing_checks.push(CutoverMissingCheck::IntegrationParity);
    }
    if !has_performance_benchmarks(&input.performance_benchmarks) {
        missing_checks.push(CutoverMissingCheck::PerformanceBenchmarks);
    }
    if !has_default_release_cutover(&input.default_release_cutover) {
        missing_checks.push(CutoverMissingCheck::DefaultReleaseCutover);
    }
    if !has_fallback_removal(&input.fallback_removal) {
        missing_checks.push(CutoverMissingCheck::FallbackRemoval);
    }
    proof {
        assert(missing_checks@ =~= cutover_missing(*input));
    }
    if missing_checks.len() == 0 {
        let mut summary = String::from_str("Cutover readiness complete with parity suite at ");
        summary.append(input.integration_parity.parity_suite_path.as_str());
        summary.append(".");
        return CutoverReadinessEvaluation { complete: true, summary, missing_checks };
    }
    let mut labels: Vec<String> = Vec::new();
    let mut i: usize = 0;
    while i < missing_checks.len()
        invariant
            i <= missing_checks.len(),
            labels.len() == i,
            forall|k: int| 0 <= k < i ==> #[trigger] labels@[k]@ == cutover_label(missing_checks@[k]),
        decreases missing_checks.len() - i,
    {
        labels.push(String::from_str(cutover_label_str(missing_checks[i])));
        i = i + 1;
    }
    proof {
        assert(views(labels@) =~= missing_checks@.map_values(|c| cutover_label(c)));
    }
    let joined = join_strings(&labels, ", ");
    let mut summary = String::from_str("Cutover readiness incomplete. Missing: ");
    summary.append(joined.as_str());
    summary.append(".");
    CutoverReadinessEvaluation { complete: false, summary, missing_checks }
}

} // verus!
