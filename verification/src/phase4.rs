//! Readiness evaluation for the command porting milestone.
use vstd::prelude::*;
use crate::checks::{all_listed, lists_all};
use crate::text::{join, views};

verus! {

/// Whether the introspection commands are served natively.
pub struct IntrospectionPortingInput {
    pub ok: bool,
    pub read_configuration_ported: bool,
    pub metadata_resolve_ported: bool,
}

/// The commands of one group that are served natively.
pub struct CommandPortingInput {
    pub ok: bool,
    pub ported_commands: Vec<String>,
}

/// Whether text and JSON output match the reference behaviour.
pub struct OutputCompatibilityInput {
    pub ok: bool,
    pub json_schema_parity: bool,
    pub text_output_parity: bool,
}

/// Everything the milestone evaluation looks at.
pub struct Phase4Input {
    pub introspection_porting: IntrospectionPortingInput,
    pub execution_porting: CommandPortingInput,
    pub collection_porting: CommandPortingInput,
    pub output_compatibility: OutputCompatibilityInput,
}

/// A check that did not pass.
#[derive(Debug, Clone, Copy, PartialEq, Eq, Structural)]
pub enum Phase4MissingCheck {
    IntrospectionPorting,
    ExecutionPorting,
    CollectionPorting,
    OutputCompatibility,
}

/// The outcome of the evaluation.
#[derive(Debug)]
pub struct Phase4Evaluation {
    pub complete: bool,
    pub summary: String,
    pub missing_checks: Vec<Phase4MissingCheck>,
}

/// The execution commands that must be ported.
pub open spec fn execution_commands() -> Seq<Seq<char>> {
    seq!["build"@, "up"@, "exec"@]
}

/// The collection commands that must be ported.
pub open spec fn collection_commands() -> Seq<Seq<char>> {
    seq!["features"@, "templates"@]
}

pub open spec fn introspection_ok(i: IntrospectionPortingInput) -> bool {
    i.ok && i.read_configuration_ported && i.metadata_resolve_ported
}

pub open spec fn output_ok(i: OutputCompatibilityInput) -> bool {
    i.ok && i.json_schema_parity && i.text_output_parity
}

pub open spec fn command_porting_ok(input: CommandPortingInput, required: Seq<Seq<char>>) -> bool {
    input.ok && lists_all(input.ported_commands@, required)
}

/// The failed checks, in the fixed order in which they are evaluated.
pub open spec fn phase4_missing(input: Phase4Input) -> Seq<Phase4MissingCheck> {
    (if introspection_ok(input.introspection_porting) {
        Seq::empty()
    } else {
        seq![Phase4MissingCheck::IntrospectionPorting]
    }) + (if command_porting_ok(input.execution_porting, execution_commands()) {
        Seq::empty()
    } else {
        seq![Phase4MissingCheck::ExecutionPorting]
    }) + (if command_porting_ok(input.collection_porting, collection_commands()) {
        Seq::empty()
    } else {
        seq![Phase4MissingCheck::CollectionPorting]
    }) + (if output_ok(input.output_compatibility) {
        Seq::empty()
    } else {
        seq![Phase4MissingCheck::OutputCompatibility]
    })
}

pub open spec fn phase4_label(c: Phase4MissingCheck) -> Seq<char> {
    match c {
        Phase4MissingCheck::IntrospectionPorting => "introspection-porting"@,
        Phase4MissingCheck::ExecutionPorting => "execution-porting"@,
        Phase4MissingCheck::CollectionPorting => "collection-porting"@,
        Phase4MissingCheck::OutputCompatibility => "output-compatibility"@,
    }
}

/// The summary line for a list of failed checks.
pub open spec fn phase4_summary(missing: Seq<Phase4MissingCheck>) -> Seq<char> {
    if missing.len() == 0 {
        "Phase 4 complete with command porting and output compatibility checks satisfied."@
    } else {
        "Phase 4 incomplete. Missing: "@ + join(missing.map_values(|c| phase4_label(c)), ", "@)
            + "."@
    }
}

/// Whether every introspection flag is set.
pub fn has_introspection_porting(input: &IntrospectionPortingInput) -> (r: bool)
    ensures
        r == introspection_ok(*input),
{
    input.ok && input.read_configuration_ported && input.metadata_resolve_ported
}

/// Whether the group is marked ok and every required command is listed.
pub fn has_command_porting(input: &CommandPortingInput, required_commands: &[&str]) -> (r: bool)
    ensures
        r == command_porting_ok(*input, required_commands@.map_values(|c: &str| c@)),
{
    if !input.ok {
        return false;
    }
    all_listed(&input.ported_commands, required_commands)
}

/// Whether every output flag is set.
pub fn has_output_compatibility(input: &OutputCompatibilityInput) -> (r: bool)
    ensures
        r == output_ok(*input),
{
    input.ok && input.json_schema_parity && input.text_output_parity
}

fn phase4_label_str(c: Phase4MissingCheck) -> (r: &'static str)
    ensures
        r@ == phase4_label(c),
{
    match c {
        Phase4MissingCheck::IntrospectionPorting => "introspection-porting",
        Phase4MissingCheck::ExecutionPorting => "execution-porting",
        Phase4MissingCheck::CollectionPorting => "collection-porting",
        Phase4MissingCheck::OutputCompatibility => "output-compatibility",
    }
}

/// Evaluates the milestone: which checks fail, in order, and the summary line.
pub fn evaluate_phase4(input: &Phase4Input) -> (r: Phase4Evaluation)
    ensures
        r.missing_checks@ == phase4_missing(*input),
        r.complete == (phase4_missing(*input).len() == 0),
        r.complete == (introspection_ok(input.introspection_porting) && command_porting_ok(
            input.execution_porting,
            execution_commands(),
        ) && command_porting_ok(input.collection_porting, collection_commands()) && output_ok(
            input.output_compatibility,
        )),
        r.summary@ == phase4_summary(phase4_missing(*input)),
{
    let mut missing_checks: Vec<Phase4MissingCheck> = Vec::new();
    let intro = has_introspection_porting(&input.introspection_porting);
    if !intro {
        missing_checks.push(Phase4MissingCheck::IntrospectionPorting);
    }
    let exec_required: [&str; 3] = ["build", "up", "exec"];
    let exec = has_command_porting(&input.execution_porting, &exec_required);
    proof {
        assert(exec_required@.map_values(|c: &str| c@) =~= execution_commands());
    }
    if !exec {
        missing_checks.push(Phase4MissingCheck::ExecutionPorting);
    }
    let collection_required: [&str; 2] = ["features", "templates"];
    let coll = has_command_porting(&input.collection_porting, &collection_required);
    proof {
        assert(collection_required@.map_values(|c: &str| c@) =~= collection_commands());
    }
    if !coll {
        missing_checks.push(Phase4MissingCheck::CollectionPorting);
    }
    let out = has_output_compatibility(&input.output_compatibility);
    if !out {
        missing_checks.push(Phase4MissingCheck::OutputCompatibility);
    }
    proof {
        assert(missing_checks@ =~= phase4_missing(*input));
    }
    if missing_checks.len() == 0 {
        return Phase4Evaluation {
            complete: true,
            summary: String::from_str(
                "Phase 4 complete with command porting and output compatibility checks satisfied.",
            ),
            missing_checks,
        };
    }
    let mut labels: Vec<String> = Vec::new();
    let mut i: usize = 0;
    while i < missing_checks.len()
        invariant
            i <= missing_checks.len(),
            labels.len() == i,
            forall|k: int| 0 <= k < i ==> #[trigger] labels@[k]@ == phase4_label(missing_checks@[k]),
        decreases missing_checks.len() - i,
    {
        labels.push(String::from_str(phase4_label_str(missing_checks[i])));
        i = i + 1;
    }
    proof {
        assert(views(labels@) =~= missing_checks@.map_values(|c| phase4_label(c)));
    }
    let joined = crate::text::join_strings(&labels, ", ");
    let mut summary = String::from_str("Phase 4 incomplete. Missing: ");
    summary.append(joined.as_str());
    summary.append(".");
    Phase4Evaluation { complete: false, summary, missing_checks }
}

} // verus!
