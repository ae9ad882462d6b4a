//! Lifecycle commands: how configured commands are read, which stages run in
//! which situation, and how each command is run on the host or in the container.
use vstd::prelude::*;
use crate::args::has_flag;
use crate::devcontainer_id::labels_view;
use crate::dotfiles::dotfiles_install_command;
use crate::engine::{log_level_of, runtime_process_request, terminal_env, ProcessLogLevel, ProcessRequest};
use crate::exec::env_args;
use crate::json_value::{get, get_str, json_get, json_get_str, JsonValue};
use crate::runtime::{combined_env, combined_remote_env, configured_user, configured_user_of};
use crate::text::{copy_string, opt_view, str_eq, views};

verus! {

/// Why lifecycle commands are run.
#[derive(Debug, Clone, Copy, PartialEq, Eq, Structural)]
pub enum LifecycleMode {
    UpCreated,
    UpStarted,
    UpReused,
    SetUp,
    RunUserCommands,
}

/// One configured command: a shell command line, or a program with its arguments.
#[derive(Debug)]
pub enum LifecycleCommand {
    Shell(String),
    Exec(Vec<String>),
}

/// One step of the lifecycle: a group of commands run together, or the dotfiles installation.
#[derive(Debug)]
pub enum LifecycleStep {
    CommandGroup(Vec<LifecycleCommand>),
    InstallDotfiles,
}

/// A command as plain text: whether it is a shell command, and its words.
pub open spec fn command_view(c: LifecycleCommand) -> (bool, Seq<Seq<char>>) {
    match c {
        LifecycleCommand::Shell(s) => (true, seq![s@]),
        LifecycleCommand::Exec(p) => (false, views(p@)),
    }
}

pub open spec fn group_view(g: Seq<LifecycleCommand>) -> Seq<(bool, Seq<Seq<char>>)> {
    g.map_values(|c: LifecycleCommand| command_view(c))
}

/// A step as plain text: a command group, or nothing for the dotfiles step.
pub open spec fn step_view(s: LifecycleStep) -> Option<Seq<(bool, Seq<Seq<char>>)>> {
    match s {
        LifecycleStep::CommandGroup(g) => Some(group_view(g@)),
        LifecycleStep::InstallDotfiles => None,
    }
}

pub open spec fn steps_view(s: Seq<LifecycleStep>) -> Seq<Option<Seq<(bool, Seq<Seq<char>>)>>> {
    s.map_values(|x: LifecycleStep| step_view(x))
}

/// Whether a stage runs: every stage for a new container, `set-up` and
/// `run-user-commands`; the start and attach stages for a restarted one; the
/// attach stage for a reused one.
pub open spec fn runs_in_mode(stage: Seq<char>, mode: LifecycleMode) -> bool {
    match mode {
        LifecycleMode::UpCreated | LifecycleMode::SetUp | LifecycleMode::RunUserCommands => true,
        LifecycleMode::UpStarted => stage == "postStartCommand"@ || stage == "postAttachCommand"@,
        LifecycleMode::UpReused => stage == "postAttachCommand"@,
    }
}

/// Whether the stage runs in this mode.
pub fn lifecycle_stage_runs_in_mode(stage: &str, mode: LifecycleMode) -> (r: bool)
    ensures
        r == runs_in_mode(stage@, mode),
{
    match mode {
        LifecycleMode::UpCreated | LifecycleMode::SetUp | LifecycleMode::RunUserCommands => true,
        LifecycleMode::UpStarted => str_eq(stage, "postStartCommand") || str_eq(stage, "postAttachCommand"),
        LifecycleMode::UpReused => str_eq(stage, "postAttachCommand"),
    }
}

/// The words of an array of strings; none when any element is not a string or it is empty.
pub open spec fn string_parts(parts: Seq<JsonValue>) -> Option<Seq<Seq<char>>>
    decreases parts.len(),
{
    if parts.len() == 0 {
        None
    } else {
        let last = match parts.last() {
            JsonValue::Str(s) => Some(s@),
            _ => None,
        };
        match last {
            None => None,
            Some(w) => if parts.len() == 1 {
                Some(seq![w])
            } else {
                match string_parts(parts.drop_last()) {
                    Some(ws) => Some(ws.push(w)),
                    None => None,
                }
            },
        }
    }
}

/// The words of an array command.
pub fn command_parts(parts: &Vec<JsonValue>) -> (r: Option<Vec<String>>)
    ensures
        match r {
            Some(v) => string_parts(parts@) == Some(views(v@)),
            None => string_parts(parts@) is None,
        },
{
    if parts.len() == 0 {
        return None;
    }
    let mut out: Vec<String> = Vec::new();
    let mut i: usize = 0;
    while i < parts.len()
        invariant
            i <= parts.len(),
            parts.len() > 0,
            i > 0 ==> string_parts(parts@.take(i as int)) == Some(views(out@)),
            i == 0 ==> out@.len() == 0,
        decreases parts.len() - i,
    {
        proof {
            assert(parts@.take(i + 1).drop_last() =~= parts@.take(i as int));
            assert(parts@.take(i + 1).last() == parts@[i as int]);
        }
        match &parts[i] {
            JsonValue::Str(s) => {
                let w = copy_string(s);
                let ghost old_out = out@;
                out.push(w);
                proof {
                    assert(views(out@) =~= views(old_out).push(w@));
                    if i == 0 {
                        assert(views(out@) =~= seq![w@]);
                    }
                }
            },
            _ => {
                proof {
                    if i > 0 {
                        assert(string_parts(parts@.take(i + 1)) is None);
                    }
                    lemma_string_parts_prefix_none(parts@, (i + 1) as int);
                }
                return None;
            },
        }
        i = i + 1;
    }
    proof {
        assert(parts@.take(parts.len() as int) =~= parts@);
    }
    Some(out)
}

proof fn lemma_string_parts_prefix_none(parts: Seq<JsonValue>, k: int)
    requires
        0 < k <= parts.len(),
        string_parts(parts.take(k)) is None,
    ensures
        string_parts(parts) is None,
    decreases parts.len() - k,
{
    if k < parts.len() {
        assert(parts.take(k + 1).drop_last() =~= parts.take(k));
        lemma_string_parts_prefix_none(parts, k + 1);
    } else {
        assert(parts.take(k) =~= parts);
    }
}

/// One command of an object group: a string or an array of strings.
pub open spec fn command_of(v: JsonValue) -> Option<(bool, Seq<Seq<char>>)> {
    match v {
        JsonValue::Str(s) => Some((true, seq![s@])),
        JsonValue::Array(p) => match string_parts(p@) {
            Some(ws) => Some((false, ws)),
            None => None,
        },
        _ => None,
    }
}

/// The commands of an object's values, in order, skipping values that are not commands.
pub open spec fn object_commands(entries: Seq<(String, JsonValue)>) -> Seq<(bool, Seq<Seq<char>>)>
    decreases entries.len(),
{
    if entries.len() == 0 {
        Seq::empty()
    } else {
        let rest = object_commands(entries.drop_last());
        match command_of(entries.last().1) {
            Some(c) => rest.push(c),
            None => rest,
        }
    }
}

/// A configured command group: a string is one shell command, an array one
/// program call, an object its command values run together; none otherwise or
/// when an object holds no command.
pub open spec fn command_group(v: JsonValue) -> Option<Seq<(bool, Seq<Seq<char>>)>> {
    match v {
        JsonValue::Str(s) => Some(seq![(true, seq![s@])]),
        JsonValue::Array(p) => match string_parts(p@) {
            Some(ws) => Some(seq![(false, ws)]),
            None => None,
        },
        JsonValue::Object(entries) => {
            let cs = object_commands(entries@);
            if cs.len() == 0 {
                None
            } else {
                Some(cs)
            }
        },
        _ => None,
    }
}

fn lifecycle_command(value: &JsonValue) -> (r: Option<LifecycleCommand>)
    ensures
        match r {
            Some(c) => command_of(*value) == Some(command_view(c)),
            None => command_of(*value) is None,
        },
{
    match value {
        JsonValue::Str(s) => Some(LifecycleCommand::Shell(copy_string(s))),
        JsonValue::Array(parts) => match command_parts(parts) {
            Some(p) => Some(LifecycleCommand::Exec(p)),
            None => None,
        },
        _ => None,
    }
}

/// Reads a configured command group.
pub fn lifecycle_command_group(value: &JsonValue) -> (r: Option<Vec<LifecycleCommand>>)
    ensures
        match r {
            Some(g) => command_group(*value) == Some(group_view(g@)),
            None => command_group(*value) is None,
        },
{
    match value {
        JsonValue::Str(s) => {
            let mut g: Vec<LifecycleCommand> = Vec::new();
            g.push(LifecycleCommand::Shell(copy_string(s)));
            proof {
                assert(group_view(g@) =~= seq![command_view(g@[0])]);
            }
            Some(g)
        },
        JsonValue::Array(parts) => match command_parts(parts) {
            Some(p) => {
                let mut g: Vec<LifecycleCommand> = Vec::new();
                g.push(LifecycleCommand::Exec(p));
                proof {
                    assert(group_view(g@) =~= seq![command_view(g@[0])]);
                }
                Some(g)
            },
            None => None,
        },
        JsonValue::Object(entries) => {
            let mut g: Vec<LifecycleCommand> = Vec::new();
            let mut i: usize = 0;
            while i < entries.len()
                invariant
                    i <= entries.len(),
                    group_view(g@) == object_commands(entries@.take(i as int)),
                decreases entries.len() - i,
            {
                proof {
                    assert(entries@.take(i + 1).drop_last() =~= entries@.take(i as int));
                    assert(entries@.take(i + 1).last() == entries@[i as int]);
                }
                match lifecycle_command(&entries[i].1) {
                    Some(c) => {
                        let ghost cv = command_view(c);
                        let ghost old_g = g@;
                        g.push(c);
                        proof {
                            assert(group_view(g@) =~= group_view(old_g).push(cv));
                        }
                    },
                    None => {},
                }
                i = i + 1;
            }
            proof {
                assert(entries@.take(entries.len() as int) =~= entries@);
            }
            if g.len() == 0 {
                None
            } else {
                Some(g)
            }
        },
        _ => None,
    }
}

/// The command group configured under `key`.
pub open spec fn command_value(c: JsonValue, key: Seq<char>) -> Option<Seq<(bool, Seq<Seq<char>>)>> {
    match get(c, key) {
        Some(v) => command_group(v),
        None => None,
    }
}

/// Reads the command group configured under `key`.
pub fn lifecycle_command_value(configuration: &JsonValue, key: &str) -> (r: Option<Vec<LifecycleCommand>>)
    ensures
        match r {
            Some(g) => command_value(*configuration, key@) == Some(group_view(g@)),
            None => command_value(*configuration, key@) is None,
        },
{
    match json_get(configuration, key) {
        Some(v) => lifecycle_command_group(v),
        None => None,
    }
}

/// The lifecycle stages, in order.
pub open spec fn stage_name(k: int) -> Seq<char> {
    if k == 0 {
        "onCreateCommand"@
    } else if k == 1 {
        "updateContentCommand"@
    } else if k == 2 {
        "postCreateCommand"@
    } else if k == 3 {
        "postStartCommand"@
    } else {
        "postAttachCommand"@
    }
}

/// The steps from stage `k` on: each stage that runs in this mode contributes
/// its command group; after the post-create stage comes the dotfiles step, and
/// with `stop` nothing more; with `skip_non_blocking` nothing comes after the
/// stage that is waited for.
pub open spec fn steps_from(
    c: JsonValue,
    mode: LifecycleMode,
    skip_post_attach: bool,
    skip_non_blocking: bool,
    wait_for: Seq<char>,
    dotfiles: bool,
    stop: bool,
    k: int,
) -> Seq<Option<Seq<(bool, Seq<Seq<char>>)>>>
    decreases 5 - k,
{
    if k < 0 || k >= 5 {
        Seq::empty()
    } else {
        let name = stage_name(k);
        let group = if k == 4 && skip_post_attach {
            None
        } else {
            command_value(c, name)
        };
        let runs = runs_in_mode(name, mode);
        let here = if runs && group is Some {
            seq![group]
        } else {
            Seq::empty()
        };
        if skip_non_blocking && name == wait_for {
            here
        } else if name == "postCreateCommand"@ && runs {
            let d = if dotfiles {
                seq![None]
            } else {
                Seq::empty()
            };
            if stop {
                here + d
            } else {
                here + d + steps_from(c, mode, skip_post_attach, skip_non_blocking, wait_for, dotfiles, stop, k + 1)
            }
        } else {
            here + steps_from(c, mode, skip_post_attach, skip_non_blocking, wait_for, dotfiles, stop, k + 1)
        }
    }
}

/// The stage waited for: `waitFor`, else the update-content stage.
pub open spec fn wait_for_of(c: JsonValue) -> Seq<char> {
    match get_str(c, "waitFor"@) {
        Some(w) => w,
        None => "updateContentCommand"@,
    }
}

/// The lifecycle steps to run: none with `--skip-post-create`, none when
/// non-blocking commands are skipped and the initialize stage is waited for.
pub open spec fn lifecycle_steps(c: JsonValue, args: Seq<Seq<char>>, mode: LifecycleMode, stop: bool) -> Seq<Option<Seq<(bool, Seq<Seq<char>>)>>> {
    let skip_non_blocking = args.contains("--skip-non-blocking-commands"@);
    if args.contains("--skip-post-create"@) {
        Seq::empty()
    } else if skip_non_blocking && wait_for_of(c) == "initializeCommand"@ {
        Seq::empty()
    } else {
        steps_from(
            c,
            mode,
            args.contains("--skip-post-attach"@),
            skip_non_blocking,
            wait_for_of(c),
            crate::dotfiles::dotfiles_script(args) is Some,
            stop,
            0,
        )
    }
}

fn stage_name_exec(k: usize) -> (r: &'static str)
    requires
        k < 5,
    ensures
        r@ == stage_name(k as int),
{
    if k == 0 {
        "onCreateCommand"
    } else if k == 1 {
        "updateContentCommand"
    } else if k == 2 {
        "postCreateCommand"
    } else if k == 3 {
        "postStartCommand"
    } else {
        "postAttachCommand"
    }
}

/// The lifecycle steps to run for the configuration in this mode.
#[verifier::rlimit(60)]
pub fn selected_lifecycle_steps(
    configuration: &JsonValue,
    args: &[String],
    mode: LifecycleMode,
    stop_for_personalization: bool,
) -> (r: Vec<LifecycleStep>)
    ensures
        steps_view(r@) == lifecycle_steps(*configuration, views(args@), mode, stop_for_personalization),
{
    let skip_post_create = has_flag(args, "--skip-post-create");
    let skip_post_attach = has_flag(args, "--skip-post-attach");
    let skip_non_blocking = has_flag(args, "--skip-non-blocking-commands");
    if skip_post_create {
        return Vec::new();
    }
    let wait_for = match json_get_str(configuration, "waitFor") {
        Some(w) => w,
        None => String::from_str("updateContentCommand"),
    };
    if skip_non_blocking && str_eq(wait_for.as_str(), "initializeCommand") {
        return Vec::new();
    }
    let dotfiles = dotfiles_install_command(args).is_some();
    let ghost total = lifecycle_steps(*configuration, views(args@), mode, stop_for_personalization);
    let mut steps: Vec<LifecycleStep> = Vec::new();
    let mut k: usize = 0;
    loop
        invariant_except_break
            k < 5,
            total == steps_view(steps@) + steps_from(
                *configuration,
                mode,
                skip_post_attach,
                skip_non_blocking,
                wait_for@,
                dotfiles,
                stop_for_personalization,
                k as int,
            ),
        ensures
            total == steps_view(steps@),
        decreases 5 - k,
    {
        let name = stage_name_exec(k);
        let group = if k == 4 && skip_post_attach {
            None
        } else {
            lifecycle_command_value(configuration, name)
        };
        let runs = lifecycle_stage_runs_in_mode(name, mode);
        let ghost before = steps_view(steps@);
        match group {
            Some(g) => if runs {
                let ghost gv = group_view(g@);
                steps.push(LifecycleStep::CommandGroup(g));
                proof {
                    assert(steps_view(steps@) =~= before.push(Some(gv)));
                }
            },
            None => {},
        }
        let ghost after_here = steps_view(steps@);
        if skip_non_blocking && str_eq(name, wait_for.as_str()) {
            proof {
                assert(total == after_here);
            }
            break;
        }
        if str_eq(name, "postCreateCommand") && runs {
            if dotfiles {
                steps.push(LifecycleStep::InstallDotfiles);
                proof {
                    assert(steps_view(steps@) =~= after_here.push(None));
                }
            }
            if stop_for_personalization {
                proof {
                    assert(total =~= steps_view(steps@));
                }
                break;
            }
        }
        if k == 4 {
            proof {
                assert(steps_from(
                    *configuration,
                    mode,
                    skip_post_attach,
                    skip_non_blocking,
                    wait_for@,
                    dotfiles,
                    stop_for_personalization,
                    5,
                ) =~= Seq::empty());
                assert(total =~= steps_view(steps@));
            }
            break;
        }
        proof {
            assert(total =~= steps_view(steps@) + steps_from(
                *configuration,
                mode,
                skip_post_attach,
                skip_non_blocking,
                wait_for@,
                dotfiles,
                stop_for_personalization,
                k + 1,
            ));
        }
        k = k + 1;
    }
    steps
}


/// The words after the container id: a shell command runs through `/bin/sh -lc`.
pub open spec fn command_words(c: (bool, Seq<Seq<char>>)) -> Seq<Seq<char>> {
    if c.0 {
        seq!["/bin/sh"@, "-lc"@, c.1[0]]
    } else {
        c.1
    }
}

/// The engine arguments that run one lifecycle command in the container.
pub open spec fn lifecycle_exec_args_of(
    args: Seq<Seq<char>>,
    configuration: JsonValue,
    secrets: Seq<(Seq<char>, Seq<char>)>,
    remote_folder: Seq<char>,
    container_id: Seq<char>,
    command: (bool, Seq<Seq<char>>),
) -> Seq<Seq<char>> {
    seq!["exec"@, "--workdir"@, remote_folder] + (match configured_user_of(configuration) {
        Some(u) => seq!["--user"@, u],
        None => Seq::empty(),
    }) + env_args(combined_env(args, Some(configuration), secrets)) + seq![container_id]
        + command_words(command)
}

fn push_str(out: &mut Vec<String>, s: &str)
    ensures
        views(final(out)@) == views(old(out)@).push(s@),
{
    let v = String::from_str(s);
    out.push(v);
    proof {
        assert(views(out@) =~= views(old(out)@).push(s@));
    }
}

/// The engine arguments for a lifecycle command in the container.
pub fn lifecycle_exec_args(
    args: &[String],
    configuration: &JsonValue,
    secrets: &Vec<(String, String)>,
    remote_workspace_folder: &str,
    container_id: &str,
    command: LifecycleCommand,
) -> (r: Vec<String>)
    ensures
        views(r@) == lifecycle_exec_args_of(
            views(args@),
            *configuration,
            labels_view(secrets@),
            remote_workspace_folder@,
            container_id@,
            command_view(command),
        ),
{
    let ghost cv = command_view(command);
    let mut out: Vec<String> = Vec::new();
    push_str(&mut out, "exec");
    push_str(&mut out, "--workdir");
    push_str(&mut out, remote_workspace_folder);
    match configured_user(configuration) {
        Some(u) => {
            push_str(&mut out, "--user");
            push_str(&mut out, u.as_str());
        },
        None => {},
    }
    let ghost after_user = views(out@);
    let env = combined_remote_env(args, Some(configuration), secrets);
    let ghost ev = labels_view(env@);
    let mut i: usize = 0;
    while i < env.len()
        invariant
            i <= env.len(),
            ev == labels_view(env@),
            views(out@) == after_user + env_args(ev.take(i as int)),
        decreases env.len() - i,
    {
        proof {
            assert(ev.take(i + 1).drop_last() =~= ev.take(i as int));
            assert(ev.take(i + 1).last() == ev[i as int]);
        }
        push_str(&mut out, "-e");
        let mut kv = copy_string(&env[i].0);
        kv.append("=");
        kv.append(env[i].1.as_str());
        let ghost old_out = out@;
        out.push(kv);
        proof {
            assert(views(out@) =~= views(old_out).push(kv@));
            assert(views(out@) =~= after_user + env_args(ev.take(i + 1)));
        }
        i = i + 1;
    }
    proof {
        assert(ev.take(env.len() as int) =~= ev);
    }
    push_str(&mut out, container_id);
    let ghost before_cmd = views(out@);
    match command {
        LifecycleCommand::Shell(c) => {
            push_str(&mut out, "/bin/sh");
            push_str(&mut out, "-lc");
            let ghost old_out = out@;
            let ghost c_view = c@;
            out.push(c);
            proof {
                assert(views(out@) =~= views(old_out).push(c_view));
                assert(views(out@) =~= before_cmd + command_words(cv));
            }
        },
        LifecycleCommand::Exec(parts) => {
            let mut p = parts;
            let ghost pv = views(p@);
            out.append(&mut p);
            proof {
                assert(views(out@) =~= before_cmd + pv);
            }
        },
    }
    out
}

/// The program and arguments of a lifecycle command on the host: a shell
/// command through `/bin/sh -c`, a program call as given (an empty program
/// when it has no words).
pub open spec fn host_command_of(c: (bool, Seq<Seq<char>>)) -> (Seq<char>, Seq<Seq<char>>) {
    if c.0 {
        ("/bin/sh"@, seq!["-c"@, c.1[0]])
    } else if c.1.len() > 0 {
        (c.1[0], c.1.drop_first())
    } else {
        (Seq::empty(), Seq::empty())
    }
}

/// The request that runs a lifecycle command on the host, in the workspace folder.
pub fn host_lifecycle_request(args: &[String], workspace_folder: &str, command: LifecycleCommand) -> (r: ProcessRequest)
    ensures
        r.program@ == host_command_of(command_view(command)).0,
        views(r.args@) == host_command_of(command_view(command)).1,
        opt_view(r.cwd) == Some(workspace_folder@),
        labels_view(r.env@) == terminal_env(views(args@)),
        r.log_level == log_level_of(views(args@)),
{
    match command {
        LifecycleCommand::Shell(c) => {
            let mut a: Vec<String> = Vec::new();
            push_str(&mut a, "-c");
            let ghost old_a = a@;
            let ghost c_view = c@;
            a.push(c);
            proof {
                assert(views(a@) =~= views(old_a).push(c_view));
            }
            runtime_process_request(args, String::from_str("/bin/sh"), a, Some(String::from_str(workspace_folder)))
        },
        LifecycleCommand::Exec(parts) => {
            let ghost pv = views(parts@);
            if parts.len() == 0 {
                return runtime_process_request(args, String::new(), Vec::new(), Some(String::from_str(workspace_folder)));
            }
            let program = copy_string(&parts[0]);
            let mut rest: Vec<String> = Vec::new();
            let mut k: usize = 1;
            while k < parts.len()
                invariant
                    1 <= k <= parts.len(),
                    pv == views(parts@),
                    views(rest@) == pv.subrange(1, k as int),
                decreases parts.len() - k,
            {
                let w = copy_string(&parts[k]);
                let ghost old_rest = rest@;
                rest.push(w);
                proof {
                    assert(views(rest@) =~= views(old_rest).push(w@));
                    assert(views(rest@) =~= pv.subrange(1, k + 1));
                }
                k = k + 1;
            }
            proof {
                assert(pv.subrange(1, parts.len() as int) =~= pv.drop_first());
            }
            runtime_process_request(args, program, rest, Some(String::from_str(workspace_folder)))
        },
    }
}

/// How one command of a group ended: the process it ran finished, or it
/// could not run (its error), or the thread running it panicked.
#[derive(Debug)]
pub enum GroupOutcome {
    Finished(crate::engine::ProcessResult),
    Failed(String),
    Panicked,
}

/// The message of a failed process, as `stderr_or_stdout` gives it.
pub open spec fn failure_message(result: crate::engine::ProcessResult) -> Seq<char> {
    if crate::text::trim(result.stderr@).len() == 0 {
        crate::text::trim(result.stdout@)
    } else {
        crate::text::trim(result.stderr@)
    }
}

/// The error of an outcome, if it failed.
pub open spec fn outcome_error(o: GroupOutcome) -> Option<Seq<char>> {
    match o {
        GroupOutcome::Finished(r) => if r.status_code == 0 {
            None
        } else {
            Some(failure_message(r))
        },
        GroupOutcome::Failed(e) => Some(e@),
        GroupOutcome::Panicked => Some("Lifecycle command thread panicked unexpectedly"@),
    }
}

/// The first error among the outcomes, in the group's order.
pub open spec fn first_group_error(outcomes: Seq<GroupOutcome>) -> Option<Seq<char>>
    decreases outcomes.len(),
{
    if outcomes.len() == 0 {
        None
    } else {
        match outcome_error(outcomes[0]) {
            Some(e) => Some(e),
            None => first_group_error(outcomes.drop_first()),
        }
    }
}

/// The result of a group of commands run side by side: the error of the
/// first command, in the group's order, that failed, else success.
pub fn group_result(outcomes: &Vec<GroupOutcome>) -> (r: Result<(), String>)
    ensures
        match first_group_error(outcomes@) {
            Some(e) => r matches Err(x) && x@ == e,
            None => r is Ok,
        },
{
    let mut i: usize = 0;
    proof {
        assert(outcomes@.skip(0) =~= outcomes@);
    }
    while i < outcomes.len()
        invariant
            i <= outcomes.len(),
            first_group_error(outcomes@) == first_group_error(outcomes@.skip(i as int)),
        decreases outcomes.len() - i,
    {
        proof {
            assert(outcomes@.skip(i as int)[0] == outcomes@[i as int]);
            assert(outcomes@.skip(i as int).drop_first() =~= outcomes@.skip(i + 1));
        }
        match &outcomes[i] {
            GroupOutcome::Finished(result) => {
                if result.status_code != 0 {
                    return Err(crate::engine::stderr_or_stdout(result));
                }
            },
            GroupOutcome::Failed(e) => {
                return Err(copy_string(e));
            },
            GroupOutcome::Panicked => {
                return Err(String::from_str("Lifecycle command thread panicked unexpectedly"));
            },
        }
        i = i + 1;
    }
    proof {
        assert(outcomes@.skip(outcomes.len() as int) =~= Seq::<GroupOutcome>::empty());
    }
    Ok(())
}

/// Which stages run for which container: the attach stage runs in every
/// mode; a restarted container runs its start and attach stages and none of
/// the stages that prepare a new container; a reused container runs only
/// its attach stage; a new container, `set-up` and `run-user-commands` run
/// every stage.
pub proof fn lemma_stage_selection(mode: LifecycleMode, stage: Seq<char>)
    ensures
        runs_in_mode("postAttachCommand"@, mode),
        mode matches LifecycleMode::UpStarted ==> runs_in_mode("postStartCommand"@, mode),
        mode matches LifecycleMode::UpStarted ==> !runs_in_mode("onCreateCommand"@, mode) && !runs_in_mode(
            "updateContentCommand"@,
            mode,
        ) && !runs_in_mode("postCreateCommand"@, mode),
        mode matches LifecycleMode::UpReused ==> (runs_in_mode(stage, mode) <==> stage == "postAttachCommand"@),
        (mode matches LifecycleMode::UpCreated || mode matches LifecycleMode::SetUp
            || mode matches LifecycleMode::RunUserCommands) ==> runs_in_mode(stage, mode),
{
    reveal_strlit("postAttachCommand");
    reveal_strlit("postStartCommand");
    reveal_strlit("onCreateCommand");
    reveal_strlit("updateContentCommand");
    reveal_strlit("postCreateCommand");
    assert("postAttachCommand"@.len() == 17 && "postAttachCommand"@[4] == 'A');
    assert("postStartCommand"@.len() == 16);
    assert("onCreateCommand"@.len() == 15);
    assert("updateContentCommand"@.len() == 20);
    assert("postCreateCommand"@.len() == 17 && "postCreateCommand"@[4] == 'C');
}

/// A restarted or reused container runs its attach commands last: unless
/// the command line skips them, the steps end with the configured
/// `postAttachCommand` group; a restarted container runs its
/// `postStartCommand` group just before.
pub proof fn lemma_restarted_container_attaches(c: JsonValue, args: Seq<Seq<char>>, mode: LifecycleMode, stop: bool)
    requires
        mode matches LifecycleMode::UpStarted || mode matches LifecycleMode::UpReused,
        !args.contains("--skip-post-create"@),
        !args.contains("--skip-non-blocking-commands"@),
        !args.contains("--skip-post-attach"@),
        command_value(c, "postAttachCommand"@) is Some,
    ensures
        lifecycle_steps(c, args, mode, stop).len() > 0,
        lifecycle_steps(c, args, mode, stop).last() == command_value(c, "postAttachCommand"@),
        mode matches LifecycleMode::UpStarted && command_value(c, "postStartCommand"@) is Some ==> lifecycle_steps(
            c,
            args,
            mode,
            stop,
        ) == seq![command_value(c, "postStartCommand"@), command_value(c, "postAttachCommand"@)],
{
    lemma_stage_selection(mode, "postStartCommand"@);
    reveal_strlit("postAttachCommand");
    reveal_strlit("postStartCommand");
    reveal_strlit("postCreateCommand");
    assert("postAttachCommand"@.len() == 17 && "postAttachCommand"@[4] == 'A');
    assert("postStartCommand"@.len() == 16);
    assert("postCreateCommand"@.len() == 17 && "postCreateCommand"@[4] == 'C');
    reveal_strlit("onCreateCommand");
    reveal_strlit("updateContentCommand");
    assert("onCreateCommand"@.len() == 15);
    assert("updateContentCommand"@.len() == 20);
    let w = wait_for_of(c);
    let d = crate::dotfiles::dotfiles_script(args) is Some;
    let g = command_value(c, "postAttachCommand"@);
    let s5 = steps_from(c, mode, false, false, w, d, stop, 5);
    let s4 = steps_from(c, mode, false, false, w, d, stop, 4);
    let s3 = steps_from(c, mode, false, false, w, d, stop, 3);
    let s2 = steps_from(c, mode, false, false, w, d, stop, 2);
    let s1 = steps_from(c, mode, false, false, w, d, stop, 1);
    let s0 = steps_from(c, mode, false, false, w, d, stop, 0);
    assert(s5 == Seq::<Option<Seq<(bool, Seq<Seq<char>>)>>>::empty());
    assert(s4 =~= seq![g]);
    let h3: Seq<Option<Seq<(bool, Seq<Seq<char>>)>>> = if runs_in_mode("postStartCommand"@, mode)
        && command_value(c, "postStartCommand"@) is Some {
        seq![command_value(c, "postStartCommand"@)]
    } else {
        Seq::empty()
    };
    assert(s3 == h3 + s4);
    assert(s2 == s3) by {
        assert(s2 == Seq::<Option<Seq<(bool, Seq<Seq<char>>)>>>::empty() + s3);
    }
    assert(s1 == s2) by {
        assert(s1 == Seq::<Option<Seq<(bool, Seq<Seq<char>>)>>>::empty() + s2);
    }
    assert(s0 == s1) by {
        assert(s0 == Seq::<Option<Seq<(bool, Seq<Seq<char>>)>>>::empty() + s1);
    }
    assert(lifecycle_steps(c, args, mode, stop) == s0);
    assert((h3 + s4).last() == g);
    if mode matches LifecycleMode::UpStarted && command_value(c, "postStartCommand"@) is Some {
        assert(h3 + s4 =~= seq![command_value(c, "postStartCommand"@), g]);
    }
}

} // verus!
