//! `exec`: where the command to run starts among the arguments, and what to
//! run for it, directly on the host or inside the container.
use vstd::prelude::*;
use crate::args::{option_value, parse_option_value};
use crate::devcontainer_id::labels_view;
use crate::engine::{ProcessLogLevel, ProcessRequest, ProcessResult};
use crate::json_value::JsonValue;
use crate::runtime::{combined_env, combined_remote_env, configured_user, configured_user_of, extend_env, remote_env_overrides, remote_env_overrides_of};
use crate::text::{contains_str, copy_string, opt_view, starts_with, str_eq, str_starts_with, str_views, views};

verus! {

/// What running a command in a container gave back: the captured output,
/// or the exit code of a command that ran attached to the terminal.
#[derive(Debug)]
pub enum ExecResult {
    Captured(ProcessResult),
    Streaming(i32),
}

/// Where the command starts, scanning from `i`: options in `value_options`
/// are skipped with their value, `--interactive` alone; any other `--`
/// option is refused, and the arguments must not run out.
pub open spec fn command_start_from(a: Seq<Seq<char>>, i: int, value_options: Seq<Seq<char>>) -> Result<int, Seq<char>>
    decreases a.len() + 1 - i,
{
    if i < 0 || i >= a.len() {
        Err("exec requires a command to run"@)
    } else if value_options.contains(a[i]) {
        command_start_from(a, i + 2, value_options)
    } else if a[i] == "--interactive"@ {
        command_start_from(a, i + 1, value_options)
    } else if starts_with(a[i], "--"@) {
        Err("Unsupported exec option: "@ + a[i])
    } else {
        Ok(i)
    }
}

/// The command arguments, from where the command starts.
pub open spec fn command_args_of(a: Seq<Seq<char>>, value_options: Seq<Seq<char>>) -> Result<Seq<Seq<char>>, Seq<char>> {
    match command_start_from(a, 0, value_options) {
        Ok(i) => Ok(a.skip(i)),
        Err(e) => Err(e),
    }
}

/// A `Result` of strings by their views.
pub open spec fn result_view(r: Result<Vec<String>, String>) -> Result<Seq<Seq<char>>, Seq<char>> {
    match r {
        Ok(v) => Ok(views(v@)),
        Err(e) => Err(e@),
    }
}

proof fn lemma_command_start_bounds(a: Seq<Seq<char>>, i: int, value_options: Seq<Seq<char>>)
    ensures
        command_start_from(a, i, value_options) matches Ok(k) ==> 0 <= k < a.len(),
    decreases a.len() + 1 - i,
{
    if !(i < 0 || i >= a.len()) {
        if value_options.contains(a[i]) {
            lemma_command_start_bounds(a, i + 2, value_options);
        } else if a[i] == "--interactive"@ {
            lemma_command_start_bounds(a, i + 1, value_options);
        }
    }
}

/// The command to run, after the options of `exec` in `value_options`.
pub fn command_after_options(args: &[String], value_options: &[&str]) -> (r: Result<Vec<String>, String>)
    ensures
        result_view(r) == command_args_of(views(args@), str_views(value_options@)),
{
    let ghost a = views(args@);
    let ghost vo = str_views(value_options@);
    let mut index: usize = 0;
    while index < args.len()
        invariant
            a == views(args@),
            vo == str_views(value_options@),
            index <= args.len() + 1,
            command_start_from(a, 0, vo) == command_start_from(a, index as int, vo),
        decreases args.len() + 1 - index,
    {
        let arg = args[index].as_str();
        if contains_str(value_options, arg) {
            if index + 1 < args.len() {
                index = index + 2;
            } else {
                proof {
                    assert(command_start_from(a, index + 2, vo) == Err::<int, Seq<char>>("exec requires a command to run"@));
                }
                return Err(String::from_str("exec requires a command to run"));
            }
        } else if str_eq(arg, "--interactive") {
            index = index + 1;
        } else if str_starts_with(arg, "--") {
            let mut msg = String::from_str("Unsupported exec option: ");
            msg.append(arg);
            return Err(msg);
        } else {
            let mut out: Vec<String> = Vec::new();
            let start = index;
            let mut k: usize = index;
            while k < args.len()
                invariant
                    start <= k <= args.len(),
                    a == views(args@),
                    views(out@) == a.subrange(start as int, k as int),
                decreases args.len() - k,
            {
                let c = copy_string(&args[k]);
                let ghost old_out = out@;
                out.push(c);
                proof {
                    assert(views(out@) =~= views(old_out).push(c@));
                    assert(views(out@) =~= a.subrange(start as int, k + 1));
                }
                k = k + 1;
            }
            proof {
                assert(a.subrange(start as int, args.len() as int) =~= a.skip(start as int));
            }
            return Ok(out);
        }
    }
    Err(String::from_str("exec requires a command to run"))
}

/// The options of the host `exec` that take a value.
pub open spec fn host_exec_options() -> Seq<Seq<char>> {
    seq!["--workspace-folder"@, "--config"@, "--remote-env"@]
}

/// The options of the container `exec` that take a value.
pub open spec fn container_exec_options() -> Seq<Seq<char>> {
    seq![
        "--docker-path"@,
        "--docker-compose-path"@,
        "--workspace-folder"@,
        "--config"@,
        "--remote-env"@,
        "--container-id"@,
        "--id-label"@,
    ]
}

/// The command to run in the container.
pub fn exec_command_and_args(args: &[String]) -> (r: Result<Vec<String>, String>)
    ensures
        result_view(r) == command_args_of(views(args@), container_exec_options()),
{
    let options: [&str; 7] = [
        "--docker-path",
        "--docker-compose-path",
        "--workspace-folder",
        "--config",
        "--remote-env",
        "--container-id",
        "--id-label",
    ];
    proof {
        assert(str_views(options@) =~= container_exec_options());
    }
    command_after_options(args, &options)
}

/// The folder to run in and the command of a host `exec`: the folder is
/// `--workspace-folder`, else the current directory; without either it fails.
pub open spec fn host_exec_of(args: Seq<Seq<char>>, current_dir: Option<Seq<char>>) -> Result<(Seq<char>, Seq<Seq<char>>), Seq<char>> {
    let folder = match option_value(args, "--workspace-folder"@) {
        Some(f) => Some(f),
        None => current_dir,
    };
    match folder {
        None => Err("Unable to determine workspace folder"@),
        Some(f) => match command_args_of(args, host_exec_options()) {
            Ok(c) => Ok((f, c)),
            Err(e) => Err(e),
        },
    }
}

/// The folder and command of an `exec` run on the host.
pub fn host_exec_command_and_args(args: &[String], current_dir: Option<String>) -> (r: Result<(String, Vec<String>), String>)
    ensures
        match r {
            Ok((f, c)) => host_exec_of(views(args@), opt_view(current_dir)) == Ok::<(Seq<char>, Seq<Seq<char>>), Seq<char>>((f@, views(c@))),
            Err(e) => host_exec_of(views(args@), opt_view(current_dir)) == Err::<(Seq<char>, Seq<Seq<char>>), Seq<char>>(e@),
        },
{
    let folder = match parse_option_value(args, "--workspace-folder") {
        Some(f) => f,
        None => match current_dir {
            Some(d) => d,
            None => return Err(String::from_str("Unable to determine workspace folder")),
        },
    };
    let options: [&str; 3] = ["--workspace-folder", "--config", "--remote-env"];
    proof {
        assert(str_views(options@) =~= host_exec_options());
    }
    match command_after_options(args, &options) {
        Ok(c) => Ok((folder, c)),
        Err(e) => Err(e),
    }
}

/// The process that a host `exec` runs: the command in the folder, with the
/// host environment extended by the `--remote-env` overrides.
pub fn native_exec_request(args: &[String], current_dir: Option<String>, host_env: &Vec<(String, String)>) -> (r: Result<ProcessRequest, String>)
    ensures
        match r {
            Ok(req) => host_exec_of(views(args@), opt_view(current_dir)) matches Ok((f, c))
                && req.program@ == c[0] && views(req.args@) == c.drop_first()
                && opt_view(req.cwd) == Some(f)
                && labels_view(req.env@) == extend_env(labels_view(host_env@), remote_env_overrides_of(views(args@)))
                && req.log_level == ProcessLogLevel::Info,
            Err(e) => host_exec_of(views(args@), opt_view(current_dir)) == Err::<(Seq<char>, Seq<Seq<char>>), Seq<char>>(e@),
        },
{
    let (folder, command) = match host_exec_command_and_args(args, current_dir) {
        Ok(x) => x,
        Err(e) => return Err(e),
    };
    proof {
        lemma_command_start_bounds(views(args@), 0, host_exec_options());
        match command_start_from(views(args@), 0, host_exec_options()) {
            Ok(i) => {
                assert(views(command@) == views(args@).skip(i));
                assert(views(command@).len() > 0);
            },
            Err(_) => {},
        }
    }
    let program = copy_string(&command[0]);
    let mut rest: Vec<String> = Vec::new();
    let mut k: usize = 1;
    while k < command.len()
        invariant
            1 <= k <= command.len(),
            views(rest@) == views(command@).subrange(1, k as int),
        decreases command.len() - k,
    {
        let c = copy_string(&command[k]);
        let ghost old_rest = rest@;
        rest.push(c);
        proof {
            assert(views(rest@) =~= views(old_rest).push(c@));
            assert(views(rest@) =~= views(command@).subrange(1, k + 1));
        }
        k = k + 1;
    }
    proof {
        assert(views(command@).subrange(1, command.len() as int) =~= views(command@).drop_first());
    }
    let mut env: Vec<(String, String)> = Vec::new();
    let mut i: usize = 0;
    while i < host_env.len()
        invariant
            i <= host_env.len(),
            labels_view(env@) == labels_view(host_env@).take(i as int),
        decreases host_env.len() - i,
    {
        let pair = (copy_string(&host_env[i].0), copy_string(&host_env[i].1));
        let ghost kv = (pair.0@, pair.1@);
        let ghost old_env = env@;
        env.push(pair);
        proof {
            assert(labels_view(env@) =~= labels_view(old_env).push(kv));
            assert(labels_view(env@) =~= labels_view(host_env@).take(i + 1));
        }
        i = i + 1;
    }
    proof {
        assert(labels_view(host_env@).take(host_env.len() as int) =~= labels_view(host_env@));
    }
    let overrides = remote_env_overrides(args);
    let ghost base = labels_view(env@);
    let ghost ov = labels_view(overrides@);
    let mut j: usize = 0;
    while j < overrides.len()
        invariant
            j <= overrides.len(),
            ov == labels_view(overrides@),
            labels_view(env@) == extend_env(base, ov.take(j as int)),
        decreases overrides.len() - j,
    {
        proof {
            assert(ov.take(j + 1).drop_last() =~= ov.take(j as int));
            assert(ov.take(j + 1).last() == ov[j as int]);
        }
        crate::env::env_insert(&mut env, overrides[j].0.as_str(), overrides[j].1.as_str());
        j = j + 1;
    }
    proof {
        assert(ov.take(overrides.len() as int) =~= ov);
    }
    Ok(ProcessRequest { program, args: rest, cwd: Some(folder), env, log_level: ProcessLogLevel::Info })
}

/// The engine arguments of an `exec` into a container: `-i` (and `-t` on a
/// terminal) when interactive, the working folder, the configured user, the
/// remote environment as `-e name=value`, the container, then the command.
pub open spec fn exec_engine_args_of(
    args: Seq<Seq<char>>,
    configuration: JsonValue,
    secrets: Seq<(Seq<char>, Seq<char>)>,
    remote_folder: Seq<char>,
    container_id: Seq<char>,
    command: Seq<Seq<char>>,
    interactive: bool,
    terminal: bool,
) -> Seq<Seq<char>> {
    seq!["exec"@] + (if interactive {
        if terminal {
            seq!["-i"@, "-t"@]
        } else {
            seq!["-i"@]
        }
    } else {
        Seq::empty()
    }) + seq!["--workdir"@, remote_folder] + (match configured_user_of(configuration) {
        Some(u) => seq!["--user"@, u],
        None => Seq::empty(),
    }) + env_args(combined_env(args, Some(configuration), secrets)) + seq![container_id] + command
}

/// `-e name=value` for each variable, in order.
pub open spec fn env_args(env: Seq<(Seq<char>, Seq<char>)>) -> Seq<Seq<char>>
    decreases env.len(),
{
    if env.len() == 0 {
        Seq::empty()
    } else {
        env_args(env.drop_last()) + seq!["-e"@, env.last().0 + "="@ + env.last().1]
    }
}

fn push_str(out: &mut Vec<String>, s: &str)
    ensures
        views(final(out)@) == views(old(out)@).push(s@),
{
    let v = String::from_str(s);
    out.push(v);
    proof {
        assert(views(out@) =~= views(old(out)@).push(s@));
    }
}

/// The engine arguments that run `command_args` in the container.
pub fn exec_engine_args(
    args: &[String],
    configuration: &JsonValue,
    secrets: &Vec<(String, String)>,
    remote_workspace_folder: &str,
    container_id: &str,
    command_args: Vec<String>,
    interactive: bool,
    terminal: bool,
) -> (r: Vec<String>)
    ensures
        views(r@) == exec_engine_args_of(
            views(args@),
            *configuration,
            labels_view(secrets@),
            remote_workspace_folder@,
            container_id@,
            views(command_args@),
            interactive,
            terminal,
        ),
{
    let mut out: Vec<String> = Vec::new();
    push_str(&mut out, "exec");
    if interactive {
        push_str(&mut out, "-i");
        if terminal {
            push_str(&mut out, "-t");
        }
    }
    push_str(&mut out, "--workdir");
    push_str(&mut out, remote_workspace_folder);
    let ghost before_user = views(out@);
    match configured_user(configuration) {
        Some(u) => {
            push_str(&mut out, "--user");
            push_str(&mut out, u.as_str());
        },
        None => {},
    }
    let ghost after_user = views(out@);
    let env = combined_remote_env(args, Some(configuration), secrets);
    let ghost ev = labels_view(env@);
    let mut i: usize = 0;
    while i < env.len()
        invariant
            i <= env.len(),
            ev == labels_view(env@),
            views(out@) == after_user + env_args(ev.take(i as int)),
        decreases env.len() - i,
    {
        proof {
            assert(ev.take(i + 1).drop_last() =~= ev.take(i as int));
            assert(ev.take(i + 1).last() == ev[i as int]);
        }
        push_str(&mut out, "-e");
        let mut kv = copy_string(&env[i].0);
        kv.append("=");
        kv.append(env[i].1.as_str());
        let ghost old_out = out@;
        out.push(kv);
        proof {
            assert(views(out@) =~= views(old_out).push(kv@));
            assert(views(out@) =~= after_user + env_args(ev.take(i + 1)));
        }
        i = i + 1;
    }
    proof {
        assert(ev.take(env.len() as int) =~= ev);
    }
    push_str(&mut out, container_id);
    let ghost before_cmd = views(out@);
    let mut cmd = command_args;
    let ghost cv = views(cmd@);
    out.append(&mut cmd);
    proof {
        assert(views(out@) =~= before_cmd + cv);
        assert(views(out@) =~= exec_engine_args_of(
            views(args@),
            *configuration,
            labels_view(secrets@),
            remote_workspace_folder@,
            container_id@,
            cv,
            interactive,
            terminal,
        ));
    }
    out
}

/// Whether `exec` runs the command interactively, streaming its output
/// (`--interactive`), rather than capturing it.
pub fn exec_runs_interactively(args: &[String]) -> (r: bool)
    ensures
        r == views(args@).contains("--interactive"@),
{
    crate::args::has_flag(args, "--interactive")
}

} // verus!
