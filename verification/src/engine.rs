//! Requests to run the container engine or its compose tool: the program, its
//! arguments, the environment derived from the runtime options, and whether
//! a request builds images.
use vstd::prelude::*;
use crate::args::{option_value, parse_option_value};
use crate::collections::map_insert;
use crate::devcontainer_id::labels_view;
use crate::env::env_insert;
use crate::text::{copy_string, opt_view, starts_with, str_eq, str_starts_with, str_trim, trim, views};

verus! {

/// How much a process run logs.
#[derive(Debug, Clone, Copy, PartialEq, Eq, Structural)]
pub enum ProcessLogLevel {
    Info,
    Debug,
    Trace,
}

/// A process to run.
#[derive(Debug)]
pub struct ProcessRequest {
    pub program: String,
    pub args: Vec<String>,
    pub cwd: Option<String>,
    pub env: Vec<(String, String)>,
    pub log_level: ProcessLogLevel,
}

/// What a finished process gave back.
#[derive(Debug)]
pub struct ProcessResult {
    pub status_code: i32,
    pub stdout: String,
    pub stderr: String,
}

/// The log level chosen with `--log-level`: `debug`, `trace`, otherwise info.
pub open spec fn log_level_of(args: Seq<Seq<char>>) -> ProcessLogLevel {
    match option_value(args, "--log-level"@) {
        Some(l) => if l == "debug"@ {
            ProcessLogLevel::Debug
        } else if l == "trace"@ {
            ProcessLogLevel::Trace
        } else {
            ProcessLogLevel::Info
        },
        None => ProcessLogLevel::Info,
    }
}

/// The terminal size variables given by `--terminal-columns` and `--terminal-rows`.
pub open spec fn terminal_env(args: Seq<Seq<char>>) -> Seq<(Seq<char>, Seq<char>)> {
    let with_columns = match option_value(args, "--terminal-columns"@) {
        Some(c) => map_insert(Seq::empty(), "COLUMNS"@, c),
        None => Seq::empty(),
    };
    match option_value(args, "--terminal-rows"@) {
        Some(r) => map_insert(with_columns, "LINES"@, r),
        None => with_columns,
    }
}

fn copy_strings(v: &Vec<String>) -> (r: Vec<String>)
    ensures
        views(r@) == views(v@),
{
    let mut r: Vec<String> = Vec::new();
    let mut i: usize = 0;
    while i < v.len()
        invariant
            i <= v.len(),
            views(r@) == views(v@).take(i as int),
        decreases v.len() - i,
    {
        let c = copy_string(&v[i]);
        let ghost old_r = r@;
        r.push(c);
        proof {
            assert(views(r@) =~= views(old_r).push(c@));
            assert(views(r@) =~= views(v@).take(i + 1));
        }
        i = i + 1;
    }
    proof {
        assert(views(v@).take(v.len() as int) =~= views(v@));
    }
    r
}

/// A request to run `program` with the runtime options of the command line:
/// the terminal size in the environment and the chosen log level.
pub fn runtime_process_request(args: &[String], program: String, process_args: Vec<String>, cwd: Option<String>) -> (r: ProcessRequest)
    ensures
        r.program@ == program@,
        views(r.args@) == views(process_args@),
        opt_view(r.cwd) == opt_view(cwd),
        labels_view(r.env@) == terminal_env(views(args@)),
        r.log_level == log_level_of(views(args@)),
{
    let mut env: Vec<(String, String)> = Vec::new();
    proof {
        assert(labels_view(env@) =~= Seq::<(Seq<char>, Seq<char>)>::empty());
    }
    match parse_option_value(args, "--terminal-columns") {
        Some(c) => env_insert(&mut env, "COLUMNS", c.as_str()),
        None => {},
    }
    match parse_option_value(args, "--terminal-rows") {
        Some(r) => env_insert(&mut env, "LINES", r.as_str()),
        None => {},
    }
    let log_level = match parse_option_value(args, "--log-level") {
        Some(l) => if str_eq(l.as_str(), "debug") {
            ProcessLogLevel::Debug
        } else if str_eq(l.as_str(), "trace") {
            ProcessLogLevel::Trace
        } else {
            ProcessLogLevel::Info
        },
        None => ProcessLogLevel::Info,
    };
    ProcessRequest { program, args: process_args, cwd, env, log_level }
}

/// The engine program: `--docker-path`, else `docker`.
pub open spec fn engine_program_of(args: Seq<Seq<char>>) -> Seq<char> {
    match option_value(args, "--docker-path"@) {
        Some(p) => p,
        None => "docker"@,
    }
}

/// The container engine program to run.
pub fn engine_program(args: &[String]) -> (r: String)
    ensures
        r@ == engine_program_of(views(args@)),
{
    match parse_option_value(args, "--docker-path") {
        Some(p) => p,
        None => String::from_str("docker"),
    }
}

/// Whether the arguments from `i` on reach `build` as the first word that is
/// not an option (`--project-name` and `-f` take a value).
pub open spec fn build_from(a: Seq<Seq<char>>, i: int) -> bool
    decreases a.len() + 1 - i,
{
    if i < 0 || i >= a.len() {
        false
    } else if a[i] == "--project-name"@ || a[i] == "-f"@ {
        build_from(a, i + 2)
    } else if starts_with(a[i], "-"@) {
        build_from(a, i + 1)
    } else {
        a[i] == "build"@
    }
}

/// Whether engine arguments (after a leading `compose`) ask for a build.
pub open spec fn is_build(a: Seq<Seq<char>>) -> bool {
    build_from(a, if a.len() > 0 && a[0] == "compose"@ { 1 } else { 0 })
}

/// Whether a request builds images.
pub fn is_build_request(request_args: &[String]) -> (r: bool)
    ensures
        r == is_build(views(request_args@)),
{
    let ghost a = views(request_args@);
    let mut index: usize = if request_args.len() > 0 && str_eq(request_args[0].as_str(), "compose") {
        1
    } else {
        0
    };
    while index < request_args.len()
        invariant
            a == views(request_args@),
            index <= request_args.len() + 1,
            is_build(a) == build_from(a, index as int),
        decreases request_args.len() + 1 - index,
    {
        let arg = request_args[index].as_str();
        if str_eq(arg, "--project-name") || str_eq(arg, "-f") {
            if index + 1 < request_args.len() {
                index = index + 2;
            } else {
                proof {
                    assert(!build_from(a, index + 2));
                }
                return false;
            }
        } else if str_starts_with(arg, "-") {
            index = index + 1;
        } else {
            return str_eq(arg, "build");
        }
    }
    false
}

/// The environment after the BuildKit choice: for a build request, `--buildkit never`
/// sets `DOCKER_BUILDKIT=0` and `--buildkit auto` sets it to `1`.
pub open spec fn buildkit_env(args: Seq<Seq<char>>, request_args: Seq<Seq<char>>, env: Seq<(Seq<char>, Seq<char>)>) -> Seq<(Seq<char>, Seq<char>)> {
    if !is_build(request_args) {
        env
    } else {
        match option_value(args, "--buildkit"@) {
            Some(b) => if b == "never"@ {
                map_insert(env, "DOCKER_BUILDKIT"@, "0"@)
            } else if b == "auto"@ {
                map_insert(env, "DOCKER_BUILDKIT"@, "1"@)
            } else {
                env
            },
            None => env,
        }
    }
}

/// Sets `DOCKER_BUILDKIT` on a build request as the `--buildkit` option asks.
pub fn apply_buildkit_env(args: &[String], request_args: &[String], request: &mut ProcessRequest)
    ensures
        labels_view(final(request).env@) == buildkit_env(views(args@), views(request_args@), labels_view(old(request).env@)),
        final(request).program == old(request).program,
        final(request).args == old(request).args,
        final(request).cwd == old(request).cwd,
        final(request).log_level == old(request).log_level,
{
    if !is_build_request(request_args) {
        return;
    }
    match parse_option_value(args, "--buildkit") {
        Some(b) => {
            if str_eq(b.as_str(), "never") {
                env_insert(&mut request.env, "DOCKER_BUILDKIT", "0");
            } else if str_eq(b.as_str(), "auto") {
                env_insert(&mut request.env, "DOCKER_BUILDKIT", "1");
            }
        },
        None => {},
    }
}

/// A request to run the engine with `engine_args`.
pub fn engine_request(args: &[String], engine_args: Vec<String>) -> (r: ProcessRequest)
    ensures
        r.program@ == engine_program_of(views(args@)),
        views(r.args@) == views(engine_args@),
        r.cwd is None,
        labels_view(r.env@) == buildkit_env(views(args@), views(engine_args@), terminal_env(views(args@))),
        r.log_level == log_level_of(views(args@)),
{
    let program = engine_program(args);
    let mut request = runtime_process_request(args, program, engine_args, None);
    let request_args = copy_strings(&request.args);
    apply_buildkit_env(args, request_args.as_slice(), &mut request);
    request
}

/// The arguments for the compose program: as given for a separate compose
/// program, after `compose` for the engine's own.
pub open spec fn compose_args_of(args: Seq<Seq<char>>, compose_args: Seq<Seq<char>>) -> Seq<Seq<char>> {
    match option_value(args, "--docker-compose-path"@) {
        Some(_) => compose_args,
        None => seq!["compose"@] + compose_args,
    }
}

/// A request to run compose with `compose_args`, through `--docker-compose-path`
/// where given, else as the engine's `compose` subcommand.
pub fn compose_request(args: &[String], compose_args: Vec<String>) -> (r: ProcessRequest)
    ensures
        r.program@ == match option_value(views(args@), "--docker-compose-path"@) {
            Some(p) => p,
            None => engine_program_of(views(args@)),
        },
        views(r.args@) == compose_args_of(views(args@), views(compose_args@)),
        r.cwd is None,
        labels_view(r.env@) == buildkit_env(
            views(args@),
            compose_args_of(views(args@), views(compose_args@)),
            terminal_env(views(args@)),
        ),
        r.log_level == log_level_of(views(args@)),
{
    match parse_option_value(args, "--docker-compose-path") {
        Some(compose_program) => {
            let mut request = runtime_process_request(args, compose_program, compose_args, None);
            let request_args = copy_strings(&request.args);
            apply_buildkit_env(args, request_args.as_slice(), &mut request);
            request
        },
        None => {
            let mut full: Vec<String> = Vec::new();
            full.push(String::from_str("compose"));
            let ghost first = views(full@);
            let mut rest = compose_args;
            let ghost rv = views(rest@);
            full.append(&mut rest);
            proof {
                assert(views(full@) =~= first + rv);
                reveal_strlit("compose");
                assert(views(full@) =~= seq!["compose"@] + rv);
            }
            let program = engine_program(args);
            let mut request = runtime_process_request(args, program, full, None);
            let request_args = copy_strings(&request.args);
            apply_buildkit_env(args, request_args.as_slice(), &mut request);
            request
        },
    }
}

/// The message of a failed process: its trimmed standard error, or its
/// trimmed standard output when the error stream is blank.
pub fn stderr_or_stdout(result: &ProcessResult) -> (r: String)
    ensures
        r@ == if trim(result.stderr@).len() == 0 {
            trim(result.stdout@)
        } else {
            trim(result.stderr@)
        },
{
    let err = str_trim(result.stderr.as_str());
    if err.as_str().is_empty() {
        str_trim(result.stdout.as_str())
    } else {
        err
    }
}

} // verus!
