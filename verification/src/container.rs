//! Starting a container from an image: the metadata label, the `run`
//! arguments, the GPU decision and the id the engine answers with.
use vstd::prelude::*;
use crate::args::{has_flag, option_value, option_values, parse_option_value, parse_option_values};
use crate::devcontainer_id::labels_view;
use crate::engine::{stderr_or_stdout, ProcessResult};
use crate::exec::env_args;
use crate::json::{json_text, to_json_text};
use crate::json_value::{
    get, jentries, json_clone, json_get, lemma_jentries, JsonValue, JsonView,
};
use crate::mounts::{mount_arg, mount_value_to_engine_arg};
use crate::runtime::{workspace_mount, workspace_mount_of, ResolvedConfig};
use crate::text::{chars_of, copy_string, find, find_chars, str_eq, str_trim, trim, views};

verus! {

/// `(key, view)` when the configuration has `key`, nothing otherwise.
pub open spec fn pick(c: JsonValue, key: Seq<char>) -> Seq<(Seq<char>, JsonView)> {
    match get(c, key) {
        Some(v) => seq![(key, v@)],
        None => Seq::empty(),
    }
}

/// The entries of the metadata label, in key order: the configured wait and
/// user settings, environments and lifecycle commands, `remoteEnv` unless
/// omitted, and `workspaceFolder`, which defaults to the remote folder.
pub open spec fn metadata_entries(c: JsonValue, remote_folder: Seq<char>, omit_remote_env: bool) -> Seq<
    (Seq<char>, JsonView),
> {
    pick(c, "containerEnv"@) + pick(c, "containerUser"@) + pick(c, "initializeCommand"@) + pick(
        c,
        "onCreateCommand"@,
    ) + pick(c, "postAttachCommand"@) + pick(c, "postCreateCommand"@) + pick(c, "postStartCommand"@)
        + (if omit_remote_env {
        Seq::empty()
    } else {
        pick(c, "remoteEnv"@)
    }) + pick(c, "remoteUser"@) + pick(c, "updateContentCommand"@) + pick(c, "waitFor"@) + seq![
        (
            "workspaceFolder"@,
            match get(c, "workspaceFolder"@) {
                Some(v) => v@,
                None => JsonView::Str(remote_folder),
            },
        ),
    ]
}

/// The JSON text of the metadata label.
pub open spec fn metadata_text(c: JsonValue, remote_folder: Seq<char>, omit_remote_env: bool) -> Seq<char> {
    json_text(JsonView::Object(metadata_entries(c, remote_folder, omit_remote_env)))
}

fn push_pick(entries: &mut Vec<(String, JsonValue)>, c: &JsonValue, key: &str)
    ensures
        jentries(final(entries)@) == jentries(old(entries)@) + pick(*c, key@),
{
    match json_get(c, key) {
        Some(v) => {
            let ghost before = entries@;
            let x = json_clone(v);
            entries.push((String::from_str(key), x));
            proof {
                lemma_jentries(before);
                lemma_jentries(entries@);
                assert(jentries(entries@) =~= jentries(before) + pick(*c, key@));
            }
        },
        None => {
            proof {
                assert(jentries(entries@) =~= jentries(old(entries)@) + pick(*c, key@));
            }
        },
    }
}

/// The metadata label's JSON text for a configuration started at `remote_workspace_folder`.
pub fn serialized_container_metadata(configuration: &JsonValue, remote_workspace_folder: &str, omit_remote_env: bool) -> (r: String)
    ensures
        r@ == metadata_text(*configuration, remote_workspace_folder@, omit_remote_env),
{
    let mut entries: Vec<(String, JsonValue)> = Vec::new();
    proof {
        assert(jentries(entries@) =~= Seq::<(Seq<char>, JsonView)>::empty());
    }
    push_pick(&mut entries, configuration, "containerEnv");
    push_pick(&mut entries, configuration, "containerUser");
    push_pick(&mut entries, configuration, "initializeCommand");
    push_pick(&mut entries, configuration, "onCreateCommand");
    push_pick(&mut entries, configuration, "postAttachCommand");
    push_pick(&mut entries, configuration, "postCreateCommand");
    push_pick(&mut entries, configuration, "postStartCommand");
    let ghost before_env = jentries(entries@);
    if !omit_remote_env {
        push_pick(&mut entries, configuration, "remoteEnv");
    } else {
        proof {
            assert(before_env =~= before_env + Seq::<(Seq<char>, JsonView)>::empty());
        }
    }
    push_pick(&mut entries, configuration, "remoteUser");
    push_pick(&mut entries, configuration, "updateContentCommand");
    push_pick(&mut entries, configuration, "waitFor");
    let ghost before_folder = entries@;
    let folder = match json_get(configuration, "workspaceFolder") {
        Some(v) => json_clone(v),
        None => JsonValue::Str(String::from_str(remote_workspace_folder)),
    };
    entries.push((String::from_str("workspaceFolder"), folder));
    proof {
        lemma_jentries(before_folder);
        lemma_jentries(entries@);
        assert(jentries(entries@) =~= metadata_entries(*configuration, remote_workspace_folder@, omit_remote_env));
    }
    let metadata = JsonValue::Object(entries);
    to_json_text(&metadata)
}

/// Each value preceded by `flag`.
pub open spec fn flagged(flag: Seq<char>, values: Seq<Seq<char>>) -> Seq<Seq<char>>
    decreases values.len(),
{
    if values.len() == 0 {
        Seq::empty()
    } else {
        flagged(flag, values.drop_last()) + seq![flag, values.last()]
    }
}

/// The string items of an array, in order.
pub open spec fn strings_in(items: Seq<JsonValue>) -> Seq<Seq<char>>
    decreases items.len(),
{
    if items.len() == 0 {
        Seq::empty()
    } else {
        let rest = strings_in(items.drop_last());
        match items.last() {
            JsonValue::Str(s) => rest.push(s@),
            _ => rest,
        }
    }
}

/// The string items of an array value; nothing for any other value.
pub open spec fn array_strings(v: Option<JsonValue>) -> Seq<Seq<char>> {
    match v {
        Some(JsonValue::Array(items)) => strings_in(items@),
        _ => Seq::empty(),
    }
}

/// The `--mount` arguments of the mount items of an array, in order.
pub open spec fn mounts_in(items: Seq<JsonValue>) -> Seq<Seq<char>>
    decreases items.len(),
{
    if items.len() == 0 {
        Seq::empty()
    } else {
        let rest = mounts_in(items.drop_last());
        match mount_arg(items.last()) {
            Some(m) => rest.push(m),
            None => rest,
        }
    }
}

/// The `--mount` arguments of an array value's items.
pub open spec fn array_mounts(v: Option<JsonValue>) -> Seq<Seq<char>> {
    match v {
        Some(JsonValue::Array(items)) => mounts_in(items@),
        _ => Seq::empty(),
    }
}

/// The entries of an object whose values are strings, in order.
pub open spec fn string_entries(entries: Seq<(String, JsonValue)>) -> Seq<(Seq<char>, Seq<char>)>
    decreases entries.len(),
{
    if entries.len() == 0 {
        Seq::empty()
    } else {
        let rest = string_entries(entries.drop_last());
        match entries.last().1 {
            JsonValue::Str(s) => rest.push((entries.last().0@, s@)),
            _ => rest,
        }
    }
}

/// The string entries of an object value.
pub open spec fn object_strings(v: Option<JsonValue>) -> Seq<(Seq<char>, Seq<char>)> {
    match v {
        Some(JsonValue::Object(entries)) => string_entries(entries@),
        _ => Seq::empty(),
    }
}

/// Whether a setting is `true`.
pub open spec fn is_true(v: Option<JsonValue>) -> bool {
    v == Some(JsonValue::Bool(true))
}

/// The engine arguments that start a detached container from `image`,
/// labelled with its folder, configuration file and metadata, with the
/// workspace and configured mounts, `init`, `privileged`, the configured run
/// arguments, environment, capabilities and security options, all GPUs when
/// asked, and a command that keeps it running.
pub open spec fn start_container_args_of(
    r: ResolvedConfig,
    args: Seq<Seq<char>>,
    image: Seq<char>,
    remote_folder: Seq<char>,
    add_gpu: bool,
) -> Seq<Seq<char>> {
    start_head(r, args, remote_folder) + start_options(r.configuration, args) + (if add_gpu {
        seq!["--gpus"@, "all"@]
    } else {
        Seq::empty()
    }) + seq![image, "/bin/sh"@, "-lc"@, "while sleep 1000; do :; done"@]
}

/// `run -d`, the folder, configuration file and metadata labels, and the
/// workspace mount.
pub open spec fn start_head(r: ResolvedConfig, args: Seq<Seq<char>>, remote_folder: Seq<char>) -> Seq<
    Seq<char>,
> {
    seq![
        "run"@,
        "-d"@,
        "--label"@,
        "devcontainer.local_folder="@ + r.workspace_folder@,
        "--label"@,
        "devcontainer.config_file="@ + r.config_file@,
        "--label"@,
        "devcontainer.metadata="@ + metadata_text(
            r.configuration,
            remote_folder,
            args.contains("--omit-config-remote-env-from-metadata"@),
        ),
        "--mount"@,
        workspace_mount_of(r, remote_folder),
    ]
}

/// `--init` and `--privileged` when the configuration sets them.
pub open spec fn switch_args(c: JsonValue) -> Seq<Seq<char>> {
    (if is_true(get(c, "init"@)) {
        seq!["--init"@]
    } else {
        Seq::empty()
    }) + (if is_true(get(c, "privileged"@)) {
        seq!["--privileged"@]
    } else {
        Seq::empty()
    })
}

/// The `--id-label` labels, then the command-line and the configured mounts.
pub open spec fn label_mount_args(c: JsonValue, args: Seq<Seq<char>>) -> Seq<Seq<char>> {
    flagged("--label"@, option_values(args, "--id-label"@)) + flagged(
        "--mount"@,
        option_values(args, "--mount"@),
    ) + flagged("--mount"@, array_mounts(get(c, "mounts"@)))
}

/// The configured run arguments, container environment, capabilities and
/// security options.
pub open spec fn configured_run_args(c: JsonValue) -> Seq<Seq<char>> {
    array_strings(get(c, "runArgs"@)) + env_args(object_strings(get(c, "containerEnv"@))) + flagged(
        "--cap-add"@,
        array_strings(get(c, "capAdd"@)),
    ) + flagged("--security-opt"@, array_strings(get(c, "securityOpt"@)))
}

/// Everything between the workspace mount and the GPUs.
pub open spec fn start_options(c: JsonValue, args: Seq<Seq<char>>) -> Seq<Seq<char>> {
    switch_args(c) + label_mount_args(c, args) + configured_run_args(c)
}

pub(crate) fn push_str(out: &mut Vec<String>, s: &str)
    ensures
        views(final(out)@) == views(old(out)@).push(s@),
{
    out.push(String::from_str(s));
    proof {
        assert(views(out@) =~= views(old(out)@).push(s@));
    }
}

fn push_prefixed(out: &mut Vec<String>, prefix: &str, s: &str)
    ensures
        views(final(out)@) == views(old(out)@).push(prefix@ + s@),
{
    let mut v = String::from_str(prefix);
    v.append(s);
    out.push(v);
    proof {
        assert(views(out@) =~= views(old(out)@).push(prefix@ + s@));
    }
}

pub(crate) fn push_flagged(out: &mut Vec<String>, flag: &str, values: &Vec<String>)
    ensures
        views(final(out)@) == views(old(out)@) + flagged(flag@, views(values@)),
{
    let ghost start = views(out@);
    let ghost vs = views(values@);
    let mut i: usize = 0;
    while i < values.len()
        invariant
            i <= values.len(),
            vs == views(values@),
            views(out@) == start + flagged(flag@, vs.take(i as int)),
        decreases values.len() - i,
    {
        proof {
            assert(vs.take(i + 1).drop_last() =~= vs.take(i as int));
            assert(vs.take(i + 1).last() == values@[i as int]@);
        }
        push_str(out, flag);
        push_str(out, values[i].as_str());
        proof {
            assert(views(out@) =~= start + flagged(flag@, vs.take(i + 1)));
        }
        i = i + 1;
    }
    proof {
        assert(vs.take(values.len() as int) =~= vs);
    }
}

fn push_all(out: &mut Vec<String>, values: &Vec<String>)
    ensures
        views(final(out)@) == views(old(out)@) + views(values@),
{
    let ghost start = views(out@);
    let mut i: usize = 0;
    while i < values.len()
        invariant
            i <= values.len(),
            views(out@) == start + views(values@).take(i as int),
        decreases values.len() - i,
    {
        push_str(out, values[i].as_str());
        proof {
            assert(views(out@) =~= start + views(values@).take(i + 1));
        }
        i = i + 1;
    }
    proof {
        assert(views(values@).take(values.len() as int) =~= views(values@));
    }
}

/// The string items of an array value.
pub fn json_array_strings(v: Option<&JsonValue>) -> (r: Vec<String>)
    ensures
        views(r@) == array_strings(
            match v {
                Some(x) => Some(*x),
                None => None,
            },
        ),
{
    let mut out: Vec<String> = Vec::new();
    match v {
        Some(JsonValue::Array(items)) => {
            let mut i: usize = 0;
            while i < items.len()
                invariant
                    i <= items.len(),
                    views(out@) == strings_in(items@.take(i as int)),
                decreases items.len() - i,
            {
                proof {
                    assert(items@.take(i + 1).drop_last() =~= items@.take(i as int));
                    assert(items@.take(i + 1).last() == items@[i as int]);
                }
                match &items[i] {
                    JsonValue::Str(s) => {
                        let ghost before = out@;
                        out.push(copy_string(s));
                        proof {
                            assert(views(out@) =~= views(before).push(s@));
                        }
                    },
                    _ => {},
                }
                i = i + 1;
            }
            proof {
                assert(items@.take(items.len() as int) =~= items@);
            }
        },
        _ => {
            proof {
                assert(views(out@) =~= Seq::<Seq<char>>::empty());
            }
        },
    }
    out
}

fn json_array_mounts(v: Option<&JsonValue>) -> (r: Vec<String>)
    ensures
        views(r@) == array_mounts(
            match v {
                Some(x) => Some(*x),
                None => None,
            },
        ),
{
    let mut out: Vec<String> = Vec::new();
    match v {
        Some(JsonValue::Array(items)) => {
            let mut i: usize = 0;
            while i < items.len()
                invariant
                    i <= items.len(),
                    views(out@) == mounts_in(items@.take(i as int)),
                decreases items.len() - i,
            {
                proof {
                    assert(items@.take(i + 1).drop_last() =~= items@.take(i as int));
                    assert(items@.take(i + 1).last() == items@[i as int]);
                }
                match mount_value_to_engine_arg(&items[i]) {
                    Some(m) => {
                        let ghost before = out@;
                        out.push(m);
                        proof {
                            assert(views(out@) =~= views(before).push(m@));
                        }
                    },
                    None => {},
                }
                i = i + 1;
            }
            proof {
                assert(items@.take(items.len() as int) =~= items@);
            }
        },
        _ => {
            proof {
                assert(views(out@) =~= Seq::<Seq<char>>::empty());
            }
        },
    }
    out
}

/// The entries of an object value whose values are strings.
pub fn json_object_strings(v: Option<&JsonValue>) -> (r: Vec<(String, String)>)
    ensures
        labels_view(r@) == object_strings(
            match v {
                Some(x) => Some(*x),
                None => None,
            },
        ),
{
    let mut out: Vec<(String, String)> = Vec::new();
    match v {
        Some(JsonValue::Object(entries)) => {
            let mut i: usize = 0;
            while i < entries.len()
                invariant
                    i <= entries.len(),
                    labels_view(out@) == string_entries(entries@.take(i as int)),
                decreases entries.len() - i,
            {
                proof {
                    assert(entries@.take(i + 1).drop_last() =~= entries@.take(i as int));
                    assert(entries@.take(i + 1).last() == entries@[i as int]);
                }
                match &entries[i].1 {
                    JsonValue::Str(s) => {
                        let ghost before = out@;
                        out.push((copy_string(&entries[i].0), copy_string(s)));
                        proof {
                            assert(labels_view(out@) =~= labels_view(before).push(
                                (entries@[i as int].0@, s@),
                            ));
                        }
                    },
                    _ => {},
                }
                i = i + 1;
            }
            proof {
                assert(entries@.take(entries.len() as int) =~= entries@);
            }
        },
        _ => {
            proof {
                assert(labels_view(out@) =~= Seq::<(Seq<char>, Seq<char>)>::empty());
            }
        },
    }
    out
}

fn push_env_args(out: &mut Vec<String>, env: &Vec<(String, String)>)
    ensures
        views(final(out)@) == views(old(out)@) + env_args(labels_view(env@)),
{
    let ghost start = views(out@);
    let ghost ev = labels_view(env@);
    let mut i: usize = 0;
    while i < env.len()
        invariant
            i <= env.len(),
            ev == labels_view(env@),
            views(out@) == start + env_args(ev.take(i as int)),
        decreases env.len() - i,
    {
        proof {
            assert(ev.take(i + 1).drop_last() =~= ev.take(i as int));
            assert(ev.take(i + 1).last() == ev[i as int]);
        }
        push_str(out, "-e");
        let mut kv = copy_string(&env[i].0);
        kv.append("=");
        kv.append(env[i].1.as_str());
        let ghost before = out@;
        out.push(kv);
        proof {
            assert(views(out@) =~= views(before).push(kv@));
            assert(views(out@) =~= start + env_args(ev.take(i + 1)));
        }
        i = i + 1;
    }
    proof {
        assert(ev.take(env.len() as int) =~= ev);
    }
}

fn push_if_true(out: &mut Vec<String>, c: &JsonValue, key: &str, arg: &str)
    ensures
        views(final(out)@) == views(old(out)@) + (if is_true(get(*c, key@)) {
            seq![arg@]
        } else {
            Seq::empty()
        }),
{
    match json_get(c, key) {
        Some(JsonValue::Bool(true)) => push_str(out, arg),
        _ => {
            proof {
                assert(views(out@) =~= views(old(out)@) + Seq::<Seq<char>>::empty());
            }
        },
    }
}

fn push_start_head(out: &mut Vec<String>, resolved: &ResolvedConfig, args: &[String], remote_workspace_folder: &str)
    ensures
        views(final(out)@) == views(old(out)@) + start_head(*resolved, views(args@), remote_workspace_folder@),
{
    let ghost start = views(out@);
    push_str(out, "run");
    push_str(out, "-d");
    push_str(out, "--label");
    push_prefixed(out, "devcontainer.local_folder=", resolved.workspace_folder.as_str());
    push_str(out, "--label");
    push_prefixed(out, "devcontainer.config_file=", resolved.config_file.as_str());
    push_str(out, "--label");
    let omit = has_flag(args, "--omit-config-remote-env-from-metadata");
    let metadata = serialized_container_metadata(&resolved.configuration, remote_workspace_folder, omit);
    push_prefixed(out, "devcontainer.metadata=", metadata.as_str());
    push_str(out, "--mount");
    let mount = workspace_mount(resolved, remote_workspace_folder);
    push_str(out, mount.as_str());
    proof {
        assert(views(out@) =~= start + start_head(*resolved, views(args@), remote_workspace_folder@));
    }
}

fn push_switches(out: &mut Vec<String>, c: &JsonValue)
    ensures
        views(final(out)@) == views(old(out)@) + switch_args(*c),
{
    let ghost s0 = views(out@);
    push_if_true(out, c, "init", "--init");
    push_if_true(out, c, "privileged", "--privileged");
    proof {
        assert(views(out@) =~= s0 + switch_args(*c));
    }
}

fn push_mount_options(out: &mut Vec<String>, c: &JsonValue, args: &[String])
    ensures
        views(final(out)@) == views(old(out)@) + label_mount_args(*c, views(args@)),
{
    let ghost s0 = views(out@);
    let labels = parse_option_values(args, "--id-label");
    push_flagged(out, "--label", &labels);
    let mounts = parse_option_values(args, "--mount");
    push_flagged(out, "--mount", &mounts);
    let configured_mounts = json_array_mounts(json_get(c, "mounts"));
    push_flagged(out, "--mount", &configured_mounts);
    proof {
        assert(views(out@) =~= s0 + label_mount_args(*c, views(args@)));
    }
}

fn push_config_options(out: &mut Vec<String>, c: &JsonValue)
    ensures
        views(final(out)@) == views(old(out)@) + configured_run_args(*c),
{
    let ghost s0 = views(out@);
    let run_args = json_array_strings(json_get(c, "runArgs"));
    push_all(out, &run_args);
    let env = json_object_strings(json_get(c, "containerEnv"));
    push_env_args(out, &env);
    let caps = json_array_strings(json_get(c, "capAdd"));
    push_flagged(out, "--cap-add", &caps);
    let security = json_array_strings(json_get(c, "securityOpt"));
    push_flagged(out, "--security-opt", &security);
    proof {
        assert(views(out@) =~= s0 + configured_run_args(*c));
    }
}

fn push_start_options(out: &mut Vec<String>, c: &JsonValue, args: &[String])
    ensures
        views(final(out)@) == views(old(out)@) + start_options(*c, views(args@)),
{
    let ghost s0 = views(out@);
    push_switches(out, c);
    let ghost s1 = views(out@);
    push_mount_options(out, c, args);
    let ghost s2 = views(out@);
    push_config_options(out, c);
    proof {
        assert(views(out@) =~= s0 + start_options(*c, views(args@)));
    }
}

/// The engine arguments of `run` for a new container; `add_gpu` is the GPU
/// decision already made.
pub fn start_container_args(
    resolved: &ResolvedConfig,
    args: &[String],
    image_name: &str,
    remote_workspace_folder: &str,
    add_gpu: bool,
) -> (r: Vec<String>)
    ensures
        views(r@) == start_container_args_of(
            *resolved,
            views(args@),
            image_name@,
            remote_workspace_folder@,
            add_gpu,
        ),
{
    let mut out: Vec<String> = Vec::new();
    push_start_head(&mut out, resolved, args, remote_workspace_folder);
    push_start_options(&mut out, &resolved.configuration, args);
    let ghost before_gpu = views(out@);
    if add_gpu {
        push_str(&mut out, "--gpus");
        push_str(&mut out, "all");
    }
    let ghost after_gpu = views(out@);
    push_str(&mut out, image_name);
    push_str(&mut out, "/bin/sh");
    push_str(&mut out, "-lc");
    push_str(&mut out, "while sleep 1000; do :; done");
    proof {
        let g = (if add_gpu {
            seq!["--gpus"@, "all"@]
        } else {
            Seq::<Seq<char>>::empty()
        });
        assert(after_gpu =~= before_gpu + g);
        assert(views(out@) =~= after_gpu + seq![image_name@, "/bin/sh"@, "-lc"@, "while sleep 1000; do :; done"@]);
        assert(views(out@) =~= start_container_args_of(
            *resolved,
            views(args@),
            image_name@,
            remote_workspace_folder@,
            add_gpu,
        ));
    }
    out
}

/// The message when `run` printed no container id.
pub open spec fn no_container_id_message() -> Seq<char> {
    "Container engine did not return a container id"@
}

/// What `run` gave back: the failure message when it failed, the trimmed
/// output as the container id, an error when that is empty.
pub open spec fn started_container_id_of(status: i32, stdout: Seq<char>, stderr: Seq<char>) -> Result<Seq<char>, Seq<char>> {
    if status != 0 {
        Err(
            if trim(stderr).len() == 0 {
                trim(stdout)
            } else {
                trim(stderr)
            },
        )
    } else if trim(stdout).len() == 0 {
        Err(no_container_id_message())
    } else {
        Ok(trim(stdout))
    }
}

/// The id of the container that `run` started.
pub fn started_container_id(result: &ProcessResult) -> (r: Result<String, String>)
    ensures
        match r {
            Ok(id) => started_container_id_of(result.status_code, result.stdout@, result.stderr@) == Ok::<
                Seq<char>,
                Seq<char>,
            >(id@),
            Err(e) => started_container_id_of(result.status_code, result.stdout@, result.stderr@)
                == Err::<Seq<char>, Seq<char>>(e@),
        },
{
    if result.status_code != 0 {
        return Err(stderr_or_stdout(result));
    }
    let id = str_trim(result.stdout.as_str());
    if id.as_str().is_empty() {
        Err(String::from_str("Container engine did not return a container id"))
    } else {
        Ok(id)
    }
}

/// How to decide on GPUs for a new container.
#[derive(Debug, PartialEq, Eq, Structural, Clone, Copy)]
pub enum GpuRequest {
    /// Give the container all GPUs.
    Add,
    /// Give it none.
    Omit,
    /// Ask the engine whether it has the NVIDIA runtime.
    Detect,
}

/// Whether the configuration names a GPU requirement.
pub open spec fn requires_gpu(c: JsonValue) -> bool {
    match get(c, "hostRequirements"@) {
        Some(h) => get(h, "gpu"@) is Some,
        None => false,
    }
}

/// No GPUs without a GPU requirement; otherwise `--gpu-availability all`
/// adds them, `none` omits them, anything else asks the engine.
pub open spec fn gpu_request_of(c: JsonValue, args: Seq<Seq<char>>) -> GpuRequest {
    if !requires_gpu(c) {
        GpuRequest::Omit
    } else {
        match option_value(args, "--gpu-availability"@) {
            Some(v) => if v == "all"@ {
                GpuRequest::Add
            } else if v == "none"@ {
                GpuRequest::Omit
            } else {
                GpuRequest::Detect
            },
            None => GpuRequest::Detect,
        }
    }
}

/// The GPU decision for a configuration and command line.
pub fn gpu_request(configuration: &JsonValue, args: &[String]) -> (r: GpuRequest)
    ensures
        r == gpu_request_of(*configuration, views(args@)),
{
    let required = match json_get(configuration, "hostRequirements") {
        Some(h) => json_get(h, "gpu").is_some(),
        None => false,
    };
    if !required {
        return GpuRequest::Omit;
    }
    match parse_option_value(args, "--gpu-availability") {
        Some(v) => {
            if str_eq(v.as_str(), "all") {
                GpuRequest::Add
            } else if str_eq(v.as_str(), "none") {
                GpuRequest::Omit
            } else {
                GpuRequest::Detect
            }
        },
        None => GpuRequest::Detect,
    }
}

/// The engine arguments that ask for the NVIDIA runtime.
pub fn gpu_detect_args() -> (r: Vec<String>)
    ensures
        views(r@) == seq!["info"@, "-f"@, "{{.Runtimes.nvidia}}"@],
{
    let mut out: Vec<String> = Vec::new();
    push_str(&mut out, "info");
    push_str(&mut out, "-f");
    push_str(&mut out, "{{.Runtimes.nvidia}}");
    out
}

/// The engine has GPUs when the query succeeded and names the NVIDIA runtime.
pub fn gpu_detected(result: &ProcessResult) -> (r: bool)
    ensures
        r == (result.status_code == 0 && find(result.stdout@, "nvidia-container-runtime"@) is Some),
{
    if result.status_code != 0 {
        return false;
    }
    let out = chars_of(result.stdout.as_str());
    let pat = chars_of("nvidia-container-runtime");
    find_chars(&out, &pat, 0).is_some()
}

} // verus!
