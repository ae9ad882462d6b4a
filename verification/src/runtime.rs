//! Decisions of the container runtime commands: the remote user and folder,
//! the workspace mount, the remote environment, image names, and the command
//! and engine arguments of `exec`.
use vstd::prelude::*;
use crate::args::{option_values, parse_option_values};
use crate::collections::{label_map, label_pairs, map_insert};
use crate::devcontainer_id::labels_view;
use crate::env::env_insert;
use crate::json_value::{entries_get, get, get_str, json_get, json_get_str, str_of, JsonValue};
use crate::mounts::{first_target, mount_option_target, mount_options};
use crate::text::{
    chars_of, copy_string, file_name, find_char, join_path, opt_view, path_file_name, path_join,
    slice_chars, starts_with, str_eq, str_starts_with, string_of, views,
};

verus! {

/// A loaded configuration and where it came from.
pub struct ResolvedConfig {
    pub workspace_folder: String,
    pub config_file: String,
    pub configuration: JsonValue,
}

/// The user named by `remoteUser`, else by `containerUser` when there is no
/// `remoteUser` entry; only a string names a user.
pub open spec fn configured_user_of(c: JsonValue) -> Option<Seq<char>> {
    match get(c, "remoteUser"@) {
        Some(v) => str_of(Some(v)),
        None => get_str(c, "containerUser"@),
    }
}

/// The configured user, if any.
pub fn configured_user(configuration: &JsonValue) -> (r: Option<String>)
    ensures
        opt_view(r) == configured_user_of(*configuration),
{
    match json_get(configuration, "remoteUser") {
        Some(v) => crate::json_value::json_as_str(Some(v)),
        None => json_get_str(configuration, "containerUser"),
    }
}

/// The user commands run as: the configured user, else `root`.
pub fn remote_user(configuration: &JsonValue) -> (r: String)
    ensures
        r@ == match configured_user_of(*configuration) {
            Some(u) => u,
            None => "root"@,
        },
{
    match configured_user(configuration) {
        Some(u) => u,
        None => String::from_str("root"),
    }
}

/// `/workspaces/` and the folder's last component (`workspace` without one).
pub open spec fn default_remote_folder(workspace_folder: Option<Seq<char>>) -> Seq<char> {
    let base = match workspace_folder {
        Some(w) => match file_name(w) {
            Some(b) => b,
            None => "workspace"@,
        },
        None => "workspace"@,
    };
    "/workspaces/"@ + base
}

/// The default folder of the workspace inside the container.
pub fn default_remote_workspace_folder(workspace_folder: Option<&str>) -> (r: String)
    ensures
        r@ == default_remote_folder(
            match workspace_folder {
                Some(w) => Some(w@),
                None => None,
            },
        ),
{
    let base = match workspace_folder {
        Some(w) => match path_file_name(w) {
            Some(b) => b,
            None => String::from_str("workspace"),
        },
        None => String::from_str("workspace"),
    };
    let mut r = String::from_str("/workspaces/");
    r.append(base.as_str());
    r
}

/// The workspace folder in the container: `workspaceFolder`, else the target
/// of `workspaceMount`, else the default folder.
pub open spec fn remote_folder_of(r: ResolvedConfig) -> Seq<char> {
    match get_str(r.configuration, "workspaceFolder"@) {
        Some(f) => f,
        None => match get_str(r.configuration, "workspaceMount"@) {
            Some(m) => match first_target(mount_options(m)) {
                Some(t) => t,
                None => default_remote_folder(Some(r.workspace_folder@)),
            },
            None => default_remote_folder(Some(r.workspace_folder@)),
        },
    }
}

/// The workspace folder inside the container.
pub fn remote_workspace_folder(resolved: &ResolvedConfig) -> (r: String)
    ensures
        r@ == remote_folder_of(*resolved),
{
    match json_get_str(&resolved.configuration, "workspaceFolder") {
        Some(f) => f,
        None => {
            let fallback = match json_get_str(&resolved.configuration, "workspaceMount") {
                Some(m) => mount_option_target(m.as_str()),
                None => None,
            };
            match fallback {
                Some(t) => t,
                None => default_remote_workspace_folder(Some(resolved.workspace_folder.as_str())),
            }
        },
    }
}

/// The workspace mount: `workspaceMount`, else a bind mount of the local folder.
pub open spec fn workspace_mount_of(r: ResolvedConfig, remote_folder: Seq<char>) -> Seq<char> {
    match get_str(r.configuration, "workspaceMount"@) {
        Some(m) => m,
        None => "type=bind,source="@ + r.workspace_folder@ + ",target="@ + remote_folder,
    }
}

/// The workspace mount argument.
pub fn workspace_mount(resolved: &ResolvedConfig, remote_workspace_folder: &str) -> (r: String)
    ensures
        r@ == workspace_mount_of(*resolved, remote_workspace_folder@),
{
    match json_get_str(&resolved.configuration, "workspaceMount") {
        Some(m) => m,
        None => {
            let mut s = String::from_str("type=bind,source=");
            s.append(resolved.workspace_folder.as_str());
            s.append(",target=");
            s.append(remote_workspace_folder);
            s
        },
    }
}

/// The `--remote-env name=value` overrides, later ones winning.
pub open spec fn remote_env_overrides_of(args: Seq<Seq<char>>) -> Seq<(Seq<char>, Seq<char>)> {
    label_map(label_pairs(option_values(args, "--remote-env"@)))
}

/// The environment overrides given on the command line.
pub fn remote_env_overrides(args: &[String]) -> (r: Vec<(String, String)>)
    ensures
        labels_view(r@) == remote_env_overrides_of(views(args@)),
{
    let values = parse_option_values(args, "--remote-env");
    let ghost vals = views(values@);
    let mut r: Vec<(String, String)> = Vec::new();
    let ghost mut pairs: Seq<(Seq<char>, Seq<char>)> = Seq::empty();
    let mut i: usize = 0;
    proof {
        assert(labels_view(r@) =~= Seq::<(Seq<char>, Seq<char>)>::empty());
    }
    while i < values.len()
        invariant
            i <= values.len(),
            vals == views(values@),
            pairs == label_pairs(vals.take(i as int)),
            labels_view(r@) == label_map(pairs),
        decreases values.len() - i,
    {
        proof {
            assert(vals.take(i + 1).drop_last() =~= vals.take(i as int));
            assert(vals.take(i + 1).last() == values@[i as int]@);
        }
        let entry = chars_of(values[i].as_str());
        match find_char(&entry, '=', 0) {
            Some(eq) => {
                proof {
                    crate::text::lemma_find_char_from_bounds(entry@, '=', 0);
                }
                let key = slice_chars(&entry, 0, eq);
                let value = slice_chars(&entry, eq + 1, entry.len());
                let ks = string_of(&key);
                let vs = string_of(&value);
                env_insert(&mut r, ks.as_str(), vs.as_str());
                proof {
                    let p = (entry@.take(eq as int), entry@.skip(eq + 1));
                    assert(key@ =~= p.0);
                    assert(value@ =~= p.1);
                    assert(pairs.push(p).drop_last() =~= pairs);
                    pairs = pairs.push(p);
                }
            },
            None => {},
        }
        i = i + 1;
    }
    proof {
        assert(vals.take(values.len() as int) =~= vals);
    }
    r
}

/// The string entries of the configuration's `remoteEnv` object, in order.
pub open spec fn config_remote_env(entries: Seq<(String, JsonValue)>) -> Seq<(Seq<char>, Seq<char>)>
    decreases entries.len(),
{
    if entries.len() == 0 {
        Seq::empty()
    } else {
        let rest = config_remote_env(entries.drop_last());
        match entries.last().1 {
            JsonValue::Str(s) => map_insert(rest, entries.last().0@, s@),
            _ => rest,
        }
    }
}

/// `base` with each entry of `more` set in turn.
pub open spec fn extend_env(base: Seq<(Seq<char>, Seq<char>)>, more: Seq<(Seq<char>, Seq<char>)>) -> Seq<(Seq<char>, Seq<char>)>
    decreases more.len(),
{
    if more.len() == 0 {
        base
    } else {
        map_insert(extend_env(base, more.drop_last()), more.last().0, more.last().1)
    }
}

/// The remote environment: the configuration's `remoteEnv` strings, then the
/// secrets, then the command line overrides, each overriding the ones before.
pub open spec fn combined_env(args: Seq<Seq<char>>, configuration: Option<JsonValue>, secrets: Seq<(Seq<char>, Seq<char>)>) -> Seq<(Seq<char>, Seq<char>)> {
    let from_config = match configuration {
        Some(c) => match get(c, "remoteEnv"@) {
            Some(JsonValue::Object(entries)) => config_remote_env(entries@),
            _ => Seq::empty(),
        },
        None => Seq::empty(),
    };
    extend_env(extend_env(from_config, secrets), remote_env_overrides_of(args))
}

fn extend_env_exec(env: &mut Vec<(String, String)>, more: &Vec<(String, String)>)
    ensures
        labels_view(final(env)@) == extend_env(labels_view(old(env)@), labels_view(more@)),
{
    let ghost base = labels_view(env@);
    let ghost mv = labels_view(more@);
    let mut i: usize = 0;
    while i < more.len()
        invariant
            i <= more.len(),
            mv == labels_view(more@),
            labels_view(env@) == extend_env(base, mv.take(i as int)),
        decreases more.len() - i,
    {
        proof {
            assert(mv.take(i + 1).drop_last() =~= mv.take(i as int));
            assert(mv.take(i + 1).last() == mv[i as int]);
        }
        env_insert(env, more[i].0.as_str(), more[i].1.as_str());
        i = i + 1;
    }
    proof {
        assert(mv.take(more.len() as int) =~= mv);
    }
}

/// The environment that commands in the container get.
pub fn combined_remote_env(args: &[String], configuration: Option<&JsonValue>, secrets: &Vec<(String, String)>) -> (r: Vec<(String, String)>)
    ensures
        labels_view(r@) == combined_env(
            views(args@),
            match configuration {
                Some(c) => Some(*c),
                None => None,
            },
            labels_view(secrets@),
        ),
{
    let mut env: Vec<(String, String)> = Vec::new();
    proof {
        assert(labels_view(env@) =~= Seq::<(Seq<char>, Seq<char>)>::empty());
    }
    match configuration {
        Some(c) => match json_get(c, "remoteEnv") {
            Some(JsonValue::Object(entries)) => {
                let mut i: usize = 0;
                while i < entries.len()
                    invariant
                        i <= entries.len(),
                        labels_view(env@) == config_remote_env(entries@.take(i as int)),
                    decreases entries.len() - i,
                {
                    proof {
                        assert(entries@.take(i + 1).drop_last() =~= entries@.take(i as int));
                        assert(entries@.take(i + 1).last() == entries@[i as int]);
                    }
                    match &entries[i].1 {
                        JsonValue::Str(s) => env_insert(&mut env, entries[i].0.as_str(), s.as_str()),
                        _ => {},
                    }
                    i = i + 1;
                }
                proof {
                    assert(entries@.take(entries.len() as int) =~= entries@);
                }
            },
            _ => {},
        },
        None => {},
    }
    extend_env_exec(&mut env, secrets);
    let overrides = remote_env_overrides(args);
    extend_env_exec(&mut env, &overrides);
    env
}

pub open spec fn alnum_or_dash(c: char) -> char {
    if crate::features::is_ascii_alnum(c) {
        c
    } else {
        '-'
    }
}

/// `devcontainer-` and the folder's last component (`workspace` without one),
/// every character other than an ASCII letter or digit replaced by `-`.
pub open spec fn default_image_name_of(workspace_folder: Seq<char>) -> Seq<char> {
    let base = match file_name(workspace_folder) {
        Some(b) => b,
        None => "workspace"@,
    };
    "devcontainer-"@ + base.map_values(|c: char| alnum_or_dash(c))
}

/// The image name used for a workspace without one configured.
pub fn default_image_name(workspace_folder: &str) -> (r: String)
    ensures
        r@ == default_image_name_of(workspace_folder@),
{
    let base = match path_file_name(workspace_folder) {
        Some(b) => b,
        None => String::from_str("workspace"),
    };
    let v = chars_of(base.as_str());
    let mut out = chars_of("devcontainer-");
    let ghost prefix = out@;
    let mut i: usize = 0;
    while i < v.len()
        invariant
            i <= v.len(),
            out@ == prefix + v@.take(i as int).map_values(|c: char| alnum_or_dash(c)),
        decreases v.len() - i,
    {
        let c = v[i];
        let m = if ('0' <= c && c <= '9') || ('a' <= c && c <= 'z') || ('A' <= c && c <= 'Z') {
            c
        } else {
            '-'
        };
        out.push(m);
        proof {
            assert(v@.take(i + 1).map_values(|c: char| alnum_or_dash(c)) =~= v@.take(i as int).map_values(
                |c: char| alnum_or_dash(c),
            ).push(alnum_or_dash(c)));
        }
        i = i + 1;
    }
    proof {
        assert(v@.take(v.len() as int) =~= v@);
    }
    string_of(&out)
}

/// A path from the configuration, taken from `root` unless it is absolute.
pub fn resolve_relative(root: &str, value: &str) -> (r: String)
    ensures
        r@ == path_join(root@, value@),
{
    join_path(root, value)
}

/// Whether the configuration has a `build` object.
pub fn has_build_definition(configuration: &JsonValue) -> (r: bool)
    ensures
        r == (get(*configuration, "build"@) matches Some(JsonValue::Object(_))),
{
    match json_get(configuration, "build") {
        Some(JsonValue::Object(_)) => true,
        _ => false,
    }
}

} // verus!
