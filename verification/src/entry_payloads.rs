//! The payloads the standalone entry point prints for a loaded
//! configuration: its `read-configuration`, `build`, lifecycle and
//! `outdated` reports.
use vstd::prelude::*;
use crate::args::{has_flag, option_value, option_values, parse_option_value, parse_option_values};
use crate::feature_resolution::{object_from, object_of, text};
use crate::json_object::{object_insert, vinsert, Entries};
use crate::json_value::{
    entries_get, jentries, json_clone, json_get, jviews, lemma_entry_value_view, lemma_get_view, lemma_jentries,
    lemma_jviews, vget, ventry, JsonValue, JsonView,
};
use crate::text::{
    chars_of, copy_string, find_char, find_char_from, opt_view, rfind_char, rfind_char_exec, slice_chars, string_of,
    str_views, trim, views,
};

verus! {

/// The lifecycle stages the entry point reports.
pub open spec fn stage_names() -> Seq<Seq<char>> {
    seq!["onCreateCommand"@, "updateContentCommand"@, "postCreateCommand"@, "postStartCommand"@, "postAttachCommand"@]
}

/// `{"name": stage, "value": command}` for each stage the configuration sets, in stage order.
pub open spec fn lifecycle_commands_of(configuration: JsonView, stages: Seq<Seq<char>>) -> Seq<JsonView>
    decreases stages.len(),
{
    if stages.len() == 0 {
        Seq::empty()
    } else {
        let rest = lifecycle_commands_of(configuration, stages.drop_last());
        match vget(configuration, stages.last()) {
            Some(v) => rest.push(object_of(seq![("name"@, text(stages.last())), ("value"@, v)])),
            None => rest,
        }
    }
}

/// The lifecycle commands of a configuration.
pub fn lifecycle_commands(configuration: &JsonValue) -> (r: Vec<JsonValue>)
    ensures
        jviews(r@) == lifecycle_commands_of(configuration@, stage_names()),
{
    let stages: [&str; 5] = [
        "onCreateCommand",
        "updateContentCommand",
        "postCreateCommand",
        "postStartCommand",
        "postAttachCommand",
    ];
    let ghost sv = str_views(stages@);
    proof {
        assert(sv =~= stage_names());
        assert(sv.take(0) =~= Seq::<Seq<char>>::empty());
    }
    let mut out: Vec<JsonValue> = Vec::new();
    proof {
        assert(jviews(out@) =~= Seq::<JsonView>::empty());
    }
    let mut i: usize = 0;
    while i < 5
        invariant
            i <= 5,
            stages@.len() == 5,
            sv == str_views(stages@),
            sv.len() == 5,
            jviews(out@) == lifecycle_commands_of(configuration@, sv.take(i as int)),
        decreases 5 - i,
    {
        proof {
            assert(sv.take(i + 1).drop_last() =~= sv.take(i as int));
            assert(sv.take(i + 1).last() == sv[i as int]);
            assert(sv[i as int] == stages@[i as int]@);
            lemma_get_view(*configuration, stages@[i as int]@);
        }
        match json_get(configuration, stages[i]) {
            Some(v) => {
                let mut pairs: Vec<(String, JsonValue)> = Vec::new();
                pairs.push((String::from_str("name"), JsonValue::Str(String::from_str(stages[i]))));
                pairs.push((String::from_str("value"), json_clone(v)));
                proof {
                    lemma_jentries(pairs@);
                    assert(jentries(pairs@) =~= seq![(pairs@[0].0@, pairs@[0].1@), (pairs@[1].0@, pairs@[1].1@)]);
                }
                let item = object_from(pairs);
                let ghost before = out@;
                out.push(item);
                proof {
                    crate::merge::lemma_jviews_push(before, item);
                }
            },
            None => {},
        }
        i = i + 1;
    }
    proof {
        assert(sv.take(5) =~= sv);
    }
    out
}

/// Text values, in order.
pub open spec fn texts(s: Seq<Seq<char>>) -> Seq<JsonView> {
    s.map_values(|t: Seq<char>| text(t))
}

fn text_values(s: &Vec<String>) -> (r: Vec<JsonValue>)
    ensures
        jviews(r@) == texts(views(s@)),
{
    let mut out: Vec<JsonValue> = Vec::new();
    proof {
        assert(jviews(out@) =~= Seq::<JsonView>::empty());
    }
    let mut i: usize = 0;
    while i < s.len()
        invariant
            i <= s.len(),
            jviews(out@) == texts(views(s@).take(i as int)),
        decreases s.len() - i,
    {
        let item = JsonValue::Str(copy_string(&s[i]));
        let ghost before = out@;
        out.push(item);
        proof {
            crate::merge::lemma_jviews_push(before, item);
            assert(texts(views(s@).take(i + 1)) =~= texts(views(s@).take(i as int)).push(text(s@[i as int]@)));
        }
        i = i + 1;
    }
    proof {
        assert(views(s@).take(s.len() as int) =~= views(s@));
    }
    out
}

/// The mounts given with `--mount`, as text values.
pub fn parse_mounts(args: &[String]) -> (r: Vec<JsonValue>)
    ensures
        jviews(r@) == texts(option_values(views(args@), "--mount"@)),
{
    let values = parse_option_values(args, "--mount");
    text_values(&values)
}

/// A `NAME=value` text split at its first `=`.
pub open spec fn split_once_eq(t: Seq<char>) -> Option<(Seq<char>, Seq<char>)> {
    match find_char_from(t, '=', 0) {
        Some(i) => Some((t.take(i), t.skip(i + 1))),
        None => None,
    }
}

/// The variables given with `--remote-env`, later ones replacing earlier ones.
pub open spec fn remote_env_of(values: Seq<Seq<char>>) -> Entries
    decreases values.len(),
{
    if values.len() == 0 {
        Seq::empty()
    } else {
        let rest = remote_env_of(values.drop_last());
        match split_once_eq(values.last()) {
            Some((n, v)) => vinsert(rest, n, text(v)),
            None => rest,
        }
    }
}

/// The variables given with `--remote-env`, as object entries.
pub fn parse_remote_env(args: &[String]) -> (r: Vec<(String, JsonValue)>)
    ensures
        jentries(r@) == remote_env_of(option_values(views(args@), "--remote-env"@)),
{
    let values = parse_option_values(args, "--remote-env");
    let ghost vv = views(values@);
    let mut out: Vec<(String, JsonValue)> = Vec::new();
    proof {
        assert(jentries(out@) =~= Seq::<(Seq<char>, JsonView)>::empty());
        assert(vv.take(0) =~= Seq::<Seq<char>>::empty());
    }
    let mut i: usize = 0;
    while i < values.len()
        invariant
            i <= values.len(),
            vv == views(values@),
            vv.len() == values@.len(),
            jentries(out@) == remote_env_of(vv.take(i as int)),
        decreases values.len() - i,
    {
        proof {
            assert(vv.take(i + 1).drop_last() =~= vv.take(i as int));
            assert(vv.take(i + 1).last() == vv[i as int]);
            assert(vv[i as int] == values@[i as int]@);
        }
        let cv = chars_of(values[i].as_str());
        match find_char(&cv, '=', 0) {
            Some(k) => {
                proof {
                    crate::text::lemma_find_char_from_bounds(cv@, '=', 0);
                }
                let name = slice_chars(&cv, 0, k);
                let value = slice_chars(&cv, k + 1, cv.len());
                object_insert(&mut out, string_of(&name), JsonValue::Str(string_of(&value)));
            },
            None => {},
        }
        i = i + 1;
    }
    proof {
        assert(vv.take(values.len() as int) =~= vv);
    }
    out
}

/// `flag value` for each value, in order.
pub open spec fn flag_pairs(flag: Seq<char>, values: Seq<Seq<char>>) -> Seq<Seq<char>>
    decreases values.len(),
{
    if values.len() == 0 {
        Seq::empty()
    } else {
        flag_pairs(flag, values.drop_last()) + seq![flag, values.last()]
    }
}

/// The Dockerfile the build section names (`dockerfile`, else `dockerFile`), else `Dockerfile`.
pub open spec fn dockerfile_of(build: Option<JsonView>) -> Seq<char> {
    let named = match build {
        Some(b) => match vget(b, "dockerfile"@) {
            Some(x) => Some(x),
            None => vget(b, "dockerFile"@),
        },
        None => None,
    };
    match named {
        Some(JsonView::Str(t)) => t,
        _ => "Dockerfile"@,
    }
}

/// The build context the build section names, else `.`.
pub open spec fn build_context_of(build: Option<JsonView>) -> Seq<char> {
    match build {
        Some(b) => match vget(b, "context"@) {
            Some(JsonView::Str(t)) => t,
            _ => "."@,
        },
        None => "."@,
    }
}

/// The arguments of `docker build` for the configuration and the command line.
pub open spec fn docker_build_args(configuration: JsonView, args: Seq<Seq<char>>) -> Seq<Seq<char>> {
    let build = vget(configuration, "build"@);
    seq!["build"@] + (if args.contains("--no-cache"@) {
        seq!["--no-cache"@]
    } else {
        Seq::empty()
    }) + flag_pairs("--cache-from"@, option_values(args, "--cache-from"@)) + flag_pairs(
        "--cache-to"@,
        option_values(args, "--cache-to"@),
    ) + flag_pairs("--label"@, option_values(args, "--label"@)) + match option_value(args, "--image-name"@) {
        Some(v) => seq!["--tag"@, v],
        None => Seq::empty(),
    } + match option_value(args, "--platform"@) {
        Some(v) => seq!["--platform"@, v],
        None => Seq::empty(),
    } + seq!["--file"@, dockerfile_of(build), build_context_of(build)]
}

fn push_text(out: &mut Vec<String>, t: &str)
    ensures
        views(final(out)@) == views(old(out)@).push(t@),
{
    out.push(String::from_str(t));
    proof {
        assert(views(final(out)@) =~= views(old(out)@).push(t@));
    }
}

fn push_flag_pairs(out: &mut Vec<String>, flag: &str, values: &Vec<String>)
    ensures
        views(final(out)@) == views(old(out)@) + flag_pairs(flag@, views(values@)),
{
    let ghost start = views(out@);
    let mut i: usize = 0;
    proof {
        assert(views(values@).take(0) =~= Seq::<Seq<char>>::empty());
        assert(start + flag_pairs(flag@, Seq::<Seq<char>>::empty()) =~= start);
    }
    while i < values.len()
        invariant
            i <= values.len(),
            views(out@) == start + flag_pairs(flag@, views(values@).take(i as int)),
        decreases values.len() - i,
    {
        proof {
            assert(views(values@).take(i + 1).drop_last() =~= views(values@).take(i as int));
            assert(views(values@).take(i + 1).last() == values@[i as int]@);
        }
        push_text(out, flag);
        push_text(out, values[i].as_str());
        proof {
            assert(start + flag_pairs(flag@, views(values@).take(i + 1)) =~= start + flag_pairs(
                flag@,
                views(values@).take(i as int),
            ) + seq![flag@, values@[i as int]@]);
        }
        i = i + 1;
    }
    proof {
        assert(views(values@).take(values.len() as int) =~= views(values@));
    }
}

/// The arguments of `docker build`.
pub fn docker_build_arguments(configuration: &JsonValue, args: &[String]) -> (r: Vec<String>)
    ensures
        views(r@) == docker_build_args(configuration@, views(args@)),
{
    let mut out: Vec<String> = Vec::new();
    proof {
        assert(views(out@) =~= Seq::<Seq<char>>::empty());
    }
    push_text(&mut out, "build");
    if has_flag(args, "--no-cache") {
        push_text(&mut out, "--no-cache");
    }
    let ghost a1 = views(out@);
    push_flag_pairs(&mut out, "--cache-from", &parse_option_values(args, "--cache-from"));
    push_flag_pairs(&mut out, "--cache-to", &parse_option_values(args, "--cache-to"));
    push_flag_pairs(&mut out, "--label", &parse_option_values(args, "--label"));
    let ghost a2 = views(out@);
    match parse_option_value(args, "--image-name") {
        Some(v) => {
            push_text(&mut out, "--tag");
            push_text(&mut out, v.as_str());
        },
        None => {},
    }
    let ghost a3 = views(out@);
    match parse_option_value(args, "--platform") {
        Some(v) => {
            push_text(&mut out, "--platform");
            push_text(&mut out, v.as_str());
        },
        None => {},
    }
    let ghost a4 = views(out@);
    proof {
        lemma_get_view(*configuration, "build"@);
    }
    let build = json_get(configuration, "build");
    let dockerfile = match build {
        Some(b) => {
            proof {
                lemma_get_view(*b, "dockerfile"@);
                lemma_get_view(*b, "dockerFile"@);
            }
            let named = match json_get(b, "dockerfile") {
                Some(x) => Some(x),
                None => json_get(b, "dockerFile"),
            };
            match named {
                Some(JsonValue::Str(t)) => copy_string(t),
                _ => String::from_str("Dockerfile"),
            }
        },
        None => String::from_str("Dockerfile"),
    };
    let context = match build {
        Some(b) => {
            proof {
                lemma_get_view(*b, "context"@);
            }
            match json_get(b, "context") {
                Some(JsonValue::Str(t)) => copy_string(t),
                _ => String::from_str("."),
            }
        },
        None => String::from_str("."),
    };
    push_text(&mut out, "--file");
    push_text(&mut out, dockerfile.as_str());
    push_text(&mut out, context.as_str());
    proof {
        let a = views(args@);
        let build_v = vget(configuration@, "build"@);
        assert(dockerfile@ == dockerfile_of(build_v));
        assert(context@ == build_context_of(build_v));
        assert(views(out@) =~= a4 + seq!["--file"@, dockerfile@, context@]);
        assert(a3 =~= a2 + match option_value(a, "--image-name"@) {
            Some(v) => seq!["--tag"@, v],
            None => Seq::<Seq<char>>::empty(),
        });
        assert(a4 =~= a3 + match option_value(a, "--platform"@) {
            Some(v) => seq!["--platform"@, v],
            None => Seq::<Seq<char>>::empty(),
        });
        assert(a1 =~= seq!["build"@] + (if a.contains("--no-cache"@) {
            seq!["--no-cache"@]
        } else {
            Seq::<Seq<char>>::empty()
        }));
        assert(views(out@) =~= docker_build_args(configuration@, a));
    }
    out
}

/// The `build` payload of the entry point.
pub open spec fn build_payload_of(workspace_folder: Seq<char>, config_file: Seq<char>, configuration: JsonView, args: Seq<Seq<char>>) -> JsonView {
    object_of(
        seq![
            ("outcome"@, text("success"@)),
            ("command"@, text("build"@)),
            ("workspaceFolder"@, text(workspace_folder)),
            ("configFile"@, text(config_file)),
            (
                "buildKit"@,
                text(
                    match option_value(args, "--buildkit"@) {
                        Some(v) => v,
                        None => "auto"@,
                    },
                ),
            ),
            ("push"@, JsonView::Bool(args.contains("--push"@))),
            (
                "docker"@,
                object_of(
                    seq![
                        ("program"@, text("docker"@)),
                        ("args"@, JsonView::Array(texts(docker_build_args(configuration, args)))),
                    ],
                ),
            ),
            ("configuration"@, configuration),
        ],
    )
}

/// The `build` payload of the entry point.
pub fn build_build_payload(workspace_folder: &str, config_file: &str, configuration: &JsonValue, args: &[String]) -> (r: JsonValue)
    ensures
        r@ == build_payload_of(workspace_folder@, config_file@, configuration@, views(args@)),
{
    let docker_args = docker_build_arguments(configuration, args);
    let arg_values = text_values(&docker_args);
    let mut docker: Vec<(String, JsonValue)> = Vec::new();
    docker.push((String::from_str("program"), JsonValue::Str(String::from_str("docker"))));
    docker.push((String::from_str("args"), JsonValue::Array(arg_values)));
    proof {
        lemma_jentries(docker@);
        assert(jentries(docker@) =~= seq![(docker@[0].0@, docker@[0].1@), (docker@[1].0@, docker@[1].1@)]);
    }
    let docker_obj = object_from(docker);
    proof {
        assert(docker_obj@ == object_of(
            seq![
                ("program"@, text("docker"@)),
                ("args"@, JsonView::Array(texts(docker_build_args(configuration@, views(args@))))),
            ],
        ));
    }
    let buildkit = match parse_option_value(args, "--buildkit") {
        Some(v) => v,
        None => String::from_str("auto"),
    };
    let mut top: Vec<(String, JsonValue)> = Vec::new();
    top.push((String::from_str("outcome"), JsonValue::Str(String::from_str("success"))));
    top.push((String::from_str("command"), JsonValue::Str(String::from_str("build"))));
    top.push((String::from_str("workspaceFolder"), JsonValue::Str(String::from_str(workspace_folder))));
    top.push((String::from_str("configFile"), JsonValue::Str(String::from_str(config_file))));
    top.push((String::from_str("buildKit"), JsonValue::Str(buildkit)));
    top.push((String::from_str("push"), JsonValue::Bool(has_flag(args, "--push"))));
    top.push((String::from_str("docker"), docker_obj));
    top.push((String::from_str("configuration"), json_clone(configuration)));
    proof {
        lemma_jentries(top@);
        assert(jentries(top@) =~= seq![
            (top@[0].0@, top@[0].1@),
            (top@[1].0@, top@[1].1@),
            (top@[2].0@, top@[2].1@),
            (top@[3].0@, top@[3].1@),
            (top@[4].0@, top@[4].1@),
            (top@[5].0@, top@[5].1@),
            (top@[6].0@, top@[6].1@),
            (top@[7].0@, top@[7].1@),
        ]);
        let a = views(args@);
        assert(buildkit@ == match option_value(a, "--buildkit"@) {
            Some(v) => v,
            None => "auto"@,
        });
        assert(top@[4].1@ == text(buildkit@));
        assert(top@[5].1@ == JsonView::Bool(a.contains("--push"@)));
        assert(jentries(top@) =~= seq![
            ("outcome"@, text("success"@)),
            ("command"@, text("build"@)),
            ("workspaceFolder"@, text(workspace_folder@)),
            ("configFile"@, text(config_file@)),
            (
                "buildKit"@,
                text(
                    match option_value(a, "--buildkit"@) {
                        Some(v) => v,
                        None => "auto"@,
                    },
                ),
            ),
            ("push"@, JsonView::Bool(a.contains("--push"@))),
            (
                "docker"@,
                object_of(
                    seq![
                        ("program"@, text("docker"@)),
                        ("args"@, JsonView::Array(texts(docker_build_args(configuration@, a)))),
                    ],
                ),
            ),
            ("configuration"@, configuration@),
        ]);
    }
    object_from(top)
}

/// The lifecycle payload of the entry point for `command`.
pub open spec fn lifecycle_payload_of(
    command: Seq<char>,
    workspace_folder: Seq<char>,
    config_file: Seq<char>,
    configuration: JsonView,
    args: Seq<Seq<char>>,
) -> JsonView {
    object_of(
        seq![
            ("outcome"@, text("success"@)),
            ("command"@, text(command)),
            ("workspaceFolder"@, text(workspace_folder)),
            ("configFile"@, text(config_file)),
            ("mounts"@, JsonView::Array(texts(option_values(args, "--mount"@)))),
            ("remoteEnv"@, JsonView::Object(remote_env_of(option_values(args, "--remote-env"@)))),
            ("skipPostCreate"@, JsonView::Bool(args.contains("--skip-post-create"@))),
            ("skipPostAttach"@, JsonView::Bool(args.contains("--skip-post-attach"@))),
            ("skipNonBlockingCommands"@, JsonView::Bool(args.contains("--skip-non-blocking-commands"@))),
            ("lifecycleCommands"@, JsonView::Array(lifecycle_commands_of(configuration, stage_names()))),
            (
                "configuration"@,
                if args.contains("--include-configuration"@) {
                    configuration
                } else {
                    JsonView::Null
                },
            ),
            (
                "mergedConfiguration"@,
                if args.contains("--include-merged-configuration"@) {
                    configuration
                } else {
                    JsonView::Null
                },
            ),
        ],
    )
}

/// The lifecycle payload of the entry point for `command`.
pub fn build_lifecycle_payload(
    command: &str,
    workspace_folder: &str,
    config_file: &str,
    configuration: &JsonValue,
    args: &[String],
) -> (r: JsonValue)
    ensures
        r@ == lifecycle_payload_of(command@, workspace_folder@, config_file@, configuration@, views(args@)),
{
    let shown = if has_flag(args, "--include-configuration") {
        json_clone(configuration)
    } else {
        JsonValue::Null
    };
    let merged = if has_flag(args, "--include-merged-configuration") {
        json_clone(configuration)
    } else {
        JsonValue::Null
    };
    let mut top: Vec<(String, JsonValue)> = Vec::new();
    top.push((String::from_str("outcome"), JsonValue::Str(String::from_str("success"))));
    top.push((String::from_str("command"), JsonValue::Str(String::from_str(command))));
    top.push((String::from_str("workspaceFolder"), JsonValue::Str(String::from_str(workspace_folder))));
    top.push((String::from_str("configFile"), JsonValue::Str(String::from_str(config_file))));
    top.push((String::from_str("mounts"), JsonValue::Array(parse_mounts(args))));
    top.push((String::from_str("remoteEnv"), JsonValue::Object(parse_remote_env(args))));
    top.push((String::from_str("skipPostCreate"), JsonValue::Bool(has_flag(args, "--skip-post-create"))));
    top.push((String::from_str("skipPostAttach"), JsonValue::Bool(has_flag(args, "--skip-post-attach"))));
    top.push(
        (String::from_str("skipNonBlockingCommands"), JsonValue::Bool(has_flag(args, "--skip-non-blocking-commands"))),
    );
    top.push((String::from_str("lifecycleCommands"), JsonValue::Array(lifecycle_commands(configuration))));
    top.push((String::from_str("configuration"), shown));
    top.push((String::from_str("mergedConfiguration"), merged));
    proof {
        lemma_jentries(top@);
        assert(jentries(top@) =~= seq![
            (top@[0].0@, top@[0].1@),
            (top@[1].0@, top@[1].1@),
            (top@[2].0@, top@[2].1@),
            (top@[3].0@, top@[3].1@),
            (top@[4].0@, top@[4].1@),
            (top@[5].0@, top@[5].1@),
            (top@[6].0@, top@[6].1@),
            (top@[7].0@, top@[7].1@),
            (top@[8].0@, top@[8].1@),
            (top@[9].0@, top@[9].1@),
            (top@[10].0@, top@[10].1@),
            (top@[11].0@, top@[11].1@),
        ]);
    }
    object_from(top)
}

/// The version a feature reference pins: the text after its last `:`, or
/// `unversioned` without one.
pub open spec fn pinned_version(id: Seq<char>) -> Seq<char> {
    match rfind_char(id, ':') {
        Some(i) => id.skip(i + 1),
        None => "unversioned"@,
    }
}

/// The feature versions of the entry point's `outdated` payload.
pub open spec fn feature_versions_of(features: Entries) -> Entries
    decreases features.len(),
{
    if features.len() == 0 {
        Seq::empty()
    } else {
        vinsert(
            feature_versions_of(features.drop_last()),
            features.last().0,
            object_of(
                seq![
                    ("currentVersion"@, text(pinned_version(features.last().0))),
                    ("latestVersion"@, text("unknown"@)),
                ],
            ),
        )
    }
}

/// The entry point's `outdated` payload: each declared feature's pinned
/// version; the latest is not known here.
pub open spec fn entry_outdated_payload_of(workspace_folder: Seq<char>, config_file: Seq<char>, configuration: JsonView) -> JsonView {
    let features = match vget(configuration, "features"@) {
        Some(JsonView::Object(e)) => e,
        _ => Seq::empty(),
    };
    object_of(
        seq![
            ("outcome"@, text("success"@)),
            ("command"@, text("outdated"@)),
            ("workspaceFolder"@, text(workspace_folder)),
            ("configFile"@, text(config_file)),
            ("features"@, JsonView::Object(feature_versions_of(features))),
        ],
    )
}

fn pinned_version_of(id: &str) -> (r: String)
    ensures
        r@ == pinned_version(id@),
{
    let v = chars_of(id);
    match rfind_char_exec(&v, ':') {
        Some(i) => {
            proof {
                crate::text::lemma_rfind_char_bounds(v@, ':');
            }
            let rest = slice_chars(&v, i + 1, v.len());
            string_of(&rest)
        },
        None => String::from_str("unversioned"),
    }
}

/// The entry point's `outdated` payload.
pub fn build_entry_outdated_payload(workspace_folder: &str, config_file: &str, configuration: &JsonValue) -> (r: JsonValue)
    ensures
        r@ == entry_outdated_payload_of(workspace_folder@, config_file@, configuration@),
{
    proof {
        lemma_get_view(*configuration, "features"@);
    }
    let mut versions: Vec<(String, JsonValue)> = Vec::new();
    proof {
        assert(jentries(versions@) =~= Seq::<(Seq<char>, JsonView)>::empty());
    }
    match json_get(configuration, "features") {
        Some(JsonValue::Object(features)) => {
            let ghost fv = jentries(features@);
            proof {
                lemma_jentries(features@);
                assert(fv.take(0) =~= Seq::<(Seq<char>, JsonView)>::empty());
            }
            let mut i: usize = 0;
            while i < features.len()
                invariant
                    i <= features.len(),
                    fv == jentries(features@),
                    fv.len() == features@.len(),
                    forall|q: int| 0 <= q < features@.len() ==> #[trigger] fv[q] == (features@[q].0@, features@[q].1@),
                    jentries(versions@) == feature_versions_of(fv.take(i as int)),
                decreases features.len() - i,
            {
                proof {
                    assert(fv.take(i + 1).drop_last() =~= fv.take(i as int));
                    assert(fv.take(i + 1).last() == fv[i as int]);
                }
                let mut pairs: Vec<(String, JsonValue)> = Vec::new();
                pairs.push((String::from_str("currentVersion"), JsonValue::Str(pinned_version_of(features[i].0.as_str()))));
                pairs.push((String::from_str("latestVersion"), JsonValue::Str(String::from_str("unknown"))));
                proof {
                    lemma_jentries(pairs@);
                    assert(jentries(pairs@) =~= seq![(pairs@[0].0@, pairs@[0].1@), (pairs@[1].0@, pairs@[1].1@)]);
                }
                object_insert(&mut versions, copy_string(&features[i].0), object_from(pairs));
                i = i + 1;
            }
            proof {
                assert(fv.take(features.len() as int) =~= fv);
            }
        },
        _ => {},
    }
    let mut top: Vec<(String, JsonValue)> = Vec::new();
    top.push((String::from_str("outcome"), JsonValue::Str(String::from_str("success"))));
    top.push((String::from_str("command"), JsonValue::Str(String::from_str("outdated"))));
    top.push((String::from_str("workspaceFolder"), JsonValue::Str(String::from_str(workspace_folder))));
    top.push((String::from_str("configFile"), JsonValue::Str(String::from_str(config_file))));
    top.push((String::from_str("features"), JsonValue::Object(versions)));
    proof {
        lemma_jentries(top@);
        assert(jentries(top@) =~= seq![
            (top@[0].0@, top@[0].1@),
            (top@[1].0@, top@[1].1@),
            (top@[2].0@, top@[2].1@),
            (top@[3].0@, top@[3].1@),
            (top@[4].0@, top@[4].1@),
        ]);
    }
    object_from(top)
}

/// The entry point's `read-configuration` payload.
pub open spec fn entry_read_payload_of(workspace_folder: Seq<char>, config_file: Seq<char>, configuration: JsonView, args: Seq<Seq<char>>) -> JsonView {
    object_of(
        seq![
            ("configuration"@, configuration),
            (
                "metadata"@,
                object_of(
                    seq![
                        ("format"@, text("jsonc"@)),
                        ("pathResolution"@, text("native-rust"@)),
                        ("workspaceFolder"@, text(workspace_folder)),
                        ("configFile"@, text(config_file)),
                    ],
                ),
            ),
        ] + (if args.contains("--include-merged-configuration"@) {
            seq![("mergedConfiguration"@, configuration)]
        } else {
            Seq::empty()
        }) + if args.contains("--include-features-configuration"@) {
            seq![
                (
                    "featuresConfiguration"@,
                    object_of(
                        seq![
                            (
                                "features"@,
                                match vget(configuration, "features"@) {
                                    Some(f) => f,
                                    None => JsonView::Object(Seq::empty()),
                                },
                            ),
                        ],
                    ),
                ),
            ]
        } else {
            Seq::empty()
        },
    )
}

/// The entry point's `read-configuration` payload.
pub fn build_entry_read_payload(workspace_folder: &str, config_file: &str, configuration: &JsonValue, args: &[String]) -> (r: JsonValue)
    ensures
        r@ == entry_read_payload_of(workspace_folder@, config_file@, configuration@, views(args@)),
{
    let mut meta: Vec<(String, JsonValue)> = Vec::new();
    meta.push((String::from_str("format"), JsonValue::Str(String::from_str("jsonc"))));
    meta.push((String::from_str("pathResolution"), JsonValue::Str(String::from_str("native-rust"))));
    meta.push((String::from_str("workspaceFolder"), JsonValue::Str(String::from_str(workspace_folder))));
    meta.push((String::from_str("configFile"), JsonValue::Str(String::from_str(config_file))));
    proof {
        lemma_jentries(meta@);
        assert(jentries(meta@) =~= seq![
            (meta@[0].0@, meta@[0].1@),
            (meta@[1].0@, meta@[1].1@),
            (meta@[2].0@, meta@[2].1@),
            (meta@[3].0@, meta@[3].1@),
        ]);
    }
    let mut top: Vec<(String, JsonValue)> = Vec::new();
    top.push((String::from_str("configuration"), json_clone(configuration)));
    top.push((String::from_str("metadata"), object_from(meta)));
    let ghost t2 = top@;
    proof {
        lemma_jentries(top@);
        assert(jentries(top@) =~= seq![(top@[0].0@, top@[0].1@), (top@[1].0@, top@[1].1@)]);
    }
    let ghost p2 = jentries(top@);
    let merged = has_flag(args, "--include-merged-configuration");
    if merged {
        top.push((String::from_str("mergedConfiguration"), json_clone(configuration)));
    }
    proof {
        lemma_jentries(top@);
        assert(jentries(top@) =~= p2 + if merged {
            seq![("mergedConfiguration"@, configuration@)]
        } else {
            Seq::<(Seq<char>, JsonView)>::empty()
        });
    }
    let ghost p3 = jentries(top@);
    let features = has_flag(args, "--include-features-configuration");
    if features {
        proof {
            lemma_get_view(*configuration, "features"@);
        }
        let f = match json_get(configuration, "features") {
            Some(f) => json_clone(f),
            None => {
                let e: Vec<(String, JsonValue)> = Vec::new();
                proof {
                    assert(jentries(e@) =~= Seq::<(Seq<char>, JsonView)>::empty());
                }
                JsonValue::Object(e)
            },
        };
        let mut fc: Vec<(String, JsonValue)> = Vec::new();
        fc.push((String::from_str("features"), f));
        proof {
            lemma_jentries(fc@);
            assert(jentries(fc@) =~= seq![(fc@[0].0@, fc@[0].1@)]);
        }
        top.push((String::from_str("featuresConfiguration"), object_from(fc)));
    }
    proof {
        lemma_jentries(top@);
        assert(jentries(top@) =~= p3 + if features {
            seq![
                (
                    "featuresConfiguration"@,
                    object_of(
                        seq![
                            (
                                "features"@,
                                match vget(configuration@, "features"@) {
                                    Some(f) => f,
                                    None => JsonView::Object(Seq::empty()),
                                },
                            ),
                        ],
                    ),
                ),
            ]
        } else {
            Seq::<(Seq<char>, JsonView)>::empty()
        });
    }
    object_from(top)
}

/// Whether the environment switch asks for native handling only: a value
/// that, trimmed and in lower case, is neither empty nor `0`, `false` or `no`.
pub open spec fn native_only_value(value: Option<Seq<char>>) -> bool {
    match value {
        Some(v) => {
            let n = trim(v).map_values(|c: char| crate::collections::lower_ascii(c));
            n.len() > 0 && n != "0"@ && n != "false"@ && n != "no"@
        },
        None => false,
    }
}

/// Whether the environment switch's value asks for native handling only.
pub fn native_only_mode_enabled(value: Option<&str>) -> (r: bool)
    ensures
        r == native_only_value(
            match value {
                Some(v) => Some(v@),
                None => None,
            },
        ),
{
    match value {
        None => false,
        Some(v) => {
            let t = crate::text::str_trim(v);
            let tv = chars_of(t.as_str());
            let mut lowered: Vec<char> = Vec::new();
            let mut i: usize = 0;
            while i < tv.len()
                invariant
                    i <= tv.len(),
                    lowered@ == tv@.take(i as int).map_values(|c: char| crate::collections::lower_ascii(c)),
                decreases tv.len() - i,
            {
                let c = tv[i];
                let l = crate::collections::lower_ascii_exec(c);
                lowered.push(l);
                proof {
                    assert(tv@.take(i + 1).map_values(|c: char| crate::collections::lower_ascii(c)) =~= tv@.take(
                        i as int,
                    ).map_values(|c: char| crate::collections::lower_ascii(c)).push(crate::collections::lower_ascii(c)));
                }
                i = i + 1;
            }
            proof {
                assert(tv@.take(tv.len() as int) =~= tv@);
            }
            let s = string_of(&lowered);
            lowered.len() > 0 && !crate::text::str_eq(s.as_str(), "0") && !crate::text::str_eq(s.as_str(), "false")
                && !crate::text::str_eq(s.as_str(), "no")
        },
    }
}

} // verus!
