//! Where the image of a configuration comes from: compose, a named image, or
//! an engine build with the arguments derived from the `build` section.
use vstd::prelude::*;
use crate::args::{has_flag, option_value, option_values, parse_option_value, parse_option_values};
use crate::compose::uses_compose_config;
use crate::container::{flagged, json_object_strings, object_strings, push_flagged, push_str};
use crate::devcontainer_id::labels_view;
use crate::engine::{stderr_or_stdout, ProcessResult};
use crate::json_value::{get, get_str, json_get, json_get_str, str_of, JsonValue};
use crate::runtime::{
    default_image_name, default_image_name_of, has_build_definition, resolve_relative, ResolvedConfig,
};
use crate::text::{copy_string, opt_view, parent, path_join, path_parent, trim, views};

verus! {

/// An engine build of the configuration's image.
pub struct ImageBuild {
    /// The tag given to the image.
    pub image_name: String,
    /// The engine arguments of `build`.
    pub engine_args: Vec<String>,
    /// Whether the image is pushed after it is built.
    pub push: bool,
}

/// Where the image comes from.
pub enum ImagePlan {
    /// The compose service is built or pulled by compose.
    Compose,
    /// The configured image is used as it is.
    Image(String),
    /// The image is built by the engine.
    Build(ImageBuild),
}

/// The message for a configuration that names neither compose, a build nor an image.
pub open spec fn unsupported_config_message() -> Seq<char> {
    "Unsupported configuration: only image and build-based configs are supported natively"@
}

/// The folder that relative build paths start from: the configuration file's
/// folder, else the workspace folder.
pub open spec fn config_root(r: ResolvedConfig) -> Seq<char> {
    match parent(r.config_file@) {
        Some(p) => p,
        None => r.workspace_folder@,
    }
}

/// `--image-name`, else the default name for the workspace.
pub open spec fn build_image_name(r: ResolvedConfig, args: Seq<Seq<char>>) -> Seq<char> {
    match option_value(args, "--image-name"@) {
        Some(n) => n,
        None => default_image_name_of(r.workspace_folder@),
    }
}

/// The Dockerfile named by `dockerfile` (or, without that entry,
/// `dockerFile`) when it is a string, else `Dockerfile`.
pub open spec fn dockerfile_of(build: JsonValue) -> Seq<char> {
    let named = match get(build, "dockerfile"@) {
        Some(v) => str_of(Some(v)),
        None => get_str(build, "dockerFile"@),
    };
    match named {
        Some(d) => d,
        None => "Dockerfile"@,
    }
}

/// The build context, `.` when none is given.
pub open spec fn context_of(build: JsonValue) -> Seq<char> {
    match get_str(build, "context"@) {
        Some(c) => c,
        None => "."@,
    }
}

/// `flag name=value` for each entry.
pub open spec fn assignments(flag: Seq<char>, entries: Seq<(Seq<char>, Seq<char>)>) -> Seq<Seq<char>>
    decreases entries.len(),
{
    if entries.len() == 0 {
        Seq::empty()
    } else {
        assignments(flag, entries.drop_last()) + seq![flag, entries.last().0 + "="@ + entries.last().1]
    }
}

/// The engine arguments of the build: the tag and Dockerfile, `--no-cache`
/// when asked, the cache sources and targets, the labels, the string build
/// arguments, the platform, and the context.
pub open spec fn build_args_of(r: ResolvedConfig, args: Seq<Seq<char>>, build: JsonValue) -> Seq<Seq<char>> {
    let root = config_root(r);
    seq![
        "build"@,
        "--tag"@,
        build_image_name(r, args),
        "--file"@,
        path_join(root, dockerfile_of(build)),
    ] + (if args.contains("--no-cache"@) || args.contains("--build-no-cache"@) {
        seq!["--no-cache"@]
    } else {
        Seq::empty()
    }) + flagged("--cache-from"@, option_values(args, "--cache-from"@)) + flagged(
        "--cache-to"@,
        option_values(args, "--cache-to"@),
    ) + flagged("--label"@, option_values(args, "--label"@)) + assignments(
        "--build-arg"@,
        object_strings(get(build, "args"@)),
    ) + (match option_value(args, "--platform"@) {
        Some(p) => seq!["--platform"@, p],
        None => Seq::empty(),
    }) + seq![path_join(root, context_of(build))]
}

/// Compose when the configuration uses compose; a build when it has a
/// `build` object; the configured image when it names one as a string; an
/// error otherwise.
pub open spec fn image_plan_ok(r: ResolvedConfig, args: Seq<Seq<char>>, p: ImagePlan) -> bool {
    let c = r.configuration;
    if get(c, "dockerComposeFile"@) is Some && get_str(c, "service"@) is Some {
        p is Compose
    } else {
        match get(c, "build"@) {
            Some(JsonValue::Object(entries)) => match p {
                ImagePlan::Build(b) => b.image_name@ == build_image_name(r, args) && views(b.engine_args@)
                    == build_args_of(r, args, JsonValue::Object(entries)) && b.push == args.contains(
                    "--push"@,
                ),
                _ => false,
            },
            _ => match p {
                ImagePlan::Image(i) => get_str(c, "image"@) == Some(i@),
                _ => false,
            },
        }
    }
}

/// Whether a plan exists: anything but a configuration without compose, a
/// build object or an image string.
pub open spec fn has_image_source(c: JsonValue) -> bool {
    (get(c, "dockerComposeFile"@) is Some && get_str(c, "service"@) is Some) || (get(c, "build"@) matches Some(
        JsonValue::Object(_),
    )) || get_str(c, "image"@) is Some
}

fn push_assignments(out: &mut Vec<String>, flag: &str, entries: &Vec<(String, String)>)
    ensures
        views(final(out)@) == views(old(out)@) + assignments(flag@, labels_view(entries@)),
{
    let ghost start = views(out@);
    let ghost ev = labels_view(entries@);
    let mut i: usize = 0;
    while i < entries.len()
        invariant
            i <= entries.len(),
            ev == labels_view(entries@),
            views(out@) == start + assignments(flag@, ev.take(i as int)),
        decreases entries.len() - i,
    {
        proof {
            assert(ev.take(i + 1).drop_last() =~= ev.take(i as int));
            assert(ev.take(i + 1).last() == ev[i as int]);
        }
        push_str(out, flag);
        let mut kv = copy_string(&entries[i].0);
        kv.append("=");
        kv.append(entries[i].1.as_str());
        let ghost before = out@;
        out.push(kv);
        proof {
            assert(views(out@) =~= views(before).push(kv@));
            assert(views(out@) =~= start + assignments(flag@, ev.take(i + 1)));
        }
        i = i + 1;
    }
    proof {
        assert(ev.take(entries.len() as int) =~= ev);
    }
}

fn dockerfile(build: &JsonValue) -> (r: String)
    ensures
        r@ == dockerfile_of(*build),
{
    let named = match json_get(build, "dockerfile") {
        Some(v) => crate::json_value::json_as_str(Some(v)),
        None => json_get_str(build, "dockerFile"),
    };
    match named {
        Some(d) => d,
        None => String::from_str("Dockerfile"),
    }
}

fn build_context(build: &JsonValue) -> (r: String)
    ensures
        r@ == context_of(*build),
{
    match json_get_str(build, "context") {
        Some(c) => c,
        None => String::from_str("."),
    }
}

fn push_cli_build_options(out: &mut Vec<String>, args: &[String])
    ensures
        views(final(out)@) == views(old(out)@) + (if views(args@).contains("--no-cache"@) || views(
            args@,
        ).contains("--build-no-cache"@) {
            seq!["--no-cache"@]
        } else {
            Seq::empty()
        }) + flagged("--cache-from"@, option_values(views(args@), "--cache-from"@)) + flagged(
            "--cache-to"@,
            option_values(views(args@), "--cache-to"@),
        ) + flagged("--label"@, option_values(views(args@), "--label"@)),
{
    let ghost s0 = views(out@);
    if has_flag(args, "--no-cache") || has_flag(args, "--build-no-cache") {
        push_str(out, "--no-cache");
    }
    let ghost s1 = views(out@);
    proof {
        assert(s1 =~= s0 + (if views(args@).contains("--no-cache"@) || views(args@).contains(
            "--build-no-cache"@,
        ) {
            seq!["--no-cache"@]
        } else {
            Seq::<Seq<char>>::empty()
        }));
    }
    let from = parse_option_values(args, "--cache-from");
    push_flagged(out, "--cache-from", &from);
    let to = parse_option_values(args, "--cache-to");
    push_flagged(out, "--cache-to", &to);
    let labels = parse_option_values(args, "--label");
    push_flagged(out, "--label", &labels);
}

/// The engine arguments that build the image of a `build` section.
pub fn build_engine_args(resolved: &ResolvedConfig, args: &[String], build: &JsonValue) -> (r: Vec<String>)
    ensures
        views(r@) == build_args_of(*resolved, views(args@), *build),
{
    let root = match path_parent(resolved.config_file.as_str()) {
        Some(p) => p,
        None => copy_string(&resolved.workspace_folder),
    };
    let image_name = match parse_option_value(args, "--image-name") {
        Some(n) => n,
        None => default_image_name(resolved.workspace_folder.as_str()),
    };
    let mut out: Vec<String> = Vec::new();
    push_str(&mut out, "build");
    push_str(&mut out, "--tag");
    push_str(&mut out, image_name.as_str());
    push_str(&mut out, "--file");
    let d = dockerfile(build);
    let file = resolve_relative(root.as_str(), d.as_str());
    push_str(&mut out, file.as_str());
    let ghost s0 = views(out@);
    push_cli_build_options(&mut out, args);
    let ghost s1 = views(out@);
    let build_args = json_object_strings(json_get(build, "args"));
    push_assignments(&mut out, "--build-arg", &build_args);
    let ghost s2 = views(out@);
    match parse_option_value(args, "--platform") {
        Some(p) => {
            push_str(&mut out, "--platform");
            push_str(&mut out, p.as_str());
        },
        None => {},
    }
    let ghost s3 = views(out@);
    proof {
        assert(s3 =~= s2 + (match option_value(views(args@), "--platform"@) {
            Some(p) => seq!["--platform"@, p],
            None => Seq::<Seq<char>>::empty(),
        }));
    }
    let context = build_context(build);
    let context_path = resolve_relative(root.as_str(), context.as_str());
    push_str(&mut out, context_path.as_str());
    proof {
        assert(views(out@) =~= build_args_of(*resolved, views(args@), *build));
    }
    out
}

/// Where the image comes from, or the error for a configuration with no image source.
pub fn image_plan(resolved: &ResolvedConfig, args: &[String]) -> (r: Result<ImagePlan, String>)
    ensures
        match r {
            Ok(p) => image_plan_ok(*resolved, views(args@), p),
            Err(e) => !has_image_source(resolved.configuration) && e@ == unsupported_config_message(),
        },
        r is Ok <==> has_image_source(resolved.configuration),
{
    let c = &resolved.configuration;
    if uses_compose_config(c) {
        return Ok(ImagePlan::Compose);
    }
    match json_get(c, "build") {
        Some(b) => match b {
            JsonValue::Object(_) => {
                let image_name = match parse_option_value(args, "--image-name") {
                    Some(n) => n,
                    None => default_image_name(resolved.workspace_folder.as_str()),
                };
                let engine_args = build_engine_args(resolved, args, b);
                let push = has_flag(args, "--push");
                return Ok(ImagePlan::Build(ImageBuild { image_name, engine_args, push }));
            },
            _ => {},
        },
        None => {},
    }
    match json_get_str(c, "image") {
        Some(i) => Ok(ImagePlan::Image(i)),
        None => Err(
            String::from_str(
                "Unsupported configuration: only image and build-based configs are supported natively",
            ),
        ),
    }
}

/// What a push of the built image gave back: nothing when it succeeded, the
/// failure message otherwise.
pub fn pushed_image(result: &ProcessResult) -> (r: Result<(), String>)
    ensures
        match r {
            Ok(()) => result.status_code == 0,
            Err(e) => result.status_code != 0 && e@ == (if trim(result.stderr@).len() == 0 {
                trim(result.stdout@)
            } else {
                trim(result.stderr@)
            }),
        },
{
    if result.status_code != 0 {
        Err(stderr_or_stdout(result))
    } else {
        Ok(())
    }
}

} // verus!
