//! Updating the remote user's UID to the host's: whether to do it, which user,
//! and the names of the images involved.
use vstd::prelude::*;
use crate::args::{option_value, parse_option_value};
use crate::devcontainer_id::{encode_hex_lower, hex_lower, sha256_digest, sha256_of};
use crate::json_value::{get, get_str, json_get, json_get_str, JsonValue};
use crate::runtime::{configured_user, configured_user_of};
use crate::text::{
    chars_of, copy_string, file_name, find, find_char, find_char_from, find_chars, opt_view,
    path_file_name, split, split_chars, starts_with, str_eq, str_starts_with, string_of, trim,
    trim_chars, views,
};

verus! {

/// A user whose UID can be changed: not `root` and not a numeric id.
pub open spec fn updatable_user(user: Seq<char>) -> bool {
    user != "root"@ && !(forall|i: int| 0 <= i < user.len() ==> crate::versions::is_digit(#[trigger] user[i]))
}

/// Whether the user's UID can be changed.
pub fn is_updatable_user(user: &str) -> (r: bool)
    ensures
        r == updatable_user(user@),
{
    if str_eq(user, "root") {
        return false;
    }
    let v = chars_of(user);
    let mut all_digits = true;
    let mut i: usize = 0;
    while i < v.len()
        invariant
            i <= v.len(),
            all_digits == (forall|k: int| 0 <= k < i ==> crate::versions::is_digit(#[trigger] v@[k])),
        decreases v.len() - i,
    {
        if !('0' <= v[i] && v[i] <= '9') {
            all_digits = false;
        }
        i = i + 1;
    }
    !all_digits
}

/// ASCII letters in lower case.
pub open spec fn ascii_lower_text(s: Seq<char>) -> Seq<char> {
    s.map_values(|c: char| crate::collections::lower_ascii(c))
}

fn ascii_lower_exec(s: &str) -> (r: Vec<char>)
    ensures
        r@ == ascii_lower_text(s@),
{
    let v = chars_of(s);
    let mut out: Vec<char> = Vec::new();
    let mut i: usize = 0;
    while i < v.len()
        invariant
            i <= v.len(),
            out@ == v@.take(i as int).map_values(|c: char| crate::collections::lower_ascii(c)),
        decreases v.len() - i,
    {
        let c = v[i];
        let l = if 'A' <= c && c <= 'Z' { ((c as u32) + 32) as u8 as char } else { c };
        out.push(l);
        proof {
            assert(out@ =~= v@.take(i + 1).map_values(|c: char| crate::collections::lower_ascii(c)));
        }
        i = i + 1;
    }
    proof {
        assert(v@.take(v.len() as int) =~= v@);
    }
    out
}

/// Whether an `image inspect` error says the image is not there locally.
pub open spec fn missing_image_error(error: Seq<char>) -> bool {
    find(ascii_lower_text(error), "no such image"@) is Some || find(ascii_lower_text(error), "image not known"@) is Some
}

/// Whether the inspect error means the image is missing locally.
pub fn is_missing_local_image_inspect_error(error: &str) -> (r: bool)
    ensures
        r == missing_image_error(error@),
{
    let lower = ascii_lower_exec(error);
    let a = chars_of("no such image");
    let b = chars_of("image not known");
    find_chars(&lower, &a, 0).is_some() || find_chars(&lower, &b, 0).is_some()
}

/// The characters of a folder name in an image name: lower case (as
/// `char::to_lowercase` gives it), ASCII letters and digits kept, others `-`.
pub open spec fn image_name_chars(c: char) -> Seq<char> {
    let n = c as u32;
    if 'A' <= c && c <= 'Z' {
        seq![((n + 32) as char)]
    } else if ('a' <= c && c <= 'z') || ('0' <= c && c <= '9') {
        seq![c]
    } else if n == 0x130 {
        seq!['i', '-']
    } else if n == 0x212a {
        seq!['k']
    } else {
        seq!['-']
    }
}

pub open spec fn image_name_text(s: Seq<char>) -> Seq<char>
    decreases s.len(),
{
    if s.len() == 0 {
        Seq::empty()
    } else {
        image_name_text(s.drop_last()) + image_name_chars(s.last())
    }
}

/// `vsc-`, the folder name, `-`, and the SHA-256 of the folder path in hexadecimal.
pub open spec fn local_image_name(workspace_folder: Seq<char>) -> Seq<char> {
    let base = match file_name(workspace_folder) {
        Some(b) => b,
        None => "workspace"@,
    };
    "vsc-"@ + image_name_text(base) + "-"@ + hex_lower(sha256_of(vstd::utf8::encode_utf8(workspace_folder)))
}

/// The name of the image built for a workspace.
pub fn uid_update_local_image_name(workspace_folder: &str) -> (r: String)
    ensures
        r@ == local_image_name(workspace_folder@),
{
    let base = match path_file_name(workspace_folder) {
        Some(b) => b,
        None => String::from_str("workspace"),
    };
    let v = chars_of(base.as_str());
    let mut out: Vec<char> = Vec::new();
    let mut i: usize = 0;
    while i < v.len()
        invariant
            i <= v.len(),
            out@ == image_name_text(v@.take(i as int)),
        decreases v.len() - i,
    {
        proof {
            assert(v@.take(i + 1).drop_last() =~= v@.take(i as int));
        }
        let c = v[i];
        let n = c as u32;
        let ghost before = out@;
        if 'A' <= c && c <= 'Z' {
            out.push((n + 32) as u8 as char);
        } else if ('a' <= c && c <= 'z') || ('0' <= c && c <= '9') {
            out.push(c);
        } else if n == 0x130 {
            out.push('i');
            out.push('-');
        } else if n == 0x212a {
            out.push('k');
        } else {
            out.push('-');
        }
        proof {
            assert(out@ =~= before + image_name_chars(c));
        }
        i = i + 1;
    }
    proof {
        assert(v@.take(v.len() as int) =~= v@);
    }
    let name = string_of(&out);
    let hash = sha256_digest(workspace_folder.as_bytes());
    let hex = encode_hex_lower(hash.as_slice());
    let mut r = String::from_str("vsc-");
    r.append(name.as_str());
    r.append("-");
    r.append(hex.as_str());
    r
}

/// The name of the image with the updated UID: the given image's name when it
/// is one of the workspace's own images, else the workspace image name, then `-uid`.
pub open spec fn uid_image_name(workspace_folder: Seq<char>, image_name: Seq<char>) -> Seq<char> {
    let local = local_image_name(workspace_folder);
    (if starts_with(image_name, local) {
        image_name
    } else {
        local
    }) + "-uid"@
}

/// The name of the image with the updated UID.
pub fn uid_update_image_name(workspace_folder: &str, image_name: &str) -> (r: String)
    ensures
        r@ == uid_image_name(workspace_folder@, image_name@),
{
    let local = uid_update_local_image_name(workspace_folder);
    let mut r = if str_starts_with(image_name, local.as_str()) {
        String::from_str(image_name)
    } else {
        local
    };
    r.append("-uid");
    r
}

/// The engine is Podman: the last component of `--docker-path` is `podman`
/// in any ASCII case.
pub open spec fn podman_engine(args: Seq<Seq<char>>) -> bool {
    match option_value(args, "--docker-path"@) {
        Some(p) => match file_name(p) {
            Some(n) => ascii_lower_text(n) == "podman"@,
            None => false,
        },
        None => false,
    }
}

/// Whether the engine is Podman.
pub fn uses_podman_engine(args: &[String]) -> (r: bool)
    ensures
        r == podman_engine(views(args@)),
{
    match parse_option_value(args, "--docker-path") {
        Some(p) => match path_file_name(p.as_str()) {
            Some(n) => {
                let lower = ascii_lower_exec(n.as_str());
                let podman = chars_of("podman");
                crate::text::chars_eq(&lower, &podman)
            },
            None => false,
        },
        None => false,
    }
}

/// The image name starts with a registry host: `localhost/`, or a `.` comes
/// before the first `/`.
pub open spec fn registry_hostname(image: Seq<char>) -> bool {
    starts_with(image, "localhost/"@) || match (find_char_from(image, '.', 0), find_char_from(image, '/', 0)) {
        (Some(d), Some(s)) => d < s,
        _ => false,
    }
}

/// Whether the image name names its registry host.
pub fn has_registry_hostname(image_name: &str) -> (r: bool)
    ensures
        r == registry_hostname(image_name@),
{
    if str_starts_with(image_name, "localhost/") {
        return true;
    }
    let v = chars_of(image_name);
    match (find_char(&v, '.', 0), find_char(&v, '/', 0)) {
        (Some(d), Some(s)) => d < s,
        _ => false,
    }
}

/// The base image for the UID update: Podman needs `localhost/` before a local image.
pub open spec fn base_image(args: Seq<Seq<char>>, image: Seq<char>) -> Seq<char> {
    if podman_engine(args) && !registry_hostname(image) {
        "localhost/"@ + image
    } else {
        image
    }
}

/// The base image of the UID update build.
pub fn uid_update_base_image(args: &[String], image_name: &str) -> (r: String)
    ensures
        r@ == base_image(views(args@), image_name@),
{
    if uses_podman_engine(args) && !has_registry_hostname(image_name) {
        let mut r = String::from_str("localhost/");
        r.append(image_name);
        return r;
    }
    String::from_str(image_name)
}

/// The configured user, else the user of the run arguments.
pub open spec fn uid_configured_user(configuration: JsonValue, run_args_user: Option<Seq<char>>) -> Option<Seq<char>> {
    match configured_user_of(configuration) {
        Some(u) => Some(u),
        None => run_args_user,
    }
}

/// The user whose UID is checked before the image is inspected.
pub fn uid_update_configured_user(configuration: &JsonValue, run_args_user: Option<&str>) -> (r: Option<String>)
    ensures
        opt_view(r) == uid_configured_user(
            *configuration,
            match run_args_user {
                Some(u) => Some(u@),
                None => None,
            },
        ),
{
    match configured_user(configuration) {
        Some(u) => Some(u),
        None => match run_args_user {
            Some(u) => Some(String::from_str(u)),
            None => None,
        },
    }
}

/// The user to update: the configured user, else the run arguments' user,
/// else the image's user, if that user can be updated.
pub open spec fn uid_remote_user(configuration: JsonValue, run_args_user: Option<Seq<char>>, image_user: Seq<char>) -> Option<Seq<char>> {
    let user = match uid_configured_user(configuration, run_args_user) {
        Some(u) => u,
        None => image_user,
    };
    if updatable_user(user) {
        Some(user)
    } else {
        None
    }
}

/// The user whose UID is updated.
pub fn uid_update_remote_user(configuration: &JsonValue, run_args_user: Option<&str>, image_user: &str) -> (r: Option<String>)
    ensures
        opt_view(r) == uid_remote_user(
            *configuration,
            match run_args_user {
                Some(u) => Some(u@),
                None => None,
            },
            image_user@,
        ),
{
    let user = match uid_update_configured_user(configuration, run_args_user) {
        Some(u) => u,
        None => String::from_str(image_user),
    };
    if is_updatable_user(user.as_str()) {
        Some(user)
    } else {
        None
    }
}

/// The user that the run arguments select, scanning from the last argument:
/// `-u user` / `--user user` (when followed by a string), or `-u=user` /
/// `--user=user`; arguments that are not strings are passed over.
pub open spec fn run_args_user_before(run_args: Seq<JsonValue>, k: int) -> Option<Seq<char>>
    decreases k,
{
    if k <= 0 || k > run_args.len() {
        None
    } else {
        let index = k - 1;
        match run_args[index] {
            JsonValue::Str(a) => if a@ == "-u"@ || a@ == "--user"@ {
                match if index + 1 < run_args.len() { Some(run_args[index + 1]) } else { None } {
                    Some(JsonValue::Str(u)) => Some(u@),
                    _ => run_args_user_before(run_args, index),
                }
            } else if starts_with(a@, "-u="@) {
                Some(a@.skip(3))
            } else if starts_with(a@, "--user="@) {
                Some(a@.skip(7))
            } else {
                run_args_user_before(run_args, index)
            },
            _ => run_args_user_before(run_args, index),
        }
    }
}

/// The user given in the configuration's `runArgs`.
pub open spec fn run_args_user(configuration: JsonValue) -> Option<Seq<char>> {
    match get(configuration, "runArgs"@) {
        Some(JsonValue::Array(a)) => run_args_user_before(a@, a@.len() as int),
        _ => None,
    }
}

/// The user given in the configuration's run arguments.
pub fn uid_update_run_args_user(configuration: &JsonValue) -> (r: Option<String>)
    ensures
        opt_view(r) == run_args_user(*configuration),
{
    let run_args = match json_get(configuration, "runArgs") {
        Some(JsonValue::Array(a)) => a,
        _ => return None,
    };
    let mut k: usize = run_args.len();
    while k > 0
        invariant
            k <= run_args.len(),
            run_args_user(*configuration) == run_args_user_before(run_args@, k as int),
        decreases k,
    {
        let index = k - 1;
        match &run_args[index] {
            JsonValue::Str(a) => {
                if str_eq(a.as_str(), "-u") || str_eq(a.as_str(), "--user") {
                    if index + 1 < run_args.len() {
                        match &run_args[index + 1] {
                            JsonValue::Str(u) => return Some(copy_string(u)),
                            _ => {},
                        }
                    }
                } else if str_starts_with(a.as_str(), "-u=") {
                    let v = chars_of(a.as_str());
                    proof {
                        reveal_strlit("-u=");
                    }
                    let rest = crate::text::slice_chars(&v, 3, v.len());
                    proof {
                        assert(rest@ =~= a@.skip(3));
                    }
                    return Some(string_of(&rest));
                } else if str_starts_with(a.as_str(), "--user=") {
                    let v = chars_of(a.as_str());
                    proof {
                        reveal_strlit("--user=");
                    }
                    let rest = crate::text::slice_chars(&v, 7, v.len());
                    proof {
                        assert(rest@ =~= a@.skip(7));
                    }
                    return Some(string_of(&rest));
                }
            },
            _ => {},
        }
        k = k - 1;
    }
    None
}

/// Whether to update the remote user's UID: on a supported platform, unless
/// `--update-remote-user-uid-default never`; then `updateRemoteUserUID` when it
/// is a boolean, else whether the default is `on` (the default default).
pub open spec fn should_update_uid(configuration: JsonValue, args: Seq<Seq<char>>, platform_supported: bool) -> bool {
    let default_value = match option_value(args, "--update-remote-user-uid-default"@) {
        Some(v) => v,
        None => "on"@,
    };
    if !platform_supported || default_value == "never"@ {
        false
    } else {
        let should = match get(configuration, "updateRemoteUserUID"@) {
            Some(JsonValue::Bool(b)) => b,
            _ => default_value == "on"@,
        };
        should && configuration is Object
    }
}

/// Whether the remote user's UID is to be updated.
pub fn should_update_remote_user_uid(configuration: &JsonValue, args: &[String], platform_supported: bool) -> (r: bool)
    ensures
        r == should_update_uid(*configuration, views(args@), platform_supported),
{
    if !platform_supported {
        return false;
    }
    let default_value = match parse_option_value(args, "--update-remote-user-uid-default") {
        Some(v) => v,
        None => String::from_str("on"),
    };
    if str_eq(default_value.as_str(), "never") {
        return false;
    }
    let should = match json_get(configuration, "updateRemoteUserUID") {
        Some(JsonValue::Bool(b)) => *b,
        _ => str_eq(default_value.as_str(), "on"),
    };
    if !should {
        return false;
    }
    match configuration {
        JsonValue::Object(_) => true,
        _ => false,
    }
}

/// What `image inspect` reported: the image's user and platform.
#[derive(Debug)]
pub struct ImageInspectDetails {
    pub user: String,
    pub platform: Option<String>,
}

/// The details in the inspect output: the first line (trimmed) is the user,
/// `root` when blank or missing; the second line (trimmed) the platform, if not blank.
pub open spec fn inspect_details_of(stdout: Seq<char>) -> (Seq<char>, Option<Seq<char>>) {
    let lines = split(stdout, '\n');
    let user = if lines.len() > 0 && trim(lines[0]).len() > 0 {
        trim(lines[0])
    } else {
        "root"@
    };
    let platform = if lines.len() > 1 && trim(lines[1]).len() > 0 {
        Some(trim(lines[1]))
    } else {
        None
    };
    (user, platform)
}

/// Reads the user and platform from the inspect output.
pub fn parse_image_inspect_output(stdout: &str) -> (r: ImageInspectDetails)
    ensures
        (r.user@, opt_view(r.platform)) == inspect_details_of(stdout@),
{
    let v = chars_of(stdout);
    let lines = split_chars(&v, '\n');
    proof {
        crate::text::lemma_split_nonempty(v@, '\n');
        assert(lines@[0]@ == split(stdout@, '\n')[0]);
        if lines.len() > 1 {
            assert(lines@[1]@ == split(stdout@, '\n')[1]);
        }
    }
    let first = trim_chars(&lines[0]);
    let user = if first.len() > 0 {
        string_of(&first)
    } else {
        String::from_str("root")
    };
    let platform = if lines.len() > 1 {
        let second = trim_chars(&lines[1]);
        if second.len() > 0 {
            Some(string_of(&second))
        } else {
            None
        }
    } else {
        None
    };
    ImageInspectDetails { user, platform }
}

/// What a user id update of an image needs: the user to update, the
/// image's own user, the name of the updated image and the image platform.
#[derive(Debug)]
pub struct UidUpdateDetails {
    pub remote_user: String,
    pub image_user: String,
    pub updated_image_name: String,
    pub platform: Option<String>,
}

/// The details of an update for `image_name`, when the user to update may be updated.
pub fn uid_update_details(
    configuration: &JsonValue,
    workspace_folder: &str,
    image_name: &str,
    image_user: &str,
    runtime_user: Option<&str>,
    platform: Option<&str>,
) -> (r: Option<UidUpdateDetails>)
    ensures
        match r {
            Some(d) => uid_remote_user(
                *configuration,
                match runtime_user {
                    Some(u) => Some(u@),
                    None => None,
                },
                image_user@,
            ) == Some(d.remote_user@) && d.image_user@ == image_user@ && d.updated_image_name@ == uid_image_name(
                workspace_folder@,
                image_name@,
            ) && opt_view(d.platform) == match platform {
                Some(p) => Some(p@),
                None => None,
            },
            None => uid_remote_user(
                *configuration,
                match runtime_user {
                    Some(u) => Some(u@),
                    None => None,
                },
                image_user@,
            ) is None,
        },
{
    let remote_user = match uid_update_remote_user(configuration, runtime_user, image_user) {
        Some(u) => u,
        None => return None,
    };
    Some(UidUpdateDetails {
        remote_user,
        image_user: String::from_str(image_user),
        updated_image_name: uid_update_image_name(workspace_folder, image_name),
        platform: match platform {
            Some(p) => Some(String::from_str(p)),
            None => None,
        },
    })
}

} // verus!
