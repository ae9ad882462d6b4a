//! Docker Compose invocations: the arguments for a project, the options a
//! compose build refuses, project names, version checks, image names, and the
//! quoting used in override files.
use vstd::prelude::*;
use crate::args::{has_flag, option_value, option_values, parse_option_value, parse_option_values};
use crate::engine::ProcessResult;
use crate::json_value::{get, get_str, json_get, json_get_str, JsonValue};
use crate::text::{
    append_chars, chars_of, copy_string, find_char_from, opt_view, slice_chars, split,
    split_chars, str_eq, string_of, trim, views,
};
use crate::versions::{parse_u64, parse_u64_spec};

verus! {

/// A compose project and the service of the dev container.
pub struct ComposeSpec {
    pub files: Vec<String>,
    pub service: String,
    pub image: Option<String>,
    pub has_build: bool,
    pub project_name: String,
}

/// Whether the configuration runs through compose: it names compose files and a service.
pub fn uses_compose_config(configuration: &JsonValue) -> (r: bool)
    ensures
        r == (get(*configuration, "dockerComposeFile"@) is Some && get_str(*configuration, "service"@) is Some),
{
    json_get(configuration, "dockerComposeFile").is_some() && json_get_str(configuration, "service").is_some()
}

/// `-f file` for each file.
pub open spec fn file_args(files: Seq<Seq<char>>) -> Seq<Seq<char>>
    decreases files.len(),
{
    if files.len() == 0 {
        Seq::empty()
    } else {
        file_args(files.drop_last()) + seq!["-f"@, files.last()]
    }
}

/// The compose arguments: the project name, the files (and the override
/// file), the subcommand, then the rest.
pub open spec fn compose_args_of(project: Seq<char>, files: Seq<Seq<char>>, subcommand: Seq<char>, override_file: Option<Seq<char>>, tail: Seq<Seq<char>>) -> Seq<Seq<char>> {
    seq!["--project-name"@, project] + file_args(files) + (match override_file {
        Some(f) => seq!["-f"@, f],
        None => Seq::empty(),
    }) + seq![subcommand] + tail
}

fn push_str(out: &mut Vec<String>, s: &str)
    ensures
        views(final(out)@) == views(old(out)@).push(s@),
{
    let v = String::from_str(s);
    out.push(v);
    proof {
        assert(views(out@) =~= views(old(out)@).push(s@));
    }
}

/// The compose arguments for a subcommand of the project.
pub fn compose_args_owned(spec: &ComposeSpec, subcommand: &str, override_file: Option<&str>, tail: Vec<String>) -> (r: Vec<String>)
    ensures
        views(r@) == compose_args_of(
            spec.project_name@,
            views(spec.files@),
            subcommand@,
            match override_file {
                Some(f) => Some(f@),
                None => None,
            },
            views(tail@),
        ),
{
    let mut args: Vec<String> = Vec::new();
    push_str(&mut args, "--project-name");
    push_str(&mut args, spec.project_name.as_str());
    let ghost head = views(args@);
    let ghost fv = views(spec.files@);
    let mut i: usize = 0;
    while i < spec.files.len()
        invariant
            i <= spec.files.len(),
            fv == views(spec.files@),
            views(args@) == head + file_args(fv.take(i as int)),
        decreases spec.files.len() - i,
    {
        proof {
            assert(fv.take(i + 1).drop_last() =~= fv.take(i as int));
            assert(fv.take(i + 1).last() == spec.files@[i as int]@);
        }
        push_str(&mut args, "-f");
        push_str(&mut args, spec.files[i].as_str());
        proof {
            assert(views(args@) =~= head + file_args(fv.take(i + 1)));
        }
        i = i + 1;
    }
    proof {
        assert(fv.take(spec.files.len() as int) =~= fv);
    }
    let ghost after_files = views(args@);
    match override_file {
        Some(f) => {
            push_str(&mut args, "-f");
            push_str(&mut args, f);
        },
        None => {},
    }
    push_str(&mut args, subcommand);
    let ghost before_tail = views(args@);
    let mut rest = tail;
    let ghost tv = views(rest@);
    args.append(&mut rest);
    proof {
        assert(views(args@) =~= before_tail + tv);
    }
    args
}

/// The compose arguments for a subcommand with fixed further arguments.
pub fn compose_args_with_override(spec: &ComposeSpec, subcommand: &str, tail: &[&str], override_file: Option<&str>) -> (r: Vec<String>)
    ensures
        views(r@) == compose_args_of(
            spec.project_name@,
            views(spec.files@),
            subcommand@,
            match override_file {
                Some(f) => Some(f@),
                None => None,
            },
            crate::text::str_views(tail@),
        ),
{
    let mut owned: Vec<String> = Vec::new();
    let mut i: usize = 0;
    while i < tail.len()
        invariant
            i <= tail.len(),
            views(owned@) == crate::text::str_views(tail@).take(i as int),
        decreases tail.len() - i,
    {
        push_str(&mut owned, tail[i]);
        proof {
            assert(views(owned@) =~= crate::text::str_views(tail@).take(i + 1));
        }
        i = i + 1;
    }
    proof {
        assert(crate::text::str_views(tail@).take(tail.len() as int) =~= crate::text::str_views(tail@));
    }
    compose_args_owned(spec, subcommand, override_file, owned)
}

/// The compose arguments for a subcommand without an override file.
pub fn compose_args(spec: &ComposeSpec, subcommand: &str, tail: &[&str]) -> (r: Vec<String>)
    ensures
        views(r@) == compose_args_of(spec.project_name@, views(spec.files@), subcommand@, None, crate::text::str_views(tail@)),
{
    compose_args_with_override(spec, subcommand, tail, None)
}

/// The option occurs, alone or with a value.
pub open spec fn option_present(args: Seq<Seq<char>>, flag: Seq<char>) -> bool {
    args.contains(flag) || option_value(args, flag) is Some || option_values(args, flag).len() > 0
}

/// Whether a build option is given.
pub fn compose_build_option_is_present(args: &[String], flag: &str) -> (r: bool)
    ensures
        r == option_present(views(args@), flag@),
{
    has_flag(args, flag) || parse_option_value(args, flag).is_some() || parse_option_values(args, flag).len() > 0
}

/// The first of the build options that compose builds refuse, in a fixed order.
pub open spec fn refused_build_option(args: Seq<Seq<char>>) -> Option<Seq<char>> {
    if option_present(args, "--cache-from"@) {
        Some("--cache-from"@)
    } else if option_present(args, "--cache-to"@) {
        Some("--cache-to"@)
    } else if option_present(args, "--platform"@) {
        Some("--platform"@)
    } else if option_present(args, "--label"@) {
        Some("--label"@)
    } else {
        None
    }
}

/// Refuses the build options that compose builds do not support.
pub fn reject_unsupported_build_options(args: &[String]) -> (r: Result<(), String>)
    ensures
        match refused_build_option(views(args@)) {
            Some(f) => r matches Err(e) && e@ == f + " not supported for compose builds."@,
            None => r is Ok,
        },
{
    let flags: [&str; 4] = ["--cache-from", "--cache-to", "--platform", "--label"];
    let mut i: usize = 0;
    while i < 4
        invariant
            i <= 4,
            flags@.len() == 4,
            flags@[0]@ == "--cache-from"@,
            flags@[1]@ == "--cache-to"@,
            flags@[2]@ == "--platform"@,
            flags@[3]@ == "--label"@,
            forall|k: int| 0 <= k < i ==> !option_present(views(args@), #[trigger] flags@[k]@),
        decreases 4 - i,
    {
        if compose_build_option_is_present(args, flags[i]) {
            let mut msg = String::from_str(flags[i]);
            msg.append(" not supported for compose builds.");
            proof {
                assert(!option_present(views(args@), flags@[0]@) || i == 0);
            }
            return Err(msg);
        }
        i = i + 1;
    }
    proof {
        assert(!option_present(views(args@), flags@[0]@));
        assert(!option_present(views(args@), flags@[1]@));
        assert(!option_present(views(args@), flags@[2]@));
        assert(!option_present(views(args@), flags@[3]@));
    }
    Ok(())
}

/// What `char::to_lowercase` gives that is an ASCII lower-case letter, digit,
/// `-` or `_`: ASCII letters in lower case, `İ` giving `i` and `K` (Kelvin) `k`.
pub open spec fn project_name_chars(c: char) -> Seq<char> {
    let n = c as u32;
    if 'A' <= c && c <= 'Z' {
        seq![((n + 32) as char)]
    } else if ('a' <= c && c <= 'z') || ('0' <= c && c <= '9') || c == '-' || c == '_' {
        seq![c]
    } else if n == 0x130 {
        seq!['i']
    } else if n == 0x212a {
        seq!['k']
    } else {
        Seq::empty()
    }
}

/// The project name as compose accepts it.
pub open spec fn sanitized_name(s: Seq<char>) -> Seq<char>
    decreases s.len(),
{
    if s.len() == 0 {
        Seq::empty()
    } else {
        sanitized_name(s.drop_last()) + project_name_chars(s.last())
    }
}

/// Lower-cases a name and keeps only ASCII letters, digits, `-` and `_`.
pub fn sanitize_project_name(value: &str) -> (r: String)
    ensures
        r@ == sanitized_name(value@),
{
    let v = chars_of(value);
    let mut out: Vec<char> = Vec::new();
    let mut i: usize = 0;
    while i < v.len()
        invariant
            i <= v.len(),
            out@ == sanitized_name(v@.take(i as int)),
        decreases v.len() - i,
    {
        proof {
            assert(v@.take(i + 1).drop_last() =~= v@.take(i as int));
        }
        let c = v[i];
        let n = c as u32;
        let ghost before = out@;
        if 'A' <= c && c <= 'Z' {
            out.push((n + 32) as u8 as char);
        } else if ('a' <= c && c <= 'z') || ('0' <= c && c <= '9') || c == '-' || c == '_' {
            out.push(c);
        } else if n == 0x130 {
            out.push('i');
        } else if n == 0x212a {
            out.push('k');
        }
        proof {
            assert(out@ =~= before + project_name_chars(c));
        }
        i = i + 1;
    }
    proof {
        assert(v@.take(v.len() as int) =~= v@);
    }
    string_of(&out)
}

/// `s` without its leading `v` characters.
pub open spec fn strip_leading_v(s: Seq<char>) -> Seq<char>
    decreases s.len(),
{
    if s.len() > 0 && s[0] == 'v' {
        strip_leading_v(s.drop_first())
    } else {
        s
    }
}

pub open spec fn is_version_char(c: char) -> bool {
    ('0' <= c && c <= '9') || c == '.'
}

/// The longest prefix of digits and dots.
pub open spec fn version_prefix_len(s: Seq<char>, i: int) -> int
    decreases s.len() - i,
{
    if i < 0 || i >= s.len() || !is_version_char(s[i]) {
        i
    } else {
        version_prefix_len(s, i + 1)
    }
}

/// The leading version of a version string: after any leading `v`, the digits
/// and dots up to the first other character, read as up to three numbers
/// (missing minor and patch numbers are 0, further parts are ignored).
pub open spec fn semver_prefix(value: Seq<char>) -> Option<(u64, u64, u64)> {
    let n = strip_leading_v(value);
    let version = n.take(version_prefix_len(n, 0));
    if version.len() == 0 {
        None
    } else {
        let parts = split(version, '.');
        let minor_text = if parts.len() > 1 { parts[1] } else { "0"@ };
        let patch_text = if parts.len() > 2 { parts[2] } else { "0"@ };
        match (parse_u64_spec(parts[0]), parse_u64_spec(minor_text), parse_u64_spec(patch_text)) {
            (Some(a), Some(b), Some(c)) => Some((a, b, c)),
            _ => None,
        }
    }
}

proof fn lemma_version_prefix_len_bounds(s: Seq<char>, i: int)
    requires
        0 <= i <= s.len(),
    ensures
        i <= version_prefix_len(s, i) <= s.len(),
    decreases s.len() - i,
{
    if i < s.len() && is_version_char(s[i]) {
        lemma_version_prefix_len_bounds(s, i + 1);
    }
}

/// Reads the leading `major.minor.patch` of a version string.
pub fn parse_semver_prefix(value: &str) -> (r: Option<(u64, u64, u64)>)
    ensures
        r == semver_prefix(value@),
{
    let v = chars_of(value);
    let mut lo: usize = 0;
    proof {
        assert(v@.skip(0) =~= v@);
    }
    while lo < v.len() && v[lo] == 'v'
        invariant
            lo <= v.len(),
            strip_leading_v(v@) == strip_leading_v(v@.skip(lo as int)),
        decreases v.len() - lo,
    {
        proof {
            assert(v@.skip(lo as int).drop_first() =~= v@.skip(lo + 1));
        }
        lo = lo + 1;
    }
    let n = slice_chars(&v, lo, v.len());
    proof {
        assert(n@ =~= v@.skip(lo as int));
    }
    let mut end: usize = 0;
    while end < n.len() && (('0' <= n[end] && n[end] <= '9') || n[end] == '.')
        invariant
            end <= n.len(),
            version_prefix_len(n@, 0) == version_prefix_len(n@, end as int),
        decreases n.len() - end,
    {
        end = end + 1;
    }
    let version = slice_chars(&n, 0, end);
    proof {
        assert(version@ =~= n@.take(end as int));
    }
    if version.len() == 0 {
        return None;
    }
    let parts = split_chars(&version, '.');
    proof {
        crate::text::lemma_split_nonempty(version@, '.');
        assert(parts@[0]@ == split(version@, '.')[0]);
        if parts.len() > 1 {
            assert(parts@[1]@ == split(version@, '.')[1]);
        }
        if parts.len() > 2 {
            assert(parts@[2]@ == split(version@, '.')[2]);
        }
    }
    let zero = chars_of("0");
    let major = match parse_u64(&parts[0]) {
        Some(x) => x,
        None => return None,
    };
    let minor = match parse_u64(if parts.len() > 1 { &parts[1] } else { &zero }) {
        Some(x) => x,
        None => return None,
    };
    let patch = match parse_u64(if parts.len() > 2 { &parts[2] } else { &zero }) {
        Some(x) => x,
        None => return None,
    };
    Some((major, minor, patch))
}

/// The separator compose puts between project and service in image names:
/// `_` when it reports a version before 2.8.0, `-` otherwise (also when the
/// version cannot be had).
pub open spec fn image_name_separator(version_output: Option<(i32, Seq<char>)>) -> char {
    match version_output {
        Some((status, out)) => if status != 0 {
            '-'
        } else {
            match semver_prefix(trim(out)) {
                Some((a, b, c)) => if a < 2 || (a == 2 && b < 8) {
                    '_'
                } else {
                    '-'
                },
                None => '-',
            }
        },
        None => '-',
    }
}

/// The image name separator, from what `compose version --short` gave (none
/// when it could not be run).
pub fn compose_image_name_separator(version_result: Option<&ProcessResult>) -> (r: char)
    ensures
        r == image_name_separator(
            match version_result {
                Some(x) => Some((x.status_code, x.stdout@)),
                None => None,
            },
        ),
{
    let result = match version_result {
        Some(x) => x,
        None => return '-',
    };
    if result.status_code != 0 {
        return '-';
    }
    let out = crate::text::str_trim(result.stdout.as_str());
    match parse_semver_prefix(out.as_str()) {
        Some((a, b, _c)) => if a < 2 || (a == 2 && b < 8) {
            '_'
        } else {
            '-'
        },
        None => '-',
    }
}

/// The default image name of the compose service: project, separator, service.
pub fn default_service_image_name(spec: &ComposeSpec, separator: char) -> (r: String)
    ensures
        r@ == spec.project_name@.push(separator) + spec.service@,
{
    let mut r = copy_string(&spec.project_name);
    crate::text::push_char(&mut r, separator);
    r.append(spec.service.as_str());
    r
}

/// `s` with single quotes doubled, and dollar signs too when `quote_dollar` is set.
pub open spec fn escaped(s: Seq<char>, quote_dollar: bool) -> Seq<char>
    decreases s.len(),
{
    if s.len() == 0 {
        Seq::empty()
    } else {
        escaped(s.drop_last(), quote_dollar) + if s.last() == '\'' {
            seq!['\'', '\'']
        } else if quote_dollar && s.last() == '$' {
            seq!['$', '$']
        } else {
            seq![s.last()]
        }
    }
}

fn escape_chars(value: &str, quote_dollar: bool) -> (r: String)
    ensures
        r@ == escaped(value@, quote_dollar),
{
    let v = chars_of(value);
    let mut out: Vec<char> = Vec::new();
    let mut i: usize = 0;
    while i < v.len()
        invariant
            i <= v.len(),
            out@ == escaped(v@.take(i as int), quote_dollar),
        decreases v.len() - i,
    {
        proof {
            assert(v@.take(i + 1).drop_last() =~= v@.take(i as int));
        }
        let c = v[i];
        let ghost before = out@;
        if c == '\'' {
            out.push('\'');
            out.push('\'');
        } else if quote_dollar && c == '$' {
            out.push('$');
            out.push('$');
        } else {
            out.push(c);
        }
        proof {
            assert(out@ =~= escaped(v@.take(i + 1), quote_dollar));
        }
        i = i + 1;
    }
    proof {
        assert(v@.take(v.len() as int) =~= v@);
    }
    string_of(&out)
}

/// A label for a single-quoted YAML scalar: `'` doubled, `$` doubled.
pub fn escape_compose_label(label: &str) -> (r: String)
    ensures
        r@ == escaped(label@, true),
{
    escape_chars(label, true)
}

/// A value for a single-quoted YAML scalar: `'` doubled.
pub fn escape_compose_scalar(value: &str) -> (r: String)
    ensures
        r@ == escaped(value@, false),
{
    escape_chars(value, false)
}

} // verus!
