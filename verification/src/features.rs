//! Feature references: identifiers with tags or digests, lockfile locations,
//! local feature paths, option names, and the checks on upgrade options.
use vstd::prelude::*;
use crate::args::{option_value, parse_option_value};
use crate::text::{
    chars_of, file_name, find, find_chars, join_path, opt_view, parent, path_file_name,
    path_join, path_parent, rfind_char, rfind_char_exec, slice_chars, starts_with,
    str_starts_with, string_of, views,
};

verus! {

/// A published feature reference split into its parts.
#[derive(Debug)]
pub struct FeatureReference {
    pub original: String,
    pub base: String,
    pub tag: Option<String>,
    pub digest: Option<String>,
}

/// The identifier without its version: up to `@sha256:` where that occurs,
/// else up to the last `:` or `@` that comes after the last `/`.
pub open spec fn feature_base(s: Seq<char>) -> Seq<char> {
    match find(s, "@sha256:"@) {
        Some(i) => s.take(i),
        None => {
            let slash = match rfind_char(s, '/') {
                Some(k) => k,
                None => 0,
            };
            let delim = match (rfind_char(s, ':'), rfind_char(s, '@')) {
                (Some(a), Some(b)) => Some(if a >= b { a } else { b }),
                (Some(a), None) => Some(a),
                (None, Some(b)) => Some(b),
                (None, None) => None,
            };
            match delim {
                Some(d) => if d > slash {
                    s.take(d)
                } else {
                    s
                },
                None => s,
            }
        },
    }
}

/// The feature identifier without its tag or digest.
pub fn feature_id_without_version(feature_id: &str) -> (r: String)
    ensures
        r@ == feature_base(feature_id@),
{
    let v = chars_of(feature_id);
    let marker = chars_of("@sha256:");
    match find_chars(&v, &marker, 0) {
        Some(i) => {
            proof {
                crate::text::lemma_find_from_bounds(v@, marker@, 0);
            }
            let head = slice_chars(&v, 0, i);
            return string_of(&head);
        },
        None => {},
    }
    let slash: usize = match rfind_char_exec(&v, '/') {
        Some(k) => k,
        None => 0,
    };
    let delim: Option<usize> = match (rfind_char_exec(&v, ':'), rfind_char_exec(&v, '@')) {
        (Some(a), Some(b)) => Some(if a >= b { a } else { b }),
        (Some(a), None) => Some(a),
        (None, Some(b)) => Some(b),
        (None, None) => None,
    };
    proof {
        crate::text::lemma_rfind_char_bounds(v@, ':');
        crate::text::lemma_rfind_char_bounds(v@, '@');
    }
    match delim {
        Some(d) => if d > slash {
            let head = slice_chars(&v, 0, d);
            string_of(&head)
        } else {
            String::from_str(feature_id)
        },
        None => String::from_str(feature_id),
    }
}

/// `feature_base` is a prefix of the identifier.
pub proof fn lemma_feature_base_prefix(s: Seq<char>)
    ensures
        feature_base(s).len() <= s.len(),
        s.take(feature_base(s).len() as int) == feature_base(s),
{
    crate::text::lemma_find_from_bounds(s, "@sha256:"@, 0);
    crate::text::lemma_rfind_char_bounds(s, ':');
    crate::text::lemma_rfind_char_bounds(s, '@');
    assert(s.take(s.len() as int) =~= s);
}

/// Whether the reference names a published feature (an OCI registry or a URL).
pub open spec fn is_published(s: Seq<char>) -> bool {
    starts_with(s, "ghcr.io/"@) || starts_with(s, "https://"@) || starts_with(s, "http://"@)
}

/// The parts of a published reference: the base, then a tag after `:` or a
/// digest after `@`; none for other references or any other suffix.
pub open spec fn reference_parts(s: Seq<char>) -> Option<(Seq<char>, Option<Seq<char>>, Option<Seq<char>>)> {
    if !is_published(s) {
        None
    } else {
        let base = feature_base(s);
        let suffix = s.skip(base.len() as int);
        if suffix.len() == 0 {
            Some((base, None, None))
        } else if suffix[0] == '@' {
            Some((base, None, Some(suffix.drop_first())))
        } else if suffix[0] == ':' {
            Some((base, Some(suffix.drop_first()), None))
        } else {
            None
        }
    }
}

/// Splits a published feature reference into its base and tag or digest.
pub fn parse_feature_reference(feature_id: &str) -> (r: Option<FeatureReference>)
    ensures
        match r {
            Some(f) => reference_parts(feature_id@) == Some(
                (f.base@, opt_view(f.tag), opt_view(f.digest)),
            ) && f.original@ == feature_id@,
            None => reference_parts(feature_id@) is None,
        },
{
    if !str_starts_with(feature_id, "ghcr.io/") && !str_starts_with(feature_id, "https://")
        && !str_starts_with(feature_id, "http://") {
        return None;
    }
    let base = feature_id_without_version(feature_id);
    let v = chars_of(feature_id);
    let bv = chars_of(base.as_str());
    proof {
        lemma_feature_base_prefix(feature_id@);
    }
    let suffix = slice_chars(&v, bv.len(), v.len());
    proof {
        assert(suffix@ =~= feature_id@.skip(base@.len() as int));
    }
    if suffix.len() == 0 {
        return Some(
            FeatureReference {
                original: String::from_str(feature_id),
                base,
                tag: None,
                digest: None,
            },
        );
    }
    if suffix[0] == '@' {
        let rest = slice_chars(&suffix, 1, suffix.len());
        proof {
            assert(rest@ =~= suffix@.drop_first());
        }
        return Some(
            FeatureReference {
                original: String::from_str(feature_id),
                base,
                tag: None,
                digest: Some(string_of(&rest)),
            },
        );
    }
    if suffix[0] == ':' {
        let rest = slice_chars(&suffix, 1, suffix.len());
        proof {
            assert(rest@ =~= suffix@.drop_first());
        }
        return Some(
            FeatureReference {
                original: String::from_str(feature_id),
                base,
                tag: Some(string_of(&rest)),
                digest: None,
            },
        );
    }
    None
}

/// The lockfile beside a configuration file: `.devcontainer-lock.json` for a
/// configuration file whose name starts with `.`, `devcontainer-lock.json` otherwise.
pub open spec fn lockfile_for(config_file: Seq<char>) -> Seq<char> {
    let name = match file_name(config_file) {
        Some(n) => n,
        None => "devcontainer.json"@,
    };
    let lock = if name.len() > 0 && name[0] == '.' {
        ".devcontainer-lock.json"@
    } else {
        "devcontainer-lock.json"@
    };
    let dir = match parent(config_file) {
        Some(p) => p,
        None => config_file,
    };
    path_join(dir, lock)
}

/// Where the lockfile of a configuration file lives.
pub fn lockfile_path(config_file: &str) -> (r: String)
    ensures
        r@ == lockfile_for(config_file@),
{
    let name = match path_file_name(config_file) {
        Some(n) => n,
        None => String::from_str("devcontainer.json"),
    };
    let nv = chars_of(name.as_str());
    let lock = if nv.len() > 0 && nv[0] == '.' {
        ".devcontainer-lock.json"
    } else {
        "devcontainer-lock.json"
    };
    match path_parent(config_file) {
        Some(p) => join_path(p.as_str(), lock),
        None => join_path(config_file, lock),
    }
}

/// The outcome of checking the upgrade options.
pub open spec fn upgrade_options_check(args: Seq<Seq<char>>) -> Result<(), Seq<char>> {
    let feature = option_value(args, "--feature"@);
    let target = option_value(args, "--target-version"@);
    if feature.is_some() != target.is_some() {
        Err("The '--target-version' and '--feature' flag must be used together."@)
    } else {
        match target {
            Some(v) => if v.len() == 0 || !(forall|i: int|
                0 <= i < v.len() ==> (crate::versions::is_digit(#[trigger] v[i]) || v[i] == '.')) {
                Err("Invalid version '"@ + v + "'. Must be in the form of 'x', 'x.y', or 'x.y.z'"@)
            } else {
                Ok(())
            },
            None => Ok(()),
        }
    }
}

/// Checks that `--feature` and `--target-version` come together and that the
/// version holds only digits and dots.
pub fn validate_upgrade_options(args: &[String]) -> (r: Result<(), String>)
    ensures
        match r {
            Ok(()) => upgrade_options_check(views(args@)) == Ok::<(), Seq<char>>(()),
            Err(e) => upgrade_options_check(views(args@)) == Err::<(), Seq<char>>(e@),
        },
{
    let feature = parse_option_value(args, "--feature");
    let target_version = parse_option_value(args, "--target-version");
    if feature.is_some() != target_version.is_some() {
        return Err(
            String::from_str("The '--target-version' and '--feature' flag must be used together."),
        );
    }
    match target_version {
        Some(version) => {
            let v = chars_of(version.as_str());
            let mut ok = v.len() > 0;
            let mut i: usize = 0;
            while i < v.len()
                invariant
                    i <= v.len(),
                    ok == (v.len() > 0 && forall|k: int|
                        0 <= k < i ==> (crate::versions::is_digit(#[trigger] v@[k]) || v@[k] == '.')),
                decreases v.len() - i,
            {
                let c = v[i];
                if !(('0' <= c && c <= '9') || c == '.') {
                    ok = false;
                }
                i = i + 1;
            }
            if !ok {
                let mut msg = String::from_str("Invalid version '");
                msg.append(version.as_str());
                msg.append("'. Must be in the form of 'x', 'x.y', or 'x.y.z'");
                return Err(msg);
            }
            Ok(())
        },
        None => Ok(()),
    }
}

/// A reference to a feature on disk: relative, absolute, or a `file://` URL.
pub open spec fn is_local_reference(s: Seq<char>) -> bool {
    starts_with(s, "."@) || starts_with(s, "/"@) || starts_with(s, "file://"@)
}

/// Whether the feature is referenced by a local path.
pub fn is_local_feature_reference(feature_id: &str) -> (r: bool)
    ensures
        r == is_local_reference(feature_id@),
{
    str_starts_with(feature_id, ".") || str_starts_with(feature_id, "/") || str_starts_with(
        feature_id,
        "file://",
    )
}

/// The directory of a local feature: the path of a `file://` URL as written,
/// else the reference taken from the configuration's directory.
pub open spec fn local_feature_path(config_root: Seq<char>, feature_id: Seq<char>) -> Seq<char> {
    if starts_with(feature_id, "file://"@) {
        feature_id.skip(7)
    } else {
        path_join(config_root, feature_id)
    }
}

/// Resolves the directory of a local feature.
pub fn resolve_local_feature_path(config_root: &str, feature_id: &str) -> (r: String)
    ensures
        r@ == local_feature_path(config_root@, feature_id@),
{
    if str_starts_with(feature_id, "file://") {
        let v = chars_of(feature_id);
        proof {
            reveal_strlit("file://");
        }
        let rest = slice_chars(&v, 7, v.len());
        return string_of(&rest);
    }
    join_path(config_root, feature_id)
}

pub open spec fn is_ascii_alnum(c: char) -> bool {
    ('0' <= c && c <= '9') || ('a' <= c && c <= 'z') || ('A' <= c && c <= 'Z')
}

/// The environment variable name of an option: ASCII letters and digits in
/// upper case, every other character `_`.
pub open spec fn option_env_char(c: char) -> char {
    if 'a' <= c && c <= 'z' {
        ((c as u32) - 32) as char
    } else if is_ascii_alnum(c) {
        c
    } else {
        '_'
    }
}

/// The environment variable name for a feature option.
pub fn feature_option_env_name(key: &str) -> (r: String)
    ensures
        r@ == key@.map_values(|c: char| option_env_char(c)),
{
    let v = chars_of(key);
    let mut out: Vec<char> = Vec::new();
    let mut i: usize = 0;
    while i < v.len()
        invariant
            i <= v.len(),
            out@ == v@.take(i as int).map_values(|c: char| option_env_char(c)),
        decreases v.len() - i,
    {
        let c = v[i];
        let m = if 'a' <= c && c <= 'z' {
            ((c as u32) - 32) as u8 as char
        } else if ('0' <= c && c <= '9') || ('A' <= c && c <= 'Z') {
            c
        } else {
            '_'
        };
        proof {
            if 'a' <= c && c <= 'z' {
                assert(((c as u32) - 32) as u8 as char == ((c as u32) - 32) as char);
            }
        }
        out.push(m);
        proof {
            assert(v@.take(i + 1).map_values(|c: char| option_env_char(c)) =~= v@.take(
                i as int,
            ).map_values(|c: char| option_env_char(c)).push(option_env_char(c)));
        }
        i = i + 1;
    }
    proof {
        assert(v@.take(v.len() as int) =~= v@);
    }
    string_of(&out)
}

} // verus!
