//! References to published features and templates: their base identifiers,
//! slugs, versions and display names, and the labels that identify a container.
use vstd::prelude::*;
use crate::args::{option_values, parse_option_values};
use crate::text::{
    append_chars, chars_of, copy_string, file_name, find_char, find_char_from, join,
    join_strings, path_file_name, path_join, path_parent, parent, rfind_char, rfind_char_exec,
    slice_chars, split, split_chars, str_eq, string_of, views,
};

verus! {

/// The reference without its tag or digest: up to the first `@`, else up to
/// the last `:` that comes after the last `/`.
pub open spec fn normalized_reference(r: Seq<char>) -> Seq<char> {
    match find_char_from(r, '@', 0) {
        Some(i) => r.take(i),
        None => {
            let slash = match rfind_char(r, '/') {
                Some(k) => k,
                None => 0,
            };
            match rfind_char(r, ':') {
                Some(i) => if i > slash {
                    r.take(i)
                } else {
                    r
                },
                None => r,
            }
        },
    }
}

/// The reference without its tag or digest.
pub fn normalize_collection_reference(reference: &str) -> (r: String)
    ensures
        r@ == normalized_reference(reference@),
{
    let v = chars_of(reference);
    match find_char(&v, '@', 0) {
        Some(i) => {
            proof {
                crate::text::lemma_find_char_from_bounds(v@, '@', 0);
            }
            let head = slice_chars(&v, 0, i);
            return string_of(&head);
        },
        None => {},
    }
    let slash: usize = match rfind_char_exec(&v, '/') {
        Some(k) => k,
        None => 0,
    };
    proof {
        crate::text::lemma_rfind_char_bounds(v@, ':');
    }
    match rfind_char_exec(&v, ':') {
        Some(i) => if i > slash {
            let head = slice_chars(&v, 0, i);
            string_of(&head)
        } else {
            String::from_str(reference)
        },
        None => String::from_str(reference),
    }
}

/// The normalized reference is a prefix of the reference.
pub proof fn lemma_normalized_prefix(r: Seq<char>)
    ensures
        normalized_reference(r).len() <= r.len(),
        r.take(normalized_reference(r).len() as int) == normalized_reference(r),
{
    crate::text::lemma_find_char_from_bounds(r, '@', 0);
    crate::text::lemma_rfind_char_bounds(r, ':');
    assert(r.take(r.len() as int) =~= r);
}

/// ASCII upper-case letters in lower case, other characters unchanged.
pub open spec fn lower_ascii(c: char) -> char {
    if 'A' <= c && c <= 'Z' {
        ((c as u32) + 32) as char
    } else {
        c
    }
}

/// ASCII lower-case letters in upper case, other characters unchanged.
pub open spec fn upper_ascii(c: char) -> char {
    if 'a' <= c && c <= 'z' {
        ((c as u32) - 32) as char
    } else {
        c
    }
}

pub(crate) fn lower_ascii_exec(c: char) -> (r: char)
    ensures
        r == lower_ascii(c),
{
    if 'A' <= c && c <= 'Z' {
        ((c as u32) + 32) as u8 as char
    } else {
        c
    }
}

fn upper_ascii_exec(c: char) -> (r: char)
    ensures
        r == upper_ascii(c),
{
    if 'a' <= c && c <= 'z' {
        ((c as u32) - 32) as u8 as char
    } else {
        c
    }
}

/// The last `/`-separated segment of the normalized reference, in ASCII lower case.
pub open spec fn slug_of(r: Seq<char>) -> Seq<char> {
    split(normalized_reference(r), '/').last().map_values(|c: char| lower_ascii(c))
}

/// The slug of a reference; there always is one.
pub fn collection_slug(reference: &str) -> (r: Option<String>)
    ensures
        r matches Some(s) && s@ == slug_of(reference@),
{
    let n = normalize_collection_reference(reference);
    let v = chars_of(n.as_str());
    let parts = split_chars(&v, '/');
    proof {
        crate::text::lemma_split_nonempty(v@, '/');
    }
    let last = &parts[parts.len() - 1];
    let mut out: Vec<char> = Vec::new();
    let mut i: usize = 0;
    while i < last.len()
        invariant
            i <= last.len(),
            out@ == last@.take(i as int).map_values(|c: char| lower_ascii(c)),
        decreases last.len() - i,
    {
        out.push(lower_ascii_exec(last[i]));
        proof {
            assert(last@.take(i + 1).map_values(|c: char| lower_ascii(c)) =~= last@.take(
                i as int,
            ).map_values(|c: char| lower_ascii(c)).push(lower_ascii(last@[i as int])));
        }
        i = i + 1;
    }
    proof {
        assert(last@.take(last.len() as int) =~= last@);
        assert(parts@.map_values(|p: Vec<char>| p@).last() == last@);
    }
    Some(string_of(&out))
}

/// The version part of a reference: the digest after `@`, the tag after `:`, else `latest`.
pub open spec fn reference_version(r: Seq<char>) -> Seq<char> {
    let suffix = r.skip(normalized_reference(r).len() as int);
    if suffix.len() > 0 && suffix[0] == '@' {
        suffix.drop_first()
    } else if suffix.len() > 0 && suffix[0] == ':' {
        suffix.drop_first()
    } else {
        "latest"@
    }
}

/// The tag or digest of a reference, `latest` when it has neither.
pub fn collection_reference_version(reference: &str) -> (r: String)
    ensures
        r@ == reference_version(reference@),
{
    let n = normalize_collection_reference(reference);
    let v = chars_of(reference);
    let nv = chars_of(n.as_str());
    proof {
        lemma_normalized_prefix(reference@);
    }
    let suffix = slice_chars(&v, nv.len(), v.len());
    proof {
        assert(suffix@ =~= reference@.skip(n@.len() as int));
    }
    if suffix.len() > 0 && (suffix[0] == '@' || suffix[0] == ':') {
        let rest = slice_chars(&suffix, 1, suffix.len());
        proof {
            assert(rest@ =~= suffix@.drop_first());
        }
        return string_of(&rest);
    }
    String::from_str("latest")
}

/// A segment with its first character in ASCII upper case.
pub open spec fn capitalized(s: Seq<char>) -> Seq<char> {
    if s.len() == 0 {
        s
    } else {
        seq![upper_ascii(s[0])] + s.drop_first()
    }
}

/// The non-empty `-`-separated segments of a slug.
pub open spec fn slug_segments(parts: Seq<Seq<char>>) -> Seq<Seq<char>>
    decreases parts.len(),
{
    if parts.len() == 0 {
        Seq::empty()
    } else {
        let rest = slug_segments(parts.drop_last());
        if parts.last().len() > 0 {
            rest.push(capitalized(parts.last()))
        } else {
            rest
        }
    }
}

/// A display name for a slug: its non-empty `-`-separated segments, each
/// capitalized, joined with spaces.
pub open spec fn humanized(slug: Seq<char>) -> Seq<char> {
    join(slug_segments(split(slug, '-')), " "@)
}

/// The display name of a slug.
pub fn humanize_collection_slug(slug: &str) -> (r: String)
    ensures
        r@ == humanized(slug@),
{
    let v = chars_of(slug);
    let parts = split_chars(&v, '-');
    let ghost pv = parts@.map_values(|p: Vec<char>| p@);
    let mut words: Vec<String> = Vec::new();
    let mut i: usize = 0;
    while i < parts.len()
        invariant
            i <= parts.len(),
            pv == parts@.map_values(|p: Vec<char>| p@),
            views(words@) == slug_segments(pv.take(i as int)),
        decreases parts.len() - i,
    {
        proof {
            assert(pv.take(i + 1).drop_last() =~= pv.take(i as int));
            assert(pv.take(i + 1).last() == parts@[i as int]@);
        }
        let part = &parts[i];
        if part.len() > 0 {
            let mut w: Vec<char> = Vec::new();
            w.push(upper_ascii_exec(part[0]));
            let rest = slice_chars(part, 1, part.len());
            append_chars(&mut w, &rest);
            proof {
                assert(w@ =~= capitalized(part@));
            }
            let word = string_of(&w);
            let ghost old_words = words@;
            words.push(word);
            proof {
                assert(views(words@) =~= views(old_words).push(word@));
            }
        }
        i = i + 1;
    }
    proof {
        assert(pv.take(parts.len() as int) =~= pv);
    }
    join_strings(&words, " ")
}

/// The install script of a published feature that has no script of its own.
pub open spec fn install_script_for(feature_id: Seq<char>) -> Seq<char> {
    if normalized_reference(feature_id) == "ghcr.io/devcontainers/features/common-utils"@ {
        "#!/bin/sh\nset -eu\n\nusername=\"${USERNAME:-}\"\nif [ -n \"$username\" ] && [ \"$username\" != \"none\" ] && ! id -u \"$username\" >/dev/null 2>&1; then\n    if command -v useradd >/dev/null 2>&1; then\n        useradd -m \"$username\" >/dev/null 2>&1 || true\n    elif command -v adduser >/dev/null 2>&1; then\n        adduser -D \"$username\" >/dev/null 2>&1 || adduser --disabled-password --gecos \"\" \"$username\" >/dev/null 2>&1 || true\n    fi\nfi\n"@
    } else {
        "#!/bin/sh\nset -eu\n"@
    }
}

/// The install script used for a published feature.
pub fn published_feature_install_script(feature_id: &str) -> (r: &'static str)
    ensures
        r@ == install_script_for(feature_id@),
{
    let n = normalize_collection_reference(feature_id);
    if str_eq(n.as_str(), "ghcr.io/devcontainers/features/common-utils") {
        "#!/bin/sh\nset -eu\n\nusername=\"${USERNAME:-}\"\nif [ -n \"$username\" ] && [ \"$username\" != \"none\" ] && ! id -u \"$username\" >/dev/null 2>&1; then\n    if command -v useradd >/dev/null 2>&1; then\n        useradd -m \"$username\" >/dev/null 2>&1 || true\n    elif command -v adduser >/dev/null 2>&1; then\n        adduser -D \"$username\" >/dev/null 2>&1 || adduser --disabled-password --gecos \"\" \"$username\" >/dev/null 2>&1 || true\n    fi\nfi\n"
    } else {
        "#!/bin/sh\nset -eu\n"
    }
}


/// `s` split at its first `c`.
pub open spec fn split_once(s: Seq<char>, c: char) -> Option<(Seq<char>, Seq<char>)> {
    match find_char_from(s, c, 0) {
        Some(i) => Some((s.take(i), s.skip(i + 1))),
        None => None,
    }
}

/// The `name=value` entries among `values`, split at the first `=`.
pub open spec fn label_pairs(values: Seq<Seq<char>>) -> Seq<(Seq<char>, Seq<char>)>
    decreases values.len(),
{
    if values.len() == 0 {
        Seq::empty()
    } else {
        let rest = label_pairs(values.drop_last());
        match split_once(values.last(), '=') {
            Some(p) => rest.push(p),
            None => rest,
        }
    }
}

/// The index of the entry named `k`.
pub open spec fn key_index(m: Seq<(Seq<char>, Seq<char>)>, k: Seq<char>) -> Option<int>
    decreases m.len(),
{
    if m.len() == 0 {
        None
    } else if m.last().0 == k {
        Some(m.len() - 1)
    } else {
        key_index(m.drop_last(), k)
    }
}

/// The map with `k` set to `v`: an existing entry is replaced in place, a new one is added last.
pub open spec fn map_insert(m: Seq<(Seq<char>, Seq<char>)>, k: Seq<char>, v: Seq<char>) -> Seq<
    (Seq<char>, Seq<char>),
> {
    match key_index(m, k) {
        Some(i) => m.update(i, (k, v)),
        None => m.push((k, v)),
    }
}

/// The map built from the entries in order, later entries overriding earlier ones.
pub open spec fn label_map(pairs: Seq<(Seq<char>, Seq<char>)>) -> Seq<(Seq<char>, Seq<char>)>
    decreases pairs.len(),
{
    if pairs.len() == 0 {
        Seq::empty()
    } else {
        map_insert(label_map(pairs.drop_last()), pairs.last().0, pairs.last().1)
    }
}

/// No two entries have the same name.
pub open spec fn distinct_keys(m: Seq<(Seq<char>, Seq<char>)>) -> bool {
    forall|i: int, j: int| 0 <= i < j < m.len() ==> m[i].0 != m[j].0
}

/// The identifying labels: those given with `--id-label name=value`, later
/// ones overriding earlier ones, or, when none is given, the local folder and
/// the configuration file.
pub open spec fn id_labels(args: Seq<Seq<char>>, workspace_folder: Seq<char>, config_file: Seq<char>) -> Seq<
    (Seq<char>, Seq<char>),
> {
    let m = label_map(label_pairs(option_values(args, "--id-label"@)));
    if m.len() == 0 {
        seq![("devcontainer.local_folder"@, workspace_folder), ("devcontainer.config_file"@, config_file)]
    } else {
        m
    }
}

proof fn lemma_key_index_bounds(m: Seq<(Seq<char>, Seq<char>)>, k: Seq<char>)
    ensures
        key_index(m, k) matches Some(i) ==> 0 <= i < m.len() && m[i].0 == k,
        key_index(m, k) is None ==> forall|i: int| 0 <= i < m.len() ==> m[i].0 != k,
    decreases m.len(),
{
    if m.len() > 0 && m.last().0 != k {
        lemma_key_index_bounds(m.drop_last(), k);
        assert forall|i: int| 0 <= i < m.len() - 1 implies m[i] == m.drop_last()[i] by {}
    }
}

/// The label map never holds two entries with the same name.
pub proof fn lemma_label_map_distinct(pairs: Seq<(Seq<char>, Seq<char>)>)
    ensures
        distinct_keys(label_map(pairs)),
    decreases pairs.len(),
{
    if pairs.len() > 0 {
        let m = label_map(pairs.drop_last());
        lemma_label_map_distinct(pairs.drop_last());
        lemma_key_index_bounds(m, pairs.last().0);
    }
}

fn labels_to_strings(m: &Vec<(Vec<char>, Vec<char>)>) -> (r: Vec<(String, String)>)
    ensures
        crate::devcontainer_id::labels_view(r@) == m@.map_values(|e: (Vec<char>, Vec<char>)| (e.0@, e.1@)),
{
    let ghost mv = m@.map_values(|e: (Vec<char>, Vec<char>)| (e.0@, e.1@));
    let mut r: Vec<(String, String)> = Vec::new();
    let mut i: usize = 0;
    while i < m.len()
        invariant
            i <= m.len(),
            mv == m@.map_values(|e: (Vec<char>, Vec<char>)| (e.0@, e.1@)),
            crate::devcontainer_id::labels_view(r@) == mv.take(i as int),
        decreases m.len() - i,
    {
        let k = string_of(&m[i].0);
        let v = string_of(&m[i].1);
        let ghost old_r = r@;
        r.push((k, v));
        proof {
            assert(crate::devcontainer_id::labels_view(r@) =~= crate::devcontainer_id::labels_view(
                old_r,
            ).push((k@, v@)));
            assert(mv.take(i + 1) =~= mv.take(i as int).push(mv[i as int]));
        }
        i = i + 1;
    }
    proof {
        assert(mv.take(m.len() as int) =~= mv);
    }
    r
}

fn find_key(m: &Vec<(Vec<char>, Vec<char>)>, key: &Vec<char>) -> (r: Option<usize>)
    ensures
        match r {
            Some(i) => key_index(m@.map_values(|e: (Vec<char>, Vec<char>)| (e.0@, e.1@)), key@) == Some(i as int),
            None => key_index(m@.map_values(|e: (Vec<char>, Vec<char>)| (e.0@, e.1@)), key@) is None,
        },
{
    let ghost mv = m@.map_values(|e: (Vec<char>, Vec<char>)| (e.0@, e.1@));
    let mut j: usize = m.len();
    proof {
        assert(mv.take(j as int) =~= mv);
    }
    while j > 0
        invariant
            j <= m.len(),
            mv == m@.map_values(|e: (Vec<char>, Vec<char>)| (e.0@, e.1@)),
            key_index(mv, key@) == key_index(mv.take(j as int), key@),
        decreases j,
    {
        proof {
            assert(mv.take(j as int).drop_last() =~= mv.take(j - 1));
            assert(mv.take(j as int).last() == mv[j - 1]);
        }
        if crate::text::chars_eq(&m[j - 1].0, key) {
            return Some(j - 1);
        }
        j = j - 1;
    }
    None
}

/// The identifying labels of a container, as a map without repeated names.
pub fn id_label_map(args: &[String], workspace_folder: &str, config_file: &str) -> (r: Vec<(String, String)>)
    ensures
        crate::devcontainer_id::labels_view(r@) == id_labels(views(args@), workspace_folder@, config_file@),
{
    let values = parse_option_values(args, "--id-label");
    let ghost vals = views(values@);
    let mut m: Vec<(Vec<char>, Vec<char>)> = Vec::new();
    let ghost mut pairs: Seq<(Seq<char>, Seq<char>)> = Seq::empty();
    let mut i: usize = 0;
    while i < values.len()
        invariant
            i <= values.len(),
            vals == views(values@),
            pairs == label_pairs(vals.take(i as int)),
            m@.map_values(|e: (Vec<char>, Vec<char>)| (e.0@, e.1@)) == label_map(pairs),
        decreases values.len() - i,
    {
        proof {
            assert(vals.take(i + 1).drop_last() =~= vals.take(i as int));
            assert(vals.take(i + 1).last() == values@[i as int]@);
        }
        let entry = chars_of(values[i].as_str());
        match find_char(&entry, '=', 0) {
            Some(eq) => {
                proof {
                    crate::text::lemma_find_char_from_bounds(entry@, '=', 0);
                }
                let key = slice_chars(&entry, 0, eq);
                let value = slice_chars(&entry, eq + 1, entry.len());
                proof {
                    assert(key@ =~= entry@.take(eq as int));
                    assert(value@ =~= entry@.skip(eq + 1));
                }
                let ghost mv = m@.map_values(|e: (Vec<char>, Vec<char>)| (e.0@, e.1@));
                let found = find_key(&m, &key);
                match found {
                    Some(idx) => {
                        proof {
                            assert(key_index(mv, key@) == Some(idx as int));
                            lemma_key_index_bounds(mv, key@);
                        }
                        let ghost kv = (key@, value@);
                        m.set(idx, (key, value));
                        proof {
                            assert(m@.map_values(|e: (Vec<char>, Vec<char>)| (e.0@, e.1@)) =~= mv.update(
                                idx as int,
                                kv,
                            ));
                        }
                    },
                    None => {
                        proof {
                            assert(key_index(mv, key@) is None);
                        }
                        let ghost kv = (key@, value@);
                        m.push((key, value));
                        proof {
                            assert(m@.map_values(|e: (Vec<char>, Vec<char>)| (e.0@, e.1@)) =~= mv.push(kv));
                        }
                    },
                }
                proof {
                    let p = (entry@.take(eq as int), entry@.skip(eq + 1));
                    assert(pairs.push(p).drop_last() =~= pairs);
                    pairs = pairs.push(p);
                }
            },
            None => {},
        }
        i = i + 1;
    }
    proof {
        assert(vals.take(values.len() as int) =~= vals);
    }
    if m.len() == 0 {
        let mut r: Vec<(String, String)> = Vec::new();
        r.push((String::from_str("devcontainer.local_folder"), String::from_str(workspace_folder)));
        r.push((String::from_str("devcontainer.config_file"), String::from_str(config_file)));
        proof {
            assert(crate::devcontainer_id::labels_view(r@) =~= id_labels(views(args@), workspace_folder@, config_file@));
        }
        return r;
    }
    labels_to_strings(&m)
}

} // verus!
