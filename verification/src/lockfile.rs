//! The lockfile of a configuration's published features, and the text of a
//! configuration moved to another version of one feature.
use vstd::prelude::*;
use crate::catalog::{generate_lockfile_entry, keyed_view, lock_view, lockfile_entry_for, CatalogEntry, EntryView, LockfileEntry};
use crate::features::{feature_base, feature_id_without_version, parse_feature_reference, reference_parts};
use crate::json_value::{jentries, json_get, lemma_get_view, lemma_jentries, vget, JsonValue, JsonView};
use crate::text::{append_chars, chars_of, find_chars, find_from, occurs_at, slice_chars, str_eq, string_of};

verus! {

/// The lockfile entries of the features, by identifier in the order of the
/// configuration's entries; features that are not published references are left out; an
/// error at the first published feature with no entry.
pub open spec fn lockfile_of(ids: Seq<Seq<char>>, fixtures: Seq<(Seq<char>, EntryView)>) -> Result<Seq<(Seq<char>, EntryView)>, Seq<char>>
    decreases ids.len(),
{
    if ids.len() == 0 {
        Ok(Seq::empty())
    } else {
        match lockfile_of(ids.drop_last(), fixtures) {
            Err(e) => Err(e),
            Ok(m) => {
                let id = ids.last();
                match reference_parts(id) {
                    None => Ok(m),
                    Some((base, tag, digest)) => match lockfile_entry_for(id, base, tag, digest, fixtures) {
                        None => Err("Unsupported feature for native lockfile generation: "@ + id),
                        Some(e) => Ok(m.push((id, e))),
                    },
                }
            },
        }
    }
}

/// The identifiers of the features a configuration declares.
pub open spec fn declared_ids(configuration: JsonView) -> Seq<Seq<char>> {
    match vget(configuration, "features"@) {
        Some(JsonView::Object(e)) => e.map_values(|p: (Seq<char>, JsonView)| p.0),
        _ => Seq::empty(),
    }
}

pub open spec fn lock_entries(s: Seq<(String, LockfileEntry)>) -> Seq<(Seq<char>, EntryView)> {
    s.map_values(|p: (String, LockfileEntry)| (p.0@, lock_view(p.1)))
}

/// The lockfile entries of a configuration's features, in the order of its
/// `features` entries.
pub fn generate_lockfile(configuration: &JsonValue, fixtures: &Vec<(String, CatalogEntry)>) -> (r: Result<Vec<(String, LockfileEntry)>, String>)
    ensures
        match lockfile_of(declared_ids(configuration@), keyed_view(fixtures@)) {
            Ok(m) => r matches Ok(v) && lock_entries(v@) == m,
            Err(e) => r matches Err(x) && x@ == e,
        },
{
    proof {
        lemma_get_view(*configuration, "features"@);
    }
    let mut out: Vec<(String, LockfileEntry)> = Vec::new();
    proof {
        assert(lock_entries(out@) =~= Seq::<(Seq<char>, EntryView)>::empty());
    }
    match json_get(configuration, "features") {
        Some(JsonValue::Object(features)) => {
            let ghost ids = jentries(features@).map_values(|p: (Seq<char>, JsonView)| p.0);
            proof {
                lemma_jentries(features@);
                assert(ids.take(0) =~= Seq::<Seq<char>>::empty());
                assert(declared_ids(configuration@) =~= ids);
            }
            let mut i: usize = 0;
            while i < features.len()
                invariant
                    i <= features.len(),
                    ids == jentries(features@).map_values(|p: (Seq<char>, JsonView)| p.0),
                    ids.len() == features@.len(),
                    declared_ids(configuration@) == ids,
                    forall|q: int| 0 <= q < features@.len() ==> #[trigger] ids[q] == features@[q].0@,
                    lockfile_of(ids.take(i as int), keyed_view(fixtures@)) == Ok::<Seq<(Seq<char>, EntryView)>, Seq<char>>(lock_entries(out@)),
                decreases features.len() - i,
            {
                proof {
                    assert(ids.take(i + 1).drop_last() =~= ids.take(i as int));
                    assert(ids.take(i + 1).last() == ids[i as int]);
                }
                let id = features[i].0.as_str();
                match parse_feature_reference(id) {
                    None => {},
                    Some(reference) => match generate_lockfile_entry(&reference, fixtures) {
                        None => {
                            proof {
                                assert(ids[i as int] == id@);
                                assert(lockfile_of(ids.take(i + 1), keyed_view(fixtures@)) is Err);
                                lemma_lockfile_stops(ids, keyed_view(fixtures@), i as int);
                            }
                            let mut msg = chars_of("Unsupported feature for native lockfile generation: ");
                            append_chars(&mut msg, &chars_of(id));
                            return Err(string_of(&msg));
                        },
                        Some((k, e)) => {
                            let ghost before = out@;
                            out.push((k, e));
                            proof {
                                assert(lock_entries(out@) =~= lock_entries(before).push((out@.last().0@, lock_view(out@.last().1))));
                            }
                        },
                    },
                }
                i = i + 1;
            }
            proof {
                assert(ids.take(features.len() as int) =~= ids);
            }
        },
        _ => {},
    }
    Ok(out)
}

proof fn lemma_lockfile_stops(ids: Seq<Seq<char>>, fixtures: Seq<(Seq<char>, EntryView)>, i: int)
    requires
        0 <= i < ids.len(),
        lockfile_of(ids.take(i + 1), fixtures) is Err,
    ensures
        lockfile_of(ids, fixtures) == lockfile_of(ids.take(i + 1), fixtures),
    decreases ids.len() - i,
{
    if i + 1 < ids.len() {
        assert(ids.take(i + 2).drop_last() =~= ids.take(i + 1));
        lemma_lockfile_stops(ids, fixtures, i + 1);
    } else {
        assert(ids.take(i + 1) =~= ids);
    }
}

/// `to` before each character of `s` and after the last (`str::replace`
/// with an empty pattern).
pub open spec fn interleaved(s: Seq<char>, to: Seq<char>) -> Seq<char>
    decreases s.len(),
{
    if s.len() == 0 {
        to
    } else {
        to + seq![s[0]] + interleaved(s.drop_first(), to)
    }
}

/// `s` from `i` on with each occurrence of `pat` replaced by `to`, left to right.
pub open spec fn replaced_from(s: Seq<char>, pat: Seq<char>, to: Seq<char>, i: int) -> Seq<char>
    decreases s.len() + 1 - i,
{
    if pat.len() == 0 || i < 0 || i > s.len() {
        Seq::empty()
    } else {
        match find_from(s, pat, i) {
            Some(j) => if i <= j && j + pat.len() <= s.len() {
                s.subrange(i, j) + to + replaced_from(s, pat, to, j + pat.len())
            } else {
                Seq::empty()
            },
            None => s.subrange(i, s.len() as int),
        }
    }
}

/// `s` with every occurrence of `pat` replaced by `to` (`str::replace`).
pub open spec fn replace_all(s: Seq<char>, pat: Seq<char>, to: Seq<char>) -> Seq<char> {
    if pat.len() == 0 {
        interleaved(s, to)
    } else {
        replaced_from(s, pat, to, 0)
    }
}

proof fn lemma_find_from_at_least(s: Seq<char>, pat: Seq<char>, i: int)
    ensures
        find_from(s, pat, i) matches Some(j) ==> i <= j && j + pat.len() <= s.len() && s.subrange(j, j + pat.len()) == pat,
    decreases s.len() + 1 - i,
{
    if !(i < 0 || i + pat.len() > s.len()) && s.subrange(i, i + pat.len()) != pat {
        lemma_find_from_at_least(s, pat, i + 1);
    }
}

/// `s` with every occurrence of `pat` replaced by `to`.
pub fn replace_text(s: &str, pat: &str, to: &str) -> (r: String)
    ensures
        r@ == replace_all(s@, pat@, to@),
{
    let sv = chars_of(s);
    let pv = chars_of(pat);
    let tv = chars_of(to);
    let mut out: Vec<char> = Vec::new();
    if pv.len() == 0 {
        let mut i: usize = 0;
        append_chars(&mut out, &tv);
        proof {
            assert(out@ + interleaved(sv@.skip(0), tv@) =~= tv@ + interleaved(sv@, tv@)) by {
                assert(sv@.skip(0) =~= sv@);
            }
            assert(interleaved(sv@, tv@) == tv@ + interleaved_tail(sv@, tv@)) by {
                lemma_interleaved_split(sv@, tv@);
            }
        }
        while i < sv.len()
            invariant
                i <= sv.len(),
                tv@ == to@,
                sv@ == s@,
                out@ + interleaved_tail(sv@.skip(i as int), tv@) == interleaved(sv@, tv@),
            decreases sv.len() - i,
        {
            proof {
                let t = sv@.skip(i as int);
                assert(t[0] == sv@[i as int]);
                assert(t.drop_first() =~= sv@.skip(i + 1));
                assert(interleaved_tail(t, tv@) == seq![t[0]] + tv@ + interleaved_tail(t.drop_first(), tv@));
            }
            let ghost before = out@;
            out.push(sv[i]);
            append_chars(&mut out, &tv);
            proof {
                assert(out@ =~= before + seq![sv@[i as int]] + tv@);
                assert(out@ + interleaved_tail(sv@.skip(i + 1), tv@) =~= before + (seq![sv@[i as int]] + tv@
                    + interleaved_tail(sv@.skip(i + 1), tv@)));
            }
            i = i + 1;
        }
        proof {
            assert(sv@.skip(sv.len() as int) =~= Seq::<char>::empty());
            assert(out@ + Seq::<char>::empty() =~= out@);
        }
        return string_of(&out);
    }
    let mut i: usize = 0;
    proof {
        assert(out@ + replaced_from(sv@, pv@, tv@, 0) =~= replaced_from(sv@, pv@, tv@, 0));
    }
    loop
        invariant
            i <= sv.len(),
            pv@.len() > 0,
            sv@ == s@,
            pv@ == pat@,
            tv@ == to@,
            out@ + replaced_from(sv@, pv@, tv@, i as int) == replace_all(s@, pat@, to@),
        decreases sv.len() - i,
    {
        proof {
            lemma_find_from_at_least(sv@, pv@, i as int);
        }
        match find_chars(&sv, &pv, i) {
            Some(j) => {
                let piece = slice_chars(&sv, i, j);
                let ghost before = out@;
                append_chars(&mut out, &piece);
                append_chars(&mut out, &tv);
                proof {
                    assert(out@ + replaced_from(sv@, pv@, tv@, j + pv@.len()) =~= before + (sv@.subrange(i as int, j as int) + tv@
                        + replaced_from(sv@, pv@, tv@, j + pv@.len())));
                }
                i = j + pv.len();
            },
            None => {
                let rest = slice_chars(&sv, i, sv.len());
                append_chars(&mut out, &rest);
                return string_of(&out);
            },
        }
    }
}

/// The characters of `s`, each followed by `to`.
pub open spec fn interleaved_tail(s: Seq<char>, to: Seq<char>) -> Seq<char>
    decreases s.len(),
{
    if s.len() == 0 {
        Seq::empty()
    } else {
        seq![s[0]] + to + interleaved_tail(s.drop_first(), to)
    }
}

proof fn lemma_interleaved_split(s: Seq<char>, to: Seq<char>)
    ensures
        interleaved(s, to) == to + interleaved_tail(s, to),
    decreases s.len(),
{
    if s.len() == 0 {
        assert(to + Seq::<char>::empty() =~= to);
    } else {
        lemma_interleaved_split(s.drop_first(), to);
        assert(interleaved(s, to) =~= to + interleaved_tail(s, to));
    }
}

/// The configuration text with its declaration of the feature moved to
/// `version`: the first declared feature with the same base identifier is
/// replaced, everywhere in the text, by the base and the version; nothing
/// when no feature matches or the text does not change.
pub open spec fn version_update_of(raw: Seq<char>, ids: Seq<Seq<char>>, target_feature: Seq<char>, version: Seq<char>) -> Option<Seq<char>> {
    let base = feature_base(target_feature);
    match first_with_base(ids, base) {
        None => None,
        Some(key) => {
            let updated = replace_all(raw, key, base + ":"@ + version);
            if updated == raw {
                None
            } else {
                Some(updated)
            }
        },
    }
}

/// The first identifier whose base is `base`.
pub open spec fn first_with_base(ids: Seq<Seq<char>>, base: Seq<char>) -> Option<Seq<char>>
    decreases ids.len(),
{
    if ids.len() == 0 {
        None
    } else if feature_base(ids[0]) == base {
        Some(ids[0])
    } else {
        first_with_base(ids.drop_first(), base)
    }
}

fn first_key_with_base(features: &Vec<(String, JsonValue)>, base: &str) -> (r: Option<String>)
    ensures
        crate::text::opt_view(r) == first_with_base(jentries(features@).map_values(|p: (Seq<char>, JsonView)| p.0), base@),
{
    let ghost ids = jentries(features@).map_values(|p: (Seq<char>, JsonView)| p.0);
    proof {
        lemma_jentries(features@);
        assert(ids.skip(0) =~= ids);
    }
    let mut i: usize = 0;
    while i < features.len()
        invariant
            i <= features.len(),
            ids == jentries(features@).map_values(|p: (Seq<char>, JsonView)| p.0),
            ids.len() == features@.len(),
            forall|q: int| 0 <= q < features@.len() ==> #[trigger] ids[q] == features@[q].0@,
            first_with_base(ids, base@) == first_with_base(ids.skip(i as int), base@),
        decreases features.len() - i,
    {
        proof {
            let t = ids.skip(i as int);
            assert(t[0] == ids[i as int]);
            assert(t.drop_first() =~= ids.skip(i + 1));
        }
        let b = feature_id_without_version(features[i].0.as_str());
        if str_eq(b.as_str(), base) {
            return Some(crate::text::copy_string(&features[i].0));
        }
        i = i + 1;
    }
    proof {
        assert(ids.skip(features.len() as int) =~= Seq::<Seq<char>>::empty());
    }
    None
}

/// The configuration text with the feature moved to `version`, when it changes.
pub fn updated_feature_version_text(raw_text: &str, configuration: &JsonValue, target_feature: &str, target_version: &str) -> (r: Option<String>)
    ensures
        crate::text::opt_view(r) == version_update_of(raw_text@, declared_ids(configuration@), target_feature@, target_version@),
{
    proof {
        lemma_get_view(*configuration, "features"@);
    }
    let base = feature_id_without_version(target_feature);
    let key = match json_get(configuration, "features") {
        Some(JsonValue::Object(features)) => first_key_with_base(features, base.as_str()),
        _ => None,
    };
    match key {
        None => None,
        Some(k) => {
            let mut replacement = chars_of(base.as_str());
            append_chars(&mut replacement, &chars_of(":"));
            append_chars(&mut replacement, &chars_of(target_version));
            let updated = replace_text(raw_text, k.as_str(), string_of(&replacement).as_str());
            if str_eq(updated.as_str(), raw_text) {
                None
            } else {
                Some(updated)
            }
        },
    }
}

} // verus!
