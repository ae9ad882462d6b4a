//! The catalog of known feature versions and the lockfile entries derived from it.
use vstd::prelude::*;
use crate::devcontainer_id::{chars_lt, key_lt};
use crate::features::{feature_base, feature_id_without_version, FeatureReference};
use crate::text::{chars_of, copy_string, opt_view, str_eq, views};
use std::cmp::Ordering;
use crate::versions::{parse_selector, parse_version, selector_of, selects, version_lt, version_of};

verus! {

/// A published version of a feature.
#[derive(Debug)]
pub struct CatalogEntry {
    pub version: String,
    pub resolved: String,
    pub integrity: String,
    pub depends_on: Option<Vec<String>>,
}

/// A catalog entry as plain text.
pub struct EntryView {
    pub version: Seq<char>,
    pub resolved: Seq<char>,
    pub integrity: Seq<char>,
    pub depends_on: Option<Seq<Seq<char>>>,
}

pub open spec fn entry_view(e: CatalogEntry) -> EntryView {
    EntryView {
        version: e.version@,
        resolved: e.resolved@,
        integrity: e.integrity@,
        depends_on: match e.depends_on {
            Some(d) => Some(views(d@)),
            None => None,
        },
    }
}

pub open spec fn entries_view(s: Seq<CatalogEntry>) -> Seq<EntryView> {
    s.map_values(|e: CatalogEntry| entry_view(e))
}

pub open spec fn keyed_view(s: Seq<(String, CatalogEntry)>) -> Seq<(Seq<char>, EntryView)> {
    s.map_values(|e: (String, CatalogEntry)| (e.0@, entry_view(e.1)))
}

fn copy_strings(v: &Vec<String>) -> (r: Vec<String>)
    ensures
        views(r@) == views(v@),
{
    let mut r: Vec<String> = Vec::new();
    let mut i: usize = 0;
    while i < v.len()
        invariant
            i <= v.len(),
            views(r@) == views(v@).take(i as int),
        decreases v.len() - i,
    {
        let c = copy_string(&v[i]);
        let ghost old_r = r@;
        r.push(c);
        proof {
            assert(r@ == old_r.push(c));
            assert(views(r@) =~= views(old_r).push(c@));
            assert(views(r@) =~= views(v@).take(i + 1));
        }
        i = i + 1;
    }
    proof {
        assert(views(v@).take(v.len() as int) =~= views(v@));
    }
    r
}

/// A copy of a catalog entry.
pub fn copy_entry(e: &CatalogEntry) -> (r: CatalogEntry)
    ensures
        entry_view(r) == entry_view(*e),
{
    CatalogEntry {
        version: copy_string(&e.version),
        resolved: copy_string(&e.resolved),
        integrity: copy_string(&e.integrity),
        depends_on: match &e.depends_on {
            Some(d) => Some(copy_strings(d)),
            None => None,
        },
    }
}

/// The built-in catalog: base identifier, version, resolved reference, integrity.
pub open spec fn manual_catalog() -> Seq<(Seq<char>, Seq<char>, Seq<char>, Seq<char>)> {
    seq![
        ("ghcr.io/devcontainers/features/git"@, "1.2.0"@, "ghcr.io/devcontainers/features/git@sha256:1111111111111111111111111111111111111111111111111111111111111111"@, "sha256:1111111111111111111111111111111111111111111111111111111111111111"@),
        ("ghcr.io/devcontainers/features/git"@, "1.1.5"@, "ghcr.io/devcontainers/features/git@sha256:2ab83ca71d55d5c00a1255b07f3a83a53cd2de77ce8b9637abad38095d672a5b"@, "sha256:2ab83ca71d55d5c00a1255b07f3a83a53cd2de77ce8b9637abad38095d672a5b"@),
        ("ghcr.io/devcontainers/features/git"@, "1.0.5"@, "ghcr.io/devcontainers/features/git@sha256:2222222222222222222222222222222222222222222222222222222222222222"@, "sha256:2222222222222222222222222222222222222222222222222222222222222222"@),
        ("ghcr.io/devcontainers/features/git"@, "1.0.4"@, "ghcr.io/devcontainers/features/git@sha256:0bb490abcc0a3fb23937d29e2c18a225b51c5584edc0d9eb4131569a980f60b6"@, "sha256:0bb490abcc0a3fb23937d29e2c18a225b51c5584edc0d9eb4131569a980f60b6"@),
        ("ghcr.io/devcontainers/features/github-cli"@, "1.0.9"@, "ghcr.io/devcontainers/features/github-cli@sha256:9024deeca80347dea7603a3bb5b4951988f0bf5894ba036a6ee3f29c025692c6"@, "sha256:9024deeca80347dea7603a3bb5b4951988f0bf5894ba036a6ee3f29c025692c6"@),
        ("ghcr.io/devcontainers/features/azure-cli"@, "1.2.1"@, "ghcr.io/devcontainers/features/azure-cli@sha256:a00aa292592a8df58a940d6f6dfcf2bfd3efab145f62a17ccb12656528793134"@, "sha256:a00aa292592a8df58a940d6f6dfcf2bfd3efab145f62a17ccb12656528793134"@),
        ("ghcr.io/codspace/versioning/foo"@, "2.11.1"@, "ghcr.io/codspace/versioning/foo@sha256:3333333333333333333333333333333333333333333333333333333333333333"@, "sha256:3333333333333333333333333333333333333333333333333333333333333333"@),
        ("ghcr.io/codspace/versioning/foo"@, "0.3.1"@, "ghcr.io/codspace/versioning/foo@sha256:4444444444444444444444444444444444444444444444444444444444444444"@, "sha256:4444444444444444444444444444444444444444444444444444444444444444"@),
        ("ghcr.io/codspace/versioning/bar"@, "1.0.0"@, "ghcr.io/codspace/versioning/bar@sha256:5555555555555555555555555555555555555555555555555555555555555555"@, "sha256:5555555555555555555555555555555555555555555555555555555555555555"@),
    ]
}

fn manual_entry(base: &str, version: &str, resolved: &str, integrity: &str) -> (r: (
    String,
    CatalogEntry,
))
    ensures
        r.0@ == base@,
        entry_view(r.1) == (EntryView {
            version: version@,
            resolved: resolved@,
            integrity: integrity@,
            depends_on: None,
        }),
{
    (
        String::from_str(base),
        CatalogEntry {
            version: String::from_str(version),
            resolved: String::from_str(resolved),
            integrity: String::from_str(integrity),
            depends_on: None,
        },
    )
}

/// The built-in catalog entries, keyed by base identifier.
pub fn manual_catalog_entries() -> (r: Vec<(String, CatalogEntry)>)
    ensures
        r@.len() == manual_catalog().len(),
        forall|i: int|
            0 <= i < r@.len() ==> (#[trigger] r@[i]).0@ == manual_catalog()[i].0 && entry_view(
                r@[i].1,
            ) == (EntryView {
                version: manual_catalog()[i].1,
                resolved: manual_catalog()[i].2,
                integrity: manual_catalog()[i].3,
                depends_on: None,
            }),
{
    let mut r: Vec<(String, CatalogEntry)> = Vec::new();
    r.push(manual_entry("ghcr.io/devcontainers/features/git", "1.2.0", "ghcr.io/devcontainers/features/git@sha256:1111111111111111111111111111111111111111111111111111111111111111", "sha256:1111111111111111111111111111111111111111111111111111111111111111"));
    r.push(manual_entry("ghcr.io/devcontainers/features/git", "1.1.5", "ghcr.io/devcontainers/features/git@sha256:2ab83ca71d55d5c00a1255b07f3a83a53cd2de77ce8b9637abad38095d672a5b", "sha256:2ab83ca71d55d5c00a1255b07f3a83a53cd2de77ce8b9637abad38095d672a5b"));
    r.push(manual_entry("ghcr.io/devcontainers/features/git", "1.0.5", "ghcr.io/devcontainers/features/git@sha256:2222222222222222222222222222222222222222222222222222222222222222", "sha256:2222222222222222222222222222222222222222222222222222222222222222"));
    r.push(manual_entry("ghcr.io/devcontainers/features/git", "1.0.4", "ghcr.io/devcontainers/features/git@sha256:0bb490abcc0a3fb23937d29e2c18a225b51c5584edc0d9eb4131569a980f60b6", "sha256:0bb490abcc0a3fb23937d29e2c18a225b51c5584edc0d9eb4131569a980f60b6"));
    r.push(manual_entry("ghcr.io/devcontainers/features/github-cli", "1.0.9", "ghcr.io/devcontainers/features/github-cli@sha256:9024deeca80347dea7603a3bb5b4951988f0bf5894ba036a6ee3f29c025692c6", "sha256:9024deeca80347dea7603a3bb5b4951988f0bf5894ba036a6ee3f29c025692c6"));
    r.push(manual_entry("ghcr.io/devcontainers/features/azure-cli", "1.2.1", "ghcr.io/devcontainers/features/azure-cli@sha256:a00aa292592a8df58a940d6f6dfcf2bfd3efab145f62a17ccb12656528793134", "sha256:a00aa292592a8df58a940d6f6dfcf2bfd3efab145f62a17ccb12656528793134"));
    r.push(manual_entry("ghcr.io/codspace/versioning/foo", "2.11.1", "ghcr.io/codspace/versioning/foo@sha256:3333333333333333333333333333333333333333333333333333333333333333", "sha256:3333333333333333333333333333333333333333333333333333333333333333"));
    r.push(manual_entry("ghcr.io/codspace/versioning/foo", "0.3.1", "ghcr.io/codspace/versioning/foo@sha256:4444444444444444444444444444444444444444444444444444444444444444", "sha256:4444444444444444444444444444444444444444444444444444444444444444"));
    r.push(manual_entry("ghcr.io/codspace/versioning/bar", "1.0.0", "ghcr.io/codspace/versioning/bar@sha256:5555555555555555555555555555555555555555555555555555555555555555", "sha256:5555555555555555555555555555555555555555555555555555555555555555"));
    r
}


/// The built-in entries for `base`, in catalog order.
pub open spec fn manual_select(m: Seq<(Seq<char>, Seq<char>, Seq<char>, Seq<char>)>, base: Seq<char>) -> Seq<EntryView>
    decreases m.len(),
{
    if m.len() == 0 {
        Seq::empty()
    } else {
        let rest = manual_select(m.drop_last(), base);
        if m.last().0 == base {
            rest.push(EntryView { version: m.last().1, resolved: m.last().2, integrity: m.last().3, depends_on: None })
        } else {
            rest
        }
    }
}

/// The fixture entries whose identifier, without its version, is `base`.
pub open spec fn fixture_select(f: Seq<(Seq<char>, EntryView)>, base: Seq<char>) -> Seq<EntryView>
    decreases f.len(),
{
    if f.len() == 0 {
        Seq::empty()
    } else {
        let rest = fixture_select(f.drop_last(), base);
        if feature_base(f.last().0) == base {
            rest.push(f.last().1)
        } else {
            rest
        }
    }
}

/// `a` sorts before `b` in newest-first order: by version number where both
/// parse, by reverse text order otherwise.
pub open spec fn newer_first(a: Seq<char>, b: Seq<char>) -> bool {
    match (version_of(a), version_of(b)) {
        (Some(x), Some(y)) => version_lt(y, x),
        _ => key_lt(b, a),
    }
}

pub open spec fn insert_newest_first(x: EntryView, s: Seq<EntryView>) -> Seq<EntryView>
    decreases s.len(),
{
    if s.len() == 0 {
        seq![x]
    } else if newer_first(x.version, s[0].version) {
        seq![x] + s
    } else {
        seq![s[0]] + insert_newest_first(x, s.drop_first())
    }
}

/// The entries ordered newest first; entries that compare equal keep their order.
pub open spec fn sort_newest_first(s: Seq<EntryView>) -> Seq<EntryView>
    decreases s.len(),
{
    if s.len() == 0 {
        s
    } else {
        insert_newest_first(s.last(), sort_newest_first(s.drop_last()))
    }
}

/// The entries without those that repeat the version of the entry before them.
pub open spec fn dedup_versions(s: Seq<EntryView>) -> Seq<EntryView>
    decreases s.len(),
{
    if s.len() <= 1 {
        s
    } else {
        let rest = dedup_versions(s.drop_last());
        if s.last().version == s[s.len() - 2].version {
            rest
        } else {
            rest.push(s.last())
        }
    }
}

/// The known versions of `base`, newest first, each version once; none when there are none.
pub open spec fn catalog_for(base: Seq<char>, fixtures: Seq<(Seq<char>, EntryView)>) -> Option<Seq<EntryView>> {
    let e = dedup_versions(
        sort_newest_first(manual_select(manual_catalog(), base) + fixture_select(fixtures, base)),
    );
    if e.len() == 0 {
        None
    } else {
        Some(e)
    }
}

/// Whether `a` sorts before `b` newest first.
pub fn version_sorts_before(a: &str, b: &str) -> (r: bool)
    ensures
        r == newer_first(a@, b@),
{
    match (parse_version(a), parse_version(b)) {
        (Some(x), Some(y)) => y.major < x.major || (y.major == x.major && (y.minor < x.minor || (
        y.minor == x.minor && y.patch < x.patch))),
        _ => {
            let av = chars_of(a);
            let bv = chars_of(b);
            chars_lt(&bv, &av)
        },
    }
}

/// Newest-first order of two version strings: `Less` when `left` comes first.
pub fn compare_versions_desc(left: &str, right: &str) -> (r: Ordering)
    ensures
        (r == Ordering::Less) == newer_first(left@, right@),
        (r == Ordering::Greater) == newer_first(right@, left@),
{
    proof {
        lemma_newer_first_asymmetric(left@, right@);
    }
    if version_sorts_before(left, right) {
        Ordering::Less
    } else if version_sorts_before(right, left) {
        Ordering::Greater
    } else {
        Ordering::Equal
    }
}

proof fn lemma_key_lt_asymmetric(a: Seq<char>, b: Seq<char>)
    ensures
        !(key_lt(a, b) && key_lt(b, a)),
    decreases a.len(),
{
    if a.len() > 0 && b.len() > 0 && a[0] == b[0] {
        lemma_key_lt_asymmetric(a.drop_first(), b.drop_first());
    }
}

proof fn lemma_newer_first_asymmetric(a: Seq<char>, b: Seq<char>)
    ensures
        !(newer_first(a, b) && newer_first(b, a)),
{
    lemma_key_lt_asymmetric(a, b);
}


fn select_manual(base: &str) -> (r: Vec<CatalogEntry>)
    ensures
        entries_view(r@) == manual_select(manual_catalog(), base@),
{
    let manual = manual_catalog_entries();
    let ghost m = manual_catalog();
    let mut r: Vec<CatalogEntry> = Vec::new();
    let mut i: usize = 0;
    while i < manual.len()
        invariant
            i <= manual.len(),
            m == manual_catalog(),
            manual@.len() == m.len(),
            forall|k: int|
                0 <= k < manual@.len() ==> (#[trigger] manual@[k]).0@ == m[k].0 && entry_view(
                    manual@[k].1,
                ) == (EntryView {
                    version: m[k].1,
                    resolved: m[k].2,
                    integrity: m[k].3,
                    depends_on: None,
                }),
            entries_view(r@) == manual_select(m.take(i as int), base@),
        decreases manual.len() - i,
    {
        proof {
            assert(m.take(i + 1).drop_last() =~= m.take(i as int));
            assert(m.take(i + 1).last() == m[i as int]);
        }
        if str_eq(manual[i].0.as_str(), base) {
            let e = copy_entry(&manual[i].1);
            let ghost old_r = r@;
            r.push(e);
            proof {
                assert(r@ == old_r.push(e));
                assert(entries_view(r@) =~= entries_view(old_r).push(entry_view(e)));
            }
        }
        i = i + 1;
    }
    proof {
        assert(m.take(manual.len() as int) =~= m);
    }
    r
}

fn select_fixtures(fixtures: &Vec<(String, CatalogEntry)>, base: &str) -> (r: Vec<CatalogEntry>)
    ensures
        entries_view(r@) == fixture_select(keyed_view(fixtures@), base@),
{
    let ghost f = keyed_view(fixtures@);
    let mut r: Vec<CatalogEntry> = Vec::new();
    let mut i: usize = 0;
    while i < fixtures.len()
        invariant
            i <= fixtures.len(),
            f == keyed_view(fixtures@),
            entries_view(r@) == fixture_select(f.take(i as int), base@),
        decreases fixtures.len() - i,
    {
        proof {
            assert(f.take(i + 1).drop_last() =~= f.take(i as int));
            assert(f.take(i + 1).last() == f[i as int]);
        }
        let id_base = feature_id_without_version(fixtures[i].0.as_str());
        if str_eq(id_base.as_str(), base) {
            let e = copy_entry(&fixtures[i].1);
            let ghost old_r = r@;
            r.push(e);
            proof {
                assert(r@ == old_r.push(e));
                assert(entries_view(r@) =~= entries_view(old_r).push(entry_view(e)));
            }
        }
        i = i + 1;
    }
    proof {
        assert(f.take(fixtures.len() as int) =~= f);
    }
    r
}

proof fn lemma_insert_newest_at(x: EntryView, s: Seq<EntryView>, j: int)
    requires
        0 <= j <= s.len(),
        forall|k: int| 0 <= k < j ==> !newer_first(x.version, #[trigger] s[k].version),
        j < s.len() ==> newer_first(x.version, s[j].version),
    ensures
        insert_newest_first(x, s) == s.take(j) + seq![x] + s.skip(j),
    decreases j,
{
    if j == 0 {
        if s.len() == 0 {
            assert(s.take(0) + seq![x] + s.skip(0) =~= seq![x]);
        } else {
            assert(s.take(0) + seq![x] + s.skip(0) =~= seq![x] + s);
        }
    } else {
        assert(!newer_first(x.version, s[0].version));
        let t = s.drop_first();
        assert forall|k: int| 0 <= k < j - 1 implies !newer_first(x.version, #[trigger] t[k].version) by {
            assert(t[k] == s[k + 1]);
        }
        lemma_insert_newest_at(x, t, j - 1);
        assert(seq![s[0]] + (t.take(j - 1) + seq![x] + t.skip(j - 1)) =~= s.take(j) + seq![x]
            + s.skip(j));
    }
}

fn insert_entry(x: CatalogEntry, res: &mut Vec<CatalogEntry>)
    ensures
        entries_view(final(res)@) == insert_newest_first(entry_view(x), entries_view(old(res)@)),
{
    let ghost sv = entries_view(res@);
    let mut j: usize = 0;
    while j < res.len() && !version_sorts_before(x.version.as_str(), res[j].version.as_str())
        invariant
            j <= res.len(),
            sv == entries_view(res@),
            forall|k: int| 0 <= k < j ==> !newer_first(x.version@, #[trigger] sv[k].version),
        decreases res.len() - j,
    {
        j = j + 1;
    }
    proof {
        lemma_insert_newest_at(entry_view(x), sv, j as int);
    }
    let ghost xv = entry_view(x);
    res.insert(j, x);
    proof {
        assert(entries_view(res@) =~= sv.take(j as int) + seq![xv] + sv.skip(j as int));
    }
}

fn sort_entries(v: Vec<CatalogEntry>) -> (r: Vec<CatalogEntry>)
    ensures
        entries_view(r@) == sort_newest_first(entries_view(v@)),
{
    let ghost vv = entries_view(v@);
    let mut res: Vec<CatalogEntry> = Vec::new();
    let mut i: usize = 0;
    while i < v.len()
        invariant
            i <= v.len(),
            vv == entries_view(v@),
            entries_view(res@) == sort_newest_first(vv.take(i as int)),
        decreases v.len() - i,
    {
        proof {
            assert(vv.take(i + 1).drop_last() =~= vv.take(i as int));
            assert(vv.take(i + 1).last() == entry_view(v@[i as int]));
        }
        let e = copy_entry(&v[i]);
        insert_entry(e, &mut res);
        i = i + 1;
    }
    proof {
        assert(vv.take(v.len() as int) =~= vv);
    }
    res
}

fn dedup_entries(v: Vec<CatalogEntry>) -> (r: Vec<CatalogEntry>)
    ensures
        entries_view(r@) == dedup_versions(entries_view(v@)),
{
    let ghost vv = entries_view(v@);
    let mut res: Vec<CatalogEntry> = Vec::new();
    let mut i: usize = 0;
    while i < v.len()
        invariant
            i <= v.len(),
            vv == entries_view(v@),
            entries_view(res@) == dedup_versions(vv.take(i as int)),
        decreases v.len() - i,
    {
        proof {
            assert(vv.take(i + 1).drop_last() =~= vv.take(i as int));
            assert(vv.take(i + 1).last() == entry_view(v@[i as int]));
            if i > 0 {
                assert(vv.take(i + 1)[i - 1] == entry_view(v@[i - 1]));
            }
        }
        if i == 0 || !str_eq(v[i].version.as_str(), v[i - 1].version.as_str()) {
            let e = copy_entry(&v[i]);
            let ghost old_r = res@;
            res.push(e);
            proof {
                assert(res@ == old_r.push(e));
                assert(entries_view(res@) =~= entries_view(old_r).push(entry_view(e)));
                if i == 0 {
                    assert(vv.take(1) =~= seq![entry_view(v@[0])]);
                    assert(entries_view(res@) =~= dedup_versions(vv.take(1)));
                }
            }
        }
        i = i + 1;
    }
    proof {
        assert(vv.take(v.len() as int) =~= vv);
    }
    res
}

/// The known versions of a feature, newest first and each version once.
pub fn catalog_entries(base: &str, fixtures: &Vec<(String, CatalogEntry)>) -> (r: Option<
    Vec<CatalogEntry>,
>)
    ensures
        match r {
            Some(v) => catalog_for(base@, keyed_view(fixtures@)) == Some(entries_view(v@)),
            None => catalog_for(base@, keyed_view(fixtures@)) is None,
        },
{
    let mut entries = select_manual(base);
    let mut extra = select_fixtures(fixtures, base);
    let ghost a = entries_view(entries@);
    let ghost b = entries_view(extra@);
    entries.append(&mut extra);
    proof {
        assert(entries_view(entries@) =~= a + b);
    }
    let sorted = sort_entries(entries);
    let deduped = dedup_entries(sorted);
    if deduped.len() == 0 {
        None
    } else {
        Some(deduped)
    }
}

/// The newest known version of a feature.
pub fn latest_version(base: &str, fixtures: &Vec<(String, CatalogEntry)>) -> (r: Option<String>)
    ensures
        opt_view(r) == match catalog_for(base@, keyed_view(fixtures@)) {
            Some(e) => Some(e[0].version),
            None => None,
        },
{
    match catalog_entries(base, fixtures) {
        Some(entries) => Some(copy_string(&entries[0].version)),
        None => None,
    }
}

/// The first of `entries` with the given version.
pub open spec fn first_with_version(entries: Seq<EntryView>, version: Seq<char>) -> Option<EntryView>
    decreases entries.len(),
{
    if entries.len() == 0 {
        None
    } else if entries[0].version == version {
        Some(entries[0])
    } else {
        first_with_version(entries.drop_first(), version)
    }
}

fn find_version(entries: &Vec<CatalogEntry>, version: &str) -> (r: Option<CatalogEntry>)
    ensures
        match r {
            Some(e) => first_with_version(entries_view(entries@), version@) == Some(entry_view(e)),
            None => first_with_version(entries_view(entries@), version@) is None,
        },
{
    let ghost ev = entries_view(entries@);
    let mut i: usize = 0;
    proof {
        assert(ev.skip(0) =~= ev);
    }
    while i < entries.len()
        invariant
            i <= entries.len(),
            ev == entries_view(entries@),
            first_with_version(ev, version@) == first_with_version(ev.skip(i as int), version@),
        decreases entries.len() - i,
    {
        proof {
            assert(ev.skip(i as int).drop_first() =~= ev.skip(i + 1));
            assert(ev.skip(i as int)[0] == entry_view(entries@[i as int]));
        }
        if str_eq(entries[i].version.as_str(), version) {
            return Some(copy_entry(&entries[i]));
        }
        i = i + 1;
    }
    None
}

/// The catalog entry of a feature at a given version.
pub fn catalog_entry_for_version(base: &str, version: &str, fixtures: &Vec<(String, CatalogEntry)>) -> (r: Option<CatalogEntry>)
    ensures
        match r {
            Some(e) => catalog_for(base@, keyed_view(fixtures@)) matches Some(es)
                && first_with_version(es, version@) == Some(entry_view(e)),
            None => match catalog_for(base@, keyed_view(fixtures@)) {
                Some(es) => first_with_version(es, version@) is None,
                None => true,
            },
        },
{
    match catalog_entries(base, fixtures) {
        Some(entries) => find_version(&entries, version),
        None => None,
    }
}


/// The digest-pinned entry that is known without a catalog lookup.
pub open spec fn pinned_git_lfs() -> Seq<char> {
    "ghcr.io/devcontainers/features/git-lfs@sha256:24d5802c837b2519b666a8403a9514c7296d769c9607048e9f1e040e7d7e331c"@
}

/// The first fixture entry with exactly this identifier.
pub open spec fn fixture_exact(f: Seq<(Seq<char>, EntryView)>, id: Seq<char>) -> Option<EntryView>
    decreases f.len(),
{
    if f.len() == 0 {
        None
    } else if f[0].0 == id {
        Some(f[0].1)
    } else {
        fixture_exact(f.drop_first(), id)
    }
}

/// The entry for an exact (digest-pinned) identifier.
pub open spec fn exact_entry(id: Seq<char>, fixtures: Seq<(Seq<char>, EntryView)>) -> Option<EntryView> {
    if id == pinned_git_lfs() {
        Some(
            EntryView {
                version: "1.0.6"@,
                resolved: pinned_git_lfs(),
                integrity: "sha256:24d5802c837b2519b666a8403a9514c7296d769c9607048e9f1e040e7d7e331c"@,
                depends_on: None,
            },
        )
    } else {
        fixture_exact(fixtures, id)
    }
}

/// The catalog entry for an exact identifier.
pub fn exact_catalog_entry(feature_id: &str, fixtures: &Vec<(String, CatalogEntry)>) -> (r: Option<CatalogEntry>)
    ensures
        match r {
            Some(e) => exact_entry(feature_id@, keyed_view(fixtures@)) == Some(entry_view(e)),
            None => exact_entry(feature_id@, keyed_view(fixtures@)) is None,
        },
{
    if str_eq(feature_id, "ghcr.io/devcontainers/features/git-lfs@sha256:24d5802c837b2519b666a8403a9514c7296d769c9607048e9f1e040e7d7e331c") {
        return Some(
            CatalogEntry {
                version: String::from_str("1.0.6"),
                resolved: String::from_str("ghcr.io/devcontainers/features/git-lfs@sha256:24d5802c837b2519b666a8403a9514c7296d769c9607048e9f1e040e7d7e331c"),
                integrity: String::from_str("sha256:24d5802c837b2519b666a8403a9514c7296d769c9607048e9f1e040e7d7e331c"),
                depends_on: None,
            },
        );
    }
    let ghost f = keyed_view(fixtures@);
    let mut i: usize = 0;
    proof {
        assert(f.skip(0) =~= f);
    }
    while i < fixtures.len()
        invariant
            i <= fixtures.len(),
            f == keyed_view(fixtures@),
            feature_id@ != pinned_git_lfs(),
            fixture_exact(f, feature_id@) == fixture_exact(f.skip(i as int), feature_id@),
        decreases fixtures.len() - i,
    {
        proof {
            assert(f.skip(i as int).drop_first() =~= f.skip(i + 1));
            assert(f.skip(i as int)[0] == f[i as int]);
        }
        if str_eq(fixtures[i].0.as_str(), feature_id) {
            return Some(copy_entry(&fixtures[i].1));
        }
        i = i + 1;
    }
    None
}

/// An entry of a lockfile.
#[derive(Debug)]
pub struct LockfileEntry {
    pub version: String,
    pub resolved: String,
    pub integrity: String,
    pub depends_on: Option<Vec<String>>,
}

pub open spec fn lock_view(e: LockfileEntry) -> EntryView {
    EntryView {
        version: e.version@,
        resolved: e.resolved@,
        integrity: e.integrity@,
        depends_on: match e.depends_on {
            Some(d) => Some(views(d@)),
            None => None,
        },
    }
}

/// The version recorded for `key` (the first entry with that key).
pub open spec fn locked_version(entries: Seq<(String, LockfileEntry)>, key: Seq<char>) -> Option<Seq<char>>
    decreases entries.len(),
{
    if entries.len() == 0 {
        None
    } else if entries[0].0@ == key {
        Some(entries[0].1.version@)
    } else {
        locked_version(entries.drop_first(), key)
    }
}

pub(crate) fn locked_version_exec(entries: &Vec<(String, LockfileEntry)>, key: &str) -> (r: Option<String>)
    ensures
        opt_view(r) == locked_version(entries@, key@),
{
    let mut i: usize = 0;
    proof {
        assert(entries@.skip(0) =~= entries@);
    }
    while i < entries.len()
        invariant
            i <= entries.len(),
            locked_version(entries@, key@) == locked_version(entries@.skip(i as int), key@),
        decreases entries.len() - i,
    {
        proof {
            assert(entries@.skip(i as int).drop_first() =~= entries@.skip(i + 1));
            assert(entries@.skip(i as int)[0] == entries@[i as int]);
        }
        if str_eq(entries[i].0.as_str(), key) {
            return Some(copy_string(&entries[i].1.version));
        }
        i = i + 1;
    }
    None
}

/// How many times `c` occurs in `s`.
pub open spec fn count_char(s: Seq<char>, c: char) -> nat
    decreases s.len(),
{
    if s.len() == 0 {
        0
    } else {
        count_char(s.drop_last(), c) + if s.last() == c {
            1nat
        } else {
            0nat
        }
    }
}

fn count_char_exec(s: &str, c: char) -> (r: usize)
    ensures
        r as nat == count_char(s@, c),
{
    let v = chars_of(s);
    let mut n: usize = 0;
    let mut i: usize = 0;
    while i < v.len()
        invariant
            i <= v.len(),
            n <= i,
            n as nat == count_char(v@.take(i as int), c),
        decreases v.len() - i,
    {
        proof {
            assert(v@.take(i + 1).drop_last() =~= v@.take(i as int));
        }
        if v[i] == c {
            n = n + 1;
        }
        i = i + 1;
    }
    proof {
        assert(v@.take(v.len() as int) =~= v@);
    }
    n
}

/// The version of the first entry that the selector selects.
pub open spec fn first_selected(entries: Seq<EntryView>, sel: crate::versions::VersionSelector) -> Option<Seq<char>>
    decreases entries.len(),
{
    if entries.len() == 0 {
        None
    } else if version_of(entries[0].version) matches Some(v) && selects(sel, v) {
        Some(entries[0].version)
    } else {
        first_selected(entries.drop_first(), sel)
    }
}

fn first_selected_exec(entries: &Vec<CatalogEntry>, sel: &crate::versions::VersionSelector) -> (r: Option<String>)
    ensures
        opt_view(r) == first_selected(entries_view(entries@), *sel),
{
    let ghost ev = entries_view(entries@);
    let mut i: usize = 0;
    proof {
        assert(ev.skip(0) =~= ev);
    }
    while i < entries.len()
        invariant
            i <= entries.len(),
            ev == entries_view(entries@),
            first_selected(ev, *sel) == first_selected(ev.skip(i as int), *sel),
        decreases entries.len() - i,
    {
        proof {
            assert(ev.skip(i as int).drop_first() =~= ev.skip(i + 1));
            assert(ev.skip(i as int)[0] == entry_view(entries@[i as int]));
        }
        if sel.matches(entries[i].version.as_str()) {
            return Some(copy_string(&entries[i].version));
        }
        i = i + 1;
    }
    None
}

/// The version a feature reference asks for: what the lockfile pins for an
/// untagged or digest reference, else by tag: `latest`, an exact `x.y.z`
/// known to the catalog, or the newest version a selector picks.
pub open spec fn wanted_version(
    original: Seq<char>,
    base: Seq<char>,
    tag: Option<Seq<char>>,
    digest: Option<Seq<char>>,
    lockfile: Option<Seq<(String, LockfileEntry)>>,
    fixtures: Seq<(Seq<char>, EntryView)>,
) -> Option<Seq<char>> {
    let locked = match lockfile {
        Some(l) => locked_version(l, original),
        None => None,
    };
    if locked is Some && (tag is None || digest is Some) {
        locked
    } else {
        match tag {
            None => None,
            Some(t) => if t == "latest"@ {
                match catalog_for(base, fixtures) {
                    Some(e) => Some(e[0].version),
                    None => None,
                }
            } else {
                match catalog_for(base, fixtures) {
                    None => None,
                    Some(es) => if count_char(t, '.') == 2 {
                        match first_with_version(es, t) {
                            Some(e) => Some(e.version),
                            None => None,
                        }
                    } else {
                        match selector_of(t) {
                            Some(sel) => first_selected(es, sel),
                            None => None,
                        }
                    },
                }
            },
        }
    }
}

/// The version a feature reference resolves to.
pub fn resolve_wanted_version(
    feature: &FeatureReference,
    lockfile: Option<&Vec<(String, LockfileEntry)>>,
    fixtures: &Vec<(String, CatalogEntry)>,
) -> (r: Option<String>)
    ensures
        opt_view(r) == wanted_version(
            feature.original@,
            feature.base@,
            opt_view(feature.tag),
            opt_view(feature.digest),
            match lockfile {
                Some(l) => Some(l@),
                None => None,
            },
            keyed_view(fixtures@),
        ),
{
    let locked = match lockfile {
        Some(l) => locked_version_exec(l, feature.original.as_str()),
        None => None,
    };
    if locked.is_some() && (feature.tag.is_none() || feature.digest.is_some()) {
        return locked;
    }
    let tag = match &feature.tag {
        Some(t) => t,
        None => return None,
    };
    if str_eq(tag.as_str(), "latest") {
        return latest_version(feature.base.as_str(), fixtures);
    }
    let candidates = match catalog_entries(feature.base.as_str(), fixtures) {
        Some(c) => c,
        None => return None,
    };
    if count_char_exec(tag.as_str(), '.') == 2 {
        return match find_version(&candidates, tag.as_str()) {
            Some(e) => Some(e.version),
            None => None,
        };
    }
    match parse_selector(tag.as_str()) {
        Some(sel) => first_selected_exec(&candidates, &sel),
        None => None,
    }
}

/// The version a lockfile entry pins for a reference without a lockfile:
/// for a tag other than `latest` or an exact `x.y.z`, the newest version its
/// selector picks; the newest version otherwise.
pub open spec fn pinned_version(
    base: Seq<char>,
    tag: Option<Seq<char>>,
    fixtures: Seq<(Seq<char>, EntryView)>,
) -> Option<Seq<char>> {
    let latest = match catalog_for(base, fixtures) {
        Some(e) => Some(e[0].version),
        None => None,
    };
    match tag {
        Some(t) => if t == "latest"@ {
            latest
        } else if count_char(t, '.') == 2 {
            Some(t)
        } else {
            match (selector_of(t), catalog_for(base, fixtures)) {
                (Some(sel), Some(es)) => first_selected(es, sel),
                _ => None,
            }
        },
        None => latest,
    }
}

/// The lockfile entry generated for a reference: the exact entry for a digest
/// reference, else the catalog entry of the pinned version.
pub open spec fn lockfile_entry_for(
    original: Seq<char>,
    base: Seq<char>,
    tag: Option<Seq<char>>,
    digest: Option<Seq<char>>,
    fixtures: Seq<(Seq<char>, EntryView)>,
) -> Option<EntryView> {
    if digest is Some {
        exact_entry(original, fixtures)
    } else {
        match pinned_version(base, tag, fixtures) {
            None => None,
            Some(v) => match catalog_for(base, fixtures) {
                Some(es) => match first_with_version(es, v) {
                    Some(e) => Some(EntryView { version: v, ..e }),
                    None => None,
                },
                None => None,
            },
        }
    }
}

/// The lockfile key and entry for a feature reference.
pub fn generate_lockfile_entry(feature: &FeatureReference, fixtures: &Vec<(String, CatalogEntry)>) -> (r: Option<(String, LockfileEntry)>)
    ensures
        match r {
            Some((k, e)) => k@ == feature.original@ && lockfile_entry_for(
                feature.original@,
                feature.base@,
                opt_view(feature.tag),
                opt_view(feature.digest),
                keyed_view(fixtures@),
            ) == Some(lock_view(e)),
            None => lockfile_entry_for(
                feature.original@,
                feature.base@,
                opt_view(feature.tag),
                opt_view(feature.digest),
                keyed_view(fixtures@),
            ) is None,
        },
{
    if feature.digest.is_some() {
        return match exact_catalog_entry(feature.original.as_str(), fixtures) {
            Some(entry) => Some(
                (
                    copy_string(&feature.original),
                    LockfileEntry {
                        version: entry.version,
                        resolved: entry.resolved,
                        integrity: entry.integrity,
                        depends_on: entry.depends_on,
                    },
                ),
            ),
            None => None,
        };
    }
    let version = match &feature.tag {
        Some(tag) => if str_eq(tag.as_str(), "latest") {
            match latest_version(feature.base.as_str(), fixtures) {
                Some(v) => v,
                None => return None,
            }
        } else if count_char_exec(tag.as_str(), '.') == 2 {
            copy_string(tag)
        } else {
            let sel = match parse_selector(tag.as_str()) {
                Some(s) => s,
                None => return None,
            };
            let candidates = match catalog_entries(feature.base.as_str(), fixtures) {
                Some(c) => c,
                None => return None,
            };
            match first_selected_exec(&candidates, &sel) {
                Some(v) => v,
                None => return None,
            }
        },
        None => match latest_version(feature.base.as_str(), fixtures) {
            Some(v) => v,
            None => return None,
        },
    };
    let entry = match catalog_entry_for_version(feature.base.as_str(), version.as_str(), fixtures) {
        Some(e) => e,
        None => return None,
    };
    Some(
        (
            copy_string(&feature.original),
            LockfileEntry {
                version,
                resolved: entry.resolved,
                integrity: entry.integrity,
                depends_on: entry.depends_on,
            },
        ),
    )
}

} // verus!
