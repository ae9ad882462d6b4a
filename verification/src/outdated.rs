//! The `outdated` report: for each published feature of a configuration, the
//! version in use, the version wanted and the latest known version, as JSON
//! and as a text table.
use vstd::prelude::*;
use crate::catalog::{
    catalog_for, entry_view, exact_catalog_entry, exact_entry, keyed_view, latest_version, locked_version,
    resolve_wanted_version, wanted_version, CatalogEntry, LockfileEntry,
};
use crate::features::{feature_base, feature_id_without_version, parse_feature_reference, reference_parts, FeatureReference};
use crate::json_object::{object_insert, vinsert, Entries};
use crate::json_value::{get, get_str, jentries, json_get, json_get_str, JsonValue, JsonView};
use crate::text::{copy_string, decimal, join, join_strings, opt_view, views};
use crate::versions::{major_string, version_of};

verus! {

/// The major version of a version text, when it reads as a version.
pub open spec fn major_of(v: Option<Seq<char>>) -> Option<Seq<char>> {
    match v {
        Some(s) => match version_of(s) {
            Some(p) => Some(decimal(p.major as nat)),
            None => None,
        },
        None => None,
    }
}

/// `(key, text)` when there is a text.
pub open spec fn text_entry(key: Seq<char>, v: Option<Seq<char>>) -> Entries {
    match v {
        Some(t) => seq![(key, JsonView::Str(t))],
        None => Seq::empty(),
    }
}

/// The version information object, its keys in order.
pub open spec fn info_object(
    current: Option<Seq<char>>,
    wanted: Option<Seq<char>>,
    latest: Option<Seq<char>>,
) -> JsonView {
    JsonView::Object(
        text_entry("current"@, current) + text_entry("latest"@, latest) + text_entry("latestMajor"@, major_of(latest))
            + text_entry("wanted"@, wanted) + text_entry("wantedMajor"@, major_of(wanted)),
    )
}

/// The latest known version of a feature.
pub open spec fn latest_of(base: Seq<char>, fixtures: Seq<(Seq<char>, crate::catalog::EntryView)>) -> Option<Seq<char>> {
    match catalog_for(base, fixtures) {
        Some(e) => Some(e[0].version),
        None => None,
    }
}

/// The first of two optional texts that is present.
pub open spec fn or_else(a: Option<Seq<char>>, b: Option<Seq<char>>) -> Option<Seq<char>> {
    match a {
        Some(x) => Some(x),
        None => b,
    }
}

/// The versions of a feature: the lockfile's as the current one (the wanted
/// one when the lockfile has none); wanted, for a digest reference, the
/// lockfile's or else the catalog's exact entry, otherwise the version the
/// reference asks for; and the latest in the catalog.
pub open spec fn version_info_of(
    original: Seq<char>,
    base: Seq<char>,
    tag: Option<Seq<char>>,
    digest: Option<Seq<char>>,
    lockfile: Option<Seq<(String, LockfileEntry)>>,
    fixtures: Seq<(Seq<char>, crate::catalog::EntryView)>,
) -> JsonView {
    let current = match lockfile {
        Some(l) => locked_version(l, original),
        None => None,
    };
    let latest = latest_of(base, fixtures);
    let wanted = if digest is Some {
        or_else(
            current,
            match exact_entry(original, fixtures) {
                Some(e) => Some(e.version),
                None => None,
            },
        )
    } else {
        wanted_version(original, base, tag, digest, lockfile, fixtures)
    };
    info_object(or_else(current, wanted), wanted, latest)
}

fn push_text(entries: &mut Vec<(String, JsonValue)>, key: &str, v: &Option<String>)
    ensures
        jentries(final(entries)@) == jentries(old(entries)@) + text_entry(key@, opt_view(*v)),
{
    match v {
        Some(t) => {
            let ghost before = entries@;
            entries.push((String::from_str(key), JsonValue::Str(copy_string(t))));
            proof {
                crate::json_value::lemma_jentries(before);
                crate::json_value::lemma_jentries(entries@);
                assert(jentries(entries@) =~= jentries(before) + text_entry(key@, opt_view(*v)));
            }
        },
        None => {
            proof {
                assert(jentries(entries@) =~= jentries(old(entries)@) + text_entry(key@, opt_view(*v)));
            }
        },
    }
}

fn major_opt(v: &Option<String>) -> (r: Option<String>)
    ensures
        opt_view(r) == major_of(opt_view(*v)),
{
    match v {
        Some(s) => major_string(s.as_str()),
        None => None,
    }
}

fn copy_opt(v: &Option<String>) -> (r: Option<String>)
    ensures
        opt_view(r) == opt_view(*v),
{
    match v {
        Some(s) => Some(copy_string(s)),
        None => None,
    }
}

/// The version information object.
pub fn version_info_json(current: Option<String>, wanted: Option<String>, latest: Option<String>) -> (r: JsonValue)
    ensures
        r@ == info_object(opt_view(current), opt_view(wanted), opt_view(latest)),
{
    let mut entries: Vec<(String, JsonValue)> = Vec::new();
    proof {
        assert(jentries(entries@) =~= Seq::<(Seq<char>, JsonView)>::empty());
    }
    push_text(&mut entries, "current", &current);
    push_text(&mut entries, "latest", &latest);
    push_text(&mut entries, "latestMajor", &major_opt(&latest));
    push_text(&mut entries, "wanted", &wanted);
    push_text(&mut entries, "wantedMajor", &major_opt(&wanted));
    proof {
        assert(jentries(entries@) =~= text_entry("current"@, opt_view(current)) + text_entry(
            "latest"@,
            opt_view(latest),
        ) + text_entry("latestMajor"@, major_of(opt_view(latest))) + text_entry("wanted"@, opt_view(wanted))
            + text_entry("wantedMajor"@, major_of(opt_view(wanted))));
    }
    JsonValue::Object(entries)
}

/// The version information of one feature.
pub fn build_feature_version_info(
    feature: &FeatureReference,
    lockfile: Option<&Vec<(String, LockfileEntry)>>,
    fixtures: &Vec<(String, CatalogEntry)>,
) -> (r: JsonValue)
    ensures
        r@ == version_info_of(
            feature.original@,
            feature.base@,
            opt_view(feature.tag),
            opt_view(feature.digest),
            match lockfile {
                Some(l) => Some(l@),
                None => None,
            },
            keyed_view(fixtures@),
        ),
{
    let current = match lockfile {
        Some(l) => crate::catalog::locked_version_exec(l, feature.original.as_str()),
        None => None,
    };
    let latest = latest_version(feature.base.as_str(), fixtures);
    let wanted = if feature.digest.is_some() {
        match &current {
            Some(c) => Some(copy_string(c)),
            None => match exact_catalog_entry(feature.original.as_str(), fixtures) {
                Some(e) => Some(e.version),
                None => None,
            },
        }
    } else {
        resolve_wanted_version(feature, lockfile, fixtures)
    };
    let shown = match current {
        Some(c) => Some(c),
        None => copy_opt(&wanted),
    };
    version_info_json(shown, wanted, latest)
}

/// The version information of each published feature of the configuration, by identifier.
pub open spec fn outdated_entries(
    features: Seq<(String, JsonValue)>,
    lockfile: Option<Seq<(String, LockfileEntry)>>,
    fixtures: Seq<(Seq<char>, crate::catalog::EntryView)>,
) -> Entries
    decreases features.len(),
{
    if features.len() == 0 {
        Seq::empty()
    } else {
        let rest = outdated_entries(features.drop_last(), lockfile, fixtures);
        let id = features.last().0@;
        match reference_parts(id) {
            Some((base, tag, digest)) => vinsert(rest, id, version_info_of(id, base, tag, digest, lockfile, fixtures)),
            None => rest,
        }
    }
}

/// The declared features of a configuration.
pub open spec fn declared_features(c: JsonValue) -> Seq<(String, JsonValue)> {
    match get(c, "features"@) {
        Some(JsonValue::Object(e)) => e@,
        _ => Seq::empty(),
    }
}

/// The `outdated` payload: `{"features": {id: info, ...}}`.
pub open spec fn outdated_payload_of(
    c: JsonValue,
    lockfile: Option<Seq<(String, LockfileEntry)>>,
    fixtures: Seq<(Seq<char>, crate::catalog::EntryView)>,
) -> JsonView {
    JsonView::Object(seq![("features"@, JsonView::Object(outdated_entries(declared_features(c), lockfile, fixtures)))])
}

/// The `outdated` payload of a configuration, given its lockfile entries.
pub fn build_outdated_payload(
    configuration: &JsonValue,
    lockfile: Option<&Vec<(String, LockfileEntry)>>,
    fixtures: &Vec<(String, CatalogEntry)>,
) -> (r: JsonValue)
    ensures
        r@ == outdated_payload_of(
            *configuration,
            match lockfile {
                Some(l) => Some(l@),
                None => None,
            },
            keyed_view(fixtures@),
        ),
{
    let ghost lv = match lockfile {
        Some(l) => Some(l@),
        None => None,
    };
    let mut out: Vec<(String, JsonValue)> = Vec::new();
    proof {
        assert(jentries(out@) =~= Seq::<(Seq<char>, JsonView)>::empty());
    }
    match json_get(configuration, "features") {
        Some(JsonValue::Object(features)) => {
            let mut i: usize = 0;
            proof {
                assert(features@.take(0) =~= Seq::<(String, JsonValue)>::empty());
            }
            while i < features.len()
                invariant
                    i <= features.len(),
                    lv == match lockfile {
                        Some(l) => Some(l@),
                        None => None::<Seq<(String, LockfileEntry)>>,
                    },
                    jentries(out@) == outdated_entries(features@.take(i as int), lv, keyed_view(fixtures@)),
                decreases features.len() - i,
            {
                proof {
                    assert(features@.take(i + 1).drop_last() =~= features@.take(i as int));
                    assert(features@.take(i + 1).last() == features@[i as int]);
                }
                match parse_feature_reference(features[i].0.as_str()) {
                    Some(reference) => {
                        let info = build_feature_version_info(&reference, lockfile, fixtures);
                        object_insert(&mut out, copy_string(&features[i].0), info);
                    },
                    None => {},
                }
                i = i + 1;
            }
            proof {
                assert(features@.take(features.len() as int) =~= features@);
            }
        },
        _ => {},
    }
    let mut payload: Vec<(String, JsonValue)> = Vec::new();
    let ghost fv = jentries(out@);
    payload.push((String::from_str("features"), JsonValue::Object(out)));
    proof {
        crate::json_value::lemma_jentries(payload@);
        assert(jentries(payload@) =~= seq![("features"@, JsonView::Object(fv))]);
    }
    JsonValue::Object(payload)
}

/// A cell of the table: the text at `key`, `-` without one.
pub open spec fn cell_of(v: JsonValue, key: Seq<char>) -> Seq<char> {
    match get_str(v, key) {
        Some(t) => t,
        None => "-"@,
    }
}

/// The table rows: the header, then per feature its identifier without
/// version and its current, wanted and latest versions.
pub open spec fn outdated_rows(payload: JsonValue) -> Seq<Seq<Seq<char>>> {
    seq![seq!["Feature"@, "Current"@, "Wanted"@, "Latest"@]] + match get(payload, "features"@) {
        Some(JsonValue::Object(e)) => feature_rows(e@),
        _ => Seq::empty(),
    }
}

/// One row per feature entry.
pub open spec fn feature_rows(e: Seq<(String, JsonValue)>) -> Seq<Seq<Seq<char>>>
    decreases e.len(),
{
    if e.len() == 0 {
        Seq::empty()
    } else {
        feature_rows(e.drop_last()).push(
            seq![
                feature_base(e.last().0@),
                cell_of(e.last().1, "current"@),
                cell_of(e.last().1, "wanted"@),
                cell_of(e.last().1, "latest"@),
            ],
        )
    }
}

/// The length of a text in bytes of UTF-8.
pub open spec fn byte_len(s: Seq<char>) -> nat {
    vstd::utf8::encode_utf8(s).len()
}

/// The widest entry of column `c`, in bytes.
pub open spec fn column_width(rows: Seq<Seq<Seq<char>>>, c: int) -> nat
    decreases rows.len(),
{
    if rows.len() == 0 {
        0
    } else {
        let w = column_width(rows.drop_last(), c);
        let b = byte_len(rows.last()[c]);
        if b > w {
            b
        } else {
            w
        }
    }
}

/// `cell` followed by spaces up to `width` characters.
pub open spec fn padded(cell: Seq<char>, width: nat) -> Seq<char> {
    if width > cell.len() {
        cell + Seq::new((width - cell.len()) as nat, |i: int| ' ')
    } else {
        cell
    }
}

/// A row with each cell padded to its column's width, cells separated by two spaces.
pub open spec fn row_line(row: Seq<Seq<char>>, rows: Seq<Seq<Seq<char>>>) -> Seq<char> {
    join(Seq::new(4, |c: int| padded(row[c], column_width(rows, c))), "  "@)
}

/// The table as text, one line per row.
pub open spec fn outdated_text_of(payload: JsonValue) -> Seq<char> {
    let rows = outdated_rows(payload);
    join(Seq::new(rows.len(), |r: int| row_line(rows[r], rows)), "\n"@)
}

fn cell_exec(v: &JsonValue, key: &str) -> (r: String)
    ensures
        r@ == cell_of(*v, key@),
{
    match json_get_str(v, key) {
        Some(t) => t,
        None => String::from_str("-"),
    }
}

fn rows_exec(payload: &JsonValue) -> (r: Vec<Vec<String>>)
    ensures
        r@.len() == outdated_rows(*payload).len(),
        forall|i: int| 0 <= i < r@.len() ==> (#[trigger] r@[i])@.len() == 4 && views(r@[i]@) == outdated_rows(*payload)[i],
{
    let mut rows: Vec<Vec<String>> = Vec::new();
    let mut header: Vec<String> = Vec::new();
    header.push(String::from_str("Feature"));
    header.push(String::from_str("Current"));
    header.push(String::from_str("Wanted"));
    header.push(String::from_str("Latest"));
    proof {
        assert(views(header@) =~= seq!["Feature"@, "Current"@, "Wanted"@, "Latest"@]);
    }
    rows.push(header);
    let ghost head = seq![seq!["Feature"@, "Current"@, "Wanted"@, "Latest"@]];
    match json_get(payload, "features") {
        Some(JsonValue::Object(e)) => {
            let mut i: usize = 0;
            proof {
                assert(e@.take(0) =~= Seq::<(String, JsonValue)>::empty());
            }
            while i < e.len()
                invariant
                    i <= e.len(),
                    head == seq![seq!["Feature"@, "Current"@, "Wanted"@, "Latest"@]],
                    rows@.len() == 1 + feature_rows(e@.take(i as int)).len(),
                    forall|k: int|
                        0 <= k < rows@.len() ==> (#[trigger] rows@[k])@.len() == 4 && views(rows@[k]@) == (head
                            + feature_rows(e@.take(i as int)))[k],
                decreases e.len() - i,
            {
                proof {
                    assert(e@.take(i + 1).drop_last() =~= e@.take(i as int));
                    assert(e@.take(i + 1).last() == e@[i as int]);
                }
                let mut row: Vec<String> = Vec::new();
                row.push(feature_id_without_version(e[i].0.as_str()));
                row.push(cell_exec(&e[i].1, "current"));
                row.push(cell_exec(&e[i].1, "wanted"));
                row.push(cell_exec(&e[i].1, "latest"));
                let ghost rv = views(row@);
                proof {
                    assert(rv =~= seq![
                        feature_base(e@[i as int].0@),
                        cell_of(e@[i as int].1, "current"@),
                        cell_of(e@[i as int].1, "wanted"@),
                        cell_of(e@[i as int].1, "latest"@),
                    ]);
                }
                let ghost before = rows@;
                rows.push(row);
                proof {
                    let old_rows = feature_rows(e@.take(i as int));
                    let fr = feature_rows(e@.take(i + 1));
                    assert(fr == old_rows.push(rv));
                    assert(head + fr =~= (head + old_rows).push(rv));
                    assert forall|k: int| 0 <= k < rows@.len() implies (#[trigger] rows@[k])@.len() == 4 && views(
                        rows@[k]@,
                    ) == (head + fr)[k] by {
                        if k < before.len() {
                            assert(rows@[k] == before[k]);
                            assert(views(before[k]@) == (head + old_rows)[k]);
                            assert((head + fr)[k] == (head + old_rows)[k]);
                        } else {
                            assert(rows@[k] == row);
                            assert((head + fr)[k] == rv);
                        }
                    }
                }
                i = i + 1;
            }
            proof {
                assert(e@.take(e.len() as int) =~= e@);
            }
        },
        _ => {},
    }
    proof {
        let expected = outdated_rows(*payload);
        assert(rows@.len() == expected.len());
    }
    rows
}

fn width_exec(rows: &Vec<Vec<String>>, c: usize) -> (w: usize)
    requires
        c < 4,
        forall|i: int| 0 <= i < rows@.len() ==> (#[trigger] rows@[i])@.len() == 4,
    ensures
        w as nat == column_width(rows@.map_values(|r: Vec<String>| views(r@)), c as int),
{
    let ghost rv = rows@.map_values(|r: Vec<String>| views(r@));
    let mut w: usize = 0;
    let mut i: usize = 0;
    proof {
        assert(rv.take(0) =~= Seq::<Seq<Seq<char>>>::empty());
    }
    while i < rows.len()
        invariant
            i <= rows@.len(),
            c < 4,
            forall|k: int| 0 <= k < rows@.len() ==> (#[trigger] rows@[k])@.len() == 4,
            rv == rows@.map_values(|r: Vec<String>| views(r@)),
            w as nat == column_width(rv.take(i as int), c as int),
        decreases rows.len() - i,
    {
        proof {
            assert(rv.take(i + 1).drop_last() =~= rv.take(i as int));
            assert(rv.take(i + 1).last() == rv[i as int]);
            assert(rv[i as int][c as int] == rows@[i as int]@[c as int]@);
        }
        let b = rows[i][c].as_str().as_bytes().len();
        if b > w {
            w = b;
        }
        i = i + 1;
    }
    proof {
        assert(rv.take(rows.len() as int) =~= rv);
    }
    w
}

fn padded_exec(cell: &String, width: usize) -> (r: String)
    ensures
        r@ == padded(cell@, width as nat),
{
    let n = crate::text::chars_of(cell.as_str()).len();
    let mut out = copy_string(cell);
    if width > n {
        let mut k: usize = n;
        while k < width
            invariant
                n <= k <= width,
                n == cell@.len(),
                out@ == cell@ + Seq::new((k - n) as nat, |i: int| ' '),
            decreases width - k,
        {
            crate::text::push_char(&mut out, ' ');
            proof {
                assert(out@ =~= cell@ + Seq::new((k + 1 - n) as nat, |i: int| ' '));
            }
            k = k + 1;
        }
    }
    out
}

/// The `outdated` table as text.
pub fn render_outdated_text(payload: &JsonValue) -> (r: String)
    ensures
        r@ == outdated_text_of(*payload),
{
    let rows = rows_exec(payload);
    let ghost rs = outdated_rows(*payload);
    proof {
        assert(rows@.map_values(|r: Vec<String>| views(r@)) =~= rs);
    }
    let mut widths: Vec<usize> = Vec::new();
    let mut c: usize = 0;
    while c < 4
        invariant
            c <= 4,
            widths@.len() == c,
            rows@.map_values(|r: Vec<String>| views(r@)) == rs,
            forall|i: int| 0 <= i < rows@.len() ==> (#[trigger] rows@[i])@.len() == 4,
            forall|k: int| 0 <= k < c ==> widths@[k] as nat == column_width(rs, k),
        decreases 4 - c,
    {
        let w = width_exec(&rows, c);
        widths.push(w);
        c = c + 1;
    }
    let mut lines: Vec<String> = Vec::new();
    let mut r: usize = 0;
    while r < rows.len()
        invariant
            r <= rows@.len(),
            rows@.len() == rs.len(),
            widths@.len() == 4,
            rows@.map_values(|r: Vec<String>| views(r@)) == rs,
            forall|i: int| 0 <= i < rows@.len() ==> (#[trigger] rows@[i])@.len() == 4,
            forall|k: int| 0 <= k < 4 ==> widths@[k] as nat == column_width(rs, k),
            views(lines@) == Seq::new(r as nat, |q: int| row_line(rs[q], rs)),
        decreases rows.len() - r,
    {
        let mut cells: Vec<String> = Vec::new();
        let mut k: usize = 0;
        while k < 4
            invariant
                k <= 4,
                r < rows@.len(),
                rows@[r as int]@.len() == 4,
                rows@.map_values(|r: Vec<String>| views(r@)) == rs,
                widths@.len() == 4,
                forall|q: int| 0 <= q < 4 ==> widths@[q] as nat == column_width(rs, q),
                views(cells@) == Seq::new(k as nat, |q: int| padded(rs[r as int][q], column_width(rs, q))),
            decreases 4 - k,
        {
            let p = padded_exec(&rows[r][k], widths[k]);
            let ghost before = cells@;
            cells.push(p);
            proof {
                assert(rs[r as int] == views(rows@[r as int]@));
                assert(rs[r as int][k as int] == rows@[r as int]@[k as int]@);
                assert(views(cells@) =~= views(before).push(p@));
                assert(views(cells@) =~= Seq::new((k + 1) as nat, |q: int| padded(rs[r as int][q], column_width(rs, q))));
            }
            k = k + 1;
        }
        let line = join_strings(&cells, "  ");
        let ghost before_lines = lines@;
        lines.push(line);
        proof {
            assert(views(cells@) =~= Seq::new(4, |q: int| padded(rs[r as int][q], column_width(rs, q))));
            assert(line@ == row_line(rs[r as int], rs));
            assert(views(lines@) =~= views(before_lines).push(line@));
            assert(views(lines@) =~= Seq::new((r + 1) as nat, |q: int| row_line(rs[q], rs)));
        }
        r = r + 1;
    }
    let text = join_strings(&lines, "\n");
    proof {
        assert(views(lines@) =~= Seq::new(rs.len(), |q: int| row_line(rs[q], rs)));
    }
    text
}

} // verus!
