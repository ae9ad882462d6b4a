//! Merging a configuration with the metadata entries of its image and
//! features: lifecycle commands are collected, lists are united, objects are
//! combined key by key, and single settings are taken from the last entry.
use vstd::prelude::*;
use crate::json::json_text;
use crate::json_object::{object_insert, object_remove, vinsert, vremove, Entries};
use crate::json_value::{
    entries_get, jentries, json_clone, json_get, jviews, lemma_entry_value_view, lemma_get_view,
    lemma_jentries, lemma_jviews, ventry, vget, JsonValue, JsonView,
};

verus! {

/// The view of an optional value.
pub open spec fn opt_jview(o: Option<JsonValue>) -> Option<JsonView> {
    match o {
        Some(x) => Some(x@),
        None => None,
    }
}

/// `jviews` of a pushed sequence.
pub proof fn lemma_jviews_push(s: Seq<JsonValue>, x: JsonValue)
    ensures
        jviews(s.push(x)) == jviews(s).push(x@),
{
    lemma_jviews(s);
    lemma_jviews(s.push(x));
    assert(jviews(s.push(x)) =~= jviews(s).push(x@));
}

/// The value of `k` in the last entry that has one.
pub open spec fn last_value(es: Seq<JsonView>, k: Seq<char>) -> Option<JsonView>
    decreases es.len(),
{
    if es.len() == 0 {
        None
    } else {
        match vget(es.last(), k) {
            Some(v) => Some(v),
            None => last_value(es.drop_last(), k),
        }
    }
}

/// Whether some entry sets `k` to `true`.
pub open spec fn any_true(es: Seq<JsonView>, k: Seq<char>) -> bool
    decreases es.len(),
{
    if es.len() == 0 {
        false
    } else {
        vget(es.last(), k) == Some(JsonView::Bool(true)) || any_true(es.drop_last(), k)
    }
}

/// The values of `k`, entry by entry.
pub open spec fn present_values(es: Seq<JsonView>, k: Seq<char>) -> Seq<JsonView>
    decreases es.len(),
{
    if es.len() == 0 {
        Seq::empty()
    } else {
        let rest = present_values(es.drop_last(), k);
        match vget(es.last(), k) {
            Some(v) => rest.push(v),
            None => rest,
        }
    }
}

/// The values of `k` that are strings, entry by entry.
pub open spec fn string_values(es: Seq<JsonView>, k: Seq<char>) -> Seq<JsonView>
    decreases es.len(),
{
    if es.len() == 0 {
        Seq::empty()
    } else {
        let rest = string_values(es.drop_last(), k);
        match vget(es.last(), k) {
            Some(JsonView::Str(s)) => rest.push(JsonView::Str(s)),
            _ => rest,
        }
    }
}

/// The items of the arrays at `k`, entry by entry.
pub open spec fn array_items(es: Seq<JsonView>, k: Seq<char>) -> Seq<JsonView>
    decreases es.len(),
{
    if es.len() == 0 {
        Seq::empty()
    } else {
        let rest = array_items(es.drop_last(), k);
        match vget(es.last(), k) {
            Some(JsonView::Array(items)) => rest + items,
            _ => rest,
        }
    }
}

/// What `get` finds in `es[i]`, as a view.
proof fn lemma_entry_get(entries: Seq<JsonValue>, i: int, k: Seq<char>)
    requires
        0 <= i < entries.len(),
    ensures
        vget(jviews(entries)[i], k) == opt_jview(crate::json_value::get(entries[i], k)),
{
    lemma_jviews(entries);
    lemma_get_view(entries[i], k);
}

/// The value of `key` in the last entry that has one, copied.
pub fn last_value_of(entries: &Vec<JsonValue>, key: &str) -> (r: Option<JsonValue>)
    ensures
        opt_jview(r) == last_value(jviews(entries@), key@),
{
    let ghost es = jviews(entries@);
    proof {
        lemma_jviews(entries@);
        assert(es.take(es.len() as int) =~= es);
    }
    let mut i: usize = entries.len();
    while i > 0
        invariant
            i <= entries.len(),
            es == jviews(entries@),
            es.len() == entries@.len(),
            last_value(es, key@) == last_value(es.take(i as int), key@),
        decreases i,
    {
        proof {
            assert(es.take(i as int).drop_last() =~= es.take(i - 1));
            assert(es.take(i as int).last() == es[i - 1]);
            lemma_entry_get(entries@, i - 1, key@);
        }
        match json_get(&entries[i - 1], key) {
            Some(v) => {
                return Some(json_clone(v));
            },
            None => {},
        }
        i = i - 1;
    }
    None
}

/// Whether some entry sets `key` to `true`.
pub fn any_true_of(entries: &Vec<JsonValue>, key: &str) -> (r: bool)
    ensures
        r == any_true(jviews(entries@), key@),
{
    let ghost es = jviews(entries@);
    proof {
        lemma_jviews(entries@);
        assert(es.take(0) =~= Seq::<JsonView>::empty());
    }
    let mut found = false;
    let mut i: usize = 0;
    while i < entries.len()
        invariant
            i <= entries.len(),
            es == jviews(entries@),
            es.len() == entries@.len(),
            found == any_true(es.take(i as int), key@),
        decreases entries.len() - i,
    {
        proof {
            assert(es.take(i + 1).drop_last() =~= es.take(i as int));
            assert(es.take(i + 1).last() == es[i as int]);
            lemma_entry_get(entries@, i as int, key@);
        }
        match json_get(&entries[i], key) {
            Some(JsonValue::Bool(true)) => {
                found = true;
            },
            _ => {},
        }
        i = i + 1;
    }
    proof {
        assert(es.take(entries.len() as int) =~= es);
    }
    found
}

/// The values of `key`, entry by entry, copied; only strings when `strings_only`.
pub fn values_of(entries: &Vec<JsonValue>, key: &str, strings_only: bool) -> (r: Vec<JsonValue>)
    ensures
        jviews(r@) == if strings_only {
            string_values(jviews(entries@), key@)
        } else {
            present_values(jviews(entries@), key@)
        },
{
    let ghost es = jviews(entries@);
    proof {
        lemma_jviews(entries@);
        assert(es.take(0) =~= Seq::<JsonView>::empty());
        assert(jviews(Seq::<JsonValue>::empty()) =~= Seq::<JsonView>::empty());
    }
    let mut out: Vec<JsonValue> = Vec::new();
    let mut i: usize = 0;
    while i < entries.len()
        invariant
            i <= entries.len(),
            es == jviews(entries@),
            es.len() == entries@.len(),
            jviews(out@) == if strings_only {
                string_values(es.take(i as int), key@)
            } else {
                present_values(es.take(i as int), key@)
            },
        decreases entries.len() - i,
    {
        proof {
            assert(es.take(i + 1).drop_last() =~= es.take(i as int));
            assert(es.take(i + 1).last() == es[i as int]);
            lemma_entry_get(entries@, i as int, key@);
        }
        match json_get(&entries[i], key) {
            Some(v) => {
                let keep = match v {
                    JsonValue::Str(_) => true,
                    _ => !strings_only,
                };
                if keep {
                    let c = json_clone(v);
                    let ghost before = out@;
                    out.push(c);
                    proof {
                        lemma_jviews_push(before, c);
                    }
                }
            },
            None => {},
        }
        i = i + 1;
    }
    proof {
        assert(es.take(entries.len() as int) =~= es);
    }
    out
}

/// The items of the arrays at `key`, entry by entry, copied.
pub fn array_items_of(entries: &Vec<JsonValue>, key: &str) -> (r: Vec<JsonValue>)
    ensures
        jviews(r@) == array_items(jviews(entries@), key@),
{
    let ghost es = jviews(entries@);
    proof {
        lemma_jviews(entries@);
        assert(es.take(0) =~= Seq::<JsonView>::empty());
        assert(jviews(Seq::<JsonValue>::empty()) =~= Seq::<JsonView>::empty());
    }
    let mut out: Vec<JsonValue> = Vec::new();
    let mut i: usize = 0;
    while i < entries.len()
        invariant
            i <= entries.len(),
            es == jviews(entries@),
            es.len() == entries@.len(),
            jviews(out@) == array_items(es.take(i as int), key@),
        decreases entries.len() - i,
    {
        proof {
            assert(es.take(i + 1).drop_last() =~= es.take(i as int));
            assert(es.take(i + 1).last() == es[i as int]);
            lemma_entry_get(entries@, i as int, key@);
        }
        match json_get(&entries[i], key) {
            Some(JsonValue::Array(items)) => {
                let ghost start = jviews(out@);
                proof {
                    lemma_jviews(items@);
                    assert(jviews(items@).take(0) =~= Seq::<JsonView>::empty());
                }
                let mut j: usize = 0;
                while j < items.len()
                    invariant
                        j <= items.len(),
                        jviews(items@).len() == items@.len(),
                        forall|q: int|
                            0 <= q < items@.len() ==> #[trigger] jviews(items@)[q] == items@[q]@,
                        jviews(out@) == start + jviews(items@).take(j as int),
                    decreases items.len() - j,
                {
                    let c = json_clone(&items[j]);
                    let ghost before = out@;
                    out.push(c);
                    proof {
                        lemma_jviews_push(before, c);
                        assert(jviews(items@).take(j + 1) =~= jviews(items@).take(j as int).push(
                            items@[j as int]@,
                        ));
                    }
                    j = j + 1;
                }
                proof {
                    assert(jviews(items@).take(items.len() as int) =~= jviews(items@));
                }
            },
            _ => {},
        }
        i = i + 1;
    }
    proof {
        assert(es.take(entries.len() as int) =~= es);
    }
    out
}

/// The string items, each kept the first time it appears.
pub open spec fn unique_strings(items: Seq<JsonView>) -> Seq<JsonView>
    decreases items.len(),
{
    if items.len() == 0 {
        Seq::empty()
    } else {
        let rest = unique_strings(items.drop_last());
        match items.last() {
            JsonView::Str(t) => if rest.contains(JsonView::Str(t)) {
                rest
            } else {
                rest.push(JsonView::Str(t))
            },
            _ => rest,
        }
    }
}

/// Whether `out` holds the string `t`.
fn holds_string(out: &Vec<JsonValue>, t: &str) -> (r: bool)
    ensures
        r == jviews(out@).contains(JsonView::Str(t@)),
{
    proof {
        lemma_jviews(out@);
    }
    let mut j: usize = 0;
    while j < out.len()
        invariant
            j <= out.len(),
            jviews(out@).len() == out@.len(),
            forall|q: int| 0 <= q < out@.len() ==> #[trigger] jviews(out@)[q] == out@[q]@,
            forall|q: int| 0 <= q < j ==> jviews(out@)[q] != JsonView::Str(t@),
        decreases out.len() - j,
    {
        let same = match &out[j] {
            JsonValue::Str(u) => crate::text::str_eq(u.as_str(), t),
            _ => false,
        };
        if same {
            proof {
                assert(jviews(out@)[j as int] == JsonView::Str(t@));
            }
            return true;
        }
        j = j + 1;
    }
    false
}

/// The string items, each kept the first time it appears.
pub fn unique_strings_of(items: &Vec<JsonValue>) -> (r: Vec<JsonValue>)
    ensures
        jviews(r@) == unique_strings(jviews(items@)),
{
    let ghost vs = jviews(items@);
    proof {
        lemma_jviews(items@);
        assert(vs.take(0) =~= Seq::<JsonView>::empty());
        assert(jviews(Seq::<JsonValue>::empty()) =~= Seq::<JsonView>::empty());
    }
    let mut out: Vec<JsonValue> = Vec::new();
    let mut i: usize = 0;
    while i < items.len()
        invariant
            i <= items.len(),
            vs == jviews(items@),
            vs.len() == items@.len(),
            forall|q: int| 0 <= q < items@.len() ==> #[trigger] vs[q] == items@[q]@,
            jviews(out@) == unique_strings(vs.take(i as int)),
        decreases items.len() - i,
    {
        proof {
            assert(vs.take(i + 1).drop_last() =~= vs.take(i as int));
            assert(vs.take(i + 1).last() == vs[i as int]);
        }
        match &items[i] {
            JsonValue::Str(t) => {
                if !holds_string(&out, t.as_str()) {
                    let c = JsonValue::Str(crate::text::copy_string(t));
                    let ghost before = out@;
                    out.push(c);
                    proof {
                        lemma_jviews_push(before, c);
                    }
                }
            },
            _ => {},
        }
        i = i + 1;
    }
    proof {
        assert(vs.take(items.len() as int) =~= vs);
    }
    out
}

/// `m` with the entries of `add` put in, one after the other.
pub open spec fn fold_insert(m: Entries, add: Entries) -> Entries
    decreases add.len(),
{
    if add.len() == 0 {
        m
    } else {
        vinsert(fold_insert(m, add.drop_last()), add.last().0, add.last().1)
    }
}

/// The entries of the objects at `k`, combined entry by entry; a later
/// entry's value replaces an earlier one's.
pub open spec fn merged_objects(es: Seq<JsonView>, k: Seq<char>) -> Entries
    decreases es.len(),
{
    if es.len() == 0 {
        Seq::empty()
    } else {
        let m = merged_objects(es.drop_last(), k);
        match vget(es.last(), k) {
            Some(JsonView::Object(o)) => fold_insert(m, o),
            _ => m,
        }
    }
}

pub(crate) fn insert_all(m: &mut Vec<(String, JsonValue)>, add: &Vec<(String, JsonValue)>)
    ensures
        jentries(final(m)@) == fold_insert(jentries(old(m)@), jentries(add@)),
{
    let ghost start = jentries(m@);
    let ghost av = jentries(add@);
    proof {
        lemma_jentries(add@);
        assert(av.take(0) =~= Seq::<(Seq<char>, JsonView)>::empty());
    }
    let mut i: usize = 0;
    while i < add.len()
        invariant
            i <= add.len(),
            av == jentries(add@),
            av.len() == add@.len(),
            forall|q: int| 0 <= q < add@.len() ==> #[trigger] av[q] == (add@[q].0@, add@[q].1@),
            jentries(m@) == fold_insert(start, av.take(i as int)),
        decreases add.len() - i,
    {
        proof {
            assert(av.take(i + 1).drop_last() =~= av.take(i as int));
            assert(av.take(i + 1).last() == av[i as int]);
        }
        let k = crate::text::copy_string(&add[i].0);
        let v = json_clone(&add[i].1);
        object_insert(m, k, v);
        i = i + 1;
    }
    proof {
        assert(av.take(add.len() as int) =~= av);
    }
}

/// The objects at `key`, combined.
pub fn merged_objects_of(entries: &Vec<JsonValue>, key: &str) -> (r: Vec<(String, JsonValue)>)
    ensures
        jentries(r@) == merged_objects(jviews(entries@), key@),
{
    let ghost es = jviews(entries@);
    proof {
        lemma_jviews(entries@);
        assert(es.take(0) =~= Seq::<JsonView>::empty());
        assert(jentries(Seq::<(String, JsonValue)>::empty()) =~= Seq::<(Seq<char>, JsonView)>::empty());
    }
    let mut m: Vec<(String, JsonValue)> = Vec::new();
    let mut i: usize = 0;
    while i < entries.len()
        invariant
            i <= entries.len(),
            es == jviews(entries@),
            es.len() == entries@.len(),
            jentries(m@) == merged_objects(es.take(i as int), key@),
        decreases entries.len() - i,
    {
        proof {
            assert(es.take(i + 1).drop_last() =~= es.take(i as int));
            assert(es.take(i + 1).last() == es[i as int]);
            lemma_entry_get(entries@, i as int, key@);
        }
        match json_get(&entries[i], key) {
            Some(JsonValue::Object(o)) => {
                insert_all(&mut m, o);
            },
            _ => {},
        }
        i = i + 1;
    }
    proof {
        assert(es.take(entries.len() as int) =~= es);
    }
    m
}

/// `v` added to the list named `k`, which starts empty.
pub open spec fn vappend(m: Entries, k: Seq<char>, v: JsonView) -> Entries {
    match ventry(m, k) {
        Some(JsonView::Array(items)) => vinsert(m, k, JsonView::Array(items.push(v))),
        _ => vinsert(m, k, JsonView::Array(seq![v])),
    }
}

/// Each entry of `o` added to the list of its name.
pub open spec fn append_all(m: Entries, o: Entries) -> Entries
    decreases o.len(),
{
    if o.len() == 0 {
        m
    } else {
        vappend(append_all(m, o.drop_last()), o.last().0, o.last().1)
    }
}

/// The customizations of all entries, each tool's settings listed in order.
pub open spec fn merged_customizations(es: Seq<JsonView>) -> Entries
    decreases es.len(),
{
    if es.len() == 0 {
        Seq::empty()
    } else {
        let m = merged_customizations(es.drop_last());
        match vget(es.last(), "customizations"@) {
            Some(JsonView::Object(o)) => append_all(m, o),
            _ => m,
        }
    }
}

fn append_entry(m: &mut Vec<(String, JsonValue)>, k: &String, v: &JsonValue)
    ensures
        jentries(final(m)@) == vappend(jentries(old(m)@), k@, v@),
{
    proof {
        lemma_entry_value_view(m@, k@);
    }
    let items = match entries_get(m, k.as_str()) {
        Some(JsonValue::Array(items)) => {
            let mut copy: Vec<JsonValue> = Vec::new();
            let mut j: usize = 0;
            proof {
                lemma_jviews(items@);
                assert(jviews(copy@) =~= jviews(items@).take(0));
            }
            while j < items.len()
                invariant
                    j <= items.len(),
                    jviews(items@).len() == items@.len(),
                    forall|q: int|
                        0 <= q < items@.len() ==> #[trigger] jviews(items@)[q] == items@[q]@,
                    jviews(copy@) == jviews(items@).take(j as int),
                decreases items.len() - j,
            {
                let c = json_clone(&items[j]);
                let ghost before = copy@;
                copy.push(c);
                proof {
                    lemma_jviews_push(before, c);
                    assert(jviews(items@).take(j + 1) =~= jviews(items@).take(j as int).push(
                        items@[j as int]@,
                    ));
                }
                j = j + 1;
            }
            proof {
                assert(jviews(items@).take(items.len() as int) =~= jviews(items@));
            }
            copy
        },
        _ => {
            let copy: Vec<JsonValue> = Vec::new();
            proof {
                assert(jviews(copy@) =~= Seq::<JsonView>::empty());
            }
            copy
        },
    };
    let mut items = items;
    let c = json_clone(v);
    let ghost before = items@;
    items.push(c);
    proof {
        lemma_jviews_push(before, c);
        assert(Seq::<JsonView>::empty().push(v@) =~= seq![v@]);
    }
    object_insert(m, crate::text::copy_string(k), JsonValue::Array(items));
}

/// The customizations of all entries.
pub fn merged_customizations_of(entries: &Vec<JsonValue>) -> (r: Vec<(String, JsonValue)>)
    ensures
        jentries(r@) == merged_customizations(jviews(entries@)),
{
    let ghost es = jviews(entries@);
    proof {
        lemma_jviews(entries@);
        assert(es.take(0) =~= Seq::<JsonView>::empty());
        assert(jentries(Seq::<(String, JsonValue)>::empty()) =~= Seq::<(Seq<char>, JsonView)>::empty());
    }
    let mut m: Vec<(String, JsonValue)> = Vec::new();
    let mut i: usize = 0;
    while i < entries.len()
        invariant
            i <= entries.len(),
            es == jviews(entries@),
            es.len() == entries@.len(),
            jentries(m@) == merged_customizations(es.take(i as int)),
        decreases entries.len() - i,
    {
        proof {
            assert(es.take(i + 1).drop_last() =~= es.take(i as int));
            assert(es.take(i + 1).last() == es[i as int]);
            lemma_entry_get(entries@, i as int, "customizations"@);
        }
        match json_get(&entries[i], "customizations") {
            Some(JsonValue::Object(o)) => {
                let ghost start = jentries(m@);
                let ghost ov = jentries(o@);
                proof {
                    lemma_jentries(o@);
                    assert(ov.take(0) =~= Seq::<(Seq<char>, JsonView)>::empty());
                }
                let mut j: usize = 0;
                while j < o.len()
                    invariant
                        j <= o.len(),
                        ov == jentries(o@),
                        ov.len() == o@.len(),
                        forall|q: int| 0 <= q < o@.len() ==> #[trigger] ov[q] == (o@[q].0@, o@[q].1@),
                        jentries(m@) == append_all(start, ov.take(j as int)),
                    decreases o.len() - j,
                {
                    proof {
                        assert(ov.take(j + 1).drop_last() =~= ov.take(j as int));
                        assert(ov.take(j + 1).last() == ov[j as int]);
                    }
                    append_entry(&mut m, &o[j].0, &o[j].1);
                    j = j + 1;
                }
                proof {
                    assert(ov.take(o.len() as int) =~= ov);
                }
            },
            _ => {},
        }
        i = i + 1;
    }
    proof {
        assert(es.take(entries.len() as int) =~= es);
    }
    m
}

/// Where a configured mount goes: the target of a mount string, or the
/// `target` string of a mount object.
pub open spec fn mount_target(v: JsonView) -> Option<Seq<char>> {
    match v {
        JsonView::Str(t) => crate::mounts::first_target(crate::mounts::mount_options(t)),
        JsonView::Object(o) => match ventry(o, "target"@) {
            Some(JsonView::Str(t)) => Some(t),
            _ => None,
        },
        _ => None,
    }
}

/// The targets of the mounts, in order.
pub open spec fn targets_in(items: Seq<JsonView>) -> Seq<Seq<char>>
    decreases items.len(),
{
    if items.len() == 0 {
        Seq::empty()
    } else {
        match mount_target(items[0]) {
            Some(t) => seq![t] + targets_in(items.drop_first()),
            None => targets_in(items.drop_first()),
        }
    }
}

/// The mounts in order, each dropped when a later mount has the same target.
pub open spec fn kept_mounts(items: Seq<JsonView>) -> Seq<JsonView>
    decreases items.len(),
{
    if items.len() == 0 {
        Seq::empty()
    } else {
        let rest = kept_mounts(items.drop_first());
        match mount_target(items[0]) {
            Some(t) => if targets_in(items.drop_first()).contains(t) {
                rest
            } else {
                seq![items[0]] + rest
            },
            None => seq![items[0]] + rest,
        }
    }
}

fn mount_target_of(v: &JsonValue) -> (r: Option<String>)
    ensures
        crate::text::opt_view(r) == mount_target(v@),
{
    match v {
        JsonValue::Str(t) => crate::mounts::mount_option_target(t.as_str()),
        JsonValue::Object(o) => {
            proof {
                lemma_entry_value_view(o@, "target"@);
            }
            match entries_get(o, "target") {
                Some(JsonValue::Str(t)) => Some(crate::text::copy_string(t)),
                _ => None,
            }
        },
        _ => None,
    }
}

pub(crate) fn holds_text(seen: &Vec<String>, t: &str) -> (r: bool)
    ensures
        r == crate::text::views(seen@).contains(t@),
{
    let mut j: usize = 0;
    while j < seen.len()
        invariant
            j <= seen.len(),
            forall|q: int| 0 <= q < j ==> crate::text::views(seen@)[q] != t@,
        decreases seen.len() - j,
    {
        if crate::text::str_eq(seen[j].as_str(), t) {
            proof {
                assert(crate::text::views(seen@)[j as int] == t@);
            }
            return true;
        }
        j = j + 1;
    }
    false
}

/// The mounts kept when later ones take their targets.
pub fn kept_mounts_of(items: &Vec<JsonValue>) -> (r: Vec<JsonValue>)
    ensures
        jviews(r@) == kept_mounts(jviews(items@)),
{
    let ghost vs = jviews(items@);
    proof {
        lemma_jviews(items@);
        assert(vs.skip(items.len() as int) =~= Seq::<JsonView>::empty());
        assert(jviews(Seq::<JsonValue>::empty()) =~= Seq::<JsonView>::empty());
        assert(crate::text::views(Seq::<String>::empty()) =~= Seq::<Seq<char>>::empty());
    }
    let mut out: Vec<JsonValue> = Vec::new();
    let mut seen: Vec<String> = Vec::new();
    let mut j: usize = items.len();
    while j > 0
        invariant
            j <= items.len(),
            vs == jviews(items@),
            vs.len() == items@.len(),
            forall|q: int| 0 <= q < items@.len() ==> #[trigger] vs[q] == items@[q]@,
            jviews(out@) == kept_mounts(vs.skip(j as int)),
            crate::text::views(seen@) == targets_in(vs.skip(j as int)),
        decreases j,
    {
        let ghost t = vs.skip(j - 1);
        proof {
            assert(t.drop_first() =~= vs.skip(j as int));
            assert(t[0] == vs[j - 1]);
        }
        let x = &items[j - 1];
        match mount_target_of(x) {
            Some(target) => {
                let already = holds_text(&seen, target.as_str());
                if !already {
                    let c = json_clone(x);
                    let ghost before = out@;
                    out.insert(0, c);
                    proof {
                        lemma_jviews(before);
                        lemma_jviews(out@);
                        assert(jviews(out@) =~= seq![c@] + jviews(before));
                    }
                }
                let ghost seen_before = seen@;
                seen.insert(0, target);
                proof {
                    assert(crate::text::views(seen@) =~= seq![target@] + crate::text::views(seen_before));
                }
            },
            None => {
                let c = json_clone(x);
                let ghost before = out@;
                out.insert(0, c);
                proof {
                    lemma_jviews(before);
                    lemma_jviews(out@);
                    assert(jviews(out@) =~= seq![c@] + jviews(before));
                }
            },
        }
        j = j - 1;
    }
    proof {
        assert(vs.skip(0) =~= vs);
    }
    out
}

/// `localhost:`, the host a bare port number stands for.
pub open spec fn localhost_prefix() -> Seq<char> {
    "localhost:"@
}

/// What a forwarded port is compared by: `localhost:` and the number for a
/// number, the text for a string; other values are never merged.
pub open spec fn port_key(v: JsonView) -> Option<Seq<char>> {
    match v {
        JsonView::Number(n) => Some(localhost_prefix() + n),
        JsonView::Str(s) => Some(s),
        _ => None,
    }
}

/// Whether every character is an ASCII digit.
pub open spec fn all_digits(s: Seq<char>) -> bool {
    forall|i: int| 0 <= i < s.len() ==> '0' <= #[trigger] s[i] && s[i] <= '9'
}

/// A forwarded port as it is listed: `localhost:` and digits become the
/// number, anything else stays as it is.
pub open spec fn port_out(v: JsonView) -> JsonView {
    match port_key(v) {
        Some(k) => if k.len() > localhost_prefix().len() && k.take(localhost_prefix().len() as int)
            == localhost_prefix() && all_digits(k.skip(localhost_prefix().len() as int)) {
            JsonView::Number(k.skip(localhost_prefix().len() as int))
        } else {
            v
        },
        None => v,
    }
}

/// Whether some listed port has key `k`.
pub open spec fn has_port_key(s: Seq<JsonView>, k: Seq<char>) -> bool {
    exists|i: int| 0 <= i < s.len() && port_key(#[trigger] s[i]) == Some(k)
}

/// The forwarded ports, each listed the first time its key appears.
pub open spec fn unique_ports(items: Seq<JsonView>) -> Seq<JsonView>
    decreases items.len(),
{
    if items.len() == 0 {
        Seq::empty()
    } else {
        let rest = unique_ports(items.drop_last());
        let x = items.last();
        match port_key(x) {
            Some(k) => if has_port_key(rest, k) {
                rest
            } else {
                rest.push(port_out(x))
            },
            None => rest.push(x),
        }
    }
}

/// Listing a port keeps its key.
proof fn lemma_port_out_key(v: JsonView)
    ensures
        port_key(port_out(v)) == port_key(v),
{
    match port_key(v) {
        Some(k) => {
            let p = localhost_prefix();
            if k.len() > p.len() && k.take(p.len() as int) == p && all_digits(k.skip(p.len() as int)) {
                assert(k =~= p + k.skip(p.len() as int));
            }
        },
        None => {},
    }
}

fn port_key_of(v: &JsonValue) -> (r: Option<String>)
    ensures
        crate::text::opt_view(r) == port_key(v@),
{
    match v {
        JsonValue::Number(n) => {
            let mut k = String::from_str("localhost:");
            k.append(n.as_str());
            Some(k)
        },
        JsonValue::Str(s) => Some(crate::text::copy_string(s)),
        _ => None,
    }
}

fn port_out_of(v: &JsonValue) -> (r: JsonValue)
    ensures
        r@ == port_out(v@),
{
    match port_key_of(v) {
        Some(k) => {
            let kv = crate::text::chars_of(k.as_str());
            proof {
                reveal_strlit("localhost:");
            }
            if kv.len() > 10 && crate::text::str_starts_with(k.as_str(), "localhost:") {
                let mut i: usize = 10;
                let mut digits = true;
                while i < kv.len()
                    invariant
                        10 <= i <= kv.len(),
                        kv@ == k@,
                        digits == (forall|q: int| 10 <= q < i ==> '0' <= #[trigger] kv@[q] && kv@[q] <= '9'),
                    decreases kv.len() - i,
                {
                    if !('0' <= kv[i] && kv[i] <= '9') {
                        digits = false;
                    }
                    i = i + 1;
                }
                proof {
                    let p = localhost_prefix();
                    assert(p.len() == 10);
                    assert(crate::text::starts_with(k@, p) ==> k@.take(10) =~= p);
                    let rest = k@.skip(10);
                    assert(all_digits(rest) == (forall|q: int| 10 <= q < kv.len() ==> '0' <= #[trigger] kv@[q] && kv@[q] <= '9')) by {
                        if all_digits(rest) {
                            assert forall|q: int| 10 <= q < kv.len() implies '0' <= #[trigger] kv@[q] && kv@[q] <= '9' by {
                                assert(rest[q - 10] == kv@[q]);
                            }
                        }
                        if forall|q: int| 10 <= q < kv.len() ==> '0' <= #[trigger] kv@[q] && kv@[q] <= '9' {
                            assert forall|q: int| 0 <= q < rest.len() implies '0' <= #[trigger] rest[q] && rest[q] <= '9' by {
                                assert(rest[q] == kv@[q + 10]);
                            }
                        }
                    }
                }
                if digits {
                    let d = crate::text::slice_chars(&kv, 10, kv.len());
                    proof {
                        assert(d@ =~= k@.skip(10));
                    }
                    return JsonValue::Number(crate::text::string_of(&d));
                }
            }
            json_clone(v)
        },
        None => json_clone(v),
    }
}

fn holds_port_key(out: &Vec<JsonValue>, k: &str) -> (r: bool)
    ensures
        r == has_port_key(jviews(out@), k@),
{
    proof {
        lemma_jviews(out@);
    }
    let mut j: usize = 0;
    while j < out.len()
        invariant
            j <= out.len(),
            jviews(out@).len() == out@.len(),
            forall|q: int| 0 <= q < out@.len() ==> #[trigger] jviews(out@)[q] == out@[q]@,
            forall|q: int| 0 <= q < j ==> port_key(#[trigger] jviews(out@)[q]) != Some(k@),
        decreases out.len() - j,
    {
        match port_key_of(&out[j]) {
            Some(other) => {
                if crate::text::str_eq(other.as_str(), k) {
                    proof {
                        assert(port_key(jviews(out@)[j as int]) == Some(k@));
                    }
                    return true;
                }
            },
            None => {},
        }
        j = j + 1;
    }
    false
}

/// The forwarded ports, each listed once.
pub fn unique_ports_of(items: &Vec<JsonValue>) -> (r: Vec<JsonValue>)
    ensures
        jviews(r@) == unique_ports(jviews(items@)),
{
    let ghost vs = jviews(items@);
    proof {
        lemma_jviews(items@);
        assert(vs.take(0) =~= Seq::<JsonView>::empty());
        assert(jviews(Seq::<JsonValue>::empty()) =~= Seq::<JsonView>::empty());
    }
    let mut out: Vec<JsonValue> = Vec::new();
    let mut i: usize = 0;
    while i < items.len()
        invariant
            i <= items.len(),
            vs == jviews(items@),
            vs.len() == items@.len(),
            forall|q: int| 0 <= q < items@.len() ==> #[trigger] vs[q] == items@[q]@,
            jviews(out@) == unique_ports(vs.take(i as int)),
        decreases items.len() - i,
    {
        proof {
            assert(vs.take(i + 1).drop_last() =~= vs.take(i as int));
            assert(vs.take(i + 1).last() == vs[i as int]);
        }
        match port_key_of(&items[i]) {
            Some(k) => {
                if !holds_port_key(&out, k.as_str()) {
                    let c = port_out_of(&items[i]);
                    let ghost before = out@;
                    out.push(c);
                    proof {
                        lemma_jviews_push(before, c);
                    }
                }
            },
            None => {
                let c = json_clone(&items[i]);
                let ghost before = out@;
                out.push(c);
                proof {
                    lemma_jviews_push(before, c);
                }
            },
        }
        i = i + 1;
    }
    proof {
        assert(vs.take(items.len() as int) =~= vs);
    }
    out
}

/// The entries of an object, none for another value.
pub open spec fn base_entries(c: JsonView) -> Entries {
    match c {
        JsonView::Object(e) => e,
        _ => Seq::empty(),
    }
}

/// The configuration without its customizations, entrypoint, lifecycle
/// commands and shutdown action, which the merge lists anew.
pub open spec fn without_merged_keys(m: Entries) -> Entries {
    vremove(
        vremove(
            vremove(
                vremove(
                    vremove(
                        vremove(vremove(vremove(m, "customizations"@), "entrypoint"@), "onCreateCommand"@),
                        "updateContentCommand"@,
                    ),
                    "postCreateCommand"@,
                ),
                "postStartCommand"@,
            ),
            "postAttachCommand"@,
        ),
        "shutdownAction"@,
    )
}

/// `items` as a list at `k`, unless there are none.
pub open spec fn insert_array(m: Entries, k: Seq<char>, items: Seq<JsonView>) -> Entries {
    if items.len() == 0 {
        m
    } else {
        vinsert(m, k, JsonView::Array(items))
    }
}

/// `o` as an object at `k`, unless it is empty.
pub open spec fn insert_object(m: Entries, k: Seq<char>, o: Entries) -> Entries {
    if o.len() == 0 {
        m
    } else {
        vinsert(m, k, JsonView::Object(o))
    }
}

/// The last entry's value of `k`, when one has it.
pub open spec fn insert_last(m: Entries, es: Seq<JsonView>, k: Seq<char>) -> Entries {
    match last_value(es, k) {
        Some(v) => vinsert(m, k, v),
        None => m,
    }
}

/// `true` at `k` when some entry sets it.
pub open spec fn insert_true(m: Entries, es: Seq<JsonView>, k: Seq<char>) -> Entries {
    if any_true(es, k) {
        vinsert(m, k, JsonView::Bool(true))
    } else {
        m
    }
}

/// `init` and `privileged` when any entry sets them; the united
/// capabilities and security options; the string entrypoints; the mounts
/// whose targets no later mount takes; the customizations.
pub open spec fn merged_lists(m: Entries, es: Seq<JsonView>) -> Entries {
    let m1 = insert_true(insert_true(m, es, "init"@), es, "privileged"@);
    let m2 = insert_array(
        insert_array(m1, "capAdd"@, unique_strings(array_items(es, "capAdd"@))),
        "securityOpt"@,
        unique_strings(array_items(es, "securityOpt"@)),
    );
    let m3 = insert_array(
        insert_array(m2, "entrypoints"@, string_values(es, "entrypoint"@)),
        "mounts"@,
        kept_mounts(array_items(es, "mounts"@)),
    );
    insert_object(m3, "customizations"@, merged_customizations(es))
}

/// Every entry's lifecycle command, listed per stage.
pub open spec fn merged_commands(m: Entries, es: Seq<JsonView>) -> Entries {
    insert_array(
        insert_array(
            insert_array(
                insert_array(
                    insert_array(m, "onCreateCommands"@, present_values(es, "onCreateCommand"@)),
                    "updateContentCommands"@,
                    present_values(es, "updateContentCommand"@),
                ),
                "postCreateCommands"@,
                present_values(es, "postCreateCommand"@),
            ),
            "postStartCommands"@,
            present_values(es, "postStartCommand"@),
        ),
        "postAttachCommands"@,
        present_values(es, "postAttachCommand"@),
    )
}

/// The last workspace folder, wait stage, users and probe; the combined
/// environments.
pub open spec fn merged_settings(m: Entries, es: Seq<JsonView>) -> Entries {
    let m1 = insert_last(
        insert_last(
            insert_last(
                insert_last(insert_last(m, es, "workspaceFolder"@), es, "waitFor"@),
                es,
                "remoteUser"@,
            ),
            es,
            "containerUser"@,
        ),
        es,
        "userEnvProbe"@,
    );
    insert_object(
        insert_object(m1, "remoteEnv"@, merged_objects(es, "remoteEnv"@)),
        "containerEnv"@,
        merged_objects(es, "containerEnv"@),
    )
}

/// The override command, port attributes, forwarded ports, shutdown
/// action, user id update and the combined host requirements.
pub open spec fn merged_ports(m: Entries, es: Seq<JsonView>) -> Entries {
    let m1 = insert_object(
        insert_last(m, es, "overrideCommand"@),
        "portsAttributes"@,
        merged_objects(es, "portsAttributes"@),
    );
    let m2 = insert_array(
        insert_last(m1, es, "otherPortsAttributes"@),
        "forwardPorts"@,
        unique_ports(array_items(es, "forwardPorts"@)),
    );
    insert_object(
        insert_last(insert_last(m2, es, "shutdownAction"@), es, "updateRemoteUserUID"@),
        "hostRequirements"@,
        crate::host_requirements::host_requirements_of(es),
    )
}

/// The configuration merged with the metadata entries.
pub open spec fn merged_configuration_of(c: JsonView, es: Seq<JsonView>) -> JsonView {
    JsonView::Object(
        merged_ports(
            merged_settings(merged_commands(merged_lists(without_merged_keys(base_entries(c)), es), es), es),
            es,
        ),
    )
}

pub(crate) fn insert_array_into(m: &mut Vec<(String, JsonValue)>, key: &str, items: Vec<JsonValue>)
    ensures
        jentries(final(m)@) == insert_array(jentries(old(m)@), key@, jviews(items@)),
{
    proof {
        lemma_jviews(items@);
    }
    if items.len() > 0 {
        object_insert(m, String::from_str(key), JsonValue::Array(items));
    }
}

pub(crate) fn insert_object_into(m: &mut Vec<(String, JsonValue)>, key: &str, o: Vec<(String, JsonValue)>)
    ensures
        jentries(final(m)@) == insert_object(jentries(old(m)@), key@, jentries(o@)),
{
    proof {
        lemma_jentries(o@);
    }
    if o.len() > 0 {
        object_insert(m, String::from_str(key), JsonValue::Object(o));
    }
}

pub(crate) fn insert_last_into(m: &mut Vec<(String, JsonValue)>, entries: &Vec<JsonValue>, key: &str)
    ensures
        jentries(final(m)@) == insert_last(jentries(old(m)@), jviews(entries@), key@),
{
    match last_value_of(entries, key) {
        Some(v) => object_insert(m, String::from_str(key), v),
        None => {},
    }
}

pub(crate) fn insert_true_into(m: &mut Vec<(String, JsonValue)>, entries: &Vec<JsonValue>, key: &str)
    ensures
        jentries(final(m)@) == insert_true(jentries(old(m)@), jviews(entries@), key@),
{
    if any_true_of(entries, key) {
        object_insert(m, String::from_str(key), JsonValue::Bool(true));
    }
}

fn merge_lists_into(m: &mut Vec<(String, JsonValue)>, entries: &Vec<JsonValue>)
    ensures
        jentries(final(m)@) == merged_lists(jentries(old(m)@), jviews(entries@)),
{
    insert_true_into(m, entries, "init");
    insert_true_into(m, entries, "privileged");
    let caps = array_items_of(entries, "capAdd");
    insert_array_into(m, "capAdd", unique_strings_of(&caps));
    let security = array_items_of(entries, "securityOpt");
    insert_array_into(m, "securityOpt", unique_strings_of(&security));
    insert_array_into(m, "entrypoints", values_of(entries, "entrypoint", true));
    let mounts = array_items_of(entries, "mounts");
    insert_array_into(m, "mounts", kept_mounts_of(&mounts));
    insert_object_into(m, "customizations", merged_customizations_of(entries));
}

fn merge_commands_into(m: &mut Vec<(String, JsonValue)>, entries: &Vec<JsonValue>)
    ensures
        jentries(final(m)@) == merged_commands(jentries(old(m)@), jviews(entries@)),
{
    insert_array_into(m, "onCreateCommands", values_of(entries, "onCreateCommand", false));
    insert_array_into(m, "updateContentCommands", values_of(entries, "updateContentCommand", false));
    insert_array_into(m, "postCreateCommands", values_of(entries, "postCreateCommand", false));
    insert_array_into(m, "postStartCommands", values_of(entries, "postStartCommand", false));
    insert_array_into(m, "postAttachCommands", values_of(entries, "postAttachCommand", false));
}

fn merge_settings_into(m: &mut Vec<(String, JsonValue)>, entries: &Vec<JsonValue>)
    ensures
        jentries(final(m)@) == merged_settings(jentries(old(m)@), jviews(entries@)),
{
    insert_last_into(m, entries, "workspaceFolder");
    insert_last_into(m, entries, "waitFor");
    insert_last_into(m, entries, "remoteUser");
    insert_last_into(m, entries, "containerUser");
    insert_last_into(m, entries, "userEnvProbe");
    insert_object_into(m, "remoteEnv", merged_objects_of(entries, "remoteEnv"));
    insert_object_into(m, "containerEnv", merged_objects_of(entries, "containerEnv"));
}

fn merge_ports_into(m: &mut Vec<(String, JsonValue)>, entries: &Vec<JsonValue>)
    ensures
        jentries(final(m)@) == merged_ports(jentries(old(m)@), jviews(entries@)),
{
    insert_last_into(m, entries, "overrideCommand");
    insert_object_into(m, "portsAttributes", merged_objects_of(entries, "portsAttributes"));
    insert_last_into(m, entries, "otherPortsAttributes");
    let ports = array_items_of(entries, "forwardPorts");
    insert_array_into(m, "forwardPorts", unique_ports_of(&ports));
    insert_last_into(m, entries, "shutdownAction");
    insert_last_into(m, entries, "updateRemoteUserUID");
    insert_object_into(m, "hostRequirements", crate::host_requirements::host_requirements(entries));
}

/// The configuration merged with the metadata entries of its image and
/// features, in order.
pub fn merge_configuration(configuration: &JsonValue, metadata_entries: &Vec<JsonValue>) -> (r: JsonValue)
    ensures
        r@ == merged_configuration_of(configuration@, jviews(metadata_entries@)),
{
    let mut m: Vec<(String, JsonValue)> = match json_clone(configuration) {
        JsonValue::Object(e) => e,
        _ => Vec::new(),
    };
    proof {
        assert(jentries(Seq::<(String, JsonValue)>::empty()) =~= Seq::<(Seq<char>, JsonView)>::empty());
        assert(jentries(m@) == base_entries(configuration@));
    }
    object_remove(&mut m, "customizations");
    object_remove(&mut m, "entrypoint");
    object_remove(&mut m, "onCreateCommand");
    object_remove(&mut m, "updateContentCommand");
    object_remove(&mut m, "postCreateCommand");
    object_remove(&mut m, "postStartCommand");
    object_remove(&mut m, "postAttachCommand");
    object_remove(&mut m, "shutdownAction");
    merge_lists_into(&mut m, metadata_entries);
    merge_commands_into(&mut m, metadata_entries);
    merge_settings_into(&mut m, metadata_entries);
    merge_ports_into(&mut m, metadata_entries);
    JsonValue::Object(m)
}

/// Whether some mount of `s` has target `t`.
pub open spec fn has_target(s: Seq<JsonView>, t: Seq<char>) -> bool {
    exists|j: int| 0 <= j < s.len() && mount_target(#[trigger] s[j]) == Some(t)
}

/// Merged mounts: no two kept mounts have the same target, and every target
/// among the given mounts is still the target of a kept mount.
pub proof fn lemma_kept_mounts_targets(items: Seq<JsonView>)
    ensures
        forall|i: int, j: int|
            0 <= i < j < kept_mounts(items).len() && mount_target(kept_mounts(items)[i]) is Some ==> mount_target(
                #[trigger] kept_mounts(items)[i],
            ) != mount_target(#[trigger] kept_mounts(items)[j]),
        forall|t: Seq<char>| targets_in(items).contains(t) <==> has_target(kept_mounts(items), t),
    decreases items.len(),
{
    if items.len() > 0 {
        let r = items.drop_first();
        let x = items[0];
        lemma_kept_mounts_targets(r);
        let kr = kept_mounts(r);
        let k = kept_mounts(items);
        match mount_target(x) {
            Some(t) => {
                if targets_in(r).contains(t) {
                    assert(k == kr);
                    assert(targets_in(items) == seq![t] + targets_in(r));
                    assert forall|u: Seq<char>| targets_in(items).contains(u) <==> has_target(k, u) by {
                        if targets_in(items).contains(u) {
                            let q = choose|q: int| 0 <= q < targets_in(items).len() && targets_in(items)[q] == u;
                            if q > 0 {
                                assert(targets_in(r)[q - 1] == u);
                                assert(targets_in(r).contains(u));
                            }
                        }
                        if targets_in(r).contains(u) {
                            let q = choose|q: int| 0 <= q < targets_in(r).len() && targets_in(r)[q] == u;
                            assert(targets_in(items)[q + 1] == u);
                        }
                    }
                } else {
                    assert(k == seq![x] + kr);
                    assert(targets_in(items) == seq![t] + targets_in(r));
                    assert forall|i: int, j: int|
                        0 <= i < j < k.len() && mount_target(k[i]) is Some implies mount_target(#[trigger] k[i])
                        != mount_target(#[trigger] k[j]) by {
                        if i == 0 {
                            assert(k[j] == kr[j - 1]);
                            if mount_target(kr[j - 1]) == Some(t) {
                                assert(has_target(kr, t));
                            }
                        } else {
                            assert(k[i] == kr[i - 1] && k[j] == kr[j - 1]);
                        }
                    }
                    assert forall|u: Seq<char>| targets_in(items).contains(u) <==> has_target(k, u) by {
                        if targets_in(items).contains(u) {
                            let q = choose|q: int| 0 <= q < targets_in(items).len() && targets_in(items)[q] == u;
                            if q > 0 {
                                assert(targets_in(r)[q - 1] == u);
                                assert(targets_in(r).contains(u));
                                let w = choose|w: int| 0 <= w < kr.len() && mount_target(kr[w]) == Some(u);
                                assert(k[w + 1] == kr[w]);
                            } else {
                                assert(k[0] == x);
                            }
                        }
                        if has_target(k, u) {
                            let w = choose|w: int| 0 <= w < k.len() && mount_target(k[w]) == Some(u);
                            if w > 0 {
                                assert(k[w] == kr[w - 1]);
                                assert(has_target(kr, u));
                                let q = choose|q: int| 0 <= q < targets_in(r).len() && targets_in(r)[q] == u;
                                assert(targets_in(items)[q + 1] == u);
                            } else {
                                assert(targets_in(items)[0] == u);
                            }
                        }
                    }
                }
            },
            None => {
                assert(k == seq![x] + kr);
                assert(targets_in(items) == targets_in(r));
                assert forall|i: int, j: int|
                    0 <= i < j < k.len() && mount_target(k[i]) is Some implies mount_target(#[trigger] k[i])
                    != mount_target(#[trigger] k[j]) by {
                    if i > 0 {
                        assert(k[i] == kr[i - 1] && k[j] == kr[j - 1]);
                    }
                }
                assert forall|u: Seq<char>| targets_in(items).contains(u) <==> has_target(k, u) by {
                    if has_target(kr, u) {
                        let w = choose|w: int| 0 <= w < kr.len() && mount_target(kr[w]) == Some(u);
                        assert(k[w + 1] == kr[w]);
                    }
                    if has_target(k, u) {
                        let w = choose|w: int| 0 <= w < k.len() && mount_target(k[w]) == Some(u);
                        if w > 0 {
                            assert(k[w] == kr[w - 1]);
                        }
                    }
                }
            },
        }
    }
}

/// Merged forwarded ports: no two listed ports have the same key.
pub proof fn lemma_unique_ports_distinct(items: Seq<JsonView>)
    ensures
        forall|i: int, j: int|
            0 <= i < j < unique_ports(items).len() && port_key(unique_ports(items)[i]) is Some ==> port_key(
                #[trigger] unique_ports(items)[i],
            ) != port_key(#[trigger] unique_ports(items)[j]),
    decreases items.len(),
{
    if items.len() > 0 {
        lemma_unique_ports_distinct(items.drop_last());
        let rest = unique_ports(items.drop_last());
        let x = items.last();
        let r = unique_ports(items);
        match port_key(x) {
            Some(k) => {
                if !has_port_key(rest, k) {
                    lemma_port_out_key(x);
                    assert(r == rest.push(port_out(x)));
                    assert forall|i: int, j: int|
                        0 <= i < j < r.len() && port_key(r[i]) is Some implies port_key(#[trigger] r[i]) != port_key(
                            #[trigger] r[j],
                        ) by {
                        if j == r.len() - 1 {
                            assert(r[i] == rest[i]);
                            if port_key(rest[i]) == Some(k) {
                                assert(has_port_key(rest, k));
                            }
                        } else {
                            assert(r[i] == rest[i] && r[j] == rest[j]);
                        }
                    }
                }
            },
            None => {
                assert(r == rest.push(x));
                assert forall|i: int, j: int|
                    0 <= i < j < r.len() && port_key(r[i]) is Some implies port_key(#[trigger] r[i]) != port_key(
                        #[trigger] r[j],
                    ) by {
                    if j < r.len() - 1 {
                        assert(r[i] == rest[i] && r[j] == rest[j]);
                    } else {
                        assert(r[i] == rest[i]);
                    }
                }
            },
        }
    }
}

pub(crate) proof fn lemma_insert_last_reads(m: Entries, es: Seq<JsonView>, k: Seq<char>, other: Seq<char>)
    ensures
        ventry(insert_last(m, es, k), k) == match last_value(es, k) {
            Some(v) => Some(v),
            None => ventry(m, k),
        },
        other != k ==> ventry(insert_last(m, es, k), other) == ventry(m, other),
{
    match last_value(es, k) {
        Some(v) => crate::json_object::lemma_vinsert_reads(m, k, v, other),
        None => {},
    }
}

pub(crate) proof fn lemma_insert_object_other(m: Entries, k: Seq<char>, o: Entries, other: Seq<char>)
    requires
        other != k,
    ensures
        ventry(insert_object(m, k, o), other) == ventry(m, other),
{
    if o.len() > 0 {
        crate::json_object::lemma_vinsert_reads(m, k, JsonView::Object(o), other);
    }
}

proof fn lemma_insert_array_other(m: Entries, k: Seq<char>, items: Seq<JsonView>, other: Seq<char>)
    requires
        other != k,
    ensures
        ventry(insert_array(m, k, items), other) == ventry(m, other),
{
    if items.len() > 0 {
        crate::json_object::lemma_vinsert_reads(m, k, JsonView::Array(items), other);
    }
}

/// In a merged configuration, each single setting (workspace folder, wait
/// stage, users, environment probe, override command, other ports'
/// attributes, shutdown action, user id update, host requirements) is the
/// one of the last entry that sets it.
pub proof fn lemma_merged_last_setting_wins(c: JsonView, es: Seq<JsonView>, key: Seq<char>)
    requires
        key == "workspaceFolder"@ || key == "waitFor"@ || key == "remoteUser"@ || key == "containerUser"@ || key
            == "userEnvProbe"@ || key == "overrideCommand"@ || key == "otherPortsAttributes"@ || key
            == "shutdownAction"@ || key == "updateRemoteUserUID"@,
        last_value(es, key) is Some,
    ensures
        vget(merged_configuration_of(c, es), key) == last_value(es, key),
{
    reveal_strlit("workspaceFolder");
    reveal_strlit("waitFor");
    reveal_strlit("remoteUser");
    reveal_strlit("containerUser");
    reveal_strlit("userEnvProbe");
    reveal_strlit("remoteEnv");
    reveal_strlit("containerEnv");
    reveal_strlit("overrideCommand");
    reveal_strlit("portsAttributes");
    reveal_strlit("otherPortsAttributes");
    reveal_strlit("forwardPorts");
    reveal_strlit("shutdownAction");
    reveal_strlit("updateRemoteUserUID");
    reveal_strlit("hostRequirements");
    assert("workspaceFolder"@.len() == 15 && "workspaceFolder"@[0] == 'w');
    assert("waitFor"@.len() == 7);
    assert("remoteUser"@.len() == 10);
    assert("containerUser"@.len() == 13);
    assert("userEnvProbe"@.len() == 12 && "userEnvProbe"@[0] == 'u');
    assert("remoteEnv"@.len() == 9);
    assert("containerEnv"@.len() == 12 && "containerEnv"@[0] == 'c');
    assert("overrideCommand"@.len() == 15 && "overrideCommand"@[0] == 'o');
    assert("portsAttributes"@.len() == 15 && "portsAttributes"@[0] == 'p');
    assert("otherPortsAttributes"@.len() == 20);
    assert("forwardPorts"@.len() == 12 && "forwardPorts"@[0] == 'f');
    assert("shutdownAction"@.len() == 14);
    assert("updateRemoteUserUID"@.len() == 19);
    assert("hostRequirements"@.len() == 16);
    let m = merged_commands(merged_lists(without_merged_keys(base_entries(c)), es), es);
    let s1 = insert_last(m, es, "workspaceFolder"@);
    let s2 = insert_last(s1, es, "waitFor"@);
    let s3 = insert_last(s2, es, "remoteUser"@);
    let s4 = insert_last(s3, es, "containerUser"@);
    let s5 = insert_last(s4, es, "userEnvProbe"@);
    lemma_insert_last_reads(m, es, "workspaceFolder"@, key);
    lemma_insert_last_reads(s1, es, "waitFor"@, key);
    lemma_insert_last_reads(s2, es, "remoteUser"@, key);
    lemma_insert_last_reads(s3, es, "containerUser"@, key);
    lemma_insert_last_reads(s4, es, "userEnvProbe"@, key);
    let s6 = insert_object(s5, "remoteEnv"@, merged_objects(es, "remoteEnv"@));
    let s7 = insert_object(s6, "containerEnv"@, merged_objects(es, "containerEnv"@));
    lemma_insert_object_other(s5, "remoteEnv"@, merged_objects(es, "remoteEnv"@), key);
    lemma_insert_object_other(s6, "containerEnv"@, merged_objects(es, "containerEnv"@), key);
    assert(merged_settings(m, es) == s7);
    let p1 = insert_last(s7, es, "overrideCommand"@);
    let p2 = insert_object(p1, "portsAttributes"@, merged_objects(es, "portsAttributes"@));
    let p3 = insert_last(p2, es, "otherPortsAttributes"@);
    let p4 = insert_array(p3, "forwardPorts"@, unique_ports(array_items(es, "forwardPorts"@)));
    let p5 = insert_last(p4, es, "shutdownAction"@);
    let p6 = insert_last(p5, es, "updateRemoteUserUID"@);
    let p7 = insert_object(p6, "hostRequirements"@, crate::host_requirements::host_requirements_of(es));
    lemma_insert_last_reads(s7, es, "overrideCommand"@, key);
    lemma_insert_object_other(p1, "portsAttributes"@, merged_objects(es, "portsAttributes"@), key);
    lemma_insert_last_reads(p2, es, "otherPortsAttributes"@, key);
    lemma_insert_array_other(p3, "forwardPorts"@, unique_ports(array_items(es, "forwardPorts"@)), key);
    lemma_insert_last_reads(p4, es, "shutdownAction"@, key);
    lemma_insert_last_reads(p5, es, "updateRemoteUserUID"@, key);
    lemma_insert_object_other(p6, "hostRequirements"@, crate::host_requirements::host_requirements_of(es), key);
    assert(merged_ports(s7, es) == p7);
}

proof fn lemma_array_items_hold(es: Seq<JsonView>, k: Seq<char>, i: int, items: Seq<JsonView>, x: JsonView)
    requires
        0 <= i < es.len(),
        vget(es[i], k) == Some(JsonView::Array(items)),
        items.contains(x),
    ensures
        array_items(es, k).contains(x),
    decreases es.len(),
{
    let rest = array_items(es.drop_last(), k);
    if i < es.len() - 1 {
        assert(es.drop_last()[i] == es[i]);
        lemma_array_items_hold(es.drop_last(), k, i, items, x);
        let q = choose|q: int| 0 <= q < rest.len() && rest[q] == x;
        match vget(es.last(), k) {
            Some(JsonView::Array(more)) => assert((rest + more)[q] == x),
            _ => {},
        }
    } else {
        let q = choose|q: int| 0 <= q < items.len() && items[q] == x;
        assert((rest + items)[rest.len() + q] == x);
    }
}

proof fn lemma_unique_strings_hold(items: Seq<JsonView>, t: Seq<char>)
    requires
        items.contains(JsonView::Str(t)),
    ensures
        unique_strings(items).contains(JsonView::Str(t)),
    decreases items.len(),
{
    let rest = unique_strings(items.drop_last());
    let x = JsonView::Str(t);
    if items.last() == x {
        if !rest.contains(x) {
            assert(rest.push(x)[rest.len() as int] == x);
        }
    } else {
        let q = choose|q: int| 0 <= q < items.len() && items[q] == x;
        assert(items.drop_last()[q] == x);
        lemma_unique_strings_hold(items.drop_last(), t);
        let r = choose|r: int| 0 <= r < rest.len() && rest[r] == x;
        match items.last() {
            JsonView::Str(u) => if !rest.contains(JsonView::Str(u)) {
                assert(rest.push(JsonView::Str(u))[r] == x);
            },
            _ => {},
        }
    }
}

proof fn lemma_insert_true_other(m: Entries, es: Seq<JsonView>, k: Seq<char>, other: Seq<char>)
    requires
        other != k,
    ensures
        ventry(insert_true(m, es, k), other) == ventry(m, other),
{
    if any_true(es, k) {
        crate::json_object::lemma_vinsert_reads(m, k, JsonView::Bool(true), other);
    }
}

/// What a merged configuration reads at `k` is what `m` reads there, for a
/// key that the later merge steps do not set.
proof fn lemma_later_steps_keep(m: Entries, es: Seq<JsonView>, k: Seq<char>)
    requires
        k == "capAdd"@ || k == "securityOpt"@ || k == "init"@ || k == "privileged"@,
    ensures
        ventry(merged_ports(merged_settings(merged_commands(m, es), es), es), k) == ventry(m, k),
{
    reveal_strlit("capAdd");
    reveal_strlit("securityOpt");
    reveal_strlit("init");
    reveal_strlit("privileged");
    assert("init"@.len() == 4);
    assert("privileged"@.len() == 10 && "privileged"@[0] == 'p');
    assert("remoteUser"@.len() == 10 && "remoteUser"@[0] == 'r') by {
        reveal_strlit("remoteUser");
    }
    reveal_strlit("onCreateCommands");
    reveal_strlit("updateContentCommands");
    reveal_strlit("postCreateCommands");
    reveal_strlit("postStartCommands");
    reveal_strlit("postAttachCommands");
    reveal_strlit("workspaceFolder");
    reveal_strlit("waitFor");
    reveal_strlit("remoteUser");
    reveal_strlit("containerUser");
    reveal_strlit("userEnvProbe");
    reveal_strlit("remoteEnv");
    reveal_strlit("containerEnv");
    reveal_strlit("overrideCommand");
    reveal_strlit("portsAttributes");
    reveal_strlit("otherPortsAttributes");
    reveal_strlit("forwardPorts");
    reveal_strlit("shutdownAction");
    reveal_strlit("updateRemoteUserUID");
    reveal_strlit("hostRequirements");
    assert("capAdd"@.len() == 6);
    assert("securityOpt"@.len() == 11);
    assert("onCreateCommands"@.len() == 16);
    assert("updateContentCommands"@.len() == 21);
    assert("postCreateCommands"@.len() == 18);
    assert("postStartCommands"@.len() == 17);
    assert("postAttachCommands"@.len() == 18);
    assert("workspaceFolder"@.len() == 15);
    assert("waitFor"@.len() == 7);
    assert("remoteUser"@.len() == 10);
    assert("containerUser"@.len() == 13);
    assert("userEnvProbe"@.len() == 12);
    assert("remoteEnv"@.len() == 9);
    assert("containerEnv"@.len() == 12);
    assert("overrideCommand"@.len() == 15);
    assert("portsAttributes"@.len() == 15);
    assert("otherPortsAttributes"@.len() == 20);
    assert("forwardPorts"@.len() == 12);
    assert("shutdownAction"@.len() == 14);
    assert("updateRemoteUserUID"@.len() == 19);
    assert("hostRequirements"@.len() == 16);
    let c1 = insert_array(m, "onCreateCommands"@, present_values(es, "onCreateCommand"@));
    let c2 = insert_array(c1, "updateContentCommands"@, present_values(es, "updateContentCommand"@));
    let c3 = insert_array(c2, "postCreateCommands"@, present_values(es, "postCreateCommand"@));
    let c4 = insert_array(c3, "postStartCommands"@, present_values(es, "postStartCommand"@));
    let c5 = insert_array(c4, "postAttachCommands"@, present_values(es, "postAttachCommand"@));
    lemma_insert_array_other(m, "onCreateCommands"@, present_values(es, "onCreateCommand"@), k);
    lemma_insert_array_other(c1, "updateContentCommands"@, present_values(es, "updateContentCommand"@), k);
    lemma_insert_array_other(c2, "postCreateCommands"@, present_values(es, "postCreateCommand"@), k);
    lemma_insert_array_other(c3, "postStartCommands"@, present_values(es, "postStartCommand"@), k);
    lemma_insert_array_other(c4, "postAttachCommands"@, present_values(es, "postAttachCommand"@), k);
    assert(merged_commands(m, es) == c5);
    let s1 = insert_last(c5, es, "workspaceFolder"@);
    let s2 = insert_last(s1, es, "waitFor"@);
    let s3 = insert_last(s2, es, "remoteUser"@);
    let s4 = insert_last(s3, es, "containerUser"@);
    let s5 = insert_last(s4, es, "userEnvProbe"@);
    lemma_insert_last_reads(c5, es, "workspaceFolder"@, k);
    lemma_insert_last_reads(s1, es, "waitFor"@, k);
    lemma_insert_last_reads(s2, es, "remoteUser"@, k);
    lemma_insert_last_reads(s3, es, "containerUser"@, k);
    lemma_insert_last_reads(s4, es, "userEnvProbe"@, k);
    let s6 = insert_object(s5, "remoteEnv"@, merged_objects(es, "remoteEnv"@));
    let s7 = insert_object(s6, "containerEnv"@, merged_objects(es, "containerEnv"@));
    lemma_insert_object_other(s5, "remoteEnv"@, merged_objects(es, "remoteEnv"@), k);
    lemma_insert_object_other(s6, "containerEnv"@, merged_objects(es, "containerEnv"@), k);
    assert(merged_settings(c5, es) == s7);
    let p1 = insert_last(s7, es, "overrideCommand"@);
    let p2 = insert_object(p1, "portsAttributes"@, merged_objects(es, "portsAttributes"@));
    let p3 = insert_last(p2, es, "otherPortsAttributes"@);
    let p4 = insert_array(p3, "forwardPorts"@, unique_ports(array_items(es, "forwardPorts"@)));
    let p5 = insert_last(p4, es, "shutdownAction"@);
    let p6 = insert_last(p5, es, "updateRemoteUserUID"@);
    let p7 = insert_object(p6, "hostRequirements"@, crate::host_requirements::host_requirements_of(es));
    lemma_insert_last_reads(s7, es, "overrideCommand"@, k);
    lemma_insert_object_other(p1, "portsAttributes"@, merged_objects(es, "portsAttributes"@), k);
    lemma_insert_last_reads(p2, es, "otherPortsAttributes"@, k);
    lemma_insert_array_other(p3, "forwardPorts"@, unique_ports(array_items(es, "forwardPorts"@)), k);
    lemma_insert_last_reads(p4, es, "shutdownAction"@, k);
    lemma_insert_last_reads(p5, es, "updateRemoteUserUID"@, k);
    lemma_insert_object_other(p6, "hostRequirements"@, crate::host_requirements::host_requirements_of(es), k);
    assert(merged_ports(s7, es) == p7);
}

/// No capability or security option that an entry asks for is lost: for
/// every metadata entry and every string in its `capAdd` or `securityOpt`
/// list, the merged configuration has that list and it holds the string.
pub proof fn lemma_merged_keeps_capabilities_and_security_options(
    c: JsonView,
    es: Seq<JsonView>,
    k: Seq<char>,
    i: int,
    items: Seq<JsonView>,
    t: Seq<char>,
)
    requires
        k == "capAdd"@ || k == "securityOpt"@,
        0 <= i < es.len(),
        vget(es[i], k) == Some(JsonView::Array(items)),
        items.contains(JsonView::Str(t)),
    ensures
        vget(merged_configuration_of(c, es), k) matches Some(JsonView::Array(out)) && out.contains(JsonView::Str(t)),
{
    reveal_strlit("capAdd");
    reveal_strlit("securityOpt");
    reveal_strlit("init");
    reveal_strlit("privileged");
    reveal_strlit("entrypoints");
    reveal_strlit("mounts");
    reveal_strlit("customizations");
    assert("capAdd"@.len() == 6 && "capAdd"@[0] == 'c');
    assert("securityOpt"@.len() == 11 && "securityOpt"@[0] == 's');
    assert("init"@.len() == 4);
    assert("privileged"@.len() == 10);
    assert("entrypoints"@.len() == 11 && "entrypoints"@[0] == 'e');
    assert("mounts"@.len() == 6 && "mounts"@[0] == 'm');
    assert("customizations"@.len() == 14);
    lemma_array_items_hold(es, k, i, items, JsonView::Str(t));
    let u = unique_strings(array_items(es, k));
    lemma_unique_strings_hold(array_items(es, k), t);
    assert(u.len() > 0);
    let m = without_merged_keys(base_entries(c));
    let m1 = insert_true(insert_true(m, es, "init"@), es, "privileged"@);
    let a1 = insert_array(m1, "capAdd"@, unique_strings(array_items(es, "capAdd"@)));
    let m2 = insert_array(a1, "securityOpt"@, unique_strings(array_items(es, "securityOpt"@)));
    let b1 = insert_array(m2, "entrypoints"@, string_values(es, "entrypoint"@));
    let m3 = insert_array(b1, "mounts"@, kept_mounts(array_items(es, "mounts"@)));
    let m4 = insert_object(m3, "customizations"@, merged_customizations(es));
    assert(merged_lists(m, es) == m4);
    if k == "capAdd"@ {
        crate::json_object::lemma_vinsert_reads(m1, k, JsonView::Array(u), k);
        lemma_insert_array_other(a1, "securityOpt"@, unique_strings(array_items(es, "securityOpt"@)), k);
    } else {
        crate::json_object::lemma_vinsert_reads(a1, k, JsonView::Array(u), k);
    }
    assert(ventry(m2, k) == Some(JsonView::Array(u)));
    lemma_insert_array_other(m2, "entrypoints"@, string_values(es, "entrypoint"@), k);
    lemma_insert_array_other(b1, "mounts"@, kept_mounts(array_items(es, "mounts"@)), k);
    lemma_insert_object_other(m3, "customizations"@, merged_customizations(es), k);
    lemma_later_steps_keep(m4, es, k);
}

proof fn lemma_any_true_of(es: Seq<JsonView>, k: Seq<char>, i: int)
    requires
        0 <= i < es.len(),
        vget(es[i], k) == Some(JsonView::Bool(true)),
    ensures
        any_true(es, k),
    decreases es.len(),
{
    if i < es.len() - 1 {
        assert(es.drop_last()[i] == es[i]);
        lemma_any_true_of(es.drop_last(), k, i);
    }
}

/// An init process or a privileged container that any entry asks for is
/// kept: when some metadata entry sets `init` (or `privileged`) to `true`,
/// the merged configuration sets it to `true`.
pub proof fn lemma_merged_keeps_init_and_privileged(c: JsonView, es: Seq<JsonView>, k: Seq<char>, i: int)
    requires
        k == "init"@ || k == "privileged"@,
        0 <= i < es.len(),
        vget(es[i], k) == Some(JsonView::Bool(true)),
    ensures
        vget(merged_configuration_of(c, es), k) == Some(JsonView::Bool(true)),
{
    reveal_strlit("capAdd");
    reveal_strlit("securityOpt");
    reveal_strlit("init");
    reveal_strlit("privileged");
    reveal_strlit("entrypoints");
    reveal_strlit("mounts");
    reveal_strlit("customizations");
    assert("capAdd"@.len() == 6);
    assert("securityOpt"@.len() == 11);
    assert("init"@.len() == 4);
    assert("privileged"@.len() == 10);
    assert("entrypoints"@.len() == 11);
    assert("mounts"@.len() == 6);
    assert("customizations"@.len() == 14);
    lemma_any_true_of(es, k, i);
    let m = without_merged_keys(base_entries(c));
    let t1 = insert_true(m, es, "init"@);
    let m1 = insert_true(t1, es, "privileged"@);
    if k == "init"@ {
        crate::json_object::lemma_vinsert_reads(m, k, JsonView::Bool(true), k);
        lemma_insert_true_other(t1, es, "privileged"@, k);
    } else {
        crate::json_object::lemma_vinsert_reads(t1, k, JsonView::Bool(true), k);
    }
    assert(ventry(m1, k) == Some(JsonView::Bool(true)));
    let a1 = insert_array(m1, "capAdd"@, unique_strings(array_items(es, "capAdd"@)));
    let m2 = insert_array(a1, "securityOpt"@, unique_strings(array_items(es, "securityOpt"@)));
    let b1 = insert_array(m2, "entrypoints"@, string_values(es, "entrypoint"@));
    let m3 = insert_array(b1, "mounts"@, kept_mounts(array_items(es, "mounts"@)));
    let m4 = insert_object(m3, "customizations"@, merged_customizations(es));
    assert(merged_lists(m, es) == m4);
    lemma_insert_array_other(m1, "capAdd"@, unique_strings(array_items(es, "capAdd"@)), k);
    lemma_insert_array_other(a1, "securityOpt"@, unique_strings(array_items(es, "securityOpt"@)), k);
    lemma_insert_array_other(m2, "entrypoints"@, string_values(es, "entrypoint"@), k);
    lemma_insert_array_other(b1, "mounts"@, kept_mounts(array_items(es, "mounts"@)), k);
    lemma_insert_object_other(m3, "customizations"@, merged_customizations(es), k);
    lemma_later_steps_keep(m4, es, k);
}

} // verus!
