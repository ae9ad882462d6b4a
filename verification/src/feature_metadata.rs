//! The metadata a feature contributes to a configuration, and its merge
//! into the configuration: flags that only switch on, lists that only grow,
//! mounts replaced by target, objects combined entry by entry, settings where
//! the last one wins, and lifecycle commands gathered stage by stage.
use vstd::prelude::*;
use crate::json_object::{
    entries_of, items_of, list_at, list_copy, object_at, object_copy, object_insert, vinsert, Entries,
};
use crate::json_value::{
    entries_get, jentries, json_clone, json_eq, json_get, jview, jviews, lemma_entry_value_view, lemma_get_view,
    lemma_jentries, lemma_jviews, vget, ventry, JsonValue, JsonView,
};
use crate::merge::{fold_insert, insert_all, lemma_jviews_push};
use crate::metadata::{command_group, command_group_of, flattened, push_flattened};
use crate::mounts::{first_target, mount_option_target, mount_options};
use crate::text::{copy_string, opt_view, str_eq, str_views};

verus! {

/// The keys of a manifest that make up a feature's metadata entry.
pub open spec fn metadata_keys() -> Seq<Seq<char>> {
    seq![
        "containerEnv"@,
        "customizations"@,
        "entrypoint"@,
        "hostRequirements"@,
        "init"@,
        "mounts"@,
        "overrideCommand"@,
        "onCreateCommand"@,
        "updateContentCommand"@,
        "postCreateCommand"@,
        "postStartCommand"@,
        "postAttachCommand"@,
        "portsAttributes"@,
        "otherPortsAttributes"@,
        "forwardPorts"@,
        "privileged"@,
        "capAdd"@,
        "securityOpt"@,
        "remoteEnv"@,
        "remoteUser"@,
        "containerUser"@,
        "shutdownAction"@,
        "updateRemoteUserUID"@,
        "userEnvProbe"@,
        "waitFor"@,
    ]
}

/// The entries of `e` named by `keys`, in key order.
pub open spec fn picked(keys: Seq<Seq<char>>, e: Entries) -> Entries
    decreases keys.len(),
{
    if keys.len() == 0 {
        Seq::empty()
    } else {
        let rest = picked(keys.drop_last(), e);
        match ventry(e, keys.last()) {
            Some(v) => vinsert(rest, keys.last(), v),
            None => rest,
        }
    }
}

/// The metadata entry of a manifest: the metadata keys it sets; nothing
/// for a manifest that is not an object.
pub open spec fn metadata_entry_of(manifest: JsonView) -> JsonView {
    JsonView::Object(picked(metadata_keys(), entries_of(manifest)))
}

/// The metadata entry a feature's manifest contributes.
pub fn feature_metadata_entry(manifest: &JsonValue) -> (r: JsonValue)
    ensures
        r@ == metadata_entry_of(manifest@),
{
    let keys: [&str; 25] = [
        "containerEnv",
        "customizations",
        "entrypoint",
        "hostRequirements",
        "init",
        "mounts",
        "overrideCommand",
        "onCreateCommand",
        "updateContentCommand",
        "postCreateCommand",
        "postStartCommand",
        "postAttachCommand",
        "portsAttributes",
        "otherPortsAttributes",
        "forwardPorts",
        "privileged",
        "capAdd",
        "securityOpt",
        "remoteEnv",
        "remoteUser",
        "containerUser",
        "shutdownAction",
        "updateRemoteUserUID",
        "userEnvProbe",
        "waitFor",
    ];
    let ghost kv = str_views(keys@);
    proof {
        assert(kv =~= metadata_keys());
        assert(kv.take(0) =~= Seq::<Seq<char>>::empty());
    }
    let mut out: Vec<(String, JsonValue)> = Vec::new();
    proof {
        assert(jentries(out@) =~= Seq::<(Seq<char>, JsonView)>::empty());
    }
    match manifest {
        JsonValue::Object(entries) => {
            let ghost ev = jentries(entries@);
            let mut i: usize = 0;
            while i < 25
                invariant
                    i <= 25,
                    keys@.len() == 25,
                    kv == str_views(keys@),
                    kv.len() == 25,
                    ev == jentries(entries@),
                    jentries(out@) == picked(kv.take(i as int), ev),
                decreases 25 - i,
            {
                proof {
                    assert(kv.take(i + 1).drop_last() =~= kv.take(i as int));
                    assert(kv.take(i + 1).last() == kv[i as int]);
                    assert(kv[i as int] == keys@[i as int]@);
                    lemma_entry_value_view(entries@, keys@[i as int]@);
                }
                match entries_get(entries, keys[i]) {
                    Some(v) => {
                        let c = json_clone(v);
                        object_insert(&mut out, String::from_str(keys[i]), c);
                    },
                    None => {},
                }
                i = i + 1;
            }
            proof {
                assert(kv.take(25) =~= kv);
            }
        },
        _ => {
            proof {
                assert(picked(metadata_keys(), Seq::empty()) =~= Seq::<(Seq<char>, JsonView)>::empty()) by {
                    lemma_picked_nothing(metadata_keys());
                }
            }
        },
    }
    JsonValue::Object(out)
}

proof fn lemma_picked_nothing(keys: Seq<Seq<char>>)
    ensures
        picked(keys, Seq::empty()) == Seq::<(Seq<char>, JsonView)>::empty(),
    decreases keys.len(),
{
    if keys.len() > 0 {
        lemma_picked_nothing(keys.drop_last());
    }
}

/// `items` with each of `add` appended unless it is there already.
pub open spec fn with_new(items: Seq<JsonView>, add: Seq<JsonView>) -> Seq<JsonView>
    decreases add.len(),
{
    if add.len() == 0 {
        items
    } else {
        let r = with_new(items, add.drop_last());
        if r.contains(add.last()) {
            r
        } else {
            r.push(add.last())
        }
    }
}

/// `k` set to `true` when the metadata sets it to `true`.
pub open spec fn merge_true(m: Entries, md: JsonView, k: Seq<char>) -> Entries {
    if vget(md, k) == Some(JsonView::Bool(true)) {
        vinsert(m, k, JsonView::Bool(true))
    } else {
        m
    }
}

/// The list at `k` grown by the metadata's list, without repeats of what it holds.
pub open spec fn merge_unique(m: Entries, md: JsonView, k: Seq<char>) -> Entries {
    match vget(md, k) {
        Some(JsonView::Array(add)) => vinsert(m, k, JsonView::Array(with_new(list_at(m, k), add))),
        _ => m,
    }
}

/// The target of a mount as written: a mount text's target option, or the
/// first of an object's `target`, `destination` and `dst` that it has, when
/// that is a string.
pub open spec fn declared_mount_target(v: JsonView) -> Option<Seq<char>> {
    match v {
        JsonView::Str(t) => first_target(mount_options(t)),
        JsonView::Object(o) => {
            let named = match ventry(o, "target"@) {
                Some(x) => Some(x),
                None => match ventry(o, "destination"@) {
                    Some(x) => Some(x),
                    None => ventry(o, "dst"@),
                },
            };
            match named {
                Some(JsonView::Str(t)) => Some(t),
                _ => None,
            }
        },
        _ => None,
    }
}

/// The position of the first mount with target `t`.
pub open spec fn first_with_target(items: Seq<JsonView>, t: Seq<char>) -> Option<int>
    decreases items.len(),
{
    if items.len() == 0 {
        None
    } else if declared_mount_target(items[0]) == Some(t) {
        Some(0)
    } else {
        match first_with_target(items.drop_first(), t) {
            Some(i) => Some(i + 1),
            None => None,
        }
    }
}

/// A mount put into a list: one with a target takes the place of the first
/// mount of that target and goes last; one without is added unless present.
pub open spec fn with_mount(items: Seq<JsonView>, v: JsonView) -> Seq<JsonView> {
    match declared_mount_target(v) {
        Some(t) => match first_with_target(items, t) {
            Some(i) => items.remove(i).push(v),
            None => items.push(v),
        },
        None => if items.contains(v) {
            items
        } else {
            items.push(v)
        },
    }
}

/// Each mount of `add` put into the list in turn.
pub open spec fn with_mounts(items: Seq<JsonView>, add: Seq<JsonView>) -> Seq<JsonView>
    decreases add.len(),
{
    if add.len() == 0 {
        items
    } else {
        with_mount(with_mounts(items, add.drop_last()), add.last())
    }
}

/// The mounts grown by the metadata's mounts.
pub open spec fn merge_mount_list(m: Entries, md: JsonView) -> Entries {
    match vget(md, "mounts"@) {
        Some(JsonView::Array(add)) => vinsert(m, "mounts"@, JsonView::Array(with_mounts(list_at(m, "mounts"@), add))),
        _ => m,
    }
}

/// The object at `k` with the metadata's entries put in.
pub open spec fn merge_entries(m: Entries, md: JsonView, k: Seq<char>) -> Entries {
    match vget(md, k) {
        Some(JsonView::Object(o)) => vinsert(m, k, JsonView::Object(fold_insert(object_at(m, k), o))),
        _ => m,
    }
}

/// `k` set to the metadata's value when it has one.
pub open spec fn merge_last(m: Entries, md: JsonView, k: Seq<char>) -> Entries {
    match vget(md, k) {
        Some(v) => vinsert(m, k, v),
        None => m,
    }
}

/// The commands the stage `k` holds.
pub open spec fn stage_commands(m: Entries, k: Seq<char>) -> Seq<JsonView> {
    match ventry(m, k) {
        Some(x) => flattened(x),
        None => Seq::empty(),
    }
}

/// The stage `k` with the metadata's commands after its own, as one group.
pub open spec fn merge_stage(m: Entries, md: JsonView, k: Seq<char>) -> Entries {
    match vget(md, k) {
        Some(v) => match command_group(stage_commands(m, k) + flattened(v)) {
            Some(g) => vinsert(m, k, g),
            None => m,
        },
        None => m,
    }
}

/// The settings where the last metadata entry wins.
pub open spec fn last_keys() -> Seq<Seq<char>> {
    seq![
        "containerUser"@,
        "entrypoint"@,
        "otherPortsAttributes"@,
        "overrideCommand"@,
        "remoteUser"@,
        "shutdownAction"@,
        "updateRemoteUserUID"@,
        "userEnvProbe"@,
        "waitFor"@,
    ]
}

/// The lifecycle stages.
pub open spec fn stage_keys() -> Seq<Seq<char>> {
    seq!["onCreateCommand"@, "updateContentCommand"@, "postCreateCommand"@, "postStartCommand"@, "postAttachCommand"@]
}

pub open spec fn merge_lasts(m: Entries, md: JsonView, keys: Seq<Seq<char>>) -> Entries
    decreases keys.len(),
{
    if keys.len() == 0 {
        m
    } else {
        merge_last(merge_lasts(m, md, keys.drop_last()), md, keys.last())
    }
}

pub open spec fn merge_stages(m: Entries, md: JsonView, keys: Seq<Seq<char>>) -> Entries
    decreases keys.len(),
{
    if keys.len() == 0 {
        m
    } else {
        merge_stage(merge_stages(m, md, keys.drop_last()), md, keys.last())
    }
}

/// One feature's metadata merged into the configuration's entries.
pub open spec fn metadata_step(m: Entries, md: JsonView, skip_customizations: bool) -> Entries {
    let m1 = merge_true(merge_true(m, md, "init"@), md, "privileged"@);
    let m2 = merge_unique(merge_unique(m1, md, "capAdd"@), md, "securityOpt"@);
    let m3 = merge_unique(merge_mount_list(m2, md), md, "forwardPorts"@);
    let m4 = merge_entries(merge_entries(merge_entries(m3, md, "containerEnv"@), md, "remoteEnv"@), md, "portsAttributes"@);
    let m5 = if skip_customizations {
        m4
    } else {
        merge_entries(m4, md, "customizations"@)
    };
    merge_stages(merge_lasts(m5, md, last_keys()), md, stage_keys())
}

/// The metadata entries merged in order.
pub open spec fn applied(m: Entries, es: Seq<JsonView>, skip_customizations: bool) -> Entries
    decreases es.len(),
{
    if es.len() == 0 {
        m
    } else {
        metadata_step(applied(m, es.drop_last(), skip_customizations), es.last(), skip_customizations)
    }
}

/// The configuration with the features' metadata merged in.
pub open spec fn feature_metadata_applied(c: JsonView, es: Seq<JsonView>, skip_customizations: bool) -> JsonView {
    JsonView::Object(applied(entries_of(c), es, skip_customizations))
}

/// Where some metadata entry holds a list at `k`, the configuration holds a
/// list there or nothing.
pub open spec fn list_fits(c: Entries, es: Seq<JsonView>, k: Seq<char>) -> bool {
    (exists|i: int| 0 <= i < es.len() && #[trigger] vget(es[i], k) matches Some(JsonView::Array(_))) ==> match ventry(c, k) {
        None => true,
        Some(JsonView::Array(_)) => true,
        _ => false,
    }
}

/// Where some metadata entry holds an object at `k`, the configuration
/// holds an object there or nothing.
pub open spec fn object_fits(c: Entries, es: Seq<JsonView>, k: Seq<char>) -> bool {
    (exists|i: int| 0 <= i < es.len() && #[trigger] vget(es[i], k) matches Some(JsonView::Object(_))) ==> match ventry(c, k) {
        None => true,
        Some(JsonView::Object(_)) => true,
        _ => false,
    }
}

/// The configuration's lists and objects are of the kind the metadata merges into.
pub open spec fn metadata_fits(c: JsonView, es: Seq<JsonView>, skip_customizations: bool) -> bool {
    let e = entries_of(c);
    &&& list_fits(e, es, "capAdd"@)
    &&& list_fits(e, es, "securityOpt"@)
    &&& list_fits(e, es, "mounts"@)
    &&& list_fits(e, es, "forwardPorts"@)
    &&& object_fits(e, es, "containerEnv"@)
    &&& object_fits(e, es, "remoteEnv"@)
    &&& object_fits(e, es, "portsAttributes"@)
    &&& (!skip_customizations ==> object_fits(e, es, "customizations"@))
}

fn merge_true_into(m: &mut Vec<(String, JsonValue)>, md: &JsonValue, key: &str)
    ensures
        jentries(final(m)@) == merge_true(jentries(old(m)@), md@, key@),
{
    proof {
        lemma_get_view(*md, key@);
    }
    match json_get(md, key) {
        Some(JsonValue::Bool(true)) => object_insert(m, String::from_str(key), JsonValue::Bool(true)),
        _ => {},
    }
}

fn contains_value(items: &Vec<JsonValue>, x: &JsonValue) -> (r: bool)
    ensures
        r == jviews(items@).contains(x@),
{
    proof {
        lemma_jviews(items@);
    }
    let mut i: usize = 0;
    while i < items.len()
        invariant
            i <= items.len(),
            jviews(items@).len() == items@.len(),
            forall|q: int| 0 <= q < items@.len() ==> #[trigger] jviews(items@)[q] == items@[q]@,
            forall|q: int| 0 <= q < i ==> jviews(items@)[q] != x@,
        decreases items.len() - i,
    {
        if json_eq(&items[i], x) {
            proof {
                assert(jviews(items@)[i as int] == x@);
            }
            return true;
        }
        i = i + 1;
    }
    false
}

fn merge_unique_into(m: &mut Vec<(String, JsonValue)>, md: &JsonValue, key: &str)
    ensures
        jentries(final(m)@) == merge_unique(jentries(old(m)@), md@, key@),
{
    proof {
        lemma_get_view(*md, key@);
    }
    match json_get(md, key) {
        Some(JsonValue::Array(add)) => {
            let mut target = list_copy(m, key);
            let ghost start = jviews(target@);
            let ghost av = jviews(add@);
            proof {
                lemma_jviews(add@);
                assert(av.take(0) =~= Seq::<JsonView>::empty());
            }
            let mut j: usize = 0;
            while j < add.len()
                invariant
                    j <= add.len(),
                    av == jviews(add@),
                    av.len() == add@.len(),
                    forall|q: int| 0 <= q < add@.len() ==> #[trigger] av[q] == add@[q]@,
                    jviews(target@) == with_new(start, av.take(j as int)),
                decreases add.len() - j,
            {
                proof {
                    assert(av.take(j + 1).drop_last() =~= av.take(j as int));
                    assert(av.take(j + 1).last() == av[j as int]);
                }
                if !contains_value(&target, &add[j]) {
                    let c = json_clone(&add[j]);
                    let ghost before = target@;
                    target.push(c);
                    proof {
                        lemma_jviews_push(before, c);
                    }
                }
                j = j + 1;
            }
            proof {
                assert(av.take(add.len() as int) =~= av);
            }
            object_insert(m, String::from_str(key), JsonValue::Array(target));
        },
        _ => {},
    }
}

fn declared_mount_target_of(v: &JsonValue) -> (r: Option<String>)
    ensures
        opt_view(r) == declared_mount_target(v@),
{
    match v {
        JsonValue::Str(t) => mount_option_target(t.as_str()),
        JsonValue::Object(o) => {
            proof {
                lemma_entry_value_view(o@, "target"@);
                lemma_entry_value_view(o@, "destination"@);
                lemma_entry_value_view(o@, "dst"@);
            }
            let named = match entries_get(o, "target") {
                Some(x) => Some(x),
                None => match entries_get(o, "destination") {
                    Some(x) => Some(x),
                    None => entries_get(o, "dst"),
                },
            };
            match named {
                Some(JsonValue::Str(t)) => Some(copy_string(t)),
                _ => None,
            }
        },
        _ => None,
    }
}

proof fn lemma_first_with_target(items: Seq<JsonView>, t: Seq<char>, i: int)
    requires
        0 <= i <= items.len(),
        forall|q: int| 0 <= q < i ==> declared_mount_target(#[trigger] items[q]) != Some(t),
    ensures
        i < items.len() && declared_mount_target(items[i]) == Some(t) ==> first_with_target(items, t) == Some(i),
        i == items.len() ==> first_with_target(items, t) is None,
    decreases i,
{
    if i > 0 {
        let rest = items.drop_first();
        assert forall|q: int| 0 <= q < i - 1 implies declared_mount_target(#[trigger] rest[q]) != Some(t) by {
            assert(rest[q] == items[q + 1]);
        }
        lemma_first_with_target(rest, t, i - 1);
        assert(declared_mount_target(items[0]) != Some(t));
        if i < items.len() {
            assert(rest[i - 1] == items[i]);
        }
    } else if items.len() == 0 {
    }
}

fn position_with_target(items: &Vec<JsonValue>, t: &str) -> (r: Option<usize>)
    ensures
        match r {
            Some(i) => first_with_target(jviews(items@), t@) == Some(i as int) && i < items@.len(),
            None => first_with_target(jviews(items@), t@) is None,
        },
{
    let ghost iv = jviews(items@);
    proof {
        lemma_jviews(items@);
    }
    let mut i: usize = 0;
    while i < items.len()
        invariant
            i <= items.len(),
            iv == jviews(items@),
            iv.len() == items@.len(),
            forall|q: int| 0 <= q < items@.len() ==> #[trigger] iv[q] == items@[q]@,
            forall|q: int| 0 <= q < i ==> declared_mount_target(#[trigger] iv[q]) != Some(t@),
        decreases items.len() - i,
    {
        let found = match declared_mount_target_of(&items[i]) {
            Some(x) => str_eq(x.as_str(), t),
            None => false,
        };
        if found {
            proof {
                assert(declared_mount_target(iv[i as int]) == Some(t@));
                lemma_first_with_target(iv, t@, i as int);
            }
            return Some(i);
        }
        i = i + 1;
    }
    proof {
        lemma_first_with_target(iv, t@, i as int);
    }
    None
}

proof fn lemma_jviews_remove(s: Seq<JsonValue>, i: int)
    requires
        0 <= i < s.len(),
    ensures
        jviews(s.remove(i)) == jviews(s).remove(i),
{
    lemma_jviews(s);
    lemma_jviews(s.remove(i));
    assert(jviews(s.remove(i)) =~= jviews(s).remove(i));
}

fn merge_mounts_into(m: &mut Vec<(String, JsonValue)>, md: &JsonValue)
    ensures
        jentries(final(m)@) == merge_mount_list(jentries(old(m)@), md@),
{
    proof {
        lemma_get_view(*md, "mounts"@);
    }
    match json_get(md, "mounts") {
        Some(JsonValue::Array(add)) => {
            let mut target = list_copy(m, "mounts");
            let ghost start = jviews(target@);
            let ghost av = jviews(add@);
            proof {
                lemma_jviews(add@);
                assert(av.take(0) =~= Seq::<JsonView>::empty());
            }
            let mut j: usize = 0;
            while j < add.len()
                invariant
                    j <= add.len(),
                    av == jviews(add@),
                    av.len() == add@.len(),
                    forall|q: int| 0 <= q < add@.len() ==> #[trigger] av[q] == add@[q]@,
                    jviews(target@) == with_mounts(start, av.take(j as int)),
                decreases add.len() - j,
            {
                proof {
                    assert(av.take(j + 1).drop_last() =~= av.take(j as int));
                    assert(av.take(j + 1).last() == av[j as int]);
                }
                match declared_mount_target_of(&add[j]) {
                    Some(t) => {
                        match position_with_target(&target, t.as_str()) {
                            Some(i) => {
                                let ghost before = target@;
                                target.remove(i);
                                proof {
                                    lemma_jviews_remove(before, i as int);
                                }
                            },
                            None => {},
                        }
                        let c = json_clone(&add[j]);
                        let ghost before = target@;
                        target.push(c);
                        proof {
                            lemma_jviews_push(before, c);
                        }
                    },
                    None => {
                        if !contains_value(&target, &add[j]) {
                            let c = json_clone(&add[j]);
                            let ghost before = target@;
                            target.push(c);
                            proof {
                                lemma_jviews_push(before, c);
                            }
                        }
                    },
                }
                j = j + 1;
            }
            proof {
                assert(av.take(add.len() as int) =~= av);
            }
            object_insert(m, String::from_str("mounts"), JsonValue::Array(target));
        },
        _ => {},
    }
}

fn merge_entries_into(m: &mut Vec<(String, JsonValue)>, md: &JsonValue, key: &str)
    ensures
        jentries(final(m)@) == merge_entries(jentries(old(m)@), md@, key@),
{
    proof {
        lemma_get_view(*md, key@);
    }
    match json_get(md, key) {
        Some(JsonValue::Object(o)) => {
            let mut t = object_copy(m, key);
            insert_all(&mut t, o);
            object_insert(m, String::from_str(key), JsonValue::Object(t));
        },
        _ => {},
    }
}

fn merge_last_into(m: &mut Vec<(String, JsonValue)>, md: &JsonValue, key: &str)
    ensures
        jentries(final(m)@) == merge_last(jentries(old(m)@), md@, key@),
{
    proof {
        lemma_get_view(*md, key@);
    }
    match json_get(md, key) {
        Some(v) => object_insert(m, String::from_str(key), json_clone(v)),
        None => {},
    }
}

fn merge_stage_into(m: &mut Vec<(String, JsonValue)>, md: &JsonValue, key: &str)
    ensures
        jentries(final(m)@) == merge_stage(jentries(old(m)@), md@, key@),
{
    proof {
        lemma_get_view(*md, key@);
        lemma_entry_value_view(m@, key@);
    }
    match json_get(md, key) {
        Some(v) => {
            let mut cmds: Vec<JsonValue> = Vec::new();
            proof {
                assert(jviews(cmds@) =~= Seq::<JsonView>::empty());
            }
            match entries_get(m, key) {
                Some(x) => push_flattened(x, &mut cmds),
                None => {},
            }
            push_flattened(v, &mut cmds);
            proof {
                assert(jviews(cmds@) =~= stage_commands(jentries(m@), key@) + flattened(v@));
            }
            match command_group_of(&cmds) {
                Some(g) => object_insert(m, String::from_str(key), g),
                None => {},
            }
        },
        None => {},
    }
}

fn metadata_step_into(m: &mut Vec<(String, JsonValue)>, md: &JsonValue, skip_customizations: bool)
    ensures
        jentries(final(m)@) == metadata_step(jentries(old(m)@), md@, skip_customizations),
{
    merge_true_into(m, md, "init");
    merge_true_into(m, md, "privileged");
    merge_unique_into(m, md, "capAdd");
    merge_unique_into(m, md, "securityOpt");
    merge_mounts_into(m, md);
    merge_unique_into(m, md, "forwardPorts");
    merge_entries_into(m, md, "containerEnv");
    merge_entries_into(m, md, "remoteEnv");
    merge_entries_into(m, md, "portsAttributes");
    if !skip_customizations {
        merge_entries_into(m, md, "customizations");
    }
    let ghost m5 = jentries(m@);
    let lasts: [&str; 9] = [
        "containerUser",
        "entrypoint",
        "otherPortsAttributes",
        "overrideCommand",
        "remoteUser",
        "shutdownAction",
        "updateRemoteUserUID",
        "userEnvProbe",
        "waitFor",
    ];
    let ghost lv = str_views(lasts@);
    proof {
        assert(lv =~= last_keys());
        assert(lv.take(0) =~= Seq::<Seq<char>>::empty());
    }
    let mut i: usize = 0;
    while i < 9
        invariant
            i <= 9,
            lasts@.len() == 9,
            lv == str_views(lasts@),
            lv.len() == 9,
            jentries(m@) == merge_lasts(m5, md@, lv.take(i as int)),
        decreases 9 - i,
    {
        proof {
            assert(lv.take(i + 1).drop_last() =~= lv.take(i as int));
            assert(lv.take(i + 1).last() == lv[i as int]);
            assert(lv[i as int] == lasts@[i as int]@);
        }
        merge_last_into(m, md, lasts[i]);
        i = i + 1;
    }
    proof {
        assert(lv.take(9) =~= lv);
    }
    let ghost m6 = jentries(m@);
    let stages: [&str; 5] = [
        "onCreateCommand",
        "updateContentCommand",
        "postCreateCommand",
        "postStartCommand",
        "postAttachCommand",
    ];
    let ghost sv = str_views(stages@);
    proof {
        assert(sv =~= stage_keys());
        assert(sv.take(0) =~= Seq::<Seq<char>>::empty());
    }
    let mut k: usize = 0;
    while k < 5
        invariant
            k <= 5,
            stages@.len() == 5,
            sv == str_views(stages@),
            sv.len() == 5,
            jentries(m@) == merge_stages(m6, md@, sv.take(k as int)),
        decreases 5 - k,
    {
        proof {
            assert(sv.take(k + 1).drop_last() =~= sv.take(k as int));
            assert(sv.take(k + 1).last() == sv[k as int]);
            assert(sv[k as int] == stages@[k as int]@);
        }
        merge_stage_into(m, md, stages[k]);
        k = k + 1;
    }
    proof {
        assert(sv.take(5) =~= sv);
    }
}

/// The configuration with the metadata of its features merged in, in order;
/// the features' customizations are left out when asked.
pub fn apply_feature_metadata(
    configuration: &JsonValue,
    metadata_entries: &Vec<JsonValue>,
    skip_feature_customizations: bool,
) -> (r: JsonValue)
    requires
        metadata_fits(configuration@, jviews(metadata_entries@), skip_feature_customizations),
    ensures
        r@ == feature_metadata_applied(configuration@, jviews(metadata_entries@), skip_feature_customizations),
{
    let mut merged: Vec<(String, JsonValue)> = match json_clone(configuration) {
        JsonValue::Object(e) => e,
        _ => {
            let r: Vec<(String, JsonValue)> = Vec::new();
            proof {
                assert(jentries(r@) =~= Seq::<(Seq<char>, JsonView)>::empty());
            }
            r
        },
    };
    let ghost start = jentries(merged@);
    let ghost es = jviews(metadata_entries@);
    proof {
        lemma_jviews(metadata_entries@);
        assert(es.take(0) =~= Seq::<JsonView>::empty());
    }
    let mut i: usize = 0;
    while i < metadata_entries.len()
        invariant
            i <= metadata_entries.len(),
            es == jviews(metadata_entries@),
            es.len() == metadata_entries@.len(),
            forall|q: int| 0 <= q < metadata_entries@.len() ==> #[trigger] es[q] == metadata_entries@[q]@,
            jentries(merged@) == applied(start, es.take(i as int), skip_feature_customizations),
        decreases metadata_entries.len() - i,
    {
        proof {
            assert(es.take(i + 1).drop_last() =~= es.take(i as int));
            assert(es.take(i + 1).last() == es[i as int]);
        }
        metadata_step_into(&mut merged, &metadata_entries[i], skip_feature_customizations);
        i = i + 1;
    }
    proof {
        assert(es.take(metadata_entries.len() as int) =~= es);
    }
    JsonValue::Object(merged)
}

} // verus!
