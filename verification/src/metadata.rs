//! The metadata a container carries in its label, merged into one object:
//! the last wait stage, folder and users, the combined environments, and
//! each lifecycle stage's commands flattened into one group.
use vstd::prelude::*;
use crate::json_object::{lemma_vinsert_reads, object_insert, vinsert, Entries};
use crate::json_value::{jentries, json_clone, jview, jviews, lemma_jentries, lemma_jviews, JsonValue, JsonView};
use crate::merge::{
    insert_last, insert_last_into, insert_object, insert_object_into, last_value, lemma_insert_last_reads,
    lemma_insert_object_other, lemma_jviews_push, merged_objects, merged_objects_of,
};
use crate::text::{decimal, usize_to_string};
use crate::json_value::{ventry, vget};

pub use crate::mounts::{mount_option_target, split_mount_options};

verus! {

/// The commands a lifecycle value holds: a string or an array is one
/// command, an object holds the commands of its values, in order; anything
/// else holds none.
pub open spec fn flattened(v: JsonView) -> Seq<JsonView>
    decreases v, 0nat,
{
    match v {
        JsonView::Str(_) => seq![v],
        JsonView::Array(_) => seq![v],
        JsonView::Object(e) => flattened_entries(e),
        _ => Seq::empty(),
    }
}

/// The commands of the entries' values, in order.
pub open spec fn flattened_entries(e: Seq<(Seq<char>, JsonView)>) -> Seq<JsonView>
    decreases e, 1nat,
{
    if e.len() == 0 {
        Seq::empty()
    } else {
        flattened(e[0].1) + flattened_entries(e.drop_first())
    }
}

/// The commands of stage `k` over all entries, in order.
pub open spec fn lifecycle_values(es: Seq<JsonView>, k: Seq<char>) -> Seq<JsonView>
    decreases es.len(),
{
    if es.len() == 0 {
        Seq::empty()
    } else {
        lifecycle_values(es.drop_last(), k) + match vget(es.last(), k) {
            Some(v) => flattened(v),
            None => Seq::empty(),
        }
    }
}

/// The commands as an object keyed by their positions `0`, `1`, ...
pub open spec fn numbered(cmds: Seq<JsonView>) -> Entries
    decreases cmds.len(),
{
    if cmds.len() == 0 {
        Seq::empty()
    } else {
        vinsert(numbered(cmds.drop_last()), decimal((cmds.len() - 1) as nat), cmds.last())
    }
}

/// One command as it is; several as a numbered object; none as nothing.
pub open spec fn command_group(cmds: Seq<JsonView>) -> Option<JsonView> {
    if cmds.len() == 0 {
        None
    } else if cmds.len() == 1 {
        Some(cmds[0])
    } else {
        Some(JsonView::Object(numbered(cmds)))
    }
}

/// The stage's group at `k`, when there is one.
pub open spec fn insert_group(m: Entries, es: Seq<JsonView>, k: Seq<char>) -> Entries {
    match command_group(lifecycle_values(es, k)) {
        Some(v) => vinsert(m, k, v),
        None => m,
    }
}

/// The entries a parsed label holds: an array's items, or one object.
pub open spec fn label_entries(label: Option<JsonView>) -> Seq<JsonView> {
    match label {
        Some(JsonView::Array(items)) => items,
        Some(JsonView::Object(e)) => seq![JsonView::Object(e)],
        _ => Seq::empty(),
    }
}

/// The merged metadata of a parsed label.
pub open spec fn merged_metadata_of(label: Option<JsonView>) -> JsonView {
    let es = label_entries(label);
    let m1 = insert_last(
        insert_last(insert_last(insert_last(Seq::empty(), es, "waitFor"@), es, "workspaceFolder"@), es, "remoteUser"@),
        es,
        "containerUser"@,
    );
    let m2 = insert_object(
        insert_object(m1, "remoteEnv"@, merged_objects(es, "remoteEnv"@)),
        "containerEnv"@,
        merged_objects(es, "containerEnv"@),
    );
    JsonView::Object(
        insert_group(
            insert_group(
                insert_group(
                    insert_group(
                        insert_group(insert_group(m2, es, "initializeCommand"@), es, "onCreateCommand"@),
                        es,
                        "updateContentCommand"@,
                    ),
                    es,
                    "postCreateCommand"@,
                ),
                es,
                "postStartCommand"@,
            ),
            es,
            "postAttachCommand"@,
        ),
    )
}

pub(crate) fn push_flattened(v: &JsonValue, out: &mut Vec<JsonValue>)
    ensures
        jviews(final(out)@) == jviews(old(out)@) + flattened(v@),
    decreases v,
{
    match v {
        JsonValue::Str(_) | JsonValue::Array(_) => {
            let c = json_clone(v);
            let ghost before = out@;
            out.push(c);
            proof {
                lemma_jviews_push(before, c);
                assert(jviews(out@) =~= jviews(before) + flattened(v@));
            }
        },
        JsonValue::Object(entries) => {
            let ghost start = jviews(out@);
            let ghost es = jentries(entries@);
            proof {
                lemma_jentries(entries@);
                assert(es.skip(0) =~= es);
                assert(start =~= start + Seq::<JsonView>::empty());
            }
            let mut i: usize = 0;
            while i < entries.len()
                invariant
                    i <= entries.len(),
                    *v == JsonValue::Object(*entries),
                    es == jentries(entries@),
                    es.len() == entries@.len(),
                    forall|q: int|
                        0 <= q < entries@.len() ==> #[trigger] es[q] == (entries@[q].0@, entries@[q].1@),
                    flattened_entries(es) == jviews(out@).skip(start.len() as int) + flattened_entries(
                        es.skip(i as int),
                    ),
                    start.len() <= jviews(out@).len(),
                    jviews(out@).take(start.len() as int) == start,
                decreases entries.len() - i,
            {
                proof {
                    assert(decreases_to!(*v => v->Object_0));
                    assert(decreases_to!(*entries => entries@));
                    assert(decreases_to!(entries@ => entries@[i as int]));
                    assert(decreases_to!(entries@[i as int] => entries@[i as int].1));
                }
                let ghost before = jviews(out@);
                push_flattened(&entries[i].1, out);
                proof {
                    let t = es.skip(i as int);
                    assert(t[0] == es[i as int]);
                    assert(t.drop_first() =~= es.skip(i + 1));
                    assert(flattened_entries(t) == flattened(es[i as int].1) + flattened_entries(
                        es.skip(i + 1),
                    ));
                    assert(jviews(out@).skip(start.len() as int) =~= before.skip(start.len() as int)
                        + flattened(es[i as int].1));
                    assert(jviews(out@).take(start.len() as int) =~= start);
                }
                i = i + 1;
            }
            proof {
                assert(es.skip(entries.len() as int) =~= Seq::<(Seq<char>, JsonView)>::empty());
                assert(jviews(out@) =~= start + jviews(out@).skip(start.len() as int));
            }
        },
        _ => {
            proof {
                assert(jviews(out@) =~= jviews(old(out)@) + flattened(v@));
            }
        },
    }
}

fn lifecycle_values_of(entries: &Vec<JsonValue>, key: &str) -> (r: Vec<JsonValue>)
    ensures
        jviews(r@) == lifecycle_values(jviews(entries@), key@),
{
    let ghost es = jviews(entries@);
    proof {
        lemma_jviews(entries@);
        assert(es.take(0) =~= Seq::<JsonView>::empty());
        assert(jviews(Seq::<JsonValue>::empty()) =~= Seq::<JsonView>::empty());
    }
    let mut out: Vec<JsonValue> = Vec::new();
    let mut i: usize = 0;
    while i < entries.len()
        invariant
            i <= entries.len(),
            es == jviews(entries@),
            es.len() == entries@.len(),
            forall|q: int| 0 <= q < entries@.len() ==> #[trigger] es[q] == entries@[q]@,
            jviews(out@) == lifecycle_values(es.take(i as int), key@),
        decreases entries.len() - i,
    {
        proof {
            assert(es.take(i + 1).drop_last() =~= es.take(i as int));
            assert(es.take(i + 1).last() == es[i as int]);
            crate::json_value::lemma_get_view(entries@[i as int], key@);
        }
        match crate::json_value::json_get(&entries[i], key) {
            Some(v) => push_flattened(v, &mut out),
            None => {
                proof {
                    assert(jviews(out@) =~= jviews(out@) + Seq::<JsonView>::empty());
                }
            },
        }
        i = i + 1;
    }
    proof {
        assert(es.take(entries.len() as int) =~= es);
    }
    out
}

/// The group of the commands: one command as it is, several numbered.
pub(crate) fn command_group_of(cmds: &Vec<JsonValue>) -> (r: Option<JsonValue>)
    ensures
        match r {
            Some(g) => command_group(jviews(cmds@)) == Some(g@),
            None => command_group(jviews(cmds@)) is None,
        },
{
    let ghost cv = jviews(cmds@);
    proof {
        lemma_jviews(cmds@);
    }
    if cmds.len() == 0 {
        return None;
    }
    if cmds.len() == 1 {
        return Some(json_clone(&cmds[0]));
    }
    let mut numbered_entries: Vec<(String, JsonValue)> = Vec::new();
    proof {
        assert(jentries(numbered_entries@) =~= Seq::<(Seq<char>, JsonView)>::empty());
        assert(cv.take(0) =~= Seq::<JsonView>::empty());
    }
    let mut i: usize = 0;
    while i < cmds.len()
        invariant
            i <= cmds.len(),
            cv == jviews(cmds@),
            cv.len() == cmds@.len(),
            forall|q: int| 0 <= q < cmds@.len() ==> #[trigger] cv[q] == cmds@[q]@,
            jentries(numbered_entries@) == numbered(cv.take(i as int)),
        decreases cmds.len() - i,
    {
        proof {
            assert(cv.take(i + 1).drop_last() =~= cv.take(i as int));
            assert(cv.take(i + 1).last() == cv[i as int]);
        }
        let c = json_clone(&cmds[i]);
        object_insert(&mut numbered_entries, usize_to_string(i), c);
        i = i + 1;
    }
    proof {
        assert(cv.take(cmds.len() as int) =~= cv);
    }
    Some(JsonValue::Object(numbered_entries))
}

fn insert_group_into(m: &mut Vec<(String, JsonValue)>, entries: &Vec<JsonValue>, key: &str)
    ensures
        jentries(final(m)@) == insert_group(jentries(old(m)@), jviews(entries@), key@),
{
    let cmds = lifecycle_values_of(entries, key);
    match command_group_of(&cmds) {
        Some(g) => object_insert(m, String::from_str(key), g),
        None => {},
    }
}

/// The metadata entries a parsed container label holds: an array's items,
/// or one object.
pub fn label_entries_of(label: Option<&JsonValue>) -> (r: Vec<JsonValue>)
    ensures
        jviews(r@) == label_entries(
            match label {
                Some(x) => Some(x@),
                None => None,
            },
        ),
{
    match label {
        Some(JsonValue::Array(items)) => {
            let mut out: Vec<JsonValue> = Vec::new();
            let mut i: usize = 0;
            proof {
                lemma_jviews(items@);
                assert(jviews(out@) =~= jviews(items@).take(0));
            }
            while i < items.len()
                invariant
                    i <= items.len(),
                    jviews(items@).len() == items@.len(),
                    forall|q: int| 0 <= q < items@.len() ==> #[trigger] jviews(items@)[q] == items@[q]@,
                    jviews(out@) == jviews(items@).take(i as int),
                decreases items.len() - i,
            {
                let c = json_clone(&items[i]);
                let ghost before = out@;
                out.push(c);
                proof {
                    lemma_jviews_push(before, c);
                    assert(jviews(items@).take(i + 1) =~= jviews(items@).take(i as int).push(items@[i as int]@));
                }
                i = i + 1;
            }
            proof {
                assert(jviews(items@).take(items.len() as int) =~= jviews(items@));
            }
            out
        },
        Some(JsonValue::Object(_)) => {
            let c = json_clone(label.unwrap());
            let mut out: Vec<JsonValue> = Vec::new();
            out.push(c);
            proof {
                lemma_jviews_push(Seq::<JsonValue>::empty(), c);
                assert(jviews(Seq::<JsonValue>::empty()) =~= Seq::<JsonView>::empty());
                assert(out@ =~= Seq::<JsonValue>::empty().push(c));
            }
            out
        },
        _ => {
            let out: Vec<JsonValue> = Vec::new();
            proof {
                assert(jviews(out@) =~= Seq::<JsonView>::empty());
            }
            out
        },
    }
}

/// The merged metadata of a container label, given parsed (nothing for a
/// missing or unreadable label).
pub fn merged_container_metadata(label: Option<&JsonValue>) -> (r: JsonValue)
    ensures
        r@ == merged_metadata_of(
            match label {
                Some(x) => Some(x@),
                None => None,
            },
        ),
{
    let entries = label_entries_of(label);
    let mut m: Vec<(String, JsonValue)> = Vec::new();
    proof {
        assert(jentries(m@) =~= Seq::<(Seq<char>, JsonView)>::empty());
    }
    insert_last_into(&mut m, &entries, "waitFor");
    insert_last_into(&mut m, &entries, "workspaceFolder");
    insert_last_into(&mut m, &entries, "remoteUser");
    insert_last_into(&mut m, &entries, "containerUser");
    insert_object_into(&mut m, "remoteEnv", merged_objects_of(&entries, "remoteEnv"));
    insert_object_into(&mut m, "containerEnv", merged_objects_of(&entries, "containerEnv"));
    insert_group_into(&mut m, &entries, "initializeCommand");
    insert_group_into(&mut m, &entries, "onCreateCommand");
    insert_group_into(&mut m, &entries, "updateContentCommand");
    insert_group_into(&mut m, &entries, "postCreateCommand");
    insert_group_into(&mut m, &entries, "postStartCommand");
    insert_group_into(&mut m, &entries, "postAttachCommand");
    JsonValue::Object(m)
}

proof fn lemma_insert_group_other(m: Entries, es: Seq<JsonView>, k: Seq<char>, other: Seq<char>)
    requires
        other != k,
    ensures
        ventry(insert_group(m, es, k), other) == ventry(m, other),
{
    match command_group(lifecycle_values(es, k)) {
        Some(v) => lemma_vinsert_reads(m, k, v, other),
        None => {},
    }
}

/// In merged metadata, the wait stage, workspace folder and users are those
/// of the last entry that sets them.
pub proof fn lemma_metadata_last_setting_wins(label: Option<JsonView>, key: Seq<char>)
    requires
        key == "waitFor"@ || key == "workspaceFolder"@ || key == "remoteUser"@ || key == "containerUser"@,
    ensures
        vget(merged_metadata_of(label), key) == last_value(label_entries(label), key),
{
    reveal_strlit("waitFor");
    reveal_strlit("workspaceFolder");
    reveal_strlit("remoteUser");
    reveal_strlit("containerUser");
    reveal_strlit("remoteEnv");
    reveal_strlit("containerEnv");
    reveal_strlit("initializeCommand");
    reveal_strlit("onCreateCommand");
    reveal_strlit("updateContentCommand");
    reveal_strlit("postCreateCommand");
    reveal_strlit("postStartCommand");
    reveal_strlit("postAttachCommand");
    assert("waitFor"@.len() == 7);
    assert("workspaceFolder"@.len() == 15 && "workspaceFolder"@[0] == 'w');
    assert("remoteUser"@.len() == 10);
    assert("containerUser"@.len() == 13);
    assert("remoteEnv"@.len() == 9);
    assert("containerEnv"@.len() == 12);
    assert("initializeCommand"@.len() == 17);
    assert("onCreateCommand"@.len() == 15 && "onCreateCommand"@[0] == 'o');
    assert("updateContentCommand"@.len() == 20);
    assert("postCreateCommand"@.len() == 17);
    assert("postStartCommand"@.len() == 16);
    assert("postAttachCommand"@.len() == 17);
    let es = label_entries(label);
    let m0 = Seq::<(Seq<char>, JsonView)>::empty();
    let a = insert_last(m0, es, "waitFor"@);
    let b = insert_last(a, es, "workspaceFolder"@);
    let c = insert_last(b, es, "remoteUser"@);
    let d = insert_last(c, es, "containerUser"@);
    lemma_insert_last_reads(m0, es, "waitFor"@, key);
    lemma_insert_last_reads(a, es, "workspaceFolder"@, key);
    lemma_insert_last_reads(b, es, "remoteUser"@, key);
    lemma_insert_last_reads(c, es, "containerUser"@, key);
    assert(ventry(d, key) == last_value(es, key));
    let e = insert_object(d, "remoteEnv"@, merged_objects(es, "remoteEnv"@));
    let f = insert_object(e, "containerEnv"@, merged_objects(es, "containerEnv"@));
    lemma_insert_object_other(d, "remoteEnv"@, merged_objects(es, "remoteEnv"@), key);
    lemma_insert_object_other(e, "containerEnv"@, merged_objects(es, "containerEnv"@), key);
    let g1 = insert_group(f, es, "initializeCommand"@);
    let g2 = insert_group(g1, es, "onCreateCommand"@);
    let g3 = insert_group(g2, es, "updateContentCommand"@);
    let g4 = insert_group(g3, es, "postCreateCommand"@);
    let g5 = insert_group(g4, es, "postStartCommand"@);
    let g6 = insert_group(g5, es, "postAttachCommand"@);
    lemma_insert_group_other(f, es, "initializeCommand"@, key);
    lemma_insert_group_other(g1, es, "onCreateCommand"@, key);
    lemma_insert_group_other(g2, es, "updateContentCommand"@, key);
    lemma_insert_group_other(g3, es, "postCreateCommand"@, key);
    lemma_insert_group_other(g4, es, "postStartCommand"@, key);
    lemma_insert_group_other(g5, es, "postAttachCommand"@, key);
    assert(merged_metadata_of(label) == JsonView::Object(g6));
}

} // verus!
