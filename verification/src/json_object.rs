//! Objects as ordered maps: inserting keeps the entries in key order and
//! replaces an entry of the same key; removing drops the key.
use vstd::prelude::*;
use crate::devcontainer_id::{chars_lt, key_lt};
use crate::json_value::{entries_get, jentries, json_clone, jview, jviews, lemma_entry_value_view, lemma_jentries, lemma_jviews, ventry, JsonValue, JsonView};
use crate::text::{chars_of, str_eq};

verus! {

/// Entry views of an object.
pub type Entries = Seq<(Seq<char>, JsonView)>;

/// `(k, v)` put in order: it replaces the first entry named `k` met before
/// a greater key, else it goes in before the first greater key.
pub open spec fn vinsert(s: Entries, k: Seq<char>, v: JsonView) -> Entries
    decreases s.len(),
{
    if s.len() == 0 {
        seq![(k, v)]
    } else if s[0].0 == k {
        seq![(k, v)] + s.drop_first()
    } else if key_lt(k, s[0].0) {
        seq![(k, v)] + s
    } else {
        seq![s[0]] + vinsert(s.drop_first(), k, v)
    }
}

/// The entries without those named `k`.
pub open spec fn vremove(s: Entries, k: Seq<char>) -> Entries
    decreases s.len(),
{
    if s.len() == 0 {
        Seq::empty()
    } else {
        let rest = vremove(s.drop_last(), k);
        if s.last().0 == k {
            rest
        } else {
            rest.push(s.last())
        }
    }
}

proof fn lemma_vinsert_skip(s: Entries, k: Seq<char>, v: JsonView, i: int)
    requires
        0 <= i <= s.len(),
        forall|j: int| 0 <= j < i ==> s[j].0 != k && !key_lt(k, #[trigger] s[j].0),
    ensures
        vinsert(s, k, v) == s.take(i) + vinsert(s.skip(i), k, v),
    decreases i,
{
    if i == 0 {
        assert(s.take(0) =~= Seq::<(Seq<char>, JsonView)>::empty());
        assert(s.skip(0) =~= s);
    } else {
        let t = s.drop_first();
        assert forall|j: int| 0 <= j < i - 1 implies t[j].0 != k && !key_lt(k, #[trigger] t[j].0) by {
            assert(t[j] == s[j + 1]);
        }
        lemma_vinsert_skip(t, k, v, i - 1);
        assert(s[0].0 != k && !key_lt(k, s[0].0));
        assert(t.skip(i - 1) =~= s.skip(i));
        assert(s.take(i) =~= seq![s[0]] + t.take(i - 1));
    }
}

fn key_chars_lt(k: &str, other: &str) -> (r: bool)
    ensures
        r == key_lt(k@, other@),
{
    let a = chars_of(k);
    let b = chars_of(other);
    chars_lt(&a, &b)
}

/// Puts `(key, value)` into the object entries in key order.
pub fn object_insert(entries: &mut Vec<(String, JsonValue)>, key: String, value: JsonValue)
    ensures
        jentries(final(entries)@) == vinsert(jentries(old(entries)@), key@, value@),
{
    let ghost s = jentries(entries@);
    proof {
        lemma_jentries(entries@);
    }
    let mut i: usize = 0;
    while i < entries.len() && !str_eq(entries[i].0.as_str(), key.as_str()) && !key_chars_lt(
        key.as_str(),
        entries[i].0.as_str(),
    )
        invariant
            i <= entries.len(),
            entries@ == old(entries)@,
            s == jentries(entries@),
            s.len() == entries@.len(),
            forall|j: int|
                0 <= j < entries@.len() ==> #[trigger] s[j] == (entries@[j].0@, entries@[j].1@),
            forall|j: int| 0 <= j < i ==> s[j].0 != key@ && !key_lt(key@, #[trigger] s[j].0),
        decreases entries.len() - i,
    {
        i = i + 1;
    }
    proof {
        lemma_vinsert_skip(s, key@, value@, i as int);
    }
    let ghost kv = key@;
    let ghost vv = value@;
    if i < entries.len() && str_eq(entries[i].0.as_str(), key.as_str()) {
        entries.set(i, (key, value));
        proof {
            let t = s.skip(i as int);
            assert(t[0] == s[i as int]);
            assert(t.drop_first() =~= s.skip(i + 1));
            lemma_jentries(entries@);
            assert(jentries(entries@) =~= s.take(i as int) + vinsert(t, kv, vv));
        }
    } else {
        entries.insert(i, (key, value));
        proof {
            let t = s.skip(i as int);
            if i < s.len() {
                assert(t[0] == s[i as int]);
            } else {
                assert(t =~= Seq::<(Seq<char>, JsonView)>::empty());
            }
            lemma_jentries(entries@);
            assert(jentries(entries@) =~= s.take(i as int) + vinsert(t, kv, vv));
        }
    }
}

/// Drops the entries named `key`.
pub fn object_remove(entries: &mut Vec<(String, JsonValue)>, key: &str)
    ensures
        jentries(final(entries)@) == vremove(jentries(old(entries)@), key@),
{
    let ghost s = jentries(entries@);
    proof {
        lemma_jentries(entries@);
    }
    let mut kept: Vec<(String, JsonValue)> = Vec::new();
    let mut rest: Vec<(String, JsonValue)> = Vec::new();
    std::mem::swap(&mut rest, entries);
    let ghost all = rest@;
    proof {
        assert(jentries(kept@) =~= vremove(s.take(0), key@));
    }
    let mut i: usize = 0;
    let n = rest.len();
    while rest.len() > 0
        invariant
            n == all.len(),
            i + rest@.len() == n,
            rest@ == all.skip(i as int),
            s == jentries(all),
            s.len() == all.len(),
            forall|j: int| 0 <= j < all.len() ==> #[trigger] s[j] == (all[j].0@, all[j].1@),
            jentries(kept@) == vremove(s.take(i as int), key@),
        decreases rest.len(),
    {
        let e = rest.remove(0);
        proof {
            assert(e == all[i as int]);
            assert(s.take(i + 1).drop_last() =~= s.take(i as int));
            assert(s.take(i + 1).last() == s[i as int]);
            assert(rest@ =~= all.skip(i + 1));
        }
        if str_eq(e.0.as_str(), key) {
        } else {
            let ghost before = kept@;
            kept.push(e);
            proof {
                lemma_jentries(before);
                lemma_jentries(kept@);
                assert(jentries(kept@) =~= jentries(before).push(s[i as int]));
            }
        }
        i = i + 1;
    }
    proof {
        assert(s.take(n as int) =~= s);
    }
    *entries = kept;
}

/// The items of an array, none for any other value.
pub open spec fn items_of(v: JsonView) -> Seq<JsonView> {
    match v {
        JsonView::Array(items) => items,
        _ => Seq::empty(),
    }
}

/// The entries of an object, none for any other value.
pub open spec fn entries_of(v: JsonView) -> Entries {
    match v {
        JsonView::Object(e) => e,
        _ => Seq::empty(),
    }
}

/// The items of the array named `k`; none when there is no such array.
pub open spec fn list_at(m: Entries, k: Seq<char>) -> Seq<JsonView> {
    match ventry(m, k) {
        Some(v) => items_of(v),
        None => Seq::empty(),
    }
}

/// The entries of the object named `k`; none when there is no such object.
pub open spec fn object_at(m: Entries, k: Seq<char>) -> Entries {
    match ventry(m, k) {
        Some(v) => entries_of(v),
        None => Seq::empty(),
    }
}

/// A copy of the items of the array named `key`.
pub fn list_copy(m: &Vec<(String, JsonValue)>, key: &str) -> (r: Vec<JsonValue>)
    ensures
        jviews(r@) == list_at(jentries(m@), key@),
{
    proof {
        lemma_entry_value_view(m@, key@);
    }
    match entries_get(m, key) {
        Some(v) => match json_clone(v) {
            JsonValue::Array(items) => items,
            _ => {
                let r: Vec<JsonValue> = Vec::new();
                proof {
                    assert(jviews(r@) =~= Seq::<JsonView>::empty());
                }
                r
            },
        },
        None => {
            let r: Vec<JsonValue> = Vec::new();
            proof {
                assert(jviews(r@) =~= Seq::<JsonView>::empty());
            }
            r
        },
    }
}

/// A copy of the entries of the object named `key`.
pub fn object_copy(m: &Vec<(String, JsonValue)>, key: &str) -> (r: Vec<(String, JsonValue)>)
    ensures
        jentries(r@) == object_at(jentries(m@), key@),
{
    proof {
        lemma_entry_value_view(m@, key@);
    }
    match entries_get(m, key) {
        Some(v) => match json_clone(v) {
            JsonValue::Object(e) => e,
            _ => {
                let r: Vec<(String, JsonValue)> = Vec::new();
                proof {
                    assert(jentries(r@) =~= Seq::<(Seq<char>, JsonView)>::empty());
                }
                r
            },
        },
        None => {
            let r: Vec<(String, JsonValue)> = Vec::new();
            proof {
                assert(jentries(r@) =~= Seq::<(Seq<char>, JsonView)>::empty());
            }
            r
        },
    }
}

/// After putting `(k, v)` in, `k` reads `v` and every other key reads what it read before.
pub proof fn lemma_vinsert_reads(s: Entries, k: Seq<char>, v: JsonView, other: Seq<char>)
    ensures
        crate::json_value::ventry(vinsert(s, k, v), k) == Some(v),
        other != k ==> crate::json_value::ventry(vinsert(s, k, v), other) == crate::json_value::ventry(s, other),
    decreases s.len(),
{
    reveal_with_fuel(crate::json_value::ventry, 2);
    let r = vinsert(s, k, v);
    if s.len() == 0 {
        assert(r =~= seq![(k, v)]);
        assert(r[0] == (k, v));
        assert(r.drop_first() =~= Seq::<(Seq<char>, JsonView)>::empty());
    } else if s[0].0 == k {
        assert(r == seq![(k, v)] + s.drop_first());
        assert(r[0] == (k, v));
        assert(r.drop_first() =~= s.drop_first());
    } else if key_lt(k, s[0].0) {
        assert(r == seq![(k, v)] + s);
        assert(r[0] == (k, v));
        assert(r.drop_first() =~= s);
    } else {
        lemma_vinsert_reads(s.drop_first(), k, v, other);
        let t = vinsert(s.drop_first(), k, v);
        assert(r == seq![s[0]] + t);
        assert(r[0] == s[0]);
        assert(r.drop_first() =~= t);
    }
}

/// After removing `k`, it reads nothing and every other key reads what it read before.
pub proof fn lemma_vremove_reads(s: Entries, k: Seq<char>, other: Seq<char>)
    ensures
        crate::json_value::ventry(vremove(s, k), k) is None,
        other != k ==> crate::json_value::ventry(vremove(s, k), other) == crate::json_value::ventry(s, other),
    decreases s.len(),
{
    if s.len() > 0 {
        lemma_vremove_reads(s.drop_last(), k, other);
        lemma_ventry_push(vremove(s.drop_last(), k), s.last(), k);
        lemma_ventry_push(vremove(s.drop_last(), k), s.last(), other);
        lemma_ventry_push(s.drop_last(), s.last(), other);
        assert(s.drop_last().push(s.last()) =~= s);
    }
}

/// Looking up a key in a sequence with an entry pushed at the end.
proof fn lemma_ventry_push(s: Entries, e: (Seq<char>, JsonView), k: Seq<char>)
    ensures
        crate::json_value::ventry(s.push(e), k) == match crate::json_value::ventry(s, k) {
            Some(x) => Some(x),
            None => if e.0 == k {
                Some(e.1)
            } else {
                None
            },
        },
    decreases s.len(),
{
    reveal_with_fuel(crate::json_value::ventry, 2);
    let r = s.push(e);
    if s.len() == 0 {
        assert(r[0] == e);
        assert(r.drop_first() =~= Seq::<(Seq<char>, JsonView)>::empty());
    } else {
        lemma_ventry_push(s.drop_first(), e, k);
        assert(r[0] == s[0]);
        assert(r.drop_first() =~= s.drop_first().push(e));
    }
}

} // verus!
