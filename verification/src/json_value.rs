//! JSON values as configuration files hold them, and the lookups made on them.
use vstd::prelude::*;
use crate::text::{copy_string, str_eq};

verus! {

/// A JSON value. Numbers keep their text; objects keep their entries in order.
#[derive(Debug, PartialEq)]
pub enum JsonValue {
    Null,
    Bool(bool),
    Number(String),
    Str(String),
    Array(Vec<JsonValue>),
    Object(Vec<(String, JsonValue)>),
}

/// The mathematical value of a JSON value: the same shape, with text as
/// sequences of characters.
pub enum JsonView {
    Null,
    Bool(bool),
    Number(Seq<char>),
    Str(Seq<char>),
    Array(Seq<JsonView>),
    Object(Seq<(Seq<char>, JsonView)>),
}

/// The view of a value.
pub open spec fn jview(v: JsonValue) -> JsonView
    decreases v, 0nat,
{
    match v {
        JsonValue::Null => JsonView::Null,
        JsonValue::Bool(b) => JsonView::Bool(b),
        JsonValue::Number(n) => JsonView::Number(n@),
        JsonValue::Str(s) => JsonView::Str(s@),
        JsonValue::Array(items) => JsonView::Array(jviews(items@)),
        JsonValue::Object(entries) => JsonView::Object(jentries(entries@)),
    }
}

/// The views of a sequence of values.
pub open spec fn jviews(s: Seq<JsonValue>) -> Seq<JsonView>
    decreases s, 1nat,
{
    if s.len() == 0 {
        Seq::empty()
    } else {
        seq![jview(s[0])] + jviews(s.drop_first())
    }
}

/// The views of object entries.
pub open spec fn jentries(s: Seq<(String, JsonValue)>) -> Seq<(Seq<char>, JsonView)>
    decreases s, 1nat,
{
    if s.len() == 0 {
        Seq::empty()
    } else {
        seq![(s[0].0@, jview(s[0].1))] + jentries(s.drop_first())
    }
}

impl View for JsonValue {
    type V = JsonView;

    open spec fn view(&self) -> JsonView {
        jview(*self)
    }
}

/// `jviews` maps `jview` over the sequence.
pub proof fn lemma_jviews(s: Seq<JsonValue>)
    ensures
        jviews(s).len() == s.len(),
        forall|i: int| 0 <= i < s.len() ==> #[trigger] jviews(s)[i] == jview(s[i]),
    decreases s.len(),
{
    if s.len() > 0 {
        lemma_jviews(s.drop_first());
        assert forall|i: int| 0 <= i < s.len() implies #[trigger] jviews(s)[i] == jview(s[i]) by {
            if i > 0 {
                assert(s.drop_first()[i - 1] == s[i]);
            }
        }
    }
}

/// `jentries` maps each entry to its key's text and its value's view.
pub proof fn lemma_jentries(s: Seq<(String, JsonValue)>)
    ensures
        jentries(s).len() == s.len(),
        forall|i: int|
            0 <= i < s.len() ==> #[trigger] jentries(s)[i] == (s[i].0@, jview(s[i].1)),
    decreases s.len(),
{
    if s.len() > 0 {
        lemma_jentries(s.drop_first());
        assert forall|i: int| 0 <= i < s.len() implies #[trigger] jentries(s)[i] == (
        s[i].0@,
        jview(s[i].1),
        ) by {
            if i > 0 {
                assert(s.drop_first()[i - 1] == s[i]);
            }
        }
    }
}

/// A copy of a value, equal to it in view.
pub fn json_clone(v: &JsonValue) -> (r: JsonValue)
    ensures
        r@ == v@,
    decreases v,
{
    match v {
        JsonValue::Null => JsonValue::Null,
        JsonValue::Bool(b) => JsonValue::Bool(*b),
        JsonValue::Number(n) => JsonValue::Number(copy_string(n)),
        JsonValue::Str(t) => JsonValue::Str(copy_string(t)),
        JsonValue::Array(items) => {
            let mut out: Vec<JsonValue> = Vec::new();
            let mut i: usize = 0;
            while i < items.len()
                invariant
                    i <= items.len(),
                    *v == JsonValue::Array(*items),
                    out@.len() == i,
                    forall|j: int| 0 <= j < i ==> #[trigger] jview(out@[j]) == jview(items@[j]),
                decreases items.len() - i,
            {
                proof {
                    assert(decreases_to!(*v => v->Array_0));
                    assert(decreases_to!(*items => items@));
                    assert(decreases_to!(items@ => items@[i as int]));
                    assert(decreases_to!(*v => items@[i as int]));
                }
                let c = json_clone(&items[i]);
                out.push(c);
                i = i + 1;
            }
            proof {
                lemma_jviews(out@);
                lemma_jviews(items@);
                assert(jviews(out@) =~= jviews(items@));
            }
            JsonValue::Array(out)
        },
        JsonValue::Object(entries) => {
            let mut out: Vec<(String, JsonValue)> = Vec::new();
            let mut i: usize = 0;
            while i < entries.len()
                invariant
                    i <= entries.len(),
                    *v == JsonValue::Object(*entries),
                    out@.len() == i,
                    forall|j: int|
                        0 <= j < i ==> #[trigger] out@[j].0@ == entries@[j].0@ && jview(out@[j].1)
                            == jview(entries@[j].1),
                decreases entries.len() - i,
            {
                proof {
                    assert(decreases_to!(*v => v->Object_0));
                    assert(decreases_to!(*entries => entries@));
                    assert(decreases_to!(entries@ => entries@[i as int]));
                    assert(decreases_to!(entries@[i as int] => entries@[i as int].1));
                    assert(decreases_to!(*v => entries@[i as int].1));
                }
                let k = copy_string(&entries[i].0);
                let c = json_clone(&entries[i].1);
                out.push((k, c));
                i = i + 1;
            }
            proof {
                lemma_jentries(out@);
                lemma_jentries(entries@);
                assert(jentries(out@) =~= jentries(entries@));
            }
            JsonValue::Object(out)
        },
    }
}

/// Whether two values are the same JSON value: same kind, same text, same
/// items and entries in the same order.
pub fn json_eq(a: &JsonValue, b: &JsonValue) -> (r: bool)
    ensures
        r == (a@ == b@),
    decreases a,
{
    match (a, b) {
        (JsonValue::Null, JsonValue::Null) => true,
        (JsonValue::Bool(x), JsonValue::Bool(y)) => *x == *y,
        (JsonValue::Number(x), JsonValue::Number(y)) => str_eq(x.as_str(), y.as_str()),
        (JsonValue::Str(x), JsonValue::Str(y)) => str_eq(x.as_str(), y.as_str()),
        (JsonValue::Array(xs), JsonValue::Array(ys)) => {
            proof {
                lemma_jviews(xs@);
                lemma_jviews(ys@);
            }
            if xs.len() != ys.len() {
                return false;
            }
            let mut i: usize = 0;
            while i < xs.len()
                invariant
                    i <= xs.len(),
                    xs.len() == ys.len(),
                    *a == JsonValue::Array(*xs),
                    *b == JsonValue::Array(*ys),
                    jviews(xs@).len() == xs@.len(),
                    jviews(ys@).len() == ys@.len(),
                    forall|j: int| 0 <= j < xs@.len() ==> #[trigger] jviews(xs@)[j] == jview(xs@[j]),
                    forall|j: int| 0 <= j < ys@.len() ==> #[trigger] jviews(ys@)[j] == jview(ys@[j]),
                    forall|j: int| 0 <= j < i ==> #[trigger] jview(xs@[j]) == jview(ys@[j]),
                decreases xs.len() - i,
            {
                proof {
                    assert(decreases_to!(*a => a->Array_0));
                    assert(decreases_to!(*xs => xs@));
                    assert(decreases_to!(xs@ => xs@[i as int]));
                    assert(decreases_to!(*a => xs@[i as int]));
                }
                if !json_eq(&xs[i], &ys[i]) {
                    proof {
                        assert(jviews(xs@)[i as int] != jviews(ys@)[i as int]);
                    }
                    return false;
                }
                i = i + 1;
            }
            proof {
                assert(jviews(xs@) =~= jviews(ys@));
            }
            true
        },
        (JsonValue::Object(xs), JsonValue::Object(ys)) => {
            proof {
                lemma_jentries(xs@);
                lemma_jentries(ys@);
            }
            if xs.len() != ys.len() {
                return false;
            }
            let mut i: usize = 0;
            while i < xs.len()
                invariant
                    i <= xs.len(),
                    xs.len() == ys.len(),
                    *a == JsonValue::Object(*xs),
                    *b == JsonValue::Object(*ys),
                    jentries(xs@).len() == xs@.len(),
                    jentries(ys@).len() == ys@.len(),
                    forall|j: int|
                        0 <= j < xs@.len() ==> #[trigger] jentries(xs@)[j] == (xs@[j].0@, jview(xs@[j].1)),
                    forall|j: int|
                        0 <= j < ys@.len() ==> #[trigger] jentries(ys@)[j] == (ys@[j].0@, jview(ys@[j].1)),
                    forall|j: int| 0 <= j < i ==> #[trigger] jentries(xs@)[j] == jentries(ys@)[j],
                decreases xs.len() - i,
            {
                proof {
                    assert(decreases_to!(*a => a->Object_0));
                    assert(decreases_to!(*xs => xs@));
                    assert(decreases_to!(xs@ => xs@[i as int]));
                    assert(decreases_to!(xs@[i as int] => xs@[i as int].1));
                    assert(decreases_to!(*a => xs@[i as int].1));
                }
                if !str_eq(xs[i].0.as_str(), ys[i].0.as_str()) {
                    proof {
                        assert(jentries(xs@)[i as int] != jentries(ys@)[i as int]);
                    }
                    return false;
                }
                if !json_eq(&xs[i].1, &ys[i].1) {
                    proof {
                        assert(jentries(xs@)[i as int] != jentries(ys@)[i as int]);
                    }
                    return false;
                }
                i = i + 1;
            }
            proof {
                assert(jentries(xs@) =~= jentries(ys@));
            }
            true
        },
        _ => false,
    }
}

/// The value of the first entry named `key` in the view of an object.
pub open spec fn ventry(entries: Seq<(Seq<char>, JsonView)>, key: Seq<char>) -> Option<JsonView>
    decreases entries.len(),
{
    if entries.len() == 0 {
        None
    } else if entries[0].0 == key {
        Some(entries[0].1)
    } else {
        ventry(entries.drop_first(), key)
    }
}

/// `v[key]` on views: the entry of an object, nothing for other values.
pub open spec fn vget(v: JsonView, key: Seq<char>) -> Option<JsonView> {
    match v {
        JsonView::Object(entries) => ventry(entries, key),
        _ => None,
    }
}

/// Looking a key up commutes with taking views.
pub proof fn lemma_entry_value_view(entries: Seq<(String, JsonValue)>, key: Seq<char>)
    ensures
        ventry(jentries(entries), key) == match entry_value(entries, key) {
            Some(x) => Some(jview(x)),
            None => None::<JsonView>,
        },
    decreases entries.len(),
{
    if entries.len() > 0 {
        lemma_entry_value_view(entries.drop_first(), key);
        let js = jentries(entries);
        assert(js.drop_first() =~= jentries(entries.drop_first()));
        assert(js[0] == (entries[0].0@, jview(entries[0].1)));
    }
}

/// `get` on a value and `vget` on its view agree.
pub proof fn lemma_get_view(v: JsonValue, key: Seq<char>)
    ensures
        vget(v@, key) == match get(v, key) {
            Some(x) => Some(x@),
            None => None::<JsonView>,
        },
{
    match v {
        JsonValue::Object(entries) => lemma_entry_value_view(entries@, key),
        _ => {},
    }
}

/// The value of the first entry named `key` among object entries.
pub open spec fn entry_value(entries: Seq<(String, JsonValue)>, key: Seq<char>) -> Option<JsonValue>
    decreases entries.len(),
{
    if entries.len() == 0 {
        None
    } else if entries[0].0@ == key {
        Some(entries[0].1)
    } else {
        entry_value(entries.drop_first(), key)
    }
}

/// `v[key]` for an object, nothing for any other value.
pub open spec fn get(v: JsonValue, key: Seq<char>) -> Option<JsonValue> {
    match v {
        JsonValue::Object(entries) => entry_value(entries@, key),
        _ => None,
    }
}

/// The text of a string value.
pub open spec fn str_of(v: Option<JsonValue>) -> Option<Seq<char>> {
    match v {
        Some(JsonValue::Str(s)) => Some(s@),
        _ => None,
    }
}

/// The text of the string at `key`.
pub open spec fn get_str(v: JsonValue, key: Seq<char>) -> Option<Seq<char>> {
    str_of(get(v, key))
}

/// The value of the first entry named `key`.
pub fn entries_get<'a>(entries: &'a Vec<(String, JsonValue)>, key: &str) -> (r: Option<&'a JsonValue>)
    ensures
        match r {
            Some(x) => entry_value(entries@, key@) == Some(*x),
            None => entry_value(entries@, key@) is None,
        },
{
    let mut i: usize = 0;
    proof {
        assert(entries@.skip(0) =~= entries@);
    }
    while i < entries.len()
        invariant
            i <= entries.len(),
            entry_value(entries@, key@) == entry_value(entries@.skip(i as int), key@),
        decreases entries.len() - i,
    {
        proof {
            assert(entries@.skip(i as int).drop_first() =~= entries@.skip(i + 1));
            assert(entries@.skip(i as int)[0] == entries@[i as int]);
        }
        if str_eq(entries[i].0.as_str(), key) {
            return Some(&entries[i].1);
        }
        i = i + 1;
    }
    None
}

/// `v[key]`, for an object.
pub fn json_get<'a>(v: &'a JsonValue, key: &str) -> (r: Option<&'a JsonValue>)
    ensures
        match r {
            Some(x) => get(*v, key@) == Some(*x),
            None => get(*v, key@) is None,
        },
{
    match v {
        JsonValue::Object(entries) => entries_get(entries, key),
        _ => None,
    }
}

/// The text of a string value, copied.
pub fn json_as_str(v: Option<&JsonValue>) -> (r: Option<String>)
    ensures
        crate::text::opt_view(r) == str_of(
            match v {
                Some(x) => Some(*x),
                None => None,
            },
        ),
{
    match v {
        Some(JsonValue::Str(s)) => Some(copy_string(s)),
        _ => None,
    }
}

/// The text of the string at `key`.
pub fn json_get_str(v: &JsonValue, key: &str) -> (r: Option<String>)
    ensures
        crate::text::opt_view(r) == get_str(*v, key@),
{
    json_as_str(json_get(v, key))
}

} // verus!
