//! YAML text of compose override entries: block mappings and sequences,
//! strings single-quoted, other scalars as written.
use vstd::prelude::*;
use crate::compose::{escape_compose_scalar, escaped};
use crate::json_value::{jentries, jviews, lemma_jentries, lemma_jviews, JsonValue, JsonView};
use crate::text::{append_chars, chars_of};

verus! {

/// `n` spaces.
pub open spec fn spaces(n: nat) -> Seq<char> {
    Seq::new(n, |i: int| ' ')
}

/// `- ` for the first key of a sequence item, nothing otherwise.
pub open spec fn dash(d: bool) -> Seq<char> {
    if d {
        seq!['-', ' ']
    } else {
        Seq::empty()
    }
}

/// A scalar: a string single-quoted, a boolean or number as written, `null`.
pub open spec fn yaml_scalar(v: JsonView) -> Seq<char> {
    match v {
        JsonView::Str(t) => seq!['\''] + escaped(t, false) + seq!['\''],
        JsonView::Bool(b) => if b {
            seq!['t', 'r', 'u', 'e']
        } else {
            seq!['f', 'a', 'l', 's', 'e']
        },
        JsonView::Number(n) => n,
        _ => seq!['n', 'u', 'l', 'l'],
    }
}

/// `key: value` at `indent`: a mapping or sequence on the following lines,
/// indented two more (four after a dash), a scalar on the same line.
pub open spec fn yaml_key_value(key: Seq<char>, v: JsonView, indent: nat, d: bool) -> Seq<char>
    decreases v, 0nat,
{
    let head = spaces(indent) + dash(d) + key;
    let inner = indent + if d {
        4nat
    } else {
        2nat
    };
    match v {
        JsonView::Object(e) => head + seq![':', '\n'] + yaml_entries(e, inner),
        JsonView::Array(items) => head + seq![':', '\n'] + yaml_items(items, inner),
        _ => head + seq![':', ' '] + yaml_scalar(v) + seq!['\n'],
    }
}

/// Each entry as `key: value` at `indent`.
pub open spec fn yaml_entries(e: Seq<(Seq<char>, JsonView)>, indent: nat) -> Seq<char>
    decreases e, 1nat,
{
    if e.len() == 0 {
        Seq::empty()
    } else {
        yaml_key_value(e[0].0, e[0].1, indent, false) + yaml_entries(e.drop_first(), indent)
    }
}

/// Each item as a sequence item at `indent`.
pub open spec fn yaml_items(items: Seq<JsonView>, indent: nat) -> Seq<char>
    decreases items, 1nat,
{
    if items.len() == 0 {
        Seq::empty()
    } else {
        yaml_item(items[0], indent) + yaml_items(items.drop_first(), indent)
    }
}

/// A sequence item: a mapping with a dash before its first key, a nested
/// sequence under a bare dash, a scalar after a dash.
pub open spec fn yaml_item(v: JsonView, indent: nat) -> Seq<char>
    decreases v, 0nat,
{
    match v {
        JsonView::Object(e) => if e.len() == 0 {
            Seq::empty()
        } else {
            yaml_key_value(e[0].0, e[0].1, indent, true) + yaml_entries(e.drop_first(), indent + 2)
        },
        JsonView::Array(items) => spaces(indent) + seq!['-', '\n'] + yaml_items(items, indent + 2),
        _ => spaces(indent) + seq!['-', ' '] + yaml_scalar(v) + seq!['\n'],
    }
}

fn push_spaces(out: &mut Vec<char>, pad: &Vec<char>, extra: usize)
    requires
        pad@ == spaces(pad@.len()),
    ensures
        final(out)@ == old(out)@ + spaces((pad@.len() + extra) as nat),
        final(out)@.len() == old(out)@.len() + pad@.len() + extra,
{
    let ghost start = out@;
    append_chars(out, pad);
    let mut i: usize = 0;
    while i < extra
        invariant
            i <= extra,
            out@ == start + spaces((pad@.len() + i) as nat),
        decreases extra - i,
    {
        out.push(' ');
        proof {
            assert(out@ =~= start + spaces((pad@.len() + i + 1) as nat));
        }
        i = i + 1;
    }
}

fn deeper(pad: &Vec<char>, extra: usize) -> (r: Vec<char>)
    requires
        pad@ == spaces(pad@.len()),
    ensures
        r@ == spaces((pad@.len() + extra) as nat),
{
    let mut r: Vec<char> = Vec::new();
    push_spaces(&mut r, pad, extra);
    proof {
        assert(r@ =~= spaces((pad@.len() + extra) as nat));
    }
    r
}

fn write_scalar(v: &JsonValue, out: &mut Vec<char>)
    ensures
        final(out)@ == old(out)@ + yaml_scalar(v@),
{
    match v {
        JsonValue::Str(t) => {
            out.push('\'');
            let e = escape_compose_scalar(t.as_str());
            let ec = chars_of(e.as_str());
            append_chars(out, &ec);
            out.push('\'');
        },
        JsonValue::Bool(b) => {
            if *b {
                out.push('t');
                out.push('r');
                out.push('u');
                out.push('e');
            } else {
                out.push('f');
                out.push('a');
                out.push('l');
                out.push('s');
                out.push('e');
            }
        },
        JsonValue::Number(n) => {
            let nc = chars_of(n.as_str());
            append_chars(out, &nc);
        },
        _ => {
            out.push('n');
            out.push('u');
            out.push('l');
            out.push('l');
        },
    }
    proof {
        assert(out@ =~= old(out)@ + yaml_scalar(v@));
    }
}

/// Appends `key: value` at the indent of `pad`, after a dash when `d`.
pub fn write_key_value(key: &str, v: &JsonValue, pad: &Vec<char>, d: bool, out: &mut Vec<char>)
    requires
        pad@ == spaces(pad@.len()),
    ensures
        final(out)@ == old(out)@ + yaml_key_value(key@, v@, pad@.len(), d),
    decreases v, 0nat,
{
    let ghost start = out@;
    append_chars(out, pad);
    if d {
        out.push('-');
        out.push(' ');
    }
    let kc = chars_of(key);
    append_chars(out, &kc);
    let ghost head = spaces(pad@.len()) + dash(d) + key@;
    proof {
        assert(out@ =~= start + head);
    }
    let extra: usize = if d {
        4
    } else {
        2
    };
    match v {
        JsonValue::Object(entries) => {
            out.push(':');
            out.push('\n');
            let inner = deeper(pad, extra);
            proof {
                assert(decreases_to!(*v => v->Object_0));
            }
            write_entries(entries, 0, &inner, out);
            proof {
                lemma_jentries(entries@);
                assert(jentries(entries@).skip(0) =~= jentries(entries@));
                assert(out@ =~= start + yaml_key_value(key@, v@, pad@.len(), d));
            }
        },
        JsonValue::Array(items) => {
            out.push(':');
            out.push('\n');
            let inner = deeper(pad, extra);
            proof {
                assert(decreases_to!(*v => v->Array_0));
            }
            write_items(items, &inner, out);
            proof {
                assert(out@ =~= start + yaml_key_value(key@, v@, pad@.len(), d));
            }
        },
        _ => {
            out.push(':');
            out.push(' ');
            write_scalar(v, out);
            out.push('\n');
            proof {
                assert(out@ =~= start + yaml_key_value(key@, v@, pad@.len(), d));
            }
        },
    }
}

/// Appends the entries from `from` on as `key: value` lines.
pub fn write_entries(entries: &Vec<(String, JsonValue)>, from: usize, pad: &Vec<char>, out: &mut Vec<char>)
    requires
        pad@ == spaces(pad@.len()),
        from <= entries@.len(),
    ensures
        final(out)@ == old(out)@ + yaml_entries(jentries(entries@).skip(from as int), pad@.len()),
    decreases entries, 1nat,
{
    let ghost start = out@;
    let ghost es = jentries(entries@);
    proof {
        lemma_jentries(entries@);
        assert(out@ =~= start + Seq::<char>::empty());
    }
    let mut i: usize = from;
    while i < entries.len()
        invariant
            from <= i <= entries.len(),
            pad@ == spaces(pad@.len()),
            es == jentries(entries@),
            es.len() == entries@.len(),
            forall|q: int| 0 <= q < entries@.len() ==> #[trigger] es[q] == (entries@[q].0@, entries@[q].1@),
            start.len() <= out@.len(),
            out@.take(start.len() as int) == start,
            yaml_entries(es.skip(from as int), pad@.len()) == out@.skip(start.len() as int) + yaml_entries(
                es.skip(i as int),
                pad@.len(),
            ),
        decreases entries.len() - i,
    {
        proof {
            assert(decreases_to!(*entries => entries@));
            assert(decreases_to!(entries@ => entries@[i as int]));
            assert(decreases_to!(entries@[i as int] => entries@[i as int].1));
        }
        let ghost before = out@;
        write_key_value(entries[i].0.as_str(), &entries[i].1, pad, false, out);
        proof {
            let t = es.skip(i as int);
            assert(t[0] == es[i as int]);
            assert(t.drop_first() =~= es.skip(i + 1));
            assert(out@.skip(start.len() as int) =~= before.skip(start.len() as int) + yaml_key_value(
                es[i as int].0,
                es[i as int].1,
                pad@.len(),
                false,
            ));
            assert(out@.take(start.len() as int) =~= start);
        }
        i = i + 1;
    }
    proof {
        assert(es.skip(entries.len() as int) =~= Seq::<(Seq<char>, JsonView)>::empty());
        assert(out@ =~= start + out@.skip(start.len() as int));
    }
}

/// Appends each item as a sequence item.
pub fn write_items(items: &Vec<JsonValue>, pad: &Vec<char>, out: &mut Vec<char>)
    requires
        pad@ == spaces(pad@.len()),
    ensures
        final(out)@ == old(out)@ + yaml_items(jviews(items@), pad@.len()),
    decreases items, 1nat,
{
    let ghost start = out@;
    let ghost vs = jviews(items@);
    proof {
        lemma_jviews(items@);
        assert(vs.skip(0) =~= vs);
        assert(out@ =~= start + Seq::<char>::empty());
    }
    let mut i: usize = 0;
    while i < items.len()
        invariant
            i <= items.len(),
            pad@ == spaces(pad@.len()),
            vs == jviews(items@),
            vs.len() == items@.len(),
            forall|q: int| 0 <= q < items@.len() ==> #[trigger] vs[q] == items@[q]@,
            start.len() <= out@.len(),
            out@.take(start.len() as int) == start,
            yaml_items(vs, pad@.len()) == out@.skip(start.len() as int) + yaml_items(vs.skip(i as int), pad@.len()),
        decreases items.len() - i,
    {
        proof {
            assert(decreases_to!(*items => items@));
            assert(decreases_to!(items@ => items@[i as int]));
        }
        let ghost before = out@;
        write_item(&items[i], pad, out);
        proof {
            let t = vs.skip(i as int);
            assert(t[0] == vs[i as int]);
            assert(t.drop_first() =~= vs.skip(i + 1));
            assert(out@.skip(start.len() as int) =~= before.skip(start.len() as int) + yaml_item(
                vs[i as int],
                pad@.len(),
            ));
            assert(out@.take(start.len() as int) =~= start);
        }
        i = i + 1;
    }
    proof {
        assert(vs.skip(items.len() as int) =~= Seq::<JsonView>::empty());
        assert(out@ =~= start + out@.skip(start.len() as int));
    }
}

/// Appends a sequence item.
pub fn write_item(v: &JsonValue, pad: &Vec<char>, out: &mut Vec<char>)
    requires
        pad@ == spaces(pad@.len()),
    ensures
        final(out)@ == old(out)@ + yaml_item(v@, pad@.len()),
    decreases v, 0nat,
{
    let ghost start = out@;
    match v {
        JsonValue::Object(entries) => {
            proof {
                lemma_jentries(entries@);
            }
            if entries.len() == 0 {
                proof {
                    assert(out@ =~= start + yaml_item(v@, pad@.len()));
                }
                return;
            }
            proof {
                assert(decreases_to!(*v => v->Object_0));
                assert(decreases_to!(*entries => entries@));
                assert(decreases_to!(entries@ => entries@[0]));
                assert(decreases_to!(entries@[0] => entries@[0].1));
            }
            write_key_value(entries[0].0.as_str(), &entries[0].1, pad, true, out);
            let inner = deeper(pad, 2);
            write_entries(entries, 1, &inner, out);
            proof {
                assert(jentries(entries@).skip(1) =~= jentries(entries@).drop_first());
                assert(out@ =~= start + yaml_item(v@, pad@.len()));
            }
        },
        JsonValue::Array(items) => {
            append_chars(out, pad);
            out.push('-');
            out.push('\n');
            let inner = deeper(pad, 2);
            proof {
                assert(decreases_to!(*v => v->Array_0));
            }
            write_items(items, &inner, out);
            proof {
                assert(out@ =~= start + yaml_item(v@, pad@.len()));
            }
        },
        _ => {
            append_chars(out, pad);
            out.push('-');
            out.push(' ');
            write_scalar(v, out);
            out.push('\n');
            proof {
                assert(out@ =~= start + yaml_item(v@, pad@.len()));
            }
        },
    }
}

} // verus!
