//! JSON string literals, written the way the JSON serializer writes them.
use vstd::prelude::*;
use crate::json_value::{jentries, jviews, lemma_jentries, lemma_jviews, JsonValue, JsonView};
use crate::text::{append_chars, chars_of, string_of};

verus! {

/// Lower-case hexadecimal digit for `d < 16`.
pub open spec fn hex_digit(d: nat) -> char {
    if d < 10 {
        crate::text::digit_char(d)
    } else if d == 10 {
        'a'
    } else if d == 11 {
        'b'
    } else if d == 12 {
        'c'
    } else if d == 13 {
        'd'
    } else if d == 14 {
        'e'
    } else {
        'f'
    }
}

/// How one character appears inside a JSON string literal: quote, backslash
/// and control characters are escaped, everything else stands as it is.
pub open spec fn escape_char(c: char) -> Seq<char> {
    let n = c as u32;
    if c == '"' {
        seq!['\\', '"']
    } else if c == '\\' {
        seq!['\\', '\\']
    } else if n == 0x08 {
        seq!['\\', 'b']
    } else if n == 0x09 {
        seq!['\\', 't']
    } else if n == 0x0a {
        seq!['\\', 'n']
    } else if n == 0x0c {
        seq!['\\', 'f']
    } else if n == 0x0d {
        seq!['\\', 'r']
    } else if n < 0x20 {
        seq!['\\', 'u', '0', '0', hex_digit((n / 16) as nat), hex_digit((n % 16) as nat)]
    } else {
        seq![c]
    }
}

/// The escaped body of a JSON string literal.
pub open spec fn escape(s: Seq<char>) -> Seq<char>
    decreases s.len(),
{
    if s.len() == 0 {
        Seq::empty()
    } else {
        escape(s.drop_last()) + escape_char(s.last())
    }
}

/// A JSON string literal for `s`, quotes included.
pub open spec fn quoted(s: Seq<char>) -> Seq<char> {
    seq!['"'] + escape(s) + seq!['"']
}

fn hex_of(d: u32) -> (c: char)
    requires
        d < 16,
    ensures
        c == hex_digit(d as nat),
{
    if d == 0 { '0' } else if d == 1 { '1' } else if d == 2 { '2' } else if d == 3 { '3' } else if d
        == 4 { '4' } else if d == 5 { '5' } else if d == 6 { '6' } else if d == 7 { '7' } else if d
        == 8 { '8' } else if d == 9 { '9' } else if d == 10 { 'a' } else if d == 11 { 'b' } else if d
        == 12 { 'c' } else if d == 13 { 'd' } else if d == 14 { 'e' } else { 'f' }
}

fn push_escaped(c: char, out: &mut Vec<char>)
    ensures
        final(out)@ == old(out)@ + escape_char(c),
{
    let n = c as u32;
    if c == '"' {
        out.push('\\');
        out.push('"');
    } else if c == '\\' {
        out.push('\\');
        out.push('\\');
    } else if n == 0x08 {
        out.push('\\');
        out.push('b');
    } else if n == 0x09 {
        out.push('\\');
        out.push('t');
    } else if n == 0x0a {
        out.push('\\');
        out.push('n');
    } else if n == 0x0c {
        out.push('\\');
        out.push('f');
    } else if n == 0x0d {
        out.push('\\');
        out.push('r');
    } else if n < 0x20 {
        out.push('\\');
        out.push('u');
        out.push('0');
        out.push('0');
        out.push(hex_of(n / 16));
        out.push(hex_of(n % 16));
    } else {
        out.push(c);
    }
    proof {
        assert(final(out)@ =~= old(out)@ + escape_char(c));
    }
}

/// Appends the JSON string literal of `s` to `out`.
pub fn push_quoted(s: &str, out: &mut Vec<char>)
    ensures
        final(out)@ == old(out)@ + quoted(s@),
{
    let v = chars_of(s);
    let ghost start = out@;
    out.push('"');
    let mut i: usize = 0;
    while i < v.len()
        invariant
            i <= v.len(),
            out@ == start + seq!['"'] + escape(v@.take(i as int)),
        decreases v.len() - i,
    {
        let ghost before = out@;
        push_escaped(v[i], out);
        proof {
            assert(v@.take(i + 1).drop_last() =~= v@.take(i as int));
            assert(out@ =~= start + seq!['"'] + escape(v@.take(i + 1)));
        }
        i = i + 1;
    }
    out.push('"');
    proof {
        assert(v@.take(v.len() as int) =~= v@);
        assert(out@ =~= old(out)@ + quoted(s@));
    }
}

/// The JSON string literal of `s`.
pub fn quote(s: &str) -> (r: String)
    ensures
        r@ == quoted(s@),
{
    let mut v: Vec<char> = Vec::new();
    push_quoted(s, &mut v);
    proof {
        assert(v@ =~= quoted(s@));
    }
    string_of(&v)
}

/// Compact JSON text of a value: no spaces, entries in the order held.
pub open spec fn json_text(v: JsonView) -> Seq<char>
    decreases v, 0nat,
{
    match v {
        JsonView::Null => seq!['n', 'u', 'l', 'l'],
        JsonView::Bool(b) => if b {
            seq!['t', 'r', 'u', 'e']
        } else {
            seq!['f', 'a', 'l', 's', 'e']
        },
        JsonView::Number(n) => n,
        JsonView::Str(t) => quoted(t),
        JsonView::Array(items) => seq!['['] + items_text(items) + seq![']'],
        JsonView::Object(entries) => seq!['{'] + entries_text(entries) + seq!['}'],
    }
}

/// The texts of `items` separated by commas.
pub open spec fn items_text(items: Seq<JsonView>) -> Seq<char>
    decreases items, 1nat,
{
    if items.len() == 0 {
        Seq::empty()
    } else if items.len() == 1 {
        json_text(items[0])
    } else {
        items_text(items.drop_last()) + seq![','] + json_text(items.last())
    }
}

/// `"key":value` for each entry, separated by commas.
pub open spec fn entries_text(entries: Seq<(Seq<char>, JsonView)>) -> Seq<char>
    decreases entries, 1nat,
{
    if entries.len() == 0 {
        Seq::empty()
    } else if entries.len() == 1 {
        quoted(entries[0].0) + seq![':'] + json_text(entries[0].1)
    } else {
        entries_text(entries.drop_last()) + seq![','] + quoted(entries.last().0) + seq![':']
            + json_text(entries.last().1)
    }
}

/// Appends the JSON text of `v` to `out`.
pub fn write_json(v: &JsonValue, out: &mut Vec<char>)
    ensures
        final(out)@ == old(out)@ + json_text(v@),
    decreases v,
{
    let ghost start = out@;
    match v {
        JsonValue::Null => {
            out.push('n');
            out.push('u');
            out.push('l');
            out.push('l');
        },
        JsonValue::Bool(b) => {
            if *b {
                out.push('t');
                out.push('r');
                out.push('u');
                out.push('e');
            } else {
                out.push('f');
                out.push('a');
                out.push('l');
                out.push('s');
                out.push('e');
            }
        },
        JsonValue::Number(n) => {
            let c = chars_of(n.as_str());
            append_chars(out, &c);
        },
        JsonValue::Str(t) => {
            push_quoted(t.as_str(), out);
        },
        JsonValue::Array(items) => {
            let ghost vs = jviews(items@);
            proof {
                lemma_jviews(items@);
            }
            out.push('[');
            let mut i: usize = 0;
            while i < items.len()
                invariant
                    i <= items.len(),
                    *v == JsonValue::Array(*items),
                    vs == jviews(items@),
                    vs.len() == items@.len(),
                    forall|j: int| 0 <= j < items@.len() ==> #[trigger] vs[j] == items@[j]@,
                    out@ == start + seq!['['] + items_text(vs.take(i as int)),
                decreases items.len() - i,
            {
                proof {
                    assert(decreases_to!(*v => v->Array_0));
                    assert(decreases_to!(*items => items@));
                    assert(decreases_to!(items@ => items@[i as int]));
                }
                if i > 0 {
                    out.push(',');
                }
                write_json(&items[i], out);
                proof {
                    let t = vs.take(i + 1);
                    assert(t.drop_last() =~= vs.take(i as int));
                    assert(t.last() == items@[i as int]@);
                    if i == 0 {
                        assert(vs.take(0) =~= Seq::<JsonView>::empty());
                    }
                    assert(out@ =~= start + seq!['['] + items_text(t));
                }
                i = i + 1;
            }
            out.push(']');
            proof {
                assert(vs.take(items.len() as int) =~= vs);
                assert(out@ =~= start + json_text(v@));
            }
        },
        JsonValue::Object(entries) => {
            let ghost es = jentries(entries@);
            proof {
                lemma_jentries(entries@);
            }
            out.push('{');
            let mut i: usize = 0;
            while i < entries.len()
                invariant
                    i <= entries.len(),
                    *v == JsonValue::Object(*entries),
                    es == jentries(entries@),
                    es.len() == entries@.len(),
                    forall|j: int|
                        0 <= j < entries@.len() ==> #[trigger] es[j] == (
                        entries@[j].0@,
                        entries@[j].1@,
                        ),
                    out@ == start + seq!['{'] + entries_text(es.take(i as int)),
                decreases entries.len() - i,
            {
                proof {
                    assert(decreases_to!(*v => v->Object_0));
                    assert(decreases_to!(*entries => entries@));
                    assert(decreases_to!(entries@ => entries@[i as int]));
                    assert(decreases_to!(entries@[i as int] => entries@[i as int].1));
                }
                if i > 0 {
                    out.push(',');
                }
                push_quoted(entries[i].0.as_str(), out);
                out.push(':');
                write_json(&entries[i].1, out);
                proof {
                    let t = es.take(i + 1);
                    assert(t.drop_last() =~= es.take(i as int));
                    assert(t.last() == es[i as int]);
                    if i == 0 {
                        assert(es.take(0) =~= Seq::<(Seq<char>, JsonView)>::empty());
                    }
                    assert(out@ =~= start + seq!['{'] + entries_text(t));
                }
                i = i + 1;
            }
            out.push('}');
            proof {
                assert(es.take(entries.len() as int) =~= es);
                assert(out@ =~= start + json_text(v@));
            }
        },
    }
    proof {
        assert(out@ =~= start + json_text(v@));
    }
}

/// The compact JSON text of `v`.
pub fn to_json_text(v: &JsonValue) -> (r: String)
    ensures
        r@ == json_text(v@),
{
    let mut out: Vec<char> = Vec::new();
    write_json(v, &mut out);
    proof {
        assert(out@ =~= json_text(v@));
    }
    string_of(&out)
}

} // verus!
