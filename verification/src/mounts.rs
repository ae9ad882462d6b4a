//! Mount specifications: splitting `key=value` option lists, finding the
//! target, and writing JSON mount objects as engine `--mount` arguments.
use vstd::prelude::*;
use crate::json_value::{entries_get, entry_value, JsonValue};
use crate::text::{
    append_chars, chars_of, copy_string, join, join_strings, slice_chars, starts_with, str_eq,
    string_of, trim, trim_chars, views,
};

verus! {

/// The options of a mount from position `i` on, `cur` holding the option
/// being read: commas outside double quotes separate options, each option is
/// trimmed, and a final empty option is dropped.
pub open spec fn mount_options_from(s: Seq<char>, i: int, in_quotes: bool, cur: Seq<char>) -> Seq<Seq<char>>
    decreases s.len() - i,
{
    if i < 0 || i >= s.len() {
        if cur.len() > 0 {
            seq![trim(cur)]
        } else {
            Seq::empty()
        }
    } else {
        let c = s[i];
        if c == '"' {
            mount_options_from(s, i + 1, !in_quotes, cur.push(c))
        } else if c == ',' && !in_quotes {
            seq![trim(cur)] + mount_options_from(s, i + 1, in_quotes, Seq::empty())
        } else {
            mount_options_from(s, i + 1, in_quotes, cur.push(c))
        }
    }
}

/// The options of a mount specification.
pub open spec fn mount_options(s: Seq<char>) -> Seq<Seq<char>> {
    mount_options_from(s, 0, false, Seq::empty())
}

/// Splits a mount specification into its trimmed options.
pub fn split_mount_options(mount: &str) -> (r: Vec<String>)
    ensures
        views(r@) == mount_options(mount@),
{
    let s = chars_of(mount);
    let mut options: Vec<String> = Vec::new();
    let mut current: Vec<char> = Vec::new();
    let mut in_quotes = false;
    let mut i: usize = 0;
    while i < s.len()
        invariant
            i <= s.len(),
            mount_options(s@) == views(options@) + mount_options_from(s@, i as int, in_quotes, current@),
        decreases s.len() - i,
    {
        let c = s[i];
        if c == '"' {
            in_quotes = !in_quotes;
            current.push(c);
        } else if c == ',' && !in_quotes {
            let t = trim_chars(&current);
            let opt = string_of(&t);
            let ghost old_options = options@;
            options.push(opt);
            proof {
                assert(views(options@) =~= views(old_options).push(opt@));
                assert(views(options@) + mount_options_from(s@, i + 1, in_quotes, Seq::empty())
                    =~= views(old_options) + (seq![trim(current@)] + mount_options_from(s@, i + 1, in_quotes, Seq::empty())));
            }
            current = Vec::new();
        } else {
            current.push(c);
        }
        i = i + 1;
    }
    if current.len() > 0 {
        let t = trim_chars(&current);
        let opt = string_of(&t);
        let ghost old_options = options@;
        options.push(opt);
        proof {
            assert(views(options@) =~= views(old_options).push(opt@));
        }
    }
    proof {
        assert(mount_options(s@) =~= views(options@));
    }
    options
}

/// `s` without leading double quotes.
pub open spec fn strip_leading_quotes(s: Seq<char>) -> Seq<char>
    decreases s.len(),
{
    if s.len() > 0 && s[0] == '"' {
        strip_leading_quotes(s.drop_first())
    } else {
        s
    }
}

/// `s` without trailing double quotes.
pub open spec fn strip_trailing_quotes(s: Seq<char>) -> Seq<char>
    decreases s.len(),
{
    if s.len() > 0 && s.last() == '"' {
        strip_trailing_quotes(s.drop_last())
    } else {
        s
    }
}

/// `s.trim_matches('"')`.
pub open spec fn strip_quotes(s: Seq<char>) -> Seq<char> {
    strip_trailing_quotes(strip_leading_quotes(s))
}

pub(crate) fn strip_quotes_exec(v: &Vec<char>) -> (r: Vec<char>)
    ensures
        r@ == strip_quotes(v@),
{
    let mut lo: usize = 0;
    proof {
        assert(v@.subrange(0, v.len() as int) =~= v@);
    }
    while lo < v.len() && v[lo] == '"'
        invariant
            lo <= v.len(),
            strip_leading_quotes(v@) == strip_leading_quotes(v@.subrange(lo as int, v.len() as int)),
        decreases v.len() - lo,
    {
        proof {
            assert(v@.subrange(lo as int, v.len() as int).drop_first() =~= v@.subrange(lo + 1, v.len() as int));
        }
        lo = lo + 1;
    }
    let ghost start = v@.subrange(lo as int, v.len() as int);
    let mut hi: usize = v.len();
    while hi > lo && v[hi - 1] == '"'
        invariant
            lo <= hi <= v.len(),
            start == v@.subrange(lo as int, v.len() as int),
            strip_trailing_quotes(start) == strip_trailing_quotes(v@.subrange(lo as int, hi as int)),
        decreases hi,
    {
        proof {
            assert(v@.subrange(lo as int, hi as int).drop_last() =~= v@.subrange(lo as int, hi - 1));
        }
        hi = hi - 1;
    }
    slice_chars(v, lo, hi)
}

/// The target of one option: what follows `target=`, `destination=` or `dst=`
/// (tried in that order), without surrounding quotes.
pub open spec fn option_target(o: Seq<char>) -> Option<Seq<char>> {
    if starts_with(o, "target="@) {
        Some(strip_quotes(o.skip(7)))
    } else if starts_with(o, "destination="@) {
        Some(strip_quotes(o.skip(12)))
    } else if starts_with(o, "dst="@) {
        Some(strip_quotes(o.skip(4)))
    } else {
        None
    }
}

/// The target of the first option that names one.
pub open spec fn first_target(opts: Seq<Seq<char>>) -> Option<Seq<char>>
    decreases opts.len(),
{
    if opts.len() == 0 {
        None
    } else {
        match option_target(opts[0]) {
            Some(t) => Some(t),
            None => first_target(opts.drop_first()),
        }
    }
}

fn option_target_exec(o: &str) -> (r: Option<String>)
    ensures
        crate::text::opt_view(r) == option_target(o@),
{
    let v = chars_of(o);
    proof {
        reveal_strlit("target=");
        reveal_strlit("destination=");
        reveal_strlit("dst=");
    }
    let skip: usize = if crate::text::str_starts_with(o, "target=") {
        7
    } else if crate::text::str_starts_with(o, "destination=") {
        12
    } else if crate::text::str_starts_with(o, "dst=") {
        4
    } else {
        return None;
    };
    let rest = slice_chars(&v, skip, v.len());
    proof {
        assert(rest@ =~= o@.skip(skip as int));
    }
    let stripped = strip_quotes_exec(&rest);
    Some(string_of(&stripped))
}

/// The target of a mount specification.
pub fn mount_option_target(mount: &str) -> (r: Option<String>)
    ensures
        crate::text::opt_view(r) == first_target(mount_options(mount@)),
{
    let options = split_mount_options(mount);
    let ghost ov = views(options@);
    let mut i: usize = 0;
    proof {
        assert(ov.skip(0) =~= ov);
    }
    while i < options.len()
        invariant
            i <= options.len(),
            ov == views(options@),
            ov == mount_options(mount@),
            first_target(ov) == first_target(ov.skip(i as int)),
        decreases options.len() - i,
    {
        proof {
            assert(ov.skip(i as int).drop_first() =~= ov.skip(i + 1));
            assert(ov.skip(i as int)[0] == options@[i as int]@);
        }
        match option_target_exec(options[i].as_str()) {
            Some(t) => return Some(t),
            None => {},
        }
        i = i + 1;
    }
    None
}

/// The text of a scalar mount option value: booleans and numbers as written, strings as they are.
pub open spec fn scalar_text(v: JsonValue) -> Option<Seq<char>> {
    match v {
        JsonValue::Bool(b) => Some(if b { "true"@ } else { "false"@ }),
        JsonValue::Number(n) => Some(n@),
        JsonValue::Str(s) => Some(s@),
        _ => None,
    }
}

/// The text of a scalar mount option value.
pub fn mount_option_value(value: &JsonValue) -> (r: Option<String>)
    ensures
        crate::text::opt_view(r) == scalar_text(*value),
{
    match value {
        JsonValue::Bool(b) => Some(String::from_str(if *b { "true" } else { "false" })),
        JsonValue::Number(n) => Some(copy_string(n)),
        JsonValue::Str(s) => Some(copy_string(s)),
        _ => None,
    }
}


/// The value of the first of two names present.
pub open spec fn first_of2(entries: Seq<(String, JsonValue)>, a: Seq<char>, b: Seq<char>) -> Option<JsonValue> {
    match entry_value(entries, a) {
        Some(v) => Some(v),
        None => entry_value(entries, b),
    }
}

/// The value of the first of three names present.
pub open spec fn first_of3(entries: Seq<(String, JsonValue)>, a: Seq<char>, b: Seq<char>, c: Seq<char>) -> Option<JsonValue> {
    match entry_value(entries, a) {
        Some(v) => Some(v),
        None => first_of2(entries, b, c),
    }
}

/// `name=text` for a scalar value, nothing otherwise.
pub open spec fn named_option(name: Seq<char>, v: Option<JsonValue>) -> Seq<Seq<char>> {
    match v {
        Some(x) => match scalar_text(x) {
            Some(t) => seq![name + "="@ + t],
            None => Seq::empty(),
        },
        None => Seq::empty(),
    }
}

/// The names a mount object gives a fixed place to.
pub open spec fn is_known_mount_key(k: Seq<char>) -> bool {
    k == "type"@ || k == "source"@ || k == "src"@ || k == "target"@ || k == "destination"@ || k
        == "dst"@ || k == "readonly"@ || k == "readOnly"@
}

/// The remaining scalar entries of a mount object as `name=text`, in order.
pub open spec fn extra_mount_options(entries: Seq<(String, JsonValue)>) -> Seq<Seq<char>>
    decreases entries.len(),
{
    if entries.len() == 0 {
        Seq::empty()
    } else {
        let rest = extra_mount_options(entries.drop_last());
        let e = entries.last();
        if is_known_mount_key(e.0@) {
            rest
        } else {
            match scalar_text(e.1) {
                Some(t) => rest.push(e.0@ + "="@ + t),
                None => rest,
            }
        }
    }
}

/// The options of a mount object: type, source, target, `readonly` when set
/// to true, then the other scalar entries.
pub open spec fn object_mount_options(entries: Seq<(String, JsonValue)>) -> Seq<Seq<char>> {
    named_option("type"@, entry_value(entries, "type"@)) + named_option(
        "source"@,
        first_of2(entries, "source"@, "src"@),
    ) + named_option("target"@, first_of3(entries, "target"@, "destination"@, "dst"@)) + (
    match first_of2(entries, "readonly"@, "readOnly"@) {
        Some(JsonValue::Bool(true)) => seq!["readonly"@],
        _ => Seq::empty(),
    }) + extra_mount_options(entries)
}

/// The engine `--mount` argument for a configured mount: a string as it is,
/// an object as its options joined with commas (none when it has none).
pub open spec fn mount_arg(v: JsonValue) -> Option<Seq<char>> {
    match v {
        JsonValue::Str(s) => Some(s@),
        JsonValue::Object(entries) => {
            let opts = object_mount_options(entries@);
            if opts.len() == 0 {
                None
            } else {
                Some(join(opts, ","@))
            }
        },
        _ => None,
    }
}

fn push_named(out: &mut Vec<String>, name: &str, v: Option<&JsonValue>)
    ensures
        views(final(out)@) == views(old(out)@) + named_option(
            name@,
            match v {
                Some(x) => Some(*x),
                None => None,
            },
        ),
{
    match v {
        Some(x) => match mount_option_value(x) {
            Some(t) => {
                let mut o = String::from_str(name);
                o.append("=");
                o.append(t.as_str());
                let ghost old_out = out@;
                out.push(o);
                proof {
                    assert(views(out@) =~= views(old_out) + seq![name@ + "="@ + t@]);
                }
            },
            None => {
                proof {
                    assert(views(out@) =~= views(old(out)@) + Seq::<Seq<char>>::empty());
                }
            },
        },
        None => {
            proof {
                assert(views(out@) =~= views(old(out)@) + Seq::<Seq<char>>::empty());
            }
        },
    }
}

fn first_of2_exec<'a>(entries: &'a Vec<(String, JsonValue)>, a: &str, b: &str) -> (r: Option<&'a JsonValue>)
    ensures
        match r {
            Some(x) => first_of2(entries@, a@, b@) == Some(*x),
            None => first_of2(entries@, a@, b@) is None,
        },
{
    match entries_get(entries, a) {
        Some(v) => Some(v),
        None => entries_get(entries, b),
    }
}

fn is_known_mount_key_exec(k: &str) -> (r: bool)
    ensures
        r == is_known_mount_key(k@),
{
    str_eq(k, "type") || str_eq(k, "source") || str_eq(k, "src") || str_eq(k, "target") || str_eq(k, "destination")
        || str_eq(k, "dst") || str_eq(k, "readonly") || str_eq(k, "readOnly")
}

/// The engine `--mount` argument for a mount object.
pub fn mount_object_to_engine_arg(entries: &Vec<(String, JsonValue)>) -> (r: Option<String>)
    ensures
        crate::text::opt_view(r) == mount_arg(JsonValue::Object(*entries)),
{
    let mut options: Vec<String> = Vec::new();
    proof {
        assert(views(options@) =~= Seq::<Seq<char>>::empty());
    }
    push_named(&mut options, "type", entries_get(entries, "type"));
    push_named(&mut options, "source", first_of2_exec(entries, "source", "src"));
    let target = match entries_get(entries, "target") {
        Some(v) => Some(v),
        None => first_of2_exec(entries, "destination", "dst"),
    };
    push_named(&mut options, "target", target);
    let ghost before_ro = views(options@);
    match first_of2_exec(entries, "readonly", "readOnly") {
        Some(JsonValue::Bool(true)) => {
            options.push(String::from_str("readonly"));
            proof {
                assert(views(options@) =~= before_ro + seq!["readonly"@]);
            }
        },
        _ => {
            proof {
                assert(views(options@) =~= before_ro + Seq::<Seq<char>>::empty());
            }
        },
    }
    let ghost before_extra = views(options@);
    let mut i: usize = 0;
    while i < entries.len()
        invariant
            i <= entries.len(),
            views(options@) == before_extra + extra_mount_options(entries@.take(i as int)),
        decreases entries.len() - i,
    {
        proof {
            assert(entries@.take(i + 1).drop_last() =~= entries@.take(i as int));
            assert(entries@.take(i + 1).last() == entries@[i as int]);
        }
        if !is_known_mount_key_exec(entries[i].0.as_str()) {
            match mount_option_value(&entries[i].1) {
                Some(t) => {
                    let mut o = copy_string(&entries[i].0);
                    o.append("=");
                    o.append(t.as_str());
                    let ghost old_out = options@;
                    options.push(o);
                    proof {
                        assert(views(options@) =~= views(old_out).push(o@));
                    }
                },
                None => {},
            }
        }
        i = i + 1;
    }
    proof {
        assert(entries@.take(entries.len() as int) =~= entries@);
        assert(views(options@) =~= object_mount_options(entries@));
    }
    if options.len() == 0 {
        None
    } else {
        Some(join_strings(&options, ","))
    }
}

/// The engine `--mount` argument for a configured mount.
pub fn mount_value_to_engine_arg(value: &JsonValue) -> (r: Option<String>)
    ensures
        crate::text::opt_view(r) == mount_arg(*value),
{
    match value {
        JsonValue::Str(s) => Some(copy_string(s)),
        JsonValue::Object(entries) => mount_object_to_engine_arg(entries),
        _ => None,
    }
}

/// Text that holds an `=`.
pub open spec fn holds_equals(x: Seq<char>) -> bool {
    exists|i: int| 0 <= i < x.len() && x[i] == '='
}

proof fn lemma_name_value_holds_equals(name: Seq<char>, t: Seq<char>)
    ensures
        holds_equals(name + "="@ + t),
{
    reveal_strlit("=");
    assert((name + "="@ + t)[name.len() as int] == '=');
}

proof fn lemma_named_option_holds_equals(name: Seq<char>, v: Option<JsonValue>)
    ensures
        forall|k: int| 0 <= k < named_option(name, v).len() ==> holds_equals(#[trigger] named_option(name, v)[k]),
{
    match v {
        Some(x) => match scalar_text(x) {
            Some(t) => lemma_name_value_holds_equals(name, t),
            None => {},
        },
        None => {},
    }
}

proof fn lemma_extra_options_hold_equals(entries: Seq<(String, JsonValue)>)
    ensures
        forall|k: int| 0 <= k < extra_mount_options(entries).len() ==> holds_equals(#[trigger] extra_mount_options(entries)[k]),
    decreases entries.len(),
{
    if entries.len() > 0 {
        lemma_extra_options_hold_equals(entries.drop_last());
        let e = entries.last();
        let rest = extra_mount_options(entries.drop_last());
        if !is_known_mount_key(e.0@) {
            match scalar_text(e.1) {
                Some(t) => {
                    lemma_name_value_holds_equals(e.0@, t);
                    let r = rest.push(e.0@ + "="@ + t);
                    assert forall|k: int| 0 <= k < r.len() implies holds_equals(#[trigger] r[k]) by {
                        if k < rest.len() {
                            assert(r[k] == rest[k]);
                        }
                    }
                },
                None => {},
            }
        }
    }
}

/// A mount object is read-only exactly when it says so: its options hold
/// `readonly` when, and only when, its `readonly` value (else its
/// `readOnly` value) is the boolean `true`; `false`, another value or no
/// value leaves the mount writable.
pub proof fn lemma_mount_readonly_only_when_true(entries: Seq<(String, JsonValue)>)
    ensures
        object_mount_options(entries).contains("readonly"@) <==> match entry_value(entries, "readonly"@) {
            Some(v) => v == JsonValue::Bool(true),
            None => entry_value(entries, "readOnly"@) == Some(JsonValue::Bool(true)),
        },
{
    reveal_strlit("readonly");
    let ro: Seq<char> = "readonly"@;
    assert(!holds_equals(ro)) by {
        if holds_equals(ro) {
            let i = choose|i: int| 0 <= i < ro.len() && ro[i] == '=';
        }
    }
    let a = named_option("type"@, entry_value(entries, "type"@));
    let b = named_option("source"@, first_of2(entries, "source"@, "src"@));
    let c = named_option("target"@, first_of3(entries, "target"@, "destination"@, "dst"@));
    let d: Seq<Seq<char>> = match first_of2(entries, "readonly"@, "readOnly"@) {
        Some(JsonValue::Bool(true)) => seq!["readonly"@],
        _ => Seq::empty(),
    };
    let e = extra_mount_options(entries);
    lemma_named_option_holds_equals("type"@, entry_value(entries, "type"@));
    lemma_named_option_holds_equals("source"@, first_of2(entries, "source"@, "src"@));
    lemma_named_option_holds_equals("target"@, first_of3(entries, "target"@, "destination"@, "dst"@));
    lemma_extra_options_hold_equals(entries);
    let opts = object_mount_options(entries);
    assert(opts == a + b + c + d + e);
    if opts.contains(ro) {
        let k = choose|k: int| 0 <= k < opts.len() && opts[k] == ro;
        let n1 = a.len() as int;
        let n2 = n1 + b.len();
        let n3 = n2 + c.len();
        let n4 = n3 + d.len();
        if k < n1 {
            assert(opts[k] == a[k]);
        } else if k < n2 {
            assert(opts[k] == b[k - n1]);
        } else if k < n3 {
            assert(opts[k] == c[k - n2]);
        } else if k >= n4 {
            assert(opts[k] == e[k - n4]);
        } else {
            assert(d.len() > 0);
        }
    }
    if d.len() > 0 {
        assert(opts[(a.len() + b.len() + c.len()) as int] == ro);
    }
}

} // verus!
