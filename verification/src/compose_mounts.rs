//! Mounts as compose volumes: a mount string or object read into the fields
//! of a compose long-syntax volume, and the short `source:target[:ro]` form
//! where a bind mount allows it.
use vstd::prelude::*;
use crate::collections::split_once;
use crate::json_object::{object_insert, vinsert, Entries};
use crate::json_value::{entries_get, jentries, json_clone, lemma_entry_value_view, lemma_jentries, ventry, JsonValue, JsonView};
use crate::mounts::{mount_options, split_mount_options, strip_quotes};
use crate::text::{chars_of, copy_string, decimal, slice_chars, split, split_chars, starts_with, str_eq, str_starts_with, string_of, views};
use crate::versions::{all_digits, digits_value, parse_u64, parse_u64_spec};

verus! {

/// `s` after the prefix `p`, when it starts with it.
pub open spec fn strip_prefix(s: Seq<char>, p: Seq<char>) -> Option<Seq<char>> {
    if starts_with(s, p) {
        Some(s.skip(p.len() as int))
    } else {
        None
    }
}

fn strip_prefix_exec(s: &str, p: &str) -> (r: Option<String>)
    ensures
        crate::text::opt_view(r) == strip_prefix(s@, p@),
{
    if str_starts_with(s, p) {
        let sv = chars_of(s);
        let pv = chars_of(p);
        let rest = slice_chars(&sv, pv.len(), sv.len());
        proof {
            assert(rest@ =~= s@.skip(p@.len() as int));
        }
        Some(string_of(&rest))
    } else {
        None
    }
}

/// The text of the integer `s` denotes when it reads as an `i64` or a `u64`:
/// a sign and digits in range, written without a `+` or leading zeros.
pub open spec fn integer_text(s: Seq<char>) -> Option<Seq<char>> {
    if s.len() > 0 && s[0] == '-' {
        let d = s.drop_first();
        if d.len() > 0 && all_digits(d) && digits_value(d) <= 9223372036854775808 {
            if digits_value(d) == 0 {
                Some(seq!['0'])
            } else {
                Some(seq!['-'] + decimal(digits_value(d)))
            }
        } else {
            None
        }
    } else {
        match parse_u64_spec(s) {
            Some(n) => Some(decimal(n as nat)),
            None => None,
        }
    }
}

fn integer_text_exec(s: &Vec<char>) -> (r: Option<String>)
    ensures
        crate::text::opt_view(r) == integer_text(s@),
{
    if s.len() > 0 && s[0] == '-' {
        let d = slice_chars(s, 1, s.len());
        proof {
            assert(d@ =~= s@.drop_first());
        }
        if d.len() == 0 || d[0] == '+' {
            proof {
                if d@.len() > 0 {
                    assert(!crate::versions::is_digit(d@[0]));
                }
            }
            return None;
        }
        match parse_u64(&d) {
            Some(n) => {
                proof {
                    assert(!(d@.len() > 0 && d@[0] == '+'));
                }
                if n > 9223372036854775808 {
                    return None;
                }
                if n == 0 {
                    let mut z = String::new();
                    crate::text::push_char(&mut z, '0');
                    proof {
                        assert(z@ =~= seq!['0']);
                    }
                    Some(z)
                } else {
                    let t = crate::versions::u64_to_string(n);
                    let mut out = String::new();
                    crate::text::push_char(&mut out, '-');
                    out.append(t.as_str());
                    proof {
                        assert(out@ =~= seq!['-'] + decimal(n as nat));
                    }
                    Some(out)
                }
            },
            None => {
                proof {
                    assert(!(d@.len() > 0 && d@[0] == '+'));
                }
                None
            },
        }
    } else {
        match parse_u64(s) {
            Some(n) => Some(crate::versions::u64_to_string(n)),
            None => None,
        }
    }
}

/// The value of a mount option: without surrounding quotes, `true` and
/// `false` as booleans, integers as numbers, anything else as text.
pub open spec fn option_scalar(value: Seq<char>) -> JsonView {
    let v = strip_quotes(value);
    if v == "true"@ {
        JsonView::Bool(true)
    } else if v == "false"@ {
        JsonView::Bool(false)
    } else {
        match integer_text(v) {
            Some(t) => JsonView::Number(t),
            None => JsonView::Str(v),
        }
    }
}

fn strip_quotes_str(s: &str) -> (r: String)
    ensures
        r@ == strip_quotes(s@),
{
    let v = chars_of(s);
    let r = crate::mounts::strip_quotes_exec(&v);
    string_of(&r)
}

/// The value of a mount option.
pub fn parse_mount_option_scalar(value: &str) -> (r: JsonValue)
    ensures
        r@ == option_scalar(value@),
{
    let v = strip_quotes_str(value);
    if str_eq(v.as_str(), "true") {
        JsonValue::Bool(true)
    } else if str_eq(v.as_str(), "false") {
        JsonValue::Bool(false)
    } else {
        let vc = chars_of(v.as_str());
        match integer_text_exec(&vc) {
            Some(t) => JsonValue::Number(t),
            None => JsonValue::Str(v),
        }
    }
}

/// Where an option name puts its value: `bind-propagation` and
/// `volume-nocopy` under `bind` and `volume`, other names split at dots.
pub open spec fn key_path(key: Seq<char>) -> Seq<Seq<char>> {
    if key == "bind-propagation"@ {
        seq!["bind"@, "propagation"@]
    } else if key == "volume-nocopy"@ {
        seq!["volume"@, "nocopy"@]
    } else {
        split(key, '.')
    }
}

fn key_path_exec(key: &str) -> (r: Vec<String>)
    ensures
        views(r@) == key_path(key@),
        r@.len() >= 1,
{
    let mut out: Vec<String> = Vec::new();
    if str_eq(key, "bind-propagation") {
        out.push(String::from_str("bind"));
        out.push(String::from_str("propagation"));
        proof {
            assert(views(out@) =~= seq!["bind"@, "propagation"@]);
        }
    } else if str_eq(key, "volume-nocopy") {
        out.push(String::from_str("volume"));
        out.push(String::from_str("nocopy"));
        proof {
            assert(views(out@) =~= seq!["volume"@, "nocopy"@]);
        }
    } else {
        let kc = chars_of(key);
        let parts = split_chars(&kc, '.');
        let ghost ps = split(key@, '.');
        proof {
            crate::text::lemma_split_nonempty(key@, '.');
            assert(ps.len() == parts@.len());
        }
        let mut i: usize = 0;
        while i < parts.len()
            invariant
                i <= parts.len(),
                ps.len() == parts@.len(),
                parts@.map_values(|q: Vec<char>| q@) == ps,
                views(out@) == ps.take(i as int),
            decreases parts.len() - i,
        {
            let p = string_of(&parts[i]);
            let ghost before = out@;
            out.push(p);
            proof {
                assert(ps[i as int] == parts@[i as int]@);
                assert(views(out@) =~= views(before).push(p@));
                assert(views(out@) =~= ps.take(i + 1));
            }
            i = i + 1;
        }
        proof {
            assert(ps.take(parts.len() as int) =~= ps);
        }
    }
    out
}

/// `v` put at `leaf` under the nested objects named by `parents`, each made
/// (or, when it holds something else, replaced by) an empty object first.
pub open spec fn nested_insert(m: Entries, parents: Seq<Seq<char>>, leaf: Seq<char>, v: JsonView) -> Entries
    decreases parents.len(),
{
    if parents.len() == 0 {
        vinsert(m, leaf, v)
    } else {
        let child = match ventry(m, parents[0]) {
            Some(JsonView::Object(c)) => c,
            _ => Seq::empty(),
        };
        vinsert(m, parents[0], JsonView::Object(nested_insert(child, parents.drop_first(), leaf, v)))
    }
}

fn nested_insert_exec(m: &mut Vec<(String, JsonValue)>, parents: &Vec<String>, from: usize, leaf: &str, v: JsonValue)
    requires
        from <= parents@.len(),
    ensures
        jentries(final(m)@) == nested_insert(jentries(old(m)@), views(parents@).skip(from as int), leaf@, v@),
    decreases parents@.len() - from,
{
    let ghost ps = views(parents@).skip(from as int);
    if from == parents.len() {
        proof {
            assert(ps.len() == 0);
        }
        object_insert(m, String::from_str(leaf), v);
        return;
    }
    proof {
        assert(ps[0] == parents@[from as int]@);
        assert(ps.drop_first() =~= views(parents@).skip(from + 1));
        lemma_entry_value_view(m@, parents@[from as int]@);
    }
    let mut child: Vec<(String, JsonValue)> = match entries_get(m, parents[from].as_str()) {
        Some(JsonValue::Object(c)) => match json_clone(&JsonValue::Object(copy_entries(c))) {
            JsonValue::Object(cc) => cc,
            _ => Vec::new(),
        },
        _ => Vec::new(),
    };
    proof {
        assert(jentries(Seq::<(String, JsonValue)>::empty()) =~= Seq::<(Seq<char>, JsonView)>::empty());
    }
    nested_insert_exec(&mut child, parents, from + 1, leaf, v);
    object_insert(m, copy_string(&parents[from]), JsonValue::Object(child));
}

fn copy_entries(e: &Vec<(String, JsonValue)>) -> (r: Vec<(String, JsonValue)>)
    ensures
        jentries(r@) == jentries(e@),
{
    let mut out: Vec<(String, JsonValue)> = Vec::new();
    let mut i: usize = 0;
    proof {
        lemma_jentries(e@);
    }
    while i < e.len()
        invariant
            i <= e.len(),
            out@.len() == i,
            forall|q: int| 0 <= q < i ==> #[trigger] out@[q].0@ == e@[q].0@ && out@[q].1@ == e@[q].1@,
        decreases e.len() - i,
    {
        out.push((copy_string(&e[i].0), json_clone(&e[i].1)));
        i = i + 1;
    }
    proof {
        lemma_jentries(out@);
        lemma_jentries(e@);
        assert(jentries(out@) =~= jentries(e@));
    }
    out
}

/// The fields after reading one option of a mount string.
pub open spec fn definition_step(m: Entries, option: Seq<char>) -> Entries {
    if option == "readonly"@ || option == "ro"@ {
        vinsert(m, "read_only"@, JsonView::Bool(true))
    } else if strip_prefix(option, "type="@) is Some {
        vinsert(m, "type"@, JsonView::Str(strip_quotes(strip_prefix(option, "type="@)->0)))
    } else if strip_prefix(option, "source="@) is Some {
        vinsert(m, "source"@, JsonView::Str(strip_quotes(strip_prefix(option, "source="@)->0)))
    } else if strip_prefix(option, "src="@) is Some {
        vinsert(m, "source"@, JsonView::Str(strip_quotes(strip_prefix(option, "src="@)->0)))
    } else if strip_prefix(option, "target="@) is Some {
        vinsert(m, "target"@, JsonView::Str(strip_quotes(strip_prefix(option, "target="@)->0)))
    } else if strip_prefix(option, "destination="@) is Some {
        vinsert(m, "target"@, JsonView::Str(strip_quotes(strip_prefix(option, "destination="@)->0)))
    } else if strip_prefix(option, "dst="@) is Some {
        vinsert(m, "target"@, JsonView::Str(strip_quotes(strip_prefix(option, "dst="@)->0)))
    } else if strip_prefix(option, "external="@) is Some {
        match option_scalar(strip_prefix(option, "external="@)->0) {
            JsonView::Bool(b) => nested_insert(m, seq!["volume"@], "external"@, JsonView::Bool(b)),
            _ => m,
        }
    } else {
        match split_once(option, '=') {
            Some((k, val)) => {
                let p = key_path(k);
                nested_insert(m, p.drop_last(), p.last(), option_scalar(val))
            },
            None => m,
        }
    }
}

/// The fields read from the options in order, starting from a bind mount.
pub open spec fn definition_fields(options: Seq<Seq<char>>) -> Entries
    decreases options.len(),
{
    if options.len() == 0 {
        seq![("type"@, JsonView::Str("bind"@))]
    } else {
        definition_step(definition_fields(options.drop_last()), options.last())
    }
}

/// The compose volume fields of a mount string; none without a target.
pub open spec fn definition_of_str(mount: Seq<char>) -> Option<Entries> {
    let f = definition_fields(mount_options(mount));
    if ventry(f, "target"@) is Some {
        Some(f)
    } else {
        None
    }
}

fn insert_str(m: &mut Vec<(String, JsonValue)>, key: &str, value: String)
    ensures
        jentries(final(m)@) == vinsert(jentries(old(m)@), key@, JsonView::Str(value@)),
{
    object_insert(m, String::from_str(key), JsonValue::Str(value));
}

fn first_prefix(option: &str, a: &str, b: &str, c: &str) -> (r: Option<String>)
    ensures
        crate::text::opt_view(r) == if strip_prefix(option@, a@) is Some {
            strip_prefix(option@, a@)
        } else if strip_prefix(option@, b@) is Some {
            strip_prefix(option@, b@)
        } else {
            strip_prefix(option@, c@)
        },
{
    match strip_prefix_exec(option, a) {
        Some(x) => Some(x),
        None => match strip_prefix_exec(option, b) {
            Some(x) => Some(x),
            None => strip_prefix_exec(option, c),
        },
    }
}

fn definition_step_exec(m: &mut Vec<(String, JsonValue)>, option: &str)
    ensures
        jentries(final(m)@) == definition_step(jentries(old(m)@), option@),
{
    if str_eq(option, "readonly") || str_eq(option, "ro") {
        object_insert(m, String::from_str("read_only"), JsonValue::Bool(true));
        return;
    }
    match strip_prefix_exec(option, "type=") {
        Some(v) => {
            insert_str(m, "type", strip_quotes_str(v.as_str()));
            return;
        },
        None => {},
    }
    match strip_prefix_exec(option, "source=") {
        Some(v) => {
            insert_str(m, "source", strip_quotes_str(v.as_str()));
            return;
        },
        None => {},
    }
    match strip_prefix_exec(option, "src=") {
        Some(v) => {
            insert_str(m, "source", strip_quotes_str(v.as_str()));
            return;
        },
        None => {},
    }
    match first_prefix(option, "target=", "destination=", "dst=") {
        Some(v) => {
            insert_str(m, "target", strip_quotes_str(v.as_str()));
            return;
        },
        None => {},
    }
    match strip_prefix_exec(option, "external=") {
        Some(v) => {
            match parse_mount_option_scalar(v.as_str()) {
                JsonValue::Bool(b) => {
                    let mut parents: Vec<String> = Vec::new();
                    parents.push(String::from_str("volume"));
                    proof {
                        assert(views(parents@).skip(0) =~= seq!["volume"@]);
                    }
                    nested_insert_exec(m, &parents, 0, "external", JsonValue::Bool(b));
                },
                _ => {},
            }
            return;
        },
        None => {},
    }
    let oc = chars_of(option);
    match crate::text::find_char(&oc, '=', 0) {
        Some(i) => {
            proof {
                crate::text::lemma_find_char_from_bounds(oc@, '=', 0);
            }
            let k = string_of(&slice_chars(&oc, 0, i));
            let val = string_of(&slice_chars(&oc, i + 1, oc.len()));
            proof {
                assert(k@ =~= option@.take(i as int));
                assert(val@ =~= option@.skip(i + 1));
            }
            let path = key_path_exec(k.as_str());
            let n = path.len();
            let mut parents: Vec<String> = Vec::new();
            let mut j: usize = 0;
            while j < n - 1
                invariant
                    j <= n - 1,
                    n == path@.len(),
                    n >= 1,
                    views(parents@) == views(path@).take(j as int),
                decreases n - 1 - j,
            {
                let ghost before = parents@;
                let c = copy_string(&path[j]);
                parents.push(c);
                proof {
                    assert(views(parents@) =~= views(before).push(c@));
                    assert(views(parents@) =~= views(path@).take(j + 1));
                }
                j = j + 1;
            }
            proof {
                assert(views(parents@).skip(0) =~= views(path@).drop_last());
                assert(views(path@).last() == path@[n - 1]@);
            }
            let scalar = parse_mount_option_scalar(val.as_str());
            nested_insert_exec(m, &parents, 0, path[n - 1].as_str(), scalar);
        },
        None => {},
    }
}

/// The compose volume fields of a mount string, when it names a target.
pub fn compose_mount_definition_from_str(mount: &str) -> (r: Option<ComposeMountDefinition>)
    ensures
        match r {
            Some(d) => definition_of_str(mount@) == Some(jentries(d.fields@)),
            None => definition_of_str(mount@) is None,
        },
{
    let options = split_mount_options(mount);
    let ghost ov = views(options@);
    let mut fields: Vec<(String, JsonValue)> = Vec::new();
    insert_str(&mut fields, "type", String::from_str("bind"));
    proof {
        assert(ov.take(0) =~= Seq::<Seq<char>>::empty());
        assert(jentries(Seq::<(String, JsonValue)>::empty()) =~= Seq::<(Seq<char>, JsonView)>::empty());
        assert(vinsert(Seq::empty(), "type"@, JsonView::Str("bind"@)) =~= seq![("type"@, JsonView::Str("bind"@))]);
    }
    let mut i: usize = 0;
    while i < options.len()
        invariant
            i <= options.len(),
            ov == views(options@),
            ov == mount_options(mount@),
            jentries(fields@) == definition_fields(ov.take(i as int)),
        decreases options.len() - i,
    {
        proof {
            assert(ov.take(i + 1).drop_last() =~= ov.take(i as int));
            assert(ov.take(i + 1).last() == options@[i as int]@);
        }
        definition_step_exec(&mut fields, options[i].as_str());
        i = i + 1;
    }
    proof {
        assert(ov.take(options.len() as int) =~= ov);
        lemma_entry_value_view(fields@, "target"@);
    }
    if entries_get(&fields, "target").is_some() {
        Some(ComposeMountDefinition { fields })
    } else {
        None
    }
}

/// The fields of a compose long-syntax volume, in key order.
pub struct ComposeMountDefinition {
    pub fields: Vec<(String, JsonValue)>,
}

/// A compose volume: short `source:target[:ro]` text, or long-syntax fields.
pub enum ComposeVolumeEntry {
    Short(String),
    Long(ComposeMountDefinition),
}

/// What a volume entry is, as text or fields.
pub enum VolumeView {
    Short(Seq<char>),
    Long(Entries),
}

/// The view of a volume entry.
pub open spec fn volume_view(e: ComposeVolumeEntry) -> VolumeView {
    match e {
        ComposeVolumeEntry::Short(s) => VolumeView::Short(s@),
        ComposeVolumeEntry::Long(d) => VolumeView::Long(jentries(d.fields@)),
    }
}

/// The text of a string value, none for other values.
pub open spec fn as_text(v: Option<JsonView>) -> Option<Seq<char>> {
    match v {
        Some(JsonView::Str(s)) => Some(s),
        _ => None,
    }
}

/// The first of two names present.
pub open spec fn ventry2(o: Entries, a: Seq<char>, b: Seq<char>) -> Option<JsonView> {
    match ventry(o, a) {
        Some(v) => Some(v),
        None => ventry(o, b),
    }
}

/// The names a mount object gives a fixed field.
pub open spec fn is_fixed_mount_key(k: Seq<char>) -> bool {
    k == "type"@ || k == "source"@ || k == "src"@ || k == "target"@ || k == "destination"@ || k == "dst"@
        || k == "readonly"@ || k == "readOnly"@ || k == "external"@
}

/// The other entries of a mount object put in as they are, in order.
pub open spec fn extra_fields(m: Entries, o: Entries) -> Entries
    decreases o.len(),
{
    if o.len() == 0 {
        m
    } else {
        let r = extra_fields(m, o.drop_last());
        if is_fixed_mount_key(o.last().0) {
            r
        } else {
            vinsert(r, o.last().0, o.last().1)
        }
    }
}

/// The compose volume fields of a mount object: its type (`bind` when not
/// a string), source, target, `read_only` when read-only, `volume.external`
/// when given as a boolean, then its other entries; none without a target.
pub open spec fn definition_of_object(o: Entries) -> Option<Entries> {
    let target = match ventry(o, "target"@) {
        Some(v) => Some(v),
        None => ventry2(o, "destination"@, "dst"@),
    };
    match as_text(target) {
        None => None,
        Some(t) => Some(extra_fields(fixed_fields(o, t), o)),
    }
}

/// The compose volume of a configured mount: a string read as a mount
/// string, an object read field by field; none for other values or without a target.
pub open spec fn configured_volume(v: JsonView) -> Option<VolumeView> {
    match v {
        JsonView::Str(s) => match definition_of_str(s) {
            Some(f) => Some(VolumeView::Long(f)),
            None => None,
        },
        JsonView::Object(o) => match definition_of_object(o) {
            Some(f) => Some(VolumeView::Long(f)),
            None => None,
        },
        _ => None,
    }
}

fn get_view<'a>(o: &'a Vec<(String, JsonValue)>, key: &str) -> (r: Option<&'a JsonValue>)
    ensures
        match r {
            Some(x) => ventry(jentries(o@), key@) == Some(x@),
            None => ventry(jentries(o@), key@) is None,
        },
{
    proof {
        lemma_entry_value_view(o@, key@);
    }
    entries_get(o, key)
}

fn get_view2<'a>(o: &'a Vec<(String, JsonValue)>, a: &str, b: &str) -> (r: Option<&'a JsonValue>)
    ensures
        match r {
            Some(x) => ventry2(jentries(o@), a@, b@) == Some(x@),
            None => ventry2(jentries(o@), a@, b@) is None,
        },
{
    match get_view(o, a) {
        Some(x) => Some(x),
        None => get_view(o, b),
    }
}

fn text_of(v: Option<&JsonValue>) -> (r: Option<String>)
    ensures
        crate::text::opt_view(r) == as_text(
            match v {
                Some(x) => Some(x@),
                None => None,
            },
        ),
{
    match v {
        Some(JsonValue::Str(s)) => Some(copy_string(s)),
        _ => None,
    }
}

fn is_fixed_mount_key_exec(k: &str) -> (r: bool)
    ensures
        r == is_fixed_mount_key(k@),
{
    str_eq(k, "type") || str_eq(k, "source") || str_eq(k, "src") || str_eq(k, "target") || str_eq(
        k,
        "destination",
    ) || str_eq(k, "dst") || str_eq(k, "readonly") || str_eq(k, "readOnly") || str_eq(k, "external")
}

/// The fields of a mount object before its other entries go in.
pub open spec fn fixed_fields(o: Entries, t: Seq<char>) -> Entries {
    let f1 = vinsert(
        Seq::empty(),
        "type"@,
        JsonView::Str(
            match as_text(ventry(o, "type"@)) {
                Some(x) => x,
                None => "bind"@,
            },
        ),
    );
    let f2 = match as_text(ventry2(o, "source"@, "src"@)) {
        Some(s) => vinsert(f1, "source"@, JsonView::Str(s)),
        None => f1,
    };
    let f3 = vinsert(f2, "target"@, JsonView::Str(t));
    let f4 = if ventry2(o, "readonly"@, "readOnly"@) == Some(JsonView::Bool(true)) {
        vinsert(f3, "read_only"@, JsonView::Bool(true))
    } else {
        f3
    };
    match ventry(o, "external"@) {
        Some(JsonView::Bool(b)) => nested_insert(f4, seq!["volume"@], "external"@, JsonView::Bool(b)),
        _ => f4,
    }
}

fn fixed_fields_exec(o: &Vec<(String, JsonValue)>, t: String) -> (r: Vec<(String, JsonValue)>)
    ensures
        jentries(r@) == fixed_fields(jentries(o@), t@),
{
    let mut f: Vec<(String, JsonValue)> = Vec::new();
    proof {
        assert(jentries(f@) =~= Seq::<(Seq<char>, JsonView)>::empty());
    }
    let type_text = match text_of(get_view(o, "type")) {
        Some(x) => x,
        None => String::from_str("bind"),
    };
    insert_str(&mut f, "type", type_text);
    match text_of(get_view2(o, "source", "src")) {
        Some(s) => insert_str(&mut f, "source", s),
        None => {},
    }
    insert_str(&mut f, "target", t);
    match get_view2(o, "readonly", "readOnly") {
        Some(JsonValue::Bool(true)) => {
            object_insert(&mut f, String::from_str("read_only"), JsonValue::Bool(true));
        },
        _ => {},
    }
    match get_view(o, "external") {
        Some(JsonValue::Bool(b)) => {
            let mut parents: Vec<String> = Vec::new();
            parents.push(String::from_str("volume"));
            proof {
                assert(views(parents@).skip(0) =~= seq!["volume"@]);
            }
            nested_insert_exec(&mut f, &parents, 0, "external", JsonValue::Bool(*b));
        },
        _ => {},
    }
    f
}

fn insert_extra_fields(f: &mut Vec<(String, JsonValue)>, o: &Vec<(String, JsonValue)>)
    ensures
        jentries(final(f)@) == extra_fields(jentries(old(f)@), jentries(o@)),
{
    let ghost ov = jentries(o@);
    let ghost f5 = jentries(f@);
    proof {
        lemma_jentries(o@);
        assert(ov.take(0) =~= Seq::<(Seq<char>, JsonView)>::empty());
    }
    let mut i: usize = 0;
    while i < o.len()
        invariant
            i <= o.len(),
            ov == jentries(o@),
            ov.len() == o@.len(),
            forall|q: int| 0 <= q < o@.len() ==> #[trigger] ov[q] == (o@[q].0@, o@[q].1@),
            jentries(f@) == extra_fields(f5, ov.take(i as int)),
        decreases o.len() - i,
    {
        proof {
            assert(ov.take(i + 1).drop_last() =~= ov.take(i as int));
            assert(ov.take(i + 1).last() == ov[i as int]);
        }
        if !is_fixed_mount_key_exec(o[i].0.as_str()) {
            object_insert(f, copy_string(&o[i].0), json_clone(&o[i].1));
        }
        i = i + 1;
    }
    proof {
        assert(ov.take(o.len() as int) =~= ov);
    }
}

fn object_definition(o: &Vec<(String, JsonValue)>) -> (r: Option<Vec<(String, JsonValue)>>)
    ensures
        match r {
            Some(f) => definition_of_object(jentries(o@)) == Some(jentries(f@)),
            None => definition_of_object(jentries(o@)) is None,
        },
{
    let target = match get_view(o, "target") {
        Some(v) => Some(v),
        None => get_view2(o, "destination", "dst"),
    };
    let t = match text_of(target) {
        Some(t) => t,
        None => return None,
    };
    let mut f = fixed_fields_exec(o, t);
    insert_extra_fields(&mut f, o);
    Some(f)
}

/// The compose volume of a configured mount.
pub fn compose_mount_definition(value: &JsonValue) -> (r: Option<ComposeVolumeEntry>)
    ensures
        match r {
            Some(e) => configured_volume(value@) == Some(volume_view(e)),
            None => configured_volume(value@) is None,
        },
{
    match value {
        JsonValue::Str(s) => match compose_mount_definition_from_str(s.as_str()) {
            Some(d) => Some(ComposeVolumeEntry::Long(d)),
            None => None,
        },
        JsonValue::Object(o) => match object_definition(o) {
            Some(fields) => Some(ComposeVolumeEntry::Long(ComposeMountDefinition { fields })),
            None => None,
        },
        _ => None,
    }
}

/// Whether every key is one that the short form writes.
pub open spec fn only_short_keys(f: Entries) -> bool {
    forall|i: int|
        0 <= i < f.len() ==> {
            let k = #[trigger] f[i].0;
            k == "type"@ || k == "source"@ || k == "target"@ || k == "read_only"@
        }
}

/// `source:target`, with `:ro` when read-only, for a bind mount with no
/// other fields and string source and target.
pub open spec fn short_syntax_of(f: Entries) -> Option<Seq<char>> {
    let ty = match as_text(ventry(f, "type"@)) {
        Some(t) => t,
        None => "bind"@,
    };
    if ty != "bind"@ || !only_short_keys(f) {
        None
    } else {
        match (as_text(ventry(f, "source"@)), as_text(ventry(f, "target"@))) {
            (Some(s), Some(t)) => Some(
                s + seq![':'] + t + if ventry(f, "read_only"@) == Some(JsonView::Bool(true)) {
                    seq![':', 'r', 'o']
                } else {
                    Seq::empty()
                },
            ),
            _ => None,
        }
    }
}

impl ComposeMountDefinition {
    /// The mount type, when it is text.
    pub fn mount_type(&self) -> (r: Option<String>)
        ensures
            crate::text::opt_view(r) == as_text(ventry(jentries(self.fields@), "type"@)),
    {
        text_of(get_view(&self.fields, "type"))
    }

    /// The short form of the volume, where it has one.
    pub fn short_syntax(&self) -> (r: Option<String>)
        ensures
            crate::text::opt_view(r) == short_syntax_of(jentries(self.fields@)),
    {
        let ghost fv = jentries(self.fields@);
        let is_bind = match self.mount_type() {
            Some(t) => str_eq(t.as_str(), "bind"),
            None => true,
        };
        if !is_bind {
            return None;
        }
        proof {
            lemma_jentries(self.fields@);
        }
        let mut i: usize = 0;
        while i < self.fields.len()
            invariant
                i <= self.fields.len(),
                fv == jentries(self.fields@),
                fv.len() == self.fields@.len(),
                forall|q: int|
                    0 <= q < self.fields@.len() ==> #[trigger] fv[q] == (self.fields@[q].0@, self.fields@[q].1@),
                forall|q: int|
                    0 <= q < i ==> {
                        let k = #[trigger] fv[q].0;
                        k == "type"@ || k == "source"@ || k == "target"@ || k == "read_only"@
                    },
            decreases self.fields.len() - i,
        {
            let k = self.fields[i].0.as_str();
            if !(str_eq(k, "type") || str_eq(k, "source") || str_eq(k, "target") || str_eq(k, "read_only")) {
                proof {
                    assert(!only_short_keys(fv)) by {
                        let kk = fv[i as int].0;
                        assert(!(kk == "type"@ || kk == "source"@ || kk == "target"@ || kk == "read_only"@));
                    }
                }
                return None;
            }
            i = i + 1;
        }
        let source = match text_of(get_view(&self.fields, "source")) {
            Some(s) => s,
            None => return None,
        };
        let target = match text_of(get_view(&self.fields, "target")) {
            Some(t) => t,
            None => return None,
        };
        let mut out = source;
        out.append(":");
        out.append(target.as_str());
        match get_view(&self.fields, "read_only") {
            Some(JsonValue::Bool(true)) => {
                out.append(":ro");
            },
            _ => {},
        }
        proof {
            reveal_strlit(":");
            reveal_strlit(":ro");
            assert(out@ =~= short_syntax_of(fv)->0);
        }
        Some(out)
    }
}

} // verus!
