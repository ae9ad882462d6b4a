//! The host requirements of merged metadata: the requirement objects
//! combined key by key, memory written in bytes and CPU counts as numbers
//! with a fraction.
use vstd::prelude::*;
use crate::collections::{lower_ascii, lower_ascii_exec};
use crate::json_object::{object_insert, vinsert, Entries};
use crate::json_value::{entries_get, jentries, jviews, lemma_entry_value_view, ventry, JsonValue, JsonView};
use crate::merge::{merged_objects, merged_objects_of};
use crate::text::{chars_of, str_eq, string_of};

verus! {

/// An ASCII digit.
pub open spec fn is_digit(c: char) -> bool {
    '0' <= c && c <= '9'
}

/// The number of digits `s` starts with.
pub open spec fn digits_len(s: Seq<char>) -> nat
    decreases s.len(),
{
    if s.len() > 0 && is_digit(s[0]) {
        1 + digits_len(s.drop_first())
    } else {
        0
    }
}

/// Digits without their leading zeros, keeping one digit.
pub open spec fn without_leading_zeros(d: Seq<char>) -> Seq<char>
    decreases d.len(),
{
    if d.len() > 1 && d[0] == '0' {
        without_leading_zeros(d.drop_first())
    } else {
        d
    }
}

/// The power of ten of a size unit (case already folded): none or `b`,
/// `kb`, `mb`, `gb`, `tb`.
pub open spec fn unit_exponent(u: Seq<char>) -> Option<nat> {
    if u == ""@ || u == "b"@ {
        Some(0)
    } else if u == "kb"@ {
        Some(3)
    } else if u == "mb"@ {
        Some(6)
    } else if u == "gb"@ {
        Some(9)
    } else if u == "tb"@ {
        Some(12)
    } else {
        None
    }
}

/// `n` zero digits.
pub open spec fn zeros(n: nat) -> Seq<char> {
    Seq::new(n, |i: int| '0')
}

/// A size such as `4gb` written in bytes (`4000000000`): a whole number
/// and a unit of any case; nothing for any other text.
pub open spec fn memory_in_bytes(s: Seq<char>) -> Option<Seq<char>> {
    let n = digits_len(s);
    if n == 0 {
        None
    } else {
        match unit_exponent(s.skip(n as int).map_values(|c: char| lower_ascii(c))) {
            Some(k) => {
                let d = without_leading_zeros(s.take(n as int));
                Some(if d == "0"@ { d } else { d + zeros(k) })
            },
            None => None,
        }
    }
}

/// A CPU count written as a number with a fraction: a whole number gets `.0`.
pub open spec fn cpus_with_fraction(t: Seq<char>) -> Seq<char> {
    if t.len() > 0 && digits_len(t) == t.len() {
        t + ".0"@
    } else {
        t
    }
}

/// The host requirements of the metadata entries: their requirement
/// objects combined key by key, a later entry's key winning; `memory`, when
/// a size text, in bytes; `cpus`, when a whole number, with a fraction.
pub open spec fn host_requirements_of(es: Seq<JsonView>) -> Entries {
    let m = merged_objects(es, "hostRequirements"@);
    let m1 = match ventry(m, "memory"@) {
        Some(JsonView::Str(s)) => match memory_in_bytes(s) {
            Some(b) => vinsert(m, "memory"@, JsonView::Str(b)),
            None => m,
        },
        _ => m,
    };
    match ventry(m1, "cpus"@) {
        Some(JsonView::Number(t)) => vinsert(m1, "cpus"@, JsonView::Number(cpus_with_fraction(t))),
        _ => m1,
    }
}

pub(crate) fn digits_len_exec(v: &Vec<char>) -> (n: usize)
    ensures
        n == digits_len(v@),
        n <= v.len(),
{
    let mut i: usize = 0;
    proof {
        assert(v@.skip(0) =~= v@);
    }
    while i < v.len() && '0' <= v[i] && v[i] <= '9'
        invariant
            i <= v.len(),
            digits_len(v@) == i + digits_len(v@.skip(i as int)),
        decreases v.len() - i,
    {
        proof {
            assert(v@.skip(i as int).drop_first() =~= v@.skip(i + 1));
        }
        i = i + 1;
    }
    proof {
        if i < v.len() {
            assert(v@.skip(i as int)[0] == v@[i as int]);
        }
    }
    i
}

/// A size text in bytes, when it is one.
pub fn memory_bytes_text(s: &str) -> (r: Option<String>)
    ensures
        crate::text::opt_view(r) == memory_in_bytes(s@),
{
    let v = chars_of(s);
    let n = digits_len_exec(&v);
    if n == 0 {
        return None;
    }
    let mut unit: Vec<char> = Vec::new();
    let mut i: usize = n;
    while i < v.len()
        invariant
            n <= i <= v.len(),
            unit@ == v@.subrange(n as int, i as int).map_values(|c: char| lower_ascii(c)),
        decreases v.len() - i,
    {
        unit.push(lower_ascii_exec(v[i]));
        proof {
            assert(v@.subrange(n as int, i + 1).map_values(|c: char| lower_ascii(c)) =~= v@.subrange(
                n as int,
                i as int,
            ).map_values(|c: char| lower_ascii(c)).push(lower_ascii(v@[i as int])));
        }
        i = i + 1;
    }
    proof {
        assert(v@.subrange(n as int, v.len() as int) =~= v@.skip(n as int));
    }
    let u = string_of(&unit);
    let k: usize = if str_eq(u.as_str(), "") || str_eq(u.as_str(), "b") {
        0
    } else if str_eq(u.as_str(), "kb") {
        3
    } else if str_eq(u.as_str(), "mb") {
        6
    } else if str_eq(u.as_str(), "gb") {
        9
    } else if str_eq(u.as_str(), "tb") {
        12
    } else {
        return None;
    };
    let mut start: usize = 0;
    proof {
        assert(v@.take(n as int).skip(0) =~= v@.take(n as int));
    }
    while start + 1 < n && v[start] == '0'
        invariant
            start < n <= v.len(),
            without_leading_zeros(v@.take(n as int)) == without_leading_zeros(v@.take(n as int).skip(start as int)),
        decreases n - start,
    {
        proof {
            let t = v@.take(n as int).skip(start as int);
            assert(t[0] == v@[start as int]);
            assert(t.drop_first() =~= v@.take(n as int).skip(start + 1));
        }
        start = start + 1;
    }
    let mut out: Vec<char> = Vec::new();
    let mut j: usize = start;
    while j < n
        invariant
            start <= j <= n <= v.len(),
            out@ == v@.subrange(start as int, j as int),
        decreases n - j,
    {
        out.push(v[j]);
        proof {
            assert(out@ =~= v@.subrange(start as int, j + 1));
        }
        j = j + 1;
    }
    proof {
        let t = v@.take(n as int).skip(start as int);
        assert(t.len() > 1 ==> t[0] == v@[start as int]);
        assert(out@ =~= t);
        assert(without_leading_zeros(t) == t);
    }
    let d = string_of(&out);
    if str_eq(d.as_str(), "0") {
        return Some(d);
    }
    let ghost dv = out@;
    let mut z: usize = 0;
    while z < k
        invariant
            z <= k,
            k <= 12,
            out@ == dv + zeros(z as nat),
        decreases k - z,
    {
        out.push('0');
        proof {
            assert(out@ =~= dv + zeros((z + 1) as nat));
        }
        z = z + 1;
    }
    Some(string_of(&out))
}

/// A CPU count written with a fraction.
pub fn cpus_text(t: &str) -> (r: String)
    ensures
        r@ == cpus_with_fraction(t@),
{
    let v = chars_of(t);
    let n = digits_len_exec(&v);
    if v.len() > 0 && n == v.len() {
        let mut out = v;
        out.push('.');
        out.push('0');
        proof {
            assert(out@ =~= t@ + ".0"@) by {
                reveal_strlit(".0");
            }
        }
        string_of(&out)
    } else {
        String::from_str(t)
    }
}

/// The host requirements of the metadata entries, combined.
pub fn host_requirements(entries: &Vec<JsonValue>) -> (r: Vec<(String, JsonValue)>)
    ensures
        jentries(r@) == host_requirements_of(jviews(entries@)),
{
    let mut m = merged_objects_of(entries, "hostRequirements");
    proof {
        lemma_entry_value_view(m@, "memory"@);
    }
    let memory = match entries_get(&m, "memory") {
        Some(JsonValue::Str(s)) => memory_bytes_text(s.as_str()),
        _ => None,
    };
    match memory {
        Some(b) => object_insert(&mut m, String::from_str("memory"), JsonValue::Str(b)),
        None => {},
    }
    proof {
        lemma_entry_value_view(m@, "cpus"@);
    }
    let cpus = match entries_get(&m, "cpus") {
        Some(JsonValue::Number(t)) => Some(cpus_text(t.as_str())),
        _ => None,
    };
    match cpus {
        Some(c) => object_insert(&mut m, String::from_str("cpus"), JsonValue::Number(c)),
        None => {},
    }
    m
}

} // verus!
