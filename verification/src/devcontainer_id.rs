//! The stable identifier of a dev container, derived from its identifying
//! labels: the labels sorted by name, serialized as a JSON object, hashed
//! with SHA-256, and written in lower-case base32hex.
use vstd::prelude::*;
use crate::json::{push_quoted, quoted};
use crate::text::{chars_of, join, string_of};

use sha2::Digest;

verus! {

/// What SHA-256 gives for `data`.
pub uninterp spec fn sha256_of(data: Seq<u8>) -> Seq<u8>;

/// SHA-256 of `data`, through the sha2 crate's `Sha256::digest`. Claimed: the
/// result is `sha256_of(data)`, a function of the bytes alone, and has 32 bytes
/// (the crate's output size for SHA-256).
#[verifier::external_body]
pub(crate) fn sha256_digest(data: &[u8]) -> (r: Vec<u8>)
    ensures
        r@ == sha256_of(data@),
        r@.len() == 32,
{
    sha2::Sha256::digest(data).to_vec()
}

/// Bit `r` of a byte, counting from the most significant (`r` = 0) to the least (`r` = 7).
pub open spec fn byte_bit(b: u8, r: int) -> nat {
    let w: nat = if r == 0 {
        128
    } else if r == 1 {
        64
    } else if r == 2 {
        32
    } else if r == 3 {
        16
    } else if r == 4 {
        8
    } else if r == 5 {
        4
    } else if r == 6 {
        2
    } else {
        1
    };
    ((b as nat) / w) % 2
}

/// Bit `k` of the byte string read most significant bit first; 0 past the end.
pub open spec fn bit_at(bytes: Seq<u8>, k: int) -> nat {
    if 0 <= k < bytes.len() * 8 {
        byte_bit(bytes[k / 8], k % 8)
    } else {
        0
    }
}

/// The value of the `g`-th group of five bits.
pub open spec fn group_value(bytes: Seq<u8>, g: int) -> nat {
    16 * bit_at(bytes, 5 * g) + 8 * bit_at(bytes, 5 * g + 1) + 4 * bit_at(bytes, 5 * g + 2) + 2
        * bit_at(bytes, 5 * g + 3) + bit_at(bytes, 5 * g + 4)
}

/// The number of five-bit groups needed for `n` bytes.
pub open spec fn group_count(n: nat) -> nat {
    (8 * n + 4) / 5
}

/// The base32hex digit for `v < 32`: `0`-`9` then `a`-`v`.
pub open spec fn base32_digit(v: nat) -> char {
    if v < 10 {
        (v + 48) as char
    } else {
        (v + 87) as char
    }
}

/// Lower-case base32hex of `bytes` without padding, left-filled with `0` to 52 characters.
pub open spec fn base32hex_lower(bytes: Seq<u8>) -> Seq<char> {
    let n = group_count(bytes.len());
    let body = Seq::new(n, |g: int| base32_digit(group_value(bytes, g)));
    if n < 52 {
        Seq::new((52 - n) as nat, |i: int| '0') + body
    } else {
        body
    }
}

fn byte_bit_exec(b: u8, r: usize) -> (v: u8)
    requires
        r < 8,
    ensures
        v as nat == byte_bit(b, r as int),
        v < 2,
{
    let w: u8 = if r == 0 {
        128
    } else if r == 1 {
        64
    } else if r == 2 {
        32
    } else if r == 3 {
        16
    } else if r == 4 {
        8
    } else if r == 5 {
        4
    } else if r == 6 {
        2
    } else {
        1
    };
    (b / w) % 2
}

fn bit_at_exec(bytes: &[u8], k: usize) -> (v: u8)
    requires
        bytes.len() <= usize::MAX / 8,
    ensures
        v as nat == bit_at(bytes@, k as int),
        v < 2,
{
    if k < bytes.len() * 8 {
        byte_bit_exec(bytes[k / 8], k % 8)
    } else {
        0
    }
}

fn base32_digit_exec(v: u8) -> (c: char)
    requires
        v < 32,
    ensures
        c == base32_digit(v as nat),
{
    if v < 10 {
        (v + 48) as char
    } else {
        (v + 87) as char
    }
}

/// Lower-case base32hex, left-filled with `0` to at least 52 characters.
pub fn encode_base32hex_lower(bytes: &[u8]) -> (r: String)
    requires
        bytes.len() <= usize::MAX / 8,
    ensures
        r@ == base32hex_lower(bytes@),
{
    let n: usize = (bytes.len() * 8 + 4) / 5;
    let mut out: Vec<char> = Vec::new();
    if n < 52 {
        let mut p: usize = 0;
        while p < 52 - n
            invariant
                n < 52,
                p <= 52 - n,
                out@ == Seq::new(p as nat, |i: int| '0'),
            decreases 52 - n - p,
        {
            out.push('0');
            proof {
                assert(out@ =~= Seq::new((p + 1) as nat, |i: int| '0'));
            }
            p = p + 1;
        }
    }
    let ghost pad = out@;
    let mut g: usize = 0;
    while g < n
        invariant
            n == group_count(bytes@.len()),
            bytes.len() <= usize::MAX / 8,
            g <= n,
            out@ == pad + Seq::new(g as nat, |j: int| base32_digit(group_value(bytes@, j))),
        decreases n - g,
    {
        let k = 5 * g;
        let v = 16 * bit_at_exec(bytes, k) + 8 * bit_at_exec(bytes, k + 1) + 4 * bit_at_exec(
            bytes,
            k + 2,
        ) + 2 * bit_at_exec(bytes, k + 3) + bit_at_exec(bytes, k + 4);
        out.push(base32_digit_exec(v));
        proof {
            assert(out@ =~= pad + Seq::new((g + 1) as nat, |j: int| base32_digit(group_value(bytes@, j))));
        }
        g = g + 1;
    }
    proof {
        assert(out@ =~= base32hex_lower(bytes@));
    }
    string_of(&out)
}


/// Strict lexicographic order of character sequences, by code point.
pub open spec fn key_lt(a: Seq<char>, b: Seq<char>) -> bool
    decreases a.len(),
{
    if b.len() == 0 {
        false
    } else if a.len() == 0 {
        true
    } else if a[0] != b[0] {
        (a[0] as u32) < (b[0] as u32)
    } else {
        key_lt(a.drop_first(), b.drop_first())
    }
}

/// Whether `a` sorts strictly before `b`.
pub fn chars_lt(a: &Vec<char>, b: &Vec<char>) -> (r: bool)
    ensures
        r == key_lt(a@, b@),
{
    let mut i: usize = 0;
    proof {
        assert(a@.skip(0) =~= a@);
        assert(b@.skip(0) =~= b@);
    }
    while i < a.len() && i < b.len()
        invariant
            i <= a.len(),
            i <= b.len(),
            key_lt(a@, b@) == key_lt(a@.skip(i as int), b@.skip(i as int)),
        decreases a.len() - i,
    {
        proof {
            assert(a@.skip(i as int).drop_first() =~= a@.skip(i + 1));
            assert(b@.skip(i as int).drop_first() =~= b@.skip(i + 1));
        }
        if a[i] != b[i] {
            return (a[i] as u32) < (b[i] as u32);
        }
        i = i + 1;
    }
    i < b.len()
}

/// A label as a pair of character sequences.
pub open spec fn label_view(l: (String, String)) -> (Seq<char>, Seq<char>) {
    (l.0@, l.1@)
}

/// The labels as pairs of character sequences.
pub open spec fn labels_view(s: Seq<(String, String)>) -> Seq<(Seq<char>, Seq<char>)> {
    s.map_values(|l: (String, String)| label_view(l))
}

/// `x` inserted into `s` after every entry whose name does not sort after it.
pub open spec fn insert_label(x: (Seq<char>, Seq<char>), s: Seq<(Seq<char>, Seq<char>)>) -> Seq<
    (Seq<char>, Seq<char>),
>
    decreases s.len(),
{
    if s.len() == 0 {
        seq![x]
    } else if key_lt(x.0, s[0].0) {
        seq![x] + s
    } else {
        seq![s[0]] + insert_label(x, s.drop_first())
    }
}

/// The labels ordered by name; labels with the same name keep their order.
pub open spec fn sort_labels(s: Seq<(Seq<char>, Seq<char>)>) -> Seq<(Seq<char>, Seq<char>)>
    decreases s.len(),
{
    if s.len() == 0 {
        s
    } else {
        insert_label(s.last(), sort_labels(s.drop_last()))
    }
}

/// The JSON object text of the labels, in the given order.
pub open spec fn serialize_labels(s: Seq<(Seq<char>, Seq<char>)>) -> Seq<char> {
    "{"@ + join(s.map_values(|e: (Seq<char>, Seq<char>)| quoted(e.0) + ":"@ + quoted(e.1)), ","@)
        + "}"@
}

/// The identifier for a set of labels.
pub open spec fn devcontainer_id(labels: Seq<(Seq<char>, Seq<char>)>) -> Seq<char> {
    base32hex_lower(sha256_of(vstd::utf8::encode_utf8(serialize_labels(sort_labels(labels)))))
}

proof fn lemma_insert_label_at(
    x: (Seq<char>, Seq<char>),
    s: Seq<(Seq<char>, Seq<char>)>,
    j: int,
)
    requires
        0 <= j <= s.len(),
        forall|k: int| 0 <= k < j ==> !key_lt(x.0, #[trigger] s[k].0),
        j < s.len() ==> key_lt(x.0, s[j].0),
    ensures
        insert_label(x, s) == s.take(j) + seq![x] + s.skip(j),
    decreases j,
{
    if j == 0 {
        if s.len() == 0 {
            assert(s.take(0) + seq![x] + s.skip(0) =~= seq![x]);
        } else {
            assert(s.take(0) + seq![x] + s.skip(0) =~= seq![x] + s);
        }
    } else {
        assert(!key_lt(x.0, s[0].0));
        let t = s.drop_first();
        assert forall|k: int| 0 <= k < j - 1 implies !key_lt(x.0, #[trigger] t[k].0) by {
            assert(t[k] == s[k + 1]);
        }
        lemma_insert_label_at(x, t, j - 1);
        assert(seq![s[0]] + (t.take(j - 1) + seq![x] + t.skip(j - 1)) =~= s.take(j) + seq![x]
            + s.skip(j));
    }
}

fn insert_sorted(x: (Vec<char>, Vec<char>), res: &mut Vec<(Vec<char>, Vec<char>)>)
    ensures
        final(res)@.map_values(|e: (Vec<char>, Vec<char>)| (e.0@, e.1@)) == insert_label(
            (x.0@, x.1@),
            old(res)@.map_values(|e: (Vec<char>, Vec<char>)| (e.0@, e.1@)),
        ),
{
    let ghost sv = res@.map_values(|e: (Vec<char>, Vec<char>)| (e.0@, e.1@));
    let mut j: usize = 0;
    while j < res.len() && !chars_lt(&x.0, &res[j].0)
        invariant
            j <= res.len(),
            sv == res@.map_values(|e: (Vec<char>, Vec<char>)| (e.0@, e.1@)),
            forall|k: int| 0 <= k < j ==> !key_lt(x.0@, #[trigger] sv[k].0),
        decreases res.len() - j,
    {
        j = j + 1;
    }
    proof {
        lemma_insert_label_at((x.0@, x.1@), sv, j as int);
    }
    res.insert(j, x);
    proof {
        assert(res@.map_values(|e: (Vec<char>, Vec<char>)| (e.0@, e.1@)) =~= sv.take(j as int)
            + seq![(x.0@, x.1@)] + sv.skip(j as int));
    }
}

/// The labels ordered by name (a stable sort).
pub fn sorted_labels(labels: &Vec<(String, String)>) -> (r: Vec<(Vec<char>, Vec<char>)>)
    ensures
        r@.map_values(|e: (Vec<char>, Vec<char>)| (e.0@, e.1@)) == sort_labels(labels_view(labels@)),
{
    let ghost lv = labels_view(labels@);
    let mut res: Vec<(Vec<char>, Vec<char>)> = Vec::new();
    let mut i: usize = 0;
    while i < labels.len()
        invariant
            i <= labels.len(),
            lv == labels_view(labels@),
            res@.map_values(|e: (Vec<char>, Vec<char>)| (e.0@, e.1@)) == sort_labels(lv.take(i as int)),
        decreases labels.len() - i,
    {
        let k = chars_of(labels[i].0.as_str());
        let v = chars_of(labels[i].1.as_str());
        proof {
            assert(lv.take(i + 1).drop_last() =~= lv.take(i as int));
            assert(lv.take(i + 1).last() == (k@, v@));
        }
        insert_sorted((k, v), &mut res);
        i = i + 1;
    }
    proof {
        assert(lv.take(labels.len() as int) =~= lv);
    }
    res
}

fn push_all(out: &mut Vec<char>, s: &str)
    ensures
        final(out)@ == old(out)@ + s@,
{
    let v = chars_of(s);
    let mut i: usize = 0;
    while i < v.len()
        invariant
            i <= v.len(),
            out@ == old(out)@ + v@.take(i as int),
        decreases v.len() - i,
    {
        out.push(v[i]);
        proof {
            assert(v@.take(i + 1) =~= v@.take(i as int).push(v@[i as int]));
        }
        i = i + 1;
    }
    proof {
        assert(v@.take(v.len() as int) =~= v@);
    }
}

fn chars_to_string(v: &Vec<char>) -> (s: String)
    ensures
        s@ == v@,
{
    string_of(v)
}

/// The JSON object text of sorted labels.
fn serialize(entries: &Vec<(Vec<char>, Vec<char>)>) -> (r: Vec<char>)
    ensures
        r@ == serialize_labels(entries@.map_values(|e: (Vec<char>, Vec<char>)| (e.0@, e.1@))),
{
    let ghost ev = entries@.map_values(|e: (Vec<char>, Vec<char>)| (e.0@, e.1@));
    let ghost parts = ev.map_values(|e: (Seq<char>, Seq<char>)| quoted(e.0) + ":"@ + quoted(e.1));
    let mut out: Vec<char> = Vec::new();
    out.push('{');
    let mut i: usize = 0;
    while i < entries.len()
        invariant
            i <= entries.len(),
            ev == entries@.map_values(|e: (Vec<char>, Vec<char>)| (e.0@, e.1@)),
            parts == ev.map_values(|e: (Seq<char>, Seq<char>)| quoted(e.0) + ":"@ + quoted(e.1)),
            out@ == seq!['{'] + join(parts.take(i as int), ","@),
        decreases entries.len() - i,
    {
        let ghost before = out@;
        if i > 0 {
            out.push(',');
        }
        let ghost mid = out@;
        let key = chars_to_string(&entries[i].0);
        let value = chars_to_string(&entries[i].1);
        push_quoted(key.as_str(), &mut out);
        push_all(&mut out, ":");
        push_quoted(value.as_str(), &mut out);
        proof {
            reveal_strlit(",");
            assert(parts.take(i + 1).drop_last() =~= parts.take(i as int));
            assert(parts.take(i + 1).last() == quoted(ev[i as int].0) + ":"@ + quoted(ev[i as int].1));
            if i == 0 {
                assert(out@ =~= seq!['{'] + join(parts.take(i + 1), ","@));
            } else {
                assert(out@ =~= seq!['{'] + join(parts.take(i + 1), ","@));
            }
        }
        i = i + 1;
    }
    out.push('}');
    proof {
        reveal_strlit("{");
        reveal_strlit("}");
        assert(parts.take(entries.len() as int) =~= parts);
        assert(out@ =~= serialize_labels(ev));
    }
    out
}

/// The dev container identifier of a set of identifying labels.
pub fn devcontainer_id_for_labels(labels: &Vec<(String, String)>) -> (r: String)
    ensures
        r@ == devcontainer_id(labels_view(labels@)),
        r@.len() == 52,
        forall|i: int| 0 <= i < r@.len() ==> is_base32hex_char(#[trigger] r@[i]),
{
    let sorted = sorted_labels(labels);
    let text = serialize(&sorted);
    let serialized = string_of(&text);
    let bytes = serialized.as_str().as_bytes();
    let hash = sha256_digest(bytes);
    proof {
        lemma_base32hex_of_digest(hash@);
    }
    encode_base32hex_lower(hash.as_slice())
}

/// A digit of lower-case base32hex: `0`-`9` or `a`-`v`.
pub open spec fn is_base32hex_char(c: char) -> bool {
    ('0' <= c && c <= '9') || ('a' <= c && c <= 'v')
}

/// A 32-byte digest encodes to exactly 52 base32hex digits, with no padding.
pub proof fn lemma_base32hex_of_digest(bytes: Seq<u8>)
    requires
        bytes.len() == 32,
    ensures
        base32hex_lower(bytes).len() == 52,
        forall|i: int| 0 <= i < 52 ==> is_base32hex_char(#[trigger] base32hex_lower(bytes)[i]),
{
    assert(group_count(32) == 52);
    assert forall|i: int| 0 <= i < 52 implies is_base32hex_char(#[trigger] base32hex_lower(bytes)[i]) by {
        assert forall|k: int| bit_at(bytes, k) <= 1 by {
            if 0 <= k < bytes.len() * 8 {
                let b = bytes[k / 8];
                assert(((b as nat) / 128) % 2 <= 1);
            }
        }
        let v = group_value(bytes, i);
        assert(bit_at(bytes, 5 * i) <= 1);
        assert(bit_at(bytes, 5 * i + 1) <= 1);
        assert(bit_at(bytes, 5 * i + 2) <= 1);
        assert(bit_at(bytes, 5 * i + 3) <= 1);
        assert(bit_at(bytes, 5 * i + 4) <= 1);
        assert(v < 32);
        assert(base32hex_lower(bytes)[i] == base32_digit(v));
    }
}


/// Lower-case hexadecimal of bytes, two digits per byte, high digit first.
pub open spec fn hex_lower(bytes: Seq<u8>) -> Seq<char>
    decreases bytes.len(),
{
    if bytes.len() == 0 {
        Seq::empty()
    } else {
        hex_lower(bytes.drop_last()) + seq![
            crate::json::hex_digit((bytes.last() / 16) as nat),
            crate::json::hex_digit((bytes.last() % 16) as nat),
        ]
    }
}

fn hex_char(d: u8) -> (c: char)
    requires
        d < 16,
    ensures
        c == crate::json::hex_digit(d as nat),
{
    if d < 10 {
        (d + 48) as char
    } else {
        (d + 87) as char
    }
}

/// The lower-case hexadecimal text of `bytes`.
pub fn encode_hex_lower(bytes: &[u8]) -> (r: String)
    ensures
        r@ == hex_lower(bytes@),
{
    let mut out: Vec<char> = Vec::new();
    let mut i: usize = 0;
    while i < bytes.len()
        invariant
            i <= bytes.len(),
            out@ == hex_lower(bytes@.take(i as int)),
        decreases bytes.len() - i,
    {
        proof {
            assert(bytes@.take(i + 1).drop_last() =~= bytes@.take(i as int));
        }
        let b = bytes[i];
        out.push(hex_char(b / 16));
        out.push(hex_char(b % 16));
        proof {
            assert(out@ =~= hex_lower(bytes@.take(i + 1)));
        }
        i = i + 1;
    }
    proof {
        assert(bytes@.take(bytes.len() as int) =~= bytes@);
    }
    string_of(&out)
}

/// No sequence sorts before itself.
pub(crate) proof fn lemma_key_lt_irreflexive(a: Seq<char>)
    ensures
        !key_lt(a, a),
    decreases a.len(),
{
    if a.len() > 0 {
        lemma_key_lt_irreflexive(a.drop_first());
    }
}

/// The order is transitive.
pub(crate) proof fn lemma_key_lt_transitive(a: Seq<char>, b: Seq<char>, c: Seq<char>)
    requires
        key_lt(a, b),
        key_lt(b, c),
    ensures
        key_lt(a, c),
    decreases a.len(),
{
    if a.len() > 0 && b.len() > 0 && c.len() > 0 && a[0] == b[0] && b[0] == c[0] {
        lemma_key_lt_transitive(a.drop_first(), b.drop_first(), c.drop_first());
    }
}

/// Of two different sequences, one sorts before the other.
pub(crate) proof fn lemma_key_lt_total(a: Seq<char>, b: Seq<char>)
    requires
        a != b,
    ensures
        key_lt(a, b) || key_lt(b, a),
    decreases a.len(),
{
    if a.len() > 0 && b.len() > 0 && a[0] == b[0] {
        if a.drop_first() == b.drop_first() {
            assert(a =~= seq![a[0]] + a.drop_first());
            assert(b =~= seq![b[0]] + b.drop_first());
        }
        lemma_key_lt_total(a.drop_first(), b.drop_first());
    } else if a.len() > 0 && b.len() > 0 {
        let x = a[0];
        let y = b[0];
        vstd::utf8::char_u32_cast(x, x as u32);
        vstd::utf8::char_u32_cast(y, y as u32);
    } else if a.len() == 0 && b.len() == 0 {
        assert(a =~= b);
    }
}

/// The order is asymmetric.
pub(crate) proof fn lemma_key_lt_asymmetric(a: Seq<char>, b: Seq<char>)
    requires
        key_lt(a, b),
    ensures
        !key_lt(b, a),
{
    if key_lt(b, a) {
        lemma_key_lt_transitive(a, b, a);
        lemma_key_lt_irreflexive(a);
    }
}

/// Names strictly increase along the sequence.
pub open spec fn strictly_sorted(s: Seq<(Seq<char>, Seq<char>)>) -> bool {
    forall|i: int, j: int| 0 <= i < j < s.len() ==> key_lt(#[trigger] s[i].0, #[trigger] s[j].0)
}

/// Inserting a label whose name is new keeps the names strictly increasing
/// and adds just that label.
proof fn lemma_insert_label_sorted(x: (Seq<char>, Seq<char>), s: Seq<(Seq<char>, Seq<char>)>)
    requires
        strictly_sorted(s),
        forall|i: int| 0 <= i < s.len() ==> s[i].0 != x.0,
    ensures
        strictly_sorted(insert_label(x, s)),
        insert_label(x, s).len() == s.len() + 1,
        forall|e: (Seq<char>, Seq<char>)| #[trigger] insert_label(x, s).contains(e) <==> (s.contains(e) || e == x),
    decreases s.len(),
{
    if s.len() == 0 {
        assert(insert_label(x, s) =~= seq![x]);
        assert forall|e: (Seq<char>, Seq<char>)| #[trigger] insert_label(x, s).contains(e) <==> (s.contains(e) || e == x) by {
            if insert_label(x, s).contains(e) {
                let k = choose|k: int| 0 <= k < 1 && seq![x][k] == e;
                assert(k == 0);
            }
            if e == x {
                assert(seq![x][0] == e);
            }
        }
    } else if key_lt(x.0, s[0].0) {
        let r = seq![x] + s;
        assert(insert_label(x, s) == r);
        assert forall|i: int, j: int| 0 <= i < j < r.len() implies key_lt(#[trigger] r[i].0, #[trigger] r[j].0) by {
            if i == 0 {
                if j > 1 {
                    lemma_key_lt_transitive(x.0, s[0].0, s[j - 1].0);
                }
            } else {
                assert(r[i] == s[i - 1] && r[j] == s[j - 1]);
            }
        }
        assert forall|e: (Seq<char>, Seq<char>)| #[trigger] r.contains(e) <==> (s.contains(e) || e == x) by {
            if r.contains(e) {
                let k = choose|k: int| 0 <= k < r.len() && r[k] == e;
                if k > 0 {
                    assert(s[k - 1] == e);
                }
            }
            if s.contains(e) {
                let k = choose|k: int| 0 <= k < s.len() && s[k] == e;
                assert(r[k + 1] == e);
            }
            if e == x {
                assert(r[0] == e);
            }
        }
    } else {
        let t = s.drop_first();
        assert forall|i: int, j: int| 0 <= i < j < t.len() implies key_lt(#[trigger] t[i].0, #[trigger] t[j].0) by {
            assert(t[i] == s[i + 1] && t[j] == s[j + 1]);
        }
        assert forall|i: int| 0 <= i < t.len() implies t[i].0 != x.0 by {
            assert(t[i] == s[i + 1]);
        }
        lemma_insert_label_sorted(x, t);
        let it = insert_label(x, t);
        let r = seq![s[0]] + it;
        assert(insert_label(x, s) == r);
        lemma_key_lt_total(x.0, s[0].0);
        assert(key_lt(s[0].0, x.0));
        assert forall|i: int, j: int| 0 <= i < j < r.len() implies key_lt(#[trigger] r[i].0, #[trigger] r[j].0) by {
            if i == 0 {
                let e = it[j - 1];
                assert(it.contains(e));
                if e == x {
                } else {
                    let k = choose|k: int| 0 <= k < t.len() && t[k] == e;
                    assert(t[k] == s[k + 1]);
                }
            } else {
                assert(r[i] == it[i - 1] && r[j] == it[j - 1]);
            }
        }
        assert forall|e: (Seq<char>, Seq<char>)| #[trigger] r.contains(e) <==> (s.contains(e) || e == x) by {
            if r.contains(e) {
                let k = choose|k: int| 0 <= k < r.len() && r[k] == e;
                if k == 0 {
                    assert(s[0] == e);
                } else {
                    assert(it[k - 1] == e);
                    assert(it.contains(e));
                    if t.contains(e) {
                        let q = choose|q: int| 0 <= q < t.len() && t[q] == e;
                        assert(s[q + 1] == e);
                    }
                }
            }
            if s.contains(e) {
                let k = choose|k: int| 0 <= k < s.len() && s[k] == e;
                if k == 0 {
                    assert(r[0] == e);
                } else {
                    assert(t[k - 1] == e);
                    assert(t.contains(e));
                    assert(it.contains(e));
                    let q = choose|q: int| 0 <= q < it.len() && it[q] == e;
                    assert(r[q + 1] == e);
                }
            }
            if e == x {
                assert(it.contains(x));
                let q = choose|q: int| 0 <= q < it.len() && it[q] == x;
                assert(r[q + 1] == x);
            }
        }
    }
}

/// Sorting labels with distinct names orders them strictly by name and
/// keeps exactly the same labels.
proof fn lemma_sort_labels_sorted(s: Seq<(Seq<char>, Seq<char>)>)
    requires
        crate::collections::distinct_keys(s),
    ensures
        strictly_sorted(sort_labels(s)),
        sort_labels(s).len() == s.len(),
        forall|e: (Seq<char>, Seq<char>)| #[trigger] sort_labels(s).contains(e) <==> s.contains(e),
    decreases s.len(),
{
    if s.len() > 0 {
        let p = s.drop_last();
        assert forall|i: int, j: int| 0 <= i < j < p.len() implies p[i].0 != p[j].0 by {
            assert(p[i] == s[i] && p[j] == s[j]);
        }
        lemma_sort_labels_sorted(p);
        let sp = sort_labels(p);
        assert forall|i: int| 0 <= i < sp.len() implies sp[i].0 != s.last().0 by {
            assert(sp.contains(sp[i]));
            let k = choose|k: int| 0 <= k < p.len() && p[k] == sp[i];
            assert(s[k] == p[k]);
        }
        lemma_insert_label_sorted(s.last(), sp);
        assert forall|e: (Seq<char>, Seq<char>)| #[trigger] sort_labels(s).contains(e) <==> s.contains(e) by {
            if p.contains(e) {
                let k = choose|k: int| 0 <= k < p.len() && p[k] == e;
                assert(s[k] == e);
            }
            if s.contains(e) {
                let k = choose|k: int| 0 <= k < s.len() && s[k] == e;
                if k < s.len() - 1 {
                    assert(p[k] == e);
                    assert(p.contains(e));
                }
            }
        }
    }
}

/// Two sequences strictly sorted by name that hold the same labels are equal.
proof fn lemma_sorted_unique(a: Seq<(Seq<char>, Seq<char>)>, b: Seq<(Seq<char>, Seq<char>)>)
    requires
        strictly_sorted(a),
        strictly_sorted(b),
        forall|e: (Seq<char>, Seq<char>)| a.contains(e) <==> b.contains(e),
    ensures
        a == b,
    decreases a.len() + b.len(),
{
    if a.len() == 0 || b.len() == 0 {
        if a.len() > 0 {
            assert(a.contains(a[0]));
        }
        if b.len() > 0 {
            assert(b.contains(b[0]));
        }
        assert(a =~= b);
    } else {
        assert(a.contains(a[0]));
        assert(b.contains(a[0]));
        let j = choose|j: int| 0 <= j < b.len() && b[j] == a[0];
        assert(b.contains(b[0]));
        assert(a.contains(b[0]));
        let i = choose|i: int| 0 <= i < a.len() && a[i] == b[0];
        if i > 0 && j > 0 {
            assert(key_lt(a[0].0, a[i].0));
            assert(key_lt(b[0].0, b[j].0));
            lemma_key_lt_asymmetric(a[0].0, b[0].0);
        }
        if i > 0 && j == 0 {
            assert(key_lt(a[0].0, a[i].0));
            lemma_key_lt_irreflexive(a[0].0);
        }
        if i == 0 && j > 0 {
            assert(key_lt(b[0].0, b[j].0));
            lemma_key_lt_irreflexive(b[0].0);
        }
        assert(a[0] == b[0]);
        let ta = a.drop_first();
        let tb = b.drop_first();
        assert forall|x: int, y: int| 0 <= x < y < ta.len() implies key_lt(#[trigger] ta[x].0, #[trigger] ta[y].0) by {
            assert(ta[x] == a[x + 1] && ta[y] == a[y + 1]);
        }
        assert forall|x: int, y: int| 0 <= x < y < tb.len() implies key_lt(#[trigger] tb[x].0, #[trigger] tb[y].0) by {
            assert(tb[x] == b[x + 1] && tb[y] == b[y + 1]);
        }
        assert forall|e: (Seq<char>, Seq<char>)| ta.contains(e) <==> tb.contains(e) by {
            if ta.contains(e) {
                let k = choose|k: int| 0 <= k < ta.len() && ta[k] == e;
                assert(a[k + 1] == e);
                assert(a.contains(e));
                assert(b.contains(e));
                let q = choose|q: int| 0 <= q < b.len() && b[q] == e;
                if q == 0 {
                    assert(key_lt(a[0].0, a[k + 1].0));
                    lemma_key_lt_irreflexive(a[0].0);
                }
                assert(tb[q - 1] == e);
            }
            if tb.contains(e) {
                let k = choose|k: int| 0 <= k < tb.len() && tb[k] == e;
                assert(b[k + 1] == e);
                assert(b.contains(e));
                assert(a.contains(e));
                let q = choose|q: int| 0 <= q < a.len() && a[q] == e;
                if q == 0 {
                    assert(key_lt(b[0].0, b[k + 1].0));
                    lemma_key_lt_irreflexive(b[0].0);
                }
                assert(ta[q - 1] == e);
            }
        }
        lemma_sorted_unique(ta, tb);
        assert(a =~= seq![a[0]] + ta);
        assert(b =~= seq![b[0]] + tb);
    }
}

/// The identifier of a set of labels does not depend on their order: two
/// lists with distinct names that hold the same labels give the same identifier.
pub proof fn lemma_devcontainer_id_ignores_label_order(
    p: Seq<(Seq<char>, Seq<char>)>,
    q: Seq<(Seq<char>, Seq<char>)>,
)
    requires
        crate::collections::distinct_keys(p),
        crate::collections::distinct_keys(q),
        forall|e: (Seq<char>, Seq<char>)| p.contains(e) <==> q.contains(e),
    ensures
        devcontainer_id(p) == devcontainer_id(q),
{
    lemma_sort_labels_sorted(p);
    lemma_sort_labels_sorted(q);
    assert forall|e: (Seq<char>, Seq<char>)| sort_labels(p).contains(e) <==> sort_labels(q).contains(e) by {
        assert(sort_labels(p).contains(e) <==> p.contains(e));
        assert(sort_labels(q).contains(e) <==> q.contains(e));
    }
    lemma_sorted_unique(sort_labels(p), sort_labels(q));
}

} // verus!
