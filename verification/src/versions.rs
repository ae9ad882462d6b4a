//! Version numbers of features: `x`, `x.y` and `x.y.z`, selectors over them,
//! and their order.
use vstd::prelude::*;
use crate::text::{chars_of, decimal, split, split_chars, string_of};

verus! {

/// The numeric value of a string of decimal digits.
pub open spec fn digits_value(s: Seq<char>) -> nat
    decreases s.len(),
{
    if s.len() == 0 {
        0
    } else {
        digits_value(s.drop_last()) * 10 + ((s.last() as u32) - 48) as nat
    }
}

pub open spec fn is_digit(c: char) -> bool {
    '0' <= c && c <= '9'
}

pub open spec fn all_digits(s: Seq<char>) -> bool {
    forall|i: int| 0 <= i < s.len() ==> is_digit(#[trigger] s[i])
}

/// `u64::from_str`: an optional `+` and at least one digit, within range.
pub open spec fn parse_u64_spec(s: Seq<char>) -> Option<u64> {
    let d = if s.len() > 0 && s[0] == '+' {
        s.drop_first()
    } else {
        s
    };
    if d.len() > 0 && all_digits(d) && digits_value(d) <= u64::MAX {
        Some(digits_value(d) as u64)
    } else {
        None
    }
}

/// Parses a decimal `u64` as `u64::from_str` does.
pub fn parse_u64(s: &Vec<char>) -> (r: Option<u64>)
    ensures
        r == parse_u64_spec(s@),
{
    let mut i: usize = 0;
    if s.len() > 0 && s[0] == '+' {
        i = 1;
    }
    let ghost d = if s@.len() > 0 && s@[0] == '+' {
        s@.drop_first()
    } else {
        s@
    };
    if i >= s.len() {
        return None;
    }
    let start = i;
    let mut value: u64 = 0;
    while i < s.len()
        invariant
            start <= i <= s.len(),
            start == 0 || start == 1,
            d == s@.skip(start as int),
            d == (if s@.len() > 0 && s@[0] == '+' {
                s@.drop_first()
            } else {
                s@
            }),
            all_digits(s@.subrange(start as int, i as int)),
            value as nat == digits_value(s@.subrange(start as int, i as int)),
        decreases s.len() - i,
    {
        let c = s[i];
        proof {
            assert(s@.subrange(start as int, i + 1).drop_last() =~= s@.subrange(start as int, i as int));
        }
        if !('0' <= c && c <= '9') {
            proof {
                assert(d[i - start] == c);
                assert(!is_digit(d[i - start]));
                assert(!all_digits(d));
            }
            return None;
        }
        let digit = (c as u32 - 48) as u64;
        if value > (u64::MAX - digit) / 10 {
            proof {
                assert(digits_value(s@.subrange(start as int, i + 1)) == value * 10 + digit);
                assert(value * 10 + digit > u64::MAX) by (nonlinear_arith)
                    requires
                        value > (u64::MAX - digit) / 10,
                        digit <= 9,
                ;
                lemma_digits_prefix_bound(d, (i + 1 - start) as int);
                assert(d.take(i + 1 - start) =~= s@.subrange(start as int, i + 1));
            }
            return None;
        }
        value = value * 10 + digit;
        i = i + 1;
        proof {
            assert(all_digits(s@.subrange(start as int, i as int)));
        }
    }
    proof {
        assert(s@.subrange(start as int, s.len() as int) =~= d);
    }
    Some(value)
}

/// A prefix of a digit string has a value no larger than the whole.
proof fn lemma_digits_prefix_bound(d: Seq<char>, k: int)
    requires
        0 <= k <= d.len(),
    ensures
        all_digits(d) ==> digits_value(d.take(k)) <= digits_value(d),
    decreases d.len() - k,
{
    if k < d.len() {
        lemma_digits_prefix_bound(d, k + 1);
        assert(d.take(k + 1).drop_last() =~= d.take(k));
        if all_digits(d) {
            assert(is_digit(d[k]));
        }
    } else {
        assert(d.take(k) =~= d);
    }
}

/// A version `major.minor.patch`.
#[derive(Debug, Clone, Copy, PartialEq, Eq, Structural)]
pub struct ParsedVersion {
    pub major: u64,
    pub minor: u64,
    pub patch: u64,
}

/// A version selector: a major version, a major and minor version, or an exact version.
#[derive(Debug, Clone, Copy, PartialEq, Eq, Structural)]
pub enum VersionSelector {
    Major(u64),
    MajorMinor(u64, u64),
    Exact(ParsedVersion),
}

/// The selector written as one to three `.`-separated numbers.
pub open spec fn selector_of(s: Seq<char>) -> Option<VersionSelector> {
    let parts = split(s, '.');
    if parts.len() == 1 {
        match parse_u64_spec(parts[0]) {
            Some(a) => Some(VersionSelector::Major(a)),
            None => None,
        }
    } else if parts.len() == 2 {
        match (parse_u64_spec(parts[0]), parse_u64_spec(parts[1])) {
            (Some(a), Some(b)) => Some(VersionSelector::MajorMinor(a, b)),
            _ => None,
        }
    } else if parts.len() == 3 {
        match (parse_u64_spec(parts[0]), parse_u64_spec(parts[1]), parse_u64_spec(parts[2])) {
            (Some(a), Some(b), Some(c)) => Some(
                VersionSelector::Exact(ParsedVersion { major: a, minor: b, patch: c }),
            ),
            _ => None,
        }
    } else {
        None
    }
}

/// The version written as one to three numbers, missing ones being 0.
pub open spec fn version_of(s: Seq<char>) -> Option<ParsedVersion> {
    match selector_of(s) {
        Some(VersionSelector::Major(a)) => Some(ParsedVersion { major: a, minor: 0, patch: 0 }),
        Some(VersionSelector::MajorMinor(a, b)) => Some(
            ParsedVersion { major: a, minor: b, patch: 0 },
        ),
        Some(VersionSelector::Exact(v)) => Some(v),
        None => None,
    }
}

/// Parses a selector: `x`, `x.y` or `x.y.z`, each part a `u64`.
pub fn parse_selector(input: &str) -> (r: Option<VersionSelector>)
    ensures
        r == selector_of(input@),
{
    let v = chars_of(input);
    let parts = split_chars(&v, '.');
    proof {
        crate::text::lemma_split_nonempty(v@, '.');
        assert(parts@[0]@ == split(input@, '.')[0]);
        if parts.len() > 1 {
            assert(parts@[1]@ == split(input@, '.')[1]);
        }
        if parts.len() > 2 {
            assert(parts@[2]@ == split(input@, '.')[2]);
        }
    }
    if parts.len() == 1 {
        match parse_u64(&parts[0]) {
            Some(a) => Some(VersionSelector::Major(a)),
            None => None,
        }
    } else if parts.len() == 2 {
        match (parse_u64(&parts[0]), parse_u64(&parts[1])) {
            (Some(a), Some(b)) => Some(VersionSelector::MajorMinor(a, b)),
            _ => None,
        }
    } else if parts.len() == 3 {
        match (parse_u64(&parts[0]), parse_u64(&parts[1]), parse_u64(&parts[2])) {
            (Some(a), Some(b), Some(c)) => Some(
                VersionSelector::Exact(ParsedVersion { major: a, minor: b, patch: c }),
            ),
            _ => None,
        }
    } else {
        None
    }
}

/// Parses a version, filling missing minor and patch numbers with 0.
pub fn parse_version(input: &str) -> (r: Option<ParsedVersion>)
    ensures
        r == version_of(input@),
{
    match parse_selector(input) {
        Some(VersionSelector::Major(a)) => Some(ParsedVersion { major: a, minor: 0, patch: 0 }),
        Some(VersionSelector::MajorMinor(a, b)) => Some(
            ParsedVersion { major: a, minor: b, patch: 0 },
        ),
        Some(VersionSelector::Exact(v)) => Some(v),
        None => None,
    }
}

fn push_decimal_u64(n: u64, out: &mut Vec<char>)
    ensures
        final(out)@ == old(out)@ + decimal(n as nat),
    decreases n,
{
    if n >= 10 {
        push_decimal_u64(n / 10, out);
    }
    let d = n % 10;
    let c = (d as u8 + 48) as char;
    proof {
        assert(c == crate::text::digit_char(d as nat));
    }
    out.push(c);
}

/// The decimal representation of a `u64`.
pub fn u64_to_string(n: u64) -> (s: String)
    ensures
        s@ == decimal(n as nat),
{
    let mut v: Vec<char> = Vec::new();
    push_decimal_u64(n, &mut v);
    proof {
        assert(v@ =~= decimal(n as nat));
    }
    string_of(&v)
}

/// The major version number of a version string, in decimal.
pub fn major_string(input: &str) -> (r: Option<String>)
    ensures
        match r {
            Some(s) => version_of(input@) matches Some(v) && s@ == decimal(v.major as nat),
            None => version_of(input@) is None,
        },
{
    match parse_version(input) {
        Some(v) => Some(u64_to_string(v.major)),
        None => None,
    }
}

/// Whether a parsed version is selected.
pub open spec fn selects(sel: VersionSelector, v: ParsedVersion) -> bool {
    match sel {
        VersionSelector::Major(a) => v.major == a,
        VersionSelector::MajorMinor(a, b) => v.major == a && v.minor == b,
        VersionSelector::Exact(e) => v == e,
    }
}

impl VersionSelector {
    /// Whether the version string parses and the selector selects it.
    pub fn matches(&self, version: &str) -> (r: bool)
        ensures
            r == (version_of(version@) matches Some(v) && selects(*self, v)),
    {
        let parsed = match parse_version(version) {
            Some(p) => p,
            None => return false,
        };
        match self {
            VersionSelector::Major(major) => parsed.major == *major,
            VersionSelector::MajorMinor(major, minor) => parsed.major == *major && parsed.minor
                == *minor,
            VersionSelector::Exact(expected) => parsed.major == expected.major && parsed.minor
                == expected.minor && parsed.patch == expected.patch,
        }
    }
}

/// `a` is an older version than `b` (by major, then minor, then patch).
pub open spec fn version_lt(a: ParsedVersion, b: ParsedVersion) -> bool {
    a.major < b.major || (a.major == b.major && (a.minor < b.minor || (a.minor == b.minor
        && a.patch < b.patch)))
}

} // verus!
