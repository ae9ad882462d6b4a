//! Checks shared by the readiness evaluations: command lists and blank fields.
use vstd::prelude::*;
use crate::text::{chars_eq, chars_of, trim, trim_chars};

verus! {

/// `command` is among the listed commands once each entry is trimmed
/// (entries that are blank after trimming count for nothing).
pub open spec fn lists_command(commands: Seq<String>, command: Seq<char>) -> bool {
    exists|i: int|
        0 <= i < commands.len() && #[trigger] trim(commands[i]@) == command && trim(
            commands[i]@,
        ).len() > 0
}

/// Every required command is listed.
pub open spec fn lists_all(commands: Seq<String>, required: Seq<Seq<char>>) -> bool {
    forall|j: int| 0 <= j < required.len() ==> lists_command(commands, #[trigger] required[j])
}

/// Whether every required command occurs, trimmed and non-blank, among `commands`.
pub fn all_listed(commands: &Vec<String>, required: &[&str]) -> (r: bool)
    ensures
        r == lists_all(commands@, required@.map_values(|c: &str| c@)),
{
    let ghost req = required@.map_values(|c: &str| c@);
    let mut trimmed: Vec<Vec<char>> = Vec::new();
    let mut i: usize = 0;
    while i < commands.len()
        invariant
            i <= commands.len(),
            trimmed.len() == i,
            forall|k: int| 0 <= k < i ==> #[trigger] trimmed@[k]@ == trim(commands@[k]@),
        decreases commands.len() - i,
    {
        let cv = chars_of(commands[i].as_str());
        let t = trim_chars(&cv);
        trimmed.push(t);
        i = i + 1;
    }
    let mut j: usize = 0;
    while j < required.len()
        invariant
            j <= required.len(),
            req == required@.map_values(|c: &str| c@),
            trimmed.len() == commands.len(),
            forall|k: int| 0 <= k < trimmed.len() ==> #[trigger] trimmed@[k]@ == trim(commands@[k]@),
            forall|m: int| 0 <= m < j ==> lists_command(commands@, #[trigger] req[m]),
        decreases required.len() - j,
    {
        let want = chars_of(required[j]);
        let mut found = false;
        let mut k: usize = 0;
        while k < trimmed.len()
            invariant
                k <= trimmed.len(),
                want@ == req[j as int],
                j < required.len(),
                req == required@.map_values(|c: &str| c@),
                trimmed.len() == commands.len(),
                forall|q: int| 0 <= q < trimmed.len() ==> #[trigger] trimmed@[q]@ == trim(commands@[q]@),
                found ==> lists_command(commands@, req[j as int]),
                !found ==> forall|q: int| 0 <= q < k ==> !(#[trigger] trimmed@[q]@ == want@ && trimmed@[q]@.len() > 0),
            decreases trimmed.len() - k,
        {
            if trimmed[k].len() > 0 && chars_eq(&trimmed[k], &want) {
                found = true;
                proof {
                    assert(trim(commands@[k as int]@) == req[j as int]);
                }
            }
            k = k + 1;
        }
        if !found {
            proof {
                assert forall|q: int| 0 <= q < commands@.len() implies !(#[trigger] trim(
                    commands@[q]@,
                ) == req[j as int] && trim(commands@[q]@).len() > 0) by {
                    assert(trimmed@[q]@ == trim(commands@[q]@));
                }
                assert(!lists_command(commands@, req[j as int]));
            }
            return false;
        }
        j = j + 1;
    }
    true
}

/// Whether `s` is empty once trimmed.
pub fn is_blank(s: &str) -> (r: bool)
    ensures
        r == (trim(s@).len() == 0),
{
    let v = chars_of(s);
    let t = trim_chars(&v);
    t.len() == 0
}

} // verus!
