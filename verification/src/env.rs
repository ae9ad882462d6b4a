//! Environment variable sets: lists of `(name, value)` pairs in which a name
//! occurs at most once and setting a name replaces its earlier value.
use vstd::prelude::*;
use crate::collections::{key_index, map_insert};
use crate::devcontainer_id::labels_view;
use crate::text::{copy_string, str_eq};

verus! {

/// Sets `key` to `value`: an existing entry keeps its place, a new one goes last.
pub fn env_insert(env: &mut Vec<(String, String)>, key: &str, value: &str)
    ensures
        labels_view(final(env)@) == map_insert(labels_view(old(env)@), key@, value@),
{
    let ghost ev = labels_view(env@);
    let mut j: usize = env.len();
    proof {
        assert(ev.take(j as int) =~= ev);
    }
    while j > 0
        invariant
            j <= env.len(),
            env@ == old(env)@,
            ev == labels_view(env@),
            key_index(ev, key@) == key_index(ev.take(j as int), key@),
        decreases j,
    {
        proof {
            assert(ev.take(j as int).drop_last() =~= ev.take(j - 1));
            assert(ev.take(j as int).last() == ev[j - 1]);
        }
        if str_eq(env[j - 1].0.as_str(), key) {
            proof {
                assert(ev[j - 1].0 == key@);
                assert(key_index(ev.take(j as int), key@) == Some(j - 1));
            }
            let entry = (String::from_str(key), String::from_str(value));
            let ghost kv = (entry.0@, entry.1@);
            env.set(j - 1, entry);
            proof {
                assert(labels_view(env@) =~= ev.update(j - 1, kv));
            }
            return;
        }
        j = j - 1;
    }
    let entry = (String::from_str(key), String::from_str(value));
    let ghost kv = (entry.0@, entry.1@);
    env.push(entry);
    proof {
        assert(labels_view(env@) =~= ev.push(kv));
    }
}

} // verus!
