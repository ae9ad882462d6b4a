//! The host a command runs on: its working folder and environment, and the
//! places where a command name may be found.
use vstd::prelude::*;
use crate::text::{chars_of, find_char, join_path, lookup, lookup_entry, path_join, split, split_chars, string_of, views};

verus! {

/// The working folder and environment of the command line.
pub struct CliHost {
    pub cwd: String,
    pub env: Vec<(String, String)>,
}

/// Where a command may be found, in the order to try: a name with a `/` is
/// itself the only place; otherwise each `PATH` folder joined with the name,
/// and nowhere without `PATH`.
pub open spec fn command_candidates(env: Seq<(String, String)>, command: Seq<char>) -> Seq<Seq<char>> {
    if command.contains('/') {
        seq![command]
    } else {
        match lookup(env, "PATH"@) {
            Some(p) => split(p, ':').map_values(|folder: Seq<char>| path_join(folder, command)),
            None => Seq::empty(),
        }
    }
}

impl CliHost {
    /// The places to look for `command`, in order; the first that is a file is the command.
    pub fn lookup_candidates(&self, command: &str) -> (r: Vec<String>)
        ensures
            views(r@) == command_candidates(self.env@, command@),
    {
        let cv = chars_of(command);
        match find_char(&cv, '/', 0) {
            Some(i) => {
                proof {
                    crate::text::lemma_find_char_from_bounds(cv@, '/', 0);
                    assert(command@[i as int] == '/');
                }
                let mut out: Vec<String> = Vec::new();
                out.push(String::from_str(command));
                proof {
                    assert(views(out@) =~= seq![command@]);
                }
                return out;
            },
            None => {
                proof {
                    assert(!command@.contains('/')) by {
                        if command@.contains('/') {
                            let k = choose|k: int| 0 <= k < command@.len() && command@[k] == '/';
                            crate::text::lemma_find_char_none(cv@, '/', 0, k);
                        }
                    }
                }
            },
        }
        let mut out: Vec<String> = Vec::new();
        match lookup_entry(&self.env, "PATH") {
            Some(p) => {
                let pv = chars_of(p.as_str());
                let folders = split_chars(&pv, ':');
                let ghost fs = split(p@, ':');
                proof {
                    assert(fs.len() == folders@.len());
                }
                let mut i: usize = 0;
                while i < folders.len()
                    invariant
                        i <= folders.len(),
                        fs.len() == folders@.len(),
                        folders@.map_values(|q: Vec<char>| q@) == fs,
                        views(out@) == fs.take(i as int).map_values(|folder: Seq<char>| path_join(folder, command@)),
                    decreases folders.len() - i,
                {
                    let folder = string_of(&folders[i]);
                    let joined = join_path(folder.as_str(), command);
                    let ghost before = out@;
                    out.push(joined);
                    proof {
                        assert(fs.len() == folders@.len());
                        assert(fs[i as int] == folders@[i as int]@);
                        assert(folder@ == fs[i as int]);
                        assert(views(out@) =~= views(before).push(joined@));
                        assert(fs.take(i + 1).map_values(|folder: Seq<char>| path_join(folder, command@))
                            =~= fs.take(i as int).map_values(|folder: Seq<char>| path_join(folder, command@)).push(
                            path_join(fs[i as int], command@),
                        ));
                        assert(views(out@) =~= fs.take(i + 1).map_values(|folder: Seq<char>| path_join(folder, command@)));
                    }
                    i = i + 1;
                }
                proof {
                    assert(fs.take(folders.len() as int) =~= fs);
                }
            },
            None => {
                proof {
                    assert(views(out@) =~= Seq::<Seq<char>>::empty());
                }
            },
        }
        out
    }
}

} // verus!
