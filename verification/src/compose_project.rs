//! The compose files of a configuration and the compose project they form:
//! which files, read from where, and the project's name.
use vstd::prelude::*;
use crate::compose::{sanitize_project_name, sanitized_name};
use crate::json_value::{json_get, jviews, lemma_get_view, lemma_jviews, vget, JsonValue, JsonView};
use crate::shell::{compose_subst, substitute_compose_env};
use crate::text::{
    chars_of, copy_string, file_name, join_path, lookup, lookup_entry, opt_view, parent, path_file_name, path_join,
    path_parent, slice_chars, split, split_chars, starts_with, str_starts_with, str_trim, string_of, trim, views,
};

verus! {

/// The value a line of an env file gives the variable of `prefix`
/// (`NAME=`): the trimmed rest of the trimmed line, when not empty.
pub open spec fn env_line_value(line: Seq<char>, prefix: Seq<char>) -> Option<Seq<char>> {
    let t = trim(line);
    if starts_with(t, prefix) {
        let v = trim(t.skip(prefix.len() as int));
        if v.len() > 0 {
            Some(v)
        } else {
            None
        }
    } else {
        None
    }
}

/// The first value the lines give the variable of `prefix`.
pub open spec fn first_env_value(lines: Seq<Seq<char>>, prefix: Seq<char>) -> Option<Seq<char>>
    decreases lines.len(),
{
    if lines.len() == 0 {
        None
    } else {
        match env_line_value(lines[0], prefix) {
            Some(v) => Some(v),
            None => first_env_value(lines.drop_first(), prefix),
        }
    }
}

/// The value an env file gives the variable of `prefix`, line by line.
/// Lines are split at `\n`; a `\r` before it is white space that trimming
/// removes.
pub open spec fn dotenv_value_of(text: Seq<char>, prefix: Seq<char>) -> Option<Seq<char>> {
    first_env_value(split(text, '\n'), prefix)
}

fn line_value(line: &Vec<char>, prefix: &str) -> (r: Option<String>)
    ensures
        opt_view(r) == env_line_value(line@, prefix@),
{
    let t = str_trim(string_of(line).as_str());
    if str_starts_with(t.as_str(), prefix) {
        let tv = chars_of(t.as_str());
        let n = chars_of(prefix).len();
        let rest = slice_chars(&tv, n, tv.len());
        proof {
            assert(rest@ == t@.skip(prefix@.len() as int));
        }
        let v = str_trim(string_of(&rest).as_str());
        if chars_of(v.as_str()).len() > 0 {
            Some(v)
        } else {
            None
        }
    } else {
        None
    }
}

/// The value an env file's text gives the variable of `prefix` (such as `COMPOSE_FILE=`).
pub fn dotenv_value(text: &str, prefix: &str) -> (r: Option<String>)
    ensures
        opt_view(r) == dotenv_value_of(text@, prefix@),
{
    let v = chars_of(text);
    let lines = split_chars(&v, '\n');
    let ghost lv = lines@.map_values(|p: Vec<char>| p@);
    let mut i: usize = 0;
    proof {
        assert(lv.skip(0) =~= lv);
    }
    while i < lines.len()
        invariant
            i <= lines.len(),
            lv == lines@.map_values(|p: Vec<char>| p@),
            lv == split(text@, '\n'),
            first_env_value(lv, prefix@) == first_env_value(lv.skip(i as int), prefix@),
        decreases lines.len() - i,
    {
        proof {
            let t = lv.skip(i as int);
            assert(t[0] == lines@[i as int]@);
            assert(t.drop_first() =~= lv.skip(i + 1));
        }
        match line_value(&lines[i], prefix) {
            Some(x) => return Some(x),
            None => {},
        }
        i = i + 1;
    }
    proof {
        assert(lv.skip(lines.len() as int) =~= Seq::<Seq<char>>::empty());
    }
    None
}

/// The project name a top-level `name:` line sets, expanded from `env`.
pub open spec fn name_line_value(line: Seq<char>, env: Seq<(String, String)>) -> Option<Seq<char>> {
    if line.len() > 0 && (line[0] == ' ' || line[0] == '\t') {
        None
    } else if starts_with(line, "name:"@) {
        let v = trim(line.skip(5));
        if v.len() > 0 {
            Some(compose_subst(v, env))
        } else {
            None
        }
    } else {
        None
    }
}

pub open spec fn first_name(lines: Seq<Seq<char>>, env: Seq<(String, String)>) -> Option<Seq<char>>
    decreases lines.len(),
{
    if lines.len() == 0 {
        None
    } else {
        match name_line_value(lines[0], env) {
            Some(v) => Some(v),
            None => first_name(lines.drop_first(), env),
        }
    }
}

/// The project name a compose file's text sets at its top level.
pub open spec fn compose_name_of(text: Seq<char>, env: Seq<(String, String)>) -> Option<Seq<char>> {
    first_name(split(text, '\n'), env)
}

fn name_line(line: &Vec<char>, env: &Vec<(String, String)>) -> (r: Option<String>)
    ensures
        opt_view(r) == name_line_value(line@, env@),
{
    if line.len() > 0 && (line[0] == ' ' || line[0] == '\t') {
        return None;
    }
    let s = string_of(line);
    if str_starts_with(s.as_str(), "name:") {
        proof {
            reveal_strlit("name:");
        }
        let rest = slice_chars(line, 5, line.len());
        let v = str_trim(string_of(&rest).as_str());
        if chars_of(v.as_str()).len() > 0 {
            Some(substitute_compose_env(v.as_str(), env))
        } else {
            None
        }
    } else {
        None
    }
}

/// The project name a compose file's text sets at its top level, expanded from `env`.
pub fn compose_name_from_text(text: &str, env: &Vec<(String, String)>) -> (r: Option<String>)
    ensures
        opt_view(r) == compose_name_of(text@, env@),
{
    let v = chars_of(text);
    let lines = split_chars(&v, '\n');
    let ghost lv = lines@.map_values(|p: Vec<char>| p@);
    let mut i: usize = 0;
    proof {
        assert(lv.skip(0) =~= lv);
    }
    while i < lines.len()
        invariant
            i <= lines.len(),
            lv == lines@.map_values(|p: Vec<char>| p@),
            lv == split(text@, '\n'),
            first_name(lv, env@) == first_name(lv.skip(i as int), env@),
        decreases lines.len() - i,
    {
        proof {
            let t = lv.skip(i as int);
            assert(t[0] == lines@[i as int]@);
            assert(t.drop_first() =~= lv.skip(i + 1));
        }
        match name_line(&lines[i], env) {
            Some(x) => return Some(x),
            None => {},
        }
        i = i + 1;
    }
    proof {
        assert(lv.skip(lines.len() as int) =~= Seq::<Seq<char>>::empty());
    }
    None
}

/// The error when a compose configuration names no file.
pub open spec fn no_compose_file_message() -> Seq<char> {
    "Compose configuration must define at least one compose file"@
}

/// The name of the first file, read from the last compose file back: an
/// error at a file that could not be read, nothing when none names the project.
pub open spec fn name_from_files(texts: Seq<Result<Seq<char>, Seq<char>>>, env: Seq<(String, String)>) -> Option<Result<Seq<char>, Seq<char>>>
    decreases texts.len(),
{
    if texts.len() == 0 {
        None
    } else {
        match texts.last() {
            Err(e) => Some(Err(e)),
            Ok(t) => match compose_name_of(t, env) {
                Some(n) => Some(Ok(n)),
                None => name_from_files(texts.drop_last(), env),
            },
        }
    }
}

/// The project's name when nothing sets it: the folder of the first compose
/// file, or for a `.devcontainer` folder its parent's name with `_devcontainer`.
pub open spec fn folder_project_name(working_dir: Seq<char>) -> Seq<char> {
    if file_name(working_dir) == Some(".devcontainer"@) {
        (match parent(working_dir) {
            Some(p) => match file_name(p) {
                Some(n) => n,
                None => "devcontainer"@,
            },
            None => "devcontainer"@,
        }) + "_devcontainer"@
    } else {
        match file_name(working_dir) {
            Some(n) => n,
            None => "devcontainer"@,
        }
    }
}

/// The compose project's name: `COMPOSE_PROJECT_NAME` from the environment
/// when not blank, else from the `.env` file beside the first compose file,
/// else the last compose file that names one, else the folder's name; in
/// each case sanitized. `dotenv` is that `.env` file's text (`None` when it
/// does not exist, an error when it could not be read); `texts` are the
/// compose files' texts, in order.
pub open spec fn project_name_of(
    env: Seq<(String, String)>,
    dotenv: Result<Option<Seq<char>>, Seq<char>>,
    files: Seq<Seq<char>>,
    texts: Seq<Result<Seq<char>, Seq<char>>>,
) -> Result<Seq<char>, Seq<char>> {
    match lookup(env, "COMPOSE_PROJECT_NAME"@) {
        Some(v) if trim(v).len() > 0 => Ok(sanitized_name(v)),
        _ => if files.len() == 0 || parent(files[0]) is None {
            Err(no_compose_file_message())
        } else {
            match dotenv {
                Err(e) => Err(e),
                Ok(d) => match (match d {
                    Some(raw) => dotenv_value_of(raw, "COMPOSE_PROJECT_NAME="@),
                    None => None,
                }) {
                    Some(v) => Ok(sanitized_name(v)),
                    None => match name_from_files(texts, env) {
                        Some(Err(e)) => Err(e),
                        Some(Ok(n)) => Ok(sanitized_name(n)),
                        None => Ok(sanitized_name(folder_project_name(parent(files[0]).unwrap()))),
                    },
                },
            }
        }
    }
}

/// The views of the files' texts or errors.
pub open spec fn text_results(texts: Seq<Result<String, String>>) -> Seq<Result<Seq<char>, Seq<char>>> {
    texts.map_values(
        |r: Result<String, String>|
            match r {
                Ok(t) => Ok::<Seq<char>, Seq<char>>(t@),
                Err(e) => Err::<Seq<char>, Seq<char>>(e@),
            },
    )
}

fn name_from_file_texts(texts: &Vec<Result<String, String>>, env: &Vec<(String, String)>) -> (r: Option<Result<String, String>>)
    ensures
        match name_from_files(text_results(texts@), env@) {
            None => r is None,
            Some(Ok(n)) => r matches Some(Ok(x)) && x@ == n,
            Some(Err(e)) => r matches Some(Err(x)) && x@ == e,
        },
{
    let ghost tv = text_results(texts@);
    let mut i: usize = texts.len();
    proof {
        assert(tv.take(i as int) =~= tv);
    }
    while i > 0
        invariant
            i <= texts.len(),
            tv == text_results(texts@),
            tv.len() == texts@.len(),
            name_from_files(tv, env@) == name_from_files(tv.take(i as int), env@),
        decreases i,
    {
        proof {
            assert(tv.take(i as int).drop_last() =~= tv.take(i - 1));
            assert(tv.take(i as int).last() == tv[i - 1]);
        }
        match &texts[i - 1] {
            Err(e) => return Some(Err(copy_string(e))),
            Ok(t) => match compose_name_from_text(t.as_str(), env) {
                Some(n) => return Some(Ok(n)),
                None => {},
            },
        }
        i = i - 1;
    }
    None
}

fn folder_project_name_of(working_dir: &str) -> (r: String)
    ensures
        r@ == folder_project_name(working_dir@),
{
    match path_file_name(working_dir) {
        Some(n) => {
            if crate::text::str_eq(n.as_str(), ".devcontainer") {
                let base = match path_parent(working_dir) {
                    Some(p) => match path_file_name(p.as_str()) {
                        Some(name) => name,
                        None => String::from_str("devcontainer"),
                    },
                    None => String::from_str("devcontainer"),
                };
                let mut out = chars_of(base.as_str());
                let suffix = chars_of("_devcontainer");
                crate::text::append_chars(&mut out, &suffix);
                string_of(&out)
            } else {
                n
            }
        },
        None => String::from_str("devcontainer"),
    }
}

/// The compose project's name (see `project_name_of`).
pub fn compose_project_name(
    env: &Vec<(String, String)>,
    dotenv: Result<Option<String>, String>,
    compose_files: &Vec<String>,
    compose_texts: &Vec<Result<String, String>>,
) -> (r: Result<String, String>)
    ensures
        match project_name_of(
            env@,
            match dotenv {
                Ok(Some(t)) => Ok(Some(t@)),
                Ok(None) => Ok(None),
                Err(e) => Err(e@),
            },
            views(compose_files@),
            text_results(compose_texts@),
        ) {
            Ok(n) => r matches Ok(x) && x@ == n,
            Err(e) => r matches Err(x) && x@ == e,
        },
{
    match lookup_entry(env, "COMPOSE_PROJECT_NAME") {
        Some(v) => {
            if chars_of(str_trim(v.as_str()).as_str()).len() > 0 {
                return Ok(sanitize_project_name(v.as_str()));
            }
        },
        None => {},
    }
    if compose_files.len() == 0 {
        return Err(String::from_str("Compose configuration must define at least one compose file"));
    }
    let working_dir = match path_parent(compose_files[0].as_str()) {
        Some(p) => p,
        None => return Err(String::from_str("Compose configuration must define at least one compose file")),
    };
    proof {
        assert(views(compose_files@)[0] == compose_files@[0]@);
    }
    let from_dotenv = match dotenv {
        Err(e) => return Err(e),
        Ok(Some(raw)) => dotenv_value(raw.as_str(), "COMPOSE_PROJECT_NAME="),
        Ok(None) => None,
    };
    match from_dotenv {
        Some(v) => return Ok(sanitize_project_name(v.as_str())),
        None => {},
    }
    match name_from_file_texts(compose_texts, env) {
        Some(Err(e)) => Err(e),
        Some(Ok(n)) => Ok(sanitize_project_name(n.as_str())),
        None => Ok(sanitize_project_name(folder_project_name_of(working_dir.as_str()).as_str())),
    }
}

} // verus!
