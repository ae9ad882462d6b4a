//! What the compose files say of the configured service, and which compose
//! files a configuration uses.
use vstd::prelude::*;
use crate::json_object::Entries;
use crate::json_value::{
    entries_get, jentries, json_get, jviews, lemma_entry_value_view, lemma_get_view, lemma_jviews, vget, ventry,
    JsonValue, JsonView,
};
use crate::shell::{shell_words, split_shell_words};
use crate::text::{
    append_chars, chars_of, copy_string, opt_view, path_join, slice_chars, split, split_chars, starts_with,
    str_starts_with, str_trim, string_of, trim, trim_start, views,
};

verus! {

/// What the compose files say of a service.
#[derive(Debug)]
pub struct ServiceDefinition {
    pub image: Option<String>,
    pub has_build: bool,
    pub user: Option<String>,
    pub entrypoint: Option<Vec<String>>,
    pub command: Option<Vec<String>>,
}

/// A service definition as plain values, and whether any file defines the service.
pub struct ServiceView {
    pub found: bool,
    pub image: Option<Seq<char>>,
    pub has_build: bool,
    pub user: Option<Seq<char>>,
    pub entrypoint: Option<Seq<Seq<char>>>,
    pub command: Option<Seq<Seq<char>>>,
}

/// The text of a scalar: a string, `true` or `false`, a number's text, and
/// nothing for null; none for lists and mappings.
pub open spec fn scalar_text(v: JsonView) -> Option<Seq<char>> {
    match v {
        JsonView::Str(t) => Some(t),
        JsonView::Bool(b) => Some(
            if b {
                "true"@
            } else {
                "false"@
            },
        ),
        JsonView::Number(n) => Some(n),
        JsonView::Null => Some(Seq::empty()),
        _ => None,
    }
}

/// The texts of the scalars of a list, in order.
pub open spec fn scalar_texts(items: Seq<JsonView>) -> Seq<Seq<char>>
    decreases items.len(),
{
    if items.len() == 0 {
        Seq::empty()
    } else {
        let rest = scalar_texts(items.drop_last());
        match scalar_text(items.last()) {
            Some(t) => rest.push(t),
            None => rest,
        }
    }
}

/// A service's command: a string split into words, the scalars of a list,
/// nothing for null; none for anything else.
pub open spec fn service_command(v: JsonView) -> Option<Seq<Seq<char>>> {
    match v {
        JsonView::Str(t) => Some(shell_words(t)),
        JsonView::Array(items) => Some(scalar_texts(items)),
        JsonView::Null => Some(Seq::empty()),
        _ => None,
    }
}

/// The mapping that defines `service` in a compose document.
pub open spec fn service_mapping(doc: JsonView, service: Seq<char>) -> Option<Entries> {
    match vget(doc, "services"@) {
        Some(JsonView::Object(services)) => match ventry(services, service) {
            Some(JsonView::Object(def)) => Some(def),
            _ => None,
        },
        _ => None,
    }
}

/// A text field of a service; otherwise what was known before.
pub open spec fn text_field(def: Entries, key: Seq<char>, before: Option<Seq<char>>) -> Option<Seq<char>> {
    match ventry(def, key) {
        Some(JsonView::Str(t)) => Some(t),
        _ => before,
    }
}

/// A command field of a service; otherwise what was known before.
pub open spec fn command_field(def: Entries, key: Seq<char>, before: Option<Seq<Seq<char>>>) -> Option<Seq<Seq<char>>> {
    match ventry(def, key) {
        Some(v) => match service_command(v) {
            Some(c) => Some(c),
            None => before,
        },
        None => before,
    }
}

/// What a later file's definition of the service adds to what was known.
pub open spec fn with_definition(acc: ServiceView, def: Entries) -> ServiceView {
    ServiceView {
        found: true,
        image: text_field(def, "image"@, acc.image),
        has_build: acc.has_build || ventry(def, "build"@) is Some,
        user: text_field(def, "user"@, acc.user),
        entrypoint: command_field(def, "entrypoint"@, acc.entrypoint),
        command: command_field(def, "command"@, acc.command),
    }
}

/// What the compose documents, in order, say of the service.
pub open spec fn service_over(docs: Seq<JsonView>, service: Seq<char>) -> ServiceView
    decreases docs.len(),
{
    if docs.len() == 0 {
        ServiceView { found: false, image: None, has_build: false, user: None, entrypoint: None, command: None }
    } else {
        let acc = service_over(docs.drop_last(), service);
        match service_mapping(docs.last(), service) {
            Some(def) => with_definition(acc, def),
            None => acc,
        }
    }
}

/// The error when no compose file defines the service.
pub open spec fn missing_service_message(service: Seq<char>) -> Seq<char> {
    "Unable to locate compose service `"@ + service + "` in compose configuration"@
}

pub open spec fn opt_views(o: Option<Vec<String>>) -> Option<Seq<Seq<char>>> {
    match o {
        Some(v) => Some(views(v@)),
        None => None,
    }
}

/// The definition agrees with the view.
pub open spec fn defines(d: ServiceDefinition, v: ServiceView) -> bool {
    &&& opt_view(d.image) == v.image
    &&& d.has_build == v.has_build
    &&& opt_view(d.user) == v.user
    &&& opt_views(d.entrypoint) == v.entrypoint
    &&& opt_views(d.command) == v.command
}

fn scalar_text_of(v: &JsonValue) -> (r: Option<String>)
    ensures
        opt_view(r) == scalar_text(v@),
{
    match v {
        JsonValue::Str(t) => Some(copy_string(t)),
        JsonValue::Bool(b) => Some(
            if *b {
                String::from_str("true")
            } else {
                String::from_str("false")
            },
        ),
        JsonValue::Number(n) => Some(copy_string(n)),
        JsonValue::Null => Some(String::new()),
        _ => None,
    }
}

/// A service's command as words.
pub fn parse_service_command(value: &JsonValue) -> (r: Option<Vec<String>>)
    ensures
        opt_views(r) == service_command(value@),
{
    match value {
        JsonValue::Str(t) => Some(split_shell_words(t.as_str())),
        JsonValue::Array(items) => {
            let ghost iv = jviews(items@);
            proof {
                lemma_jviews(items@);
                assert(iv.take(0) =~= Seq::<JsonView>::empty());
            }
            let mut out: Vec<String> = Vec::new();
            proof {
                assert(views(out@) =~= Seq::<Seq<char>>::empty());
            }
            let mut i: usize = 0;
            while i < items.len()
                invariant
                    i <= items.len(),
                    iv == jviews(items@),
                    iv.len() == items@.len(),
                    forall|q: int| 0 <= q < items@.len() ==> #[trigger] iv[q] == items@[q]@,
                    views(out@) == scalar_texts(iv.take(i as int)),
                decreases items.len() - i,
            {
                proof {
                    assert(iv.take(i + 1).drop_last() =~= iv.take(i as int));
                    assert(iv.take(i + 1).last() == iv[i as int]);
                }
                match scalar_text_of(&items[i]) {
                    Some(t) => {
                        let ghost before = out@;
                        out.push(t);
                        proof {
                            assert(views(out@) =~= views(before).push(out@.last()@));
                        }
                    },
                    None => {},
                }
                i = i + 1;
            }
            proof {
                assert(iv.take(items.len() as int) =~= iv);
            }
            Some(out)
        },
        JsonValue::Null => {
            let out: Vec<String> = Vec::new();
            proof {
                assert(views(out@) =~= Seq::<Seq<char>>::empty());
            }
            Some(out)
        },
        _ => None,
    }
}

fn service_mapping_of<'a>(doc: &'a JsonValue, service: &str) -> (r: Option<&'a Vec<(String, JsonValue)>>)
    ensures
        match r {
            Some(def) => service_mapping(doc@, service@) == Some(jentries(def@)),
            None => service_mapping(doc@, service@) is None,
        },
{
    proof {
        lemma_get_view(*doc, "services"@);
    }
    match json_get(doc, "services") {
        Some(JsonValue::Object(services)) => {
            proof {
                lemma_entry_value_view(services@, service@);
            }
            match entries_get(services, service) {
                Some(JsonValue::Object(def)) => Some(def),
                _ => None,
            }
        },
        _ => None,
    }
}

/// What the compose documents, parsed in order, say of `service`; an error
/// when none defines it.
pub fn inspect_service_definition(documents: &Vec<JsonValue>, service: &str) -> (r: Result<ServiceDefinition, String>)
    ensures
        service_over(jviews(documents@), service@).found ==> (r matches Ok(d) && defines(d, service_over(jviews(documents@), service@))),
        !service_over(jviews(documents@), service@).found ==> (r matches Err(e) && e@ == missing_service_message(service@)),
{
    let ghost dv = jviews(documents@);
    proof {
        lemma_jviews(documents@);
        assert(dv.take(0) =~= Seq::<JsonView>::empty());
    }
    let mut found = false;
    let mut image: Option<String> = None;
    let mut has_build = false;
    let mut user: Option<String> = None;
    let mut entrypoint: Option<Vec<String>> = None;
    let mut command: Option<Vec<String>> = None;
    let mut i: usize = 0;
    while i < documents.len()
        invariant
            i <= documents.len(),
            dv == jviews(documents@),
            dv.len() == documents@.len(),
            forall|q: int| 0 <= q < documents@.len() ==> #[trigger] dv[q] == documents@[q]@,
            service_over(dv.take(i as int), service@) == (ServiceView {
                found,
                image: opt_view(image),
                has_build,
                user: opt_view(user),
                entrypoint: opt_views(entrypoint),
                command: opt_views(command),
            }),
        decreases documents.len() - i,
    {
        proof {
            assert(dv.take(i + 1).drop_last() =~= dv.take(i as int));
            assert(dv.take(i + 1).last() == dv[i as int]);
        }
        match service_mapping_of(&documents[i], service) {
            Some(def) => {
                proof {
                    lemma_entry_value_view(def@, "build"@);
                    lemma_entry_value_view(def@, "image"@);
                    lemma_entry_value_view(def@, "user"@);
                    lemma_entry_value_view(def@, "entrypoint"@);
                    lemma_entry_value_view(def@, "command"@);
                }
                found = true;
                if entries_get(def, "build").is_some() {
                    has_build = true;
                }
                match entries_get(def, "image") {
                    Some(JsonValue::Str(t)) => image = Some(copy_string(t)),
                    _ => {},
                }
                match entries_get(def, "user") {
                    Some(JsonValue::Str(t)) => user = Some(copy_string(t)),
                    _ => {},
                }
                match entries_get(def, "entrypoint") {
                    Some(v) => match parse_service_command(v) {
                        Some(c) => entrypoint = Some(c),
                        None => {},
                    },
                    None => {},
                }
                match entries_get(def, "command") {
                    Some(v) => match parse_service_command(v) {
                        Some(c) => command = Some(c),
                        None => {},
                    },
                    None => {},
                }
            },
            None => {},
        }
        i = i + 1;
    }
    proof {
        assert(dv.take(documents.len() as int) =~= dv);
    }
    if !found {
        let mut out = chars_of("Unable to locate compose service `");
        append_chars(&mut out, &chars_of(service));
        append_chars(&mut out, &chars_of("` in compose configuration"));
        return Err(string_of(&out));
    }
    Ok(ServiceDefinition { image, has_build, user, entrypoint, command })
}

/// The compose files a configuration names, taken from `config_root`; `None`
/// when it names an empty list and the default files apply.
pub open spec fn configured_compose_files(configuration: JsonView, config_root: Seq<char>) -> Result<Option<Seq<Seq<char>>>, Seq<char>> {
    match vget(configuration, "dockerComposeFile"@) {
        Some(JsonView::Str(v)) => Ok(Some(seq![path_join(config_root, v)])),
        Some(JsonView::Array(values)) => if values.len() == 0 {
            Ok(None)
        } else if forall|i: int| 0 <= i < values.len() ==> (#[trigger] values[i]) is Str {
            Ok(Some(values.map_values(|v: JsonView| path_join(config_root, v->Str_0))))
        } else {
            Err("dockerComposeFile entries must be strings"@)
        },
        Some(_) => Err("dockerComposeFile must be a string or array of strings"@),
        None => Err("Compose configuration must define dockerComposeFile"@),
    }
}

/// The compose files the configuration names (see `configured_compose_files`).
pub fn compose_files(configuration: &JsonValue, config_root: &str) -> (r: Result<Option<Vec<String>>, String>)
    ensures
        match configured_compose_files(configuration@, config_root@) {
            Ok(Some(files)) => r matches Ok(Some(v)) && views(v@) == files,
            Ok(None) => r matches Ok(None),
            Err(e) => r matches Err(x) && x@ == e,
        },
{
    proof {
        lemma_get_view(*configuration, "dockerComposeFile"@);
    }
    match json_get(configuration, "dockerComposeFile") {
        Some(JsonValue::Str(v)) => {
            let mut out: Vec<String> = Vec::new();
            out.push(crate::text::join_path(config_root, v.as_str()));
            proof {
                assert(views(out@) =~= seq![path_join(config_root@, v@)]);
            }
            Ok(Some(out))
        },
        Some(JsonValue::Array(values)) => {
            let ghost vv = jviews(values@);
            proof {
                lemma_jviews(values@);
            }
            if values.len() == 0 {
                return Ok(None);
            }
            let mut out: Vec<String> = Vec::new();
            let mut i: usize = 0;
            while i < values.len()
                invariant
                    i <= values.len(),
                    vv == jviews(values@),
                    vv.len() == values@.len(),
                    vv.len() > 0,
                    vget(configuration@, "dockerComposeFile"@) == Some(JsonView::Array(vv)),
                    forall|q: int| 0 <= q < values@.len() ==> #[trigger] vv[q] == values@[q]@,
                    forall|q: int| 0 <= q < i ==> (#[trigger] vv[q]) is Str,
                    views(out@) == vv.take(i as int).map_values(|v: JsonView| path_join(config_root@, v->Str_0)),
                decreases values.len() - i,
            {
                match &values[i] {
                    JsonValue::Str(t) => {
                        let ghost before = out@;
                        out.push(crate::text::join_path(config_root, t.as_str()));
                        proof {
                            assert(views(out@) =~= views(before).push(path_join(config_root@, t@)));
                            assert(vv.take(i + 1).map_values(|v: JsonView| path_join(config_root@, v->Str_0)) =~= vv.take(
                                i as int,
                            ).map_values(|v: JsonView| path_join(config_root@, v->Str_0)).push(path_join(config_root@, t@)));
                        }
                    },
                    _ => {
                        proof {
                            assert(!(vv[i as int] is Str));
                        }
                        return Err(String::from_str("dockerComposeFile entries must be strings"));
                    },
                }
                i = i + 1;
            }
            proof {
                assert(vv.take(values.len() as int) =~= vv);
            }
            Ok(Some(out))
        },
        Some(_) => Err(String::from_str("dockerComposeFile must be a string or array of strings")),
        None => Err(String::from_str("Compose configuration must define dockerComposeFile")),
    }
}

/// The compose files a `COMPOSE_FILE` value lists, separated by `:`, each
/// taken from `root` unless absolute.
pub open spec fn files_from_env(value: Seq<char>, root: Seq<char>) -> Seq<Seq<char>> {
    split(value, ':').map_values(|p: Seq<char>| path_join(root, p))
}

/// The compose files a `COMPOSE_FILE` value lists; none without a value.
pub fn compose_files_from_env(value: Option<&str>, root: &str) -> (r: Option<Vec<String>>)
    ensures
        match value {
            Some(v) => r matches Some(files) && views(files@) == files_from_env(v@, root@),
            None => r is None,
        },
{
    match value {
        None => None,
        Some(v) => {
            let cv = chars_of(v);
            let parts = split_chars(&cv, ':');
            let ghost pv = parts@.map_values(|p: Vec<char>| p@);
            let mut out: Vec<String> = Vec::new();
            let mut i: usize = 0;
            while i < parts.len()
                invariant
                    i <= parts.len(),
                    pv == parts@.map_values(|p: Vec<char>| p@),
                    pv == split(v@, ':'),
                    views(out@) == pv.take(i as int).map_values(|p: Seq<char>| path_join(root@, p)),
                decreases parts.len() - i,
            {
                let part = string_of(&parts[i]);
                let ghost before = out@;
                out.push(crate::text::join_path(root, part.as_str()));
                proof {
                    assert(views(out@) =~= views(before).push(path_join(root@, pv[i as int])));
                    assert(pv.take(i + 1).map_values(|p: Seq<char>| path_join(root@, p)) =~= pv.take(i as int).map_values(
                        |p: Seq<char>| path_join(root@, p),
                    ).push(path_join(root@, pv[i as int])));
                }
                i = i + 1;
            }
            proof {
                assert(pv.take(parts.len() as int) =~= pv);
            }
            Some(out)
        },
    }
}

/// The default compose files: those `COMPOSE_FILE` lists, from the
/// environment or else from the `.env` file in `root`; otherwise
/// `docker-compose.yml` in `root`, with `docker-compose.override.yml` when
/// that file exists.
pub open spec fn default_files_of(env_value: Option<Seq<char>>, dotenv: Option<Seq<char>>, root: Seq<char>, override_exists: bool) -> Seq<Seq<char>> {
    match env_value {
        Some(v) => files_from_env(v, root),
        None => match (match dotenv {
            Some(raw) => crate::compose_project::dotenv_value_of(raw, "COMPOSE_FILE="@),
            None => None,
        }) {
            Some(v) => files_from_env(v, root),
            None => if override_exists {
                seq![path_join(root, "docker-compose.yml"@), path_join(root, "docker-compose.override.yml"@)]
            } else {
                seq![path_join(root, "docker-compose.yml"@)]
            },
        },
    }
}

/// The default compose files (see `default_files_of`); `dotenv` is the text
/// of the `.env` file in `root`, when it could be read.
pub fn default_compose_files(env_value: Option<&str>, dotenv: Option<&str>, root: &str, override_exists: bool) -> (r: Vec<String>)
    ensures
        views(r@) == default_files_of(
            match env_value {
                Some(v) => Some(v@),
                None => None,
            },
            match dotenv {
                Some(d) => Some(d@),
                None => None,
            },
            root@,
            override_exists,
        ),
{
    match compose_files_from_env(env_value, root) {
        Some(files) => return files,
        None => {},
    }
    let from_dotenv = match dotenv {
        Some(raw) => crate::compose_project::dotenv_value(raw, "COMPOSE_FILE="),
        None => None,
    };
    match from_dotenv {
        Some(v) => {
            match compose_files_from_env(Some(v.as_str()), root) {
                Some(files) => return files,
                None => {},
            }
        },
        None => {},
    }
    let mut files: Vec<String> = Vec::new();
    files.push(crate::text::join_path(root, "docker-compose.yml"));
    if override_exists {
        files.push(crate::text::join_path(root, "docker-compose.override.yml"));
    }
    proof {
        if override_exists {
            assert(views(files@) =~= seq![
                path_join(root@, "docker-compose.yml"@),
                path_join(root@, "docker-compose.override.yml"@),
            ]);
        } else {
            assert(views(files@) =~= seq![path_join(root@, "docker-compose.yml"@)]);
        }
    }
    files
}

/// The first line that declares a compose file version.
pub open spec fn version_line(lines: Seq<Seq<char>>) -> Option<Seq<char>>
    decreases lines.len(),
{
    if lines.len() == 0 {
        None
    } else if starts_with(trim_start(lines[0]), "version:"@) {
        Some(lines[0])
    } else {
        version_line(lines.drop_first())
    }
}

/// The version declaration a generated compose file repeats: the first
/// compose file's `version:` line, trimmed, and a blank line; nothing
/// without one.
pub open spec fn version_prefix_of(text: Seq<char>) -> Seq<char> {
    match version_line(split(text, '\n')) {
        Some(l) => if trim(l).len() > 0 {
            trim(l) + "\n\n"@
        } else {
            Seq::empty()
        },
        None => Seq::empty(),
    }
}

/// The version declaration of the first compose file's text.
pub fn version_prefix(text: &str) -> (r: String)
    ensures
        r@ == version_prefix_of(text@),
{
    let v = chars_of(text);
    let lines = split_chars(&v, '\n');
    let ghost lv = lines@.map_values(|p: Vec<char>| p@);
    let mut i: usize = 0;
    proof {
        assert(lv.skip(0) =~= lv);
    }
    while i < lines.len()
        invariant
            i <= lines.len(),
            lv == lines@.map_values(|p: Vec<char>| p@),
            lv == split(text@, '\n'),
            version_line(lv) == version_line(lv.skip(i as int)),
        decreases lines.len() - i,
    {
        proof {
            let t = lv.skip(i as int);
            assert(t[0] == lines@[i as int]@);
            assert(t.drop_first() =~= lv.skip(i + 1));
        }
        let line = string_of(&lines[i]);
        let start = crate::text::trim_start_exec(line.as_str());
        if str_starts_with(start.as_str(), "version:") {
            let t = str_trim(line.as_str());
            if chars_of(t.as_str()).len() > 0 {
                let mut out = chars_of(t.as_str());
                append_chars(&mut out, &chars_of("\n\n"));
                return string_of(&out);
            }
            return String::new();
        }
        i = i + 1;
    }
    proof {
        assert(lv.skip(lines.len() as int) =~= Seq::<Seq<char>>::empty());
    }
    String::new()
}

} // verus!
