//! Configuration paths and `${...}` variable substitution in configuration text.
use vstd::prelude::*;
use crate::devcontainer_id::{devcontainer_id, devcontainer_id_for_labels, labels_view};
use crate::json_value::{jentries, jviews, lemma_jentries, lemma_jviews, JsonValue, JsonView};
use crate::text::{
    chars_of, copy_string, file_name, find, find_char_from, find_chars, find_char, join_path,
    lookup, lookup_entry, opt_view, path_file_name, path_join, slice_chars, split, split_chars,
    str_eq, string_of,
};

verus! {

/// What substitution knows of the host side.
pub struct ConfigContext {
    pub workspace_folder: String,
    pub env: Vec<(String, String)>,
    pub container_workspace_folder: Option<String>,
    pub id_labels: Vec<(String, String)>,
}

/// What substitution reads of a context: the folders as text, the
/// environment and the id labels.
pub struct ContextView {
    pub workspace_folder: Seq<char>,
    pub env: Seq<(String, String)>,
    pub container_workspace_folder: Option<Seq<char>>,
    pub id_labels: Seq<(String, String)>,
}

impl View for ConfigContext {
    type V = ContextView;

    open spec fn view(&self) -> ContextView {
        ContextView {
            workspace_folder: self.workspace_folder@,
            env: self.env@,
            container_workspace_folder: opt_view(self.container_workspace_folder),
            id_labels: self.id_labels@,
        }
    }
}

/// The view of an optional context.
pub open spec fn ctx_view(c: Option<&ConfigContext>) -> Option<ContextView> {
    match c {
        Some(x) => Some(x@),
        None => None,
    }
}

/// The configuration file for a workspace: the explicit one (relative paths
/// taken from the workspace folder), else `.devcontainer/devcontainer.json`.
pub open spec fn expected_config(workspace_folder: Seq<char>, explicit: Option<Seq<char>>) -> Seq<
    char,
> {
    match explicit {
        Some(c) => path_join(workspace_folder, c),
        None => path_join(path_join(workspace_folder, ".devcontainer"@), "devcontainer.json"@),
    }
}

/// Where the configuration file is expected.
pub fn expected_config_path(workspace_folder: &str, explicit_config: Option<&str>) -> (r: String)
    ensures
        r@ == expected_config(
            workspace_folder@,
            match explicit_config {
                Some(c) => Some(c@),
                None => None,
            },
        ),
{
    match explicit_config {
        Some(c) => join_path(workspace_folder, c),
        None => {
            let dir = join_path(workspace_folder, ".devcontainer");
            join_path(dir.as_str(), "devcontainer.json")
        },
    }
}

/// The configuration file to use: the explicit one; else the modern
/// `.devcontainer/devcontainer.json` when it is a file, else the legacy
/// `.devcontainer.json`.
pub open spec fn chosen_config(workspace_folder: Seq<char>, explicit: Option<Seq<char>>, modern_is_file: bool) -> Seq<char> {
    match explicit {
        Some(c) => path_join(workspace_folder, c),
        None => if modern_is_file {
            expected_config(workspace_folder, None)
        } else {
            path_join(workspace_folder, ".devcontainer.json"@)
        },
    }
}

/// The configuration file to use, given whether the modern one is a file.
pub fn choose_config_path(workspace_folder: &str, explicit_config: Option<&str>, modern_is_file: bool) -> (r: String)
    ensures
        r@ == chosen_config(
            workspace_folder@,
            match explicit_config {
                Some(c) => Some(c@),
                None => None,
            },
            modern_is_file,
        ),
{
    match explicit_config {
        Some(c) => join_path(workspace_folder, c),
        None => if modern_is_file {
            expected_config_path(workspace_folder, None)
        } else {
            join_path(workspace_folder, ".devcontainer.json")
        },
    }
}

/// The error when no configuration file is found at `path`.
pub fn missing_config_message(path: &str) -> (r: String)
    ensures
        r@ == "Unable to locate a dev container config at "@ + path@,
{
    let mut out = chars_of("Unable to locate a dev container config at ");
    crate::text::append_chars(&mut out, &chars_of(path));
    string_of(&out)
}

/// A variable reference split at `:` into its name and arguments.
pub open spec fn variable_parts(input: Seq<char>) -> (Seq<char>, Seq<Seq<char>>) {
    let parts = split(input, ':');
    (parts[0], parts.drop_first())
}

/// Splits `name:arg:...` into the name and the arguments.
pub fn parse_variable(input: &str) -> (r: (String, Vec<String>))
    ensures
        r.0@ == variable_parts(input@).0,
        r.1@.map_values(|a: String| a@) == variable_parts(input@).1,
{
    let v = chars_of(input);
    let parts = split_chars(&v, ':');
    proof {
        crate::text::lemma_split_nonempty(v@, ':');
    }
    let name = string_of(&parts[0]);
    let mut args: Vec<String> = Vec::new();
    let mut i: usize = 1;
    while i < parts.len()
        invariant
            1 <= i <= parts.len(),
            args@.map_values(|a: String| a@) == parts@.map_values(|p: Vec<char>| p@).subrange(
                1,
                i as int,
            ),
        decreases parts.len() - i,
    {
        let piece = string_of(&parts[i]);
        let ghost old_args = args@;
        args.push(piece);
        proof {
            assert(args@ == old_args.push(piece));
            assert(args@.map_values(|a: String| a@) =~= old_args.map_values(|a: String| a@).push(
                piece@,
            ));
            assert(args@.map_values(|a: String| a@) =~= parts@.map_values(|p: Vec<char>| p@).subrange(
                1,
                i + 1,
            ));
        }
        i = i + 1;
    }
    proof {
        assert(parts@.map_values(|p: Vec<char>| p@).subrange(1, parts.len() as int)
            =~= split(input@, ':').drop_first());
    }
    (name, args)
}

/// An environment reference: the named variable, else the default given as
/// the second argument, else the empty string; none without a name.
pub open spec fn env_reference(env: Seq<(String, String)>, args: Seq<Seq<char>>) -> Option<Seq<char>> {
    if args.len() == 0 {
        None
    } else {
        match lookup(env, args[0]) {
            Some(v) => Some(v),
            None => if args.len() > 1 {
                Some(args[1])
            } else {
                Some(Seq::empty())
            },
        }
    }
}

/// What a `${variable}` stands for, if anything.
pub open spec fn replacement(
    variable: Seq<char>,
    context: Option<ContextView>,
    container_env: Option<Seq<(String, String)>>,
) -> Option<Seq<char>> {
    let name = variable_parts(variable).0;
    let args = variable_parts(variable).1;
    if name == "localWorkspaceFolder"@ {
        match context {
            Some(c) => Some(c.workspace_folder),
            None => None,
        }
    } else if name == "localWorkspaceFolderBasename"@ {
        match context {
            Some(c) => match file_name(c.workspace_folder) {
                Some(b) => Some(b),
                None => Some(c.workspace_folder),
            },
            None => None,
        }
    } else if name == "containerWorkspaceFolder"@ {
        match context {
            Some(c) => c.container_workspace_folder,
            None => None,
        }
    } else if name == "containerWorkspaceFolderBasename"@ {
        match context {
            Some(c) => match c.container_workspace_folder {
                Some(f) => file_name(f),
                None => None,
            },
            None => None,
        }
    } else if name == "devcontainerId"@ {
        match context {
            Some(c) => if c.id_labels.len() > 0 {
                Some(devcontainer_id(labels_view(c.id_labels)))
            } else {
                None
            },
            None => None,
        }
    } else if name == "env"@ || name == "localEnv"@ {
        match context {
            Some(c) => env_reference(c.env, args),
            None => None,
        }
    } else if name == "containerEnv"@ {
        match container_env {
            Some(e) => env_reference(e, args),
            None => None,
        }
    } else {
        None
    }
}

fn env_reference_exec(env: &Vec<(String, String)>, args: &Vec<String>) -> (r: Option<String>)
    ensures
        opt_view(r) == env_reference(env@, args@.map_values(|a: String| a@)),
{
    if args.len() == 0 {
        return None;
    }
    match lookup_entry(env, args[0].as_str()) {
        Some(v) => Some(v),
        None => if args.len() > 1 {
            Some(copy_string(&args[1]))
        } else {
            Some(String::new())
        },
    }
}

/// What a `${variable}` stands for, if anything.
pub fn replace_variable(
    variable: &str,
    context: Option<&ConfigContext>,
    container_env: Option<&Vec<(String, String)>>,
) -> (r: Option<String>)
    ensures
        opt_view(r) == replacement(
            variable@,
            ctx_view(context),
            match container_env {
                Some(e) => Some(e@),
                None => None,
            },
        ),
{
    let (name, args) = parse_variable(variable);
    let n = name.as_str();
    if str_eq(n, "localWorkspaceFolder") {
        match context {
            Some(c) => Some(copy_string(&c.workspace_folder)),
            None => None,
        }
    } else if str_eq(n, "localWorkspaceFolderBasename") {
        match context {
            Some(c) => match path_file_name(c.workspace_folder.as_str()) {
                Some(b) => Some(b),
                None => Some(copy_string(&c.workspace_folder)),
            },
            None => None,
        }
    } else if str_eq(n, "containerWorkspaceFolder") {
        match context {
            Some(c) => match &c.container_workspace_folder {
                Some(f) => Some(copy_string(f)),
                None => None,
            },
            None => None,
        }
    } else if str_eq(n, "containerWorkspaceFolderBasename") {
        match context {
            Some(c) => match &c.container_workspace_folder {
                Some(f) => path_file_name(f.as_str()),
                None => None,
            },
            None => None,
        }
    } else if str_eq(n, "devcontainerId") {
        match context {
            Some(c) => if c.id_labels.len() > 0 {
                Some(devcontainer_id_for_labels(&c.id_labels))
            } else {
                None
            },
            None => None,
        }
    } else if str_eq(n, "env") || str_eq(n, "localEnv") {
        match context {
            Some(c) => env_reference_exec(&c.env, &args),
            None => None,
        }
    } else if str_eq(n, "containerEnv") {
        match container_env {
            Some(e) => env_reference_exec(e, &args),
            None => None,
        }
    } else {
        None
    }
}


/// What a reference with no replacement is written back as.
pub open spec fn replacement_or_verbatim(
    variable: Seq<char>,
    context: Option<ContextView>,
    container_env: Option<Seq<(String, String)>>,
) -> Seq<char> {
    match replacement(variable, context, container_env) {
        Some(r) => r,
        None => "${"@ + variable + "}"@,
    }
}

/// `s` with every complete `${variable}` replaced by what it stands for;
/// references without a replacement, and an unclosed `${`, stay as written.
pub open spec fn substitute(
    s: Seq<char>,
    context: Option<ContextView>,
    container_env: Option<Seq<(String, String)>>,
) -> Seq<char>
    decreases s.len(),
{
    match find(s, "${"@) {
        None => s,
        Some(start) => {
            let after = s.skip(start + 2);
            match find_char_from(after, '}', 0) {
                None => s,
                Some(e) => {
                    proof {
                        crate::text::lemma_find_from_bounds(s, "${"@, 0);
                        crate::text::lemma_find_char_from_bounds(after, '}', 0);
                        reveal_strlit("${");
                    }
                    s.take(start) + replacement_or_verbatim(after.take(e), context, container_env)
                        + substitute(after.skip(e + 1), context, container_env)
                },
            }
        },
    }
}

/// Replaces the `${...}` references in `input`.
pub fn substitute_string(
    input: &str,
    context: Option<&ConfigContext>,
    container_env: Option<&Vec<(String, String)>>,
) -> (r: String)
    ensures
        r@ == substitute(
            input@,
            ctx_view(context),
            match container_env {
                Some(e) => Some(e@),
                None => None,
            },
        ),
{
    let ghost ctx = ctx_view(context);
    let ghost cenv = match container_env {
        Some(e) => Some(e@),
        None => None,
    };
    let opener = chars_of("${");
    let mut rem = chars_of(input);
    let mut out: Vec<char> = Vec::new();
    loop
        invariant_except_break
            substitute(input@, ctx, cenv) == out@ + substitute(rem@, ctx, cenv),
        invariant
            opener@ == "${"@,
            ctx == ctx_view(context),
            cenv == match container_env {
                Some(e) => Some(e@),
                None => None,
            },
        ensures
            substitute(input@, ctx, cenv) == out@,
        decreases rem.len(),
    {
        match find_chars(&rem, &opener, 0) {
            None => {
                proof {
                    assert(substitute(rem@, ctx, cenv) == rem@);
                }
                append_chars_then(&mut out, &rem);
                break ;
            },
            Some(start) => {
                proof {
                    crate::text::lemma_find_from_bounds(rem@, "${"@, 0);
                    reveal_strlit("${");
                }
                let after = slice_chars(&rem, start + 2, rem.len());
                proof {
                    assert(after@ =~= rem@.skip(start + 2));
                }
                match find_char(&after, '}', 0) {
                    None => {
                        proof {
                            assert(substitute(rem@, ctx, cenv) == rem@);
                        }
                        append_chars_then(&mut out, &rem);
                        break ;
                    },
                    Some(e) => {
                        proof {
                            crate::text::lemma_find_char_from_bounds(after@, '}', 0);
                        }
                        let head = slice_chars(&rem, 0, start);
                        crate::text::append_chars(&mut out, &head);
                        let var = slice_chars(&after, 0, e);
                        let var_text = string_of(&var);
                        match replace_variable(var_text.as_str(), context, container_env) {
                            Some(rep) => {
                                let rv = chars_of(rep.as_str());
                                crate::text::append_chars(&mut out, &rv);
                            },
                            None => {
                                crate::text::append_chars(&mut out, &opener);
                                crate::text::append_chars(&mut out, &var);
                                out.push('}');
                            },
                        }
                        let next = slice_chars(&after, e + 1, after.len());
                        proof {
                            reveal_strlit("}");
                            assert(head@ =~= rem@.take(start as int));
                            assert(var@ =~= after@.take(e as int));
                            assert(next@ =~= after@.skip(e + 1));
                            assert(substitute(rem@, ctx, cenv) == rem@.take(start as int)
                                + replacement_or_verbatim(after@.take(e as int), ctx, cenv)
                                + substitute(after@.skip(e + 1), ctx, cenv));
                            assert(out@ + substitute(next@, ctx, cenv) =~= substitute(input@, ctx, cenv));
                        }
                        rem = next;
                    },
                }
            },
        }
    }
    string_of(&out)
}

fn append_chars_then(out: &mut Vec<char>, v: &Vec<char>)
    ensures
        final(out)@ == old(out)@ + v@,
{
    crate::text::append_chars(out, v);
}

/// A value with every string substituted; keys and other values stay.
pub open spec fn substituted(v: JsonView, ctx: Option<ContextView>, cenv: Option<Seq<(String, String)>>) -> JsonView
    decreases v, 0nat,
{
    match v {
        JsonView::Str(t) => JsonView::Str(substitute(t, ctx, cenv)),
        JsonView::Array(items) => JsonView::Array(substituted_items(items, ctx, cenv)),
        JsonView::Object(entries) => JsonView::Object(substituted_entries(entries, ctx, cenv)),
        _ => v,
    }
}

/// Each item substituted.
pub open spec fn substituted_items(
    items: Seq<JsonView>,
    ctx: Option<ContextView>,
    cenv: Option<Seq<(String, String)>>,
) -> Seq<JsonView>
    decreases items, 1nat,
{
    if items.len() == 0 {
        Seq::empty()
    } else {
        seq![substituted(items[0], ctx, cenv)] + substituted_items(items.drop_first(), ctx, cenv)
    }
}

/// Each entry's value substituted.
pub open spec fn substituted_entries(
    entries: Seq<(Seq<char>, JsonView)>,
    ctx: Option<ContextView>,
    cenv: Option<Seq<(String, String)>>,
) -> Seq<(Seq<char>, JsonView)>
    decreases entries, 1nat,
{
    if entries.len() == 0 {
        Seq::empty()
    } else {
        seq![(entries[0].0, substituted(entries[0].1, ctx, cenv))] + substituted_entries(
            entries.drop_first(),
            ctx,
            cenv,
        )
    }
}

proof fn lemma_substituted_items(items: Seq<JsonView>, ctx: Option<ContextView>, cenv: Option<Seq<(String, String)>>)
    ensures
        substituted_items(items, ctx, cenv).len() == items.len(),
        forall|i: int|
            0 <= i < items.len() ==> #[trigger] substituted_items(items, ctx, cenv)[i] == substituted(
                items[i],
                ctx,
                cenv,
            ),
    decreases items.len(),
{
    if items.len() > 0 {
        lemma_substituted_items(items.drop_first(), ctx, cenv);
        assert forall|i: int| 0 <= i < items.len() implies #[trigger] substituted_items(items, ctx, cenv)[i]
            == substituted(items[i], ctx, cenv) by {
            if i > 0 {
                assert(items.drop_first()[i - 1] == items[i]);
            }
        }
    }
}

proof fn lemma_substituted_entries(
    entries: Seq<(Seq<char>, JsonView)>,
    ctx: Option<ContextView>,
    cenv: Option<Seq<(String, String)>>,
)
    ensures
        substituted_entries(entries, ctx, cenv).len() == entries.len(),
        forall|i: int|
            0 <= i < entries.len() ==> #[trigger] substituted_entries(entries, ctx, cenv)[i] == (
                entries[i].0,
                substituted(entries[i].1, ctx, cenv),
            ),
    decreases entries.len(),
{
    if entries.len() > 0 {
        lemma_substituted_entries(entries.drop_first(), ctx, cenv);
        assert forall|i: int| 0 <= i < entries.len() implies #[trigger] substituted_entries(
            entries,
            ctx,
            cenv,
        )[i] == (entries[i].0, substituted(entries[i].1, ctx, cenv)) by {
            if i > 0 {
                assert(entries.drop_first()[i - 1] == entries[i]);
            }
        }
    }
}

/// The view of an optional environment.
pub open spec fn env_view(e: Option<&Vec<(String, String)>>) -> Option<Seq<(String, String)>> {
    match e {
        Some(x) => Some(x@),
        None => None,
    }
}

fn substitute_value(
    value: &JsonValue,
    context: Option<&ConfigContext>,
    container_env: Option<&Vec<(String, String)>>,
) -> (r: JsonValue)
    ensures
        r@ == substituted(value@, ctx_view(context), env_view(container_env)),
    decreases value,
{
    let ghost ctx = ctx_view(context);
    let ghost cenv = env_view(container_env);
    match value {
        JsonValue::Str(t) => JsonValue::Str(substitute_string(t.as_str(), context, container_env)),
        JsonValue::Array(items) => {
            let ghost vs = jviews(items@);
            proof {
                lemma_jviews(items@);
                lemma_substituted_items(vs, ctx, cenv);
            }
            let mut out: Vec<JsonValue> = Vec::new();
            let mut i: usize = 0;
            while i < items.len()
                invariant
                    i <= items.len(),
                    *value == JsonValue::Array(*items),
                    ctx == ctx_view(context),
                    cenv == env_view(container_env),
                    vs == jviews(items@),
                    vs.len() == items@.len(),
                    forall|q: int| 0 <= q < items@.len() ==> #[trigger] vs[q] == items@[q]@,
                    out@.len() == i,
                    forall|q: int| 0 <= q < i ==> #[trigger] out@[q]@ == substituted(vs[q], ctx, cenv),
                decreases items.len() - i,
            {
                proof {
                    assert(decreases_to!(*value => value->Array_0));
                    assert(decreases_to!(*items => items@));
                    assert(decreases_to!(items@ => items@[i as int]));
                }
                let x = substitute_value(&items[i], context, container_env);
                out.push(x);
                i = i + 1;
            }
            proof {
                lemma_jviews(out@);
                lemma_substituted_items(vs, ctx, cenv);
                assert forall|q: int| 0 <= q < vs.len() implies #[trigger] jviews(out@)[q]
                    == substituted_items(vs, ctx, cenv)[q] by {
                    assert(out@[q]@ == substituted(vs[q], ctx, cenv));
                }
                assert(jviews(out@) =~= substituted_items(vs, ctx, cenv));
            }
            JsonValue::Array(out)
        },
        JsonValue::Object(entries) => {
            let ghost es = jentries(entries@);
            proof {
                lemma_jentries(entries@);
                lemma_substituted_entries(es, ctx, cenv);
            }
            let mut out: Vec<(String, JsonValue)> = Vec::new();
            let mut i: usize = 0;
            while i < entries.len()
                invariant
                    i <= entries.len(),
                    *value == JsonValue::Object(*entries),
                    ctx == ctx_view(context),
                    cenv == env_view(container_env),
                    es == jentries(entries@),
                    es.len() == entries@.len(),
                    forall|q: int|
                        0 <= q < entries@.len() ==> #[trigger] es[q] == (entries@[q].0@, entries@[q].1@),
                    out@.len() == i,
                    forall|q: int|
                        0 <= q < i ==> #[trigger] out@[q].0@ == es[q].0 && out@[q].1@ == substituted(
                            es[q].1,
                            ctx,
                            cenv,
                        ),
                decreases entries.len() - i,
            {
                proof {
                    assert(decreases_to!(*value => value->Object_0));
                    assert(decreases_to!(*entries => entries@));
                    assert(decreases_to!(entries@ => entries@[i as int]));
                    assert(decreases_to!(entries@[i as int] => entries@[i as int].1));
                }
                let k = copy_string(&entries[i].0);
                let x = substitute_value(&entries[i].1, context, container_env);
                out.push((k, x));
                i = i + 1;
            }
            proof {
                lemma_jentries(out@);
                assert(jentries(out@) =~= substituted_entries(es, ctx, cenv));
            }
            JsonValue::Object(out)
        },
        JsonValue::Null => JsonValue::Null,
        JsonValue::Bool(b) => JsonValue::Bool(*b),
        JsonValue::Number(n) => JsonValue::Number(copy_string(n)),
    }
}

/// `value` with container environment references substituted from `env`.
pub fn substitute_container_env(value: &JsonValue, env: &Vec<(String, String)>) -> (r: JsonValue)
    ensures
        r@ == substituted(value@, None, Some(env@)),
{
    substitute_value(value, None, Some(env))
}

/// The context whose container folder has its own references substituted
/// (with no container folder to refer to).
pub open spec fn resolved_context(c: ContextView) -> ContextView {
    ContextView {
        workspace_folder: c.workspace_folder,
        env: c.env,
        container_workspace_folder: match c.container_workspace_folder {
            Some(f) => Some(
                substitute(
                    f,
                    Some(
                        ContextView {
                            workspace_folder: c.workspace_folder,
                            env: c.env,
                            container_workspace_folder: None,
                            id_labels: c.id_labels,
                        },
                    ),
                    None,
                ),
            ),
            None => None,
        },
        id_labels: c.id_labels,
    }
}

fn copy_pairs(v: &Vec<(String, String)>) -> (r: Vec<(String, String)>)
    ensures
        r@ == v@,
{
    let mut out: Vec<(String, String)> = Vec::new();
    let mut i: usize = 0;
    while i < v.len()
        invariant
            i <= v.len(),
            out@ == v@.take(i as int),
        decreases v.len() - i,
    {
        out.push((v[i].0.clone(), v[i].1.clone()));
        proof {
            assert(out@ =~= v@.take(i + 1));
        }
        i = i + 1;
    }
    proof {
        assert(v@.take(v.len() as int) =~= v@);
    }
    out
}

/// `value` with local references substituted from `context`.
pub fn substitute_local_context(value: &JsonValue, context: &ConfigContext) -> (r: JsonValue)
    ensures
        r@ == substituted(value@, Some(resolved_context(context@)), None),
{
    let container_workspace_folder = match &context.container_workspace_folder {
        Some(f) => {
            let inner = ConfigContext {
                workspace_folder: context.workspace_folder.clone(),
                env: copy_pairs(&context.env),
                container_workspace_folder: None,
                id_labels: copy_pairs(&context.id_labels),
            };
            Some(substitute_string(f.as_str(), Some(&inner), None))
        },
        None => None,
    };
    let resolved = ConfigContext {
        workspace_folder: context.workspace_folder.clone(),
        env: copy_pairs(&context.env),
        container_workspace_folder,
        id_labels: copy_pairs(&context.id_labels),
    };
    substitute_value(value, Some(&resolved), None)
}

/// Two contexts that agree on everything but the order of their identifying
/// labels, which give the same identifier.
pub open spec fn same_but_label_order(a: ContextView, b: ContextView) -> bool {
    &&& a.workspace_folder == b.workspace_folder
    &&& a.env == b.env
    &&& a.container_workspace_folder == b.container_workspace_folder
    &&& (a.id_labels.len() > 0) == (b.id_labels.len() > 0)
    &&& devcontainer_id(labels_view(a.id_labels)) == devcontainer_id(labels_view(b.id_labels))
}

proof fn lemma_replacement_same(v: Seq<char>, a: ContextView, b: ContextView, cenv: Option<Seq<(String, String)>>)
    requires
        same_but_label_order(a, b),
    ensures
        replacement_or_verbatim(v, Some(a), cenv) == replacement_or_verbatim(v, Some(b), cenv),
{
}

proof fn lemma_substitute_same(s: Seq<char>, a: ContextView, b: ContextView, cenv: Option<Seq<(String, String)>>)
    requires
        same_but_label_order(a, b),
    ensures
        substitute(s, Some(a), cenv) == substitute(s, Some(b), cenv),
    decreases s.len(),
{
    match find(s, "${"@) {
        None => {},
        Some(start) => {
            let after = s.skip(start + 2);
            match find_char_from(after, '}', 0) {
                None => {},
                Some(e) => {
                    crate::text::lemma_find_from_bounds(s, "${"@, 0);
                    crate::text::lemma_find_char_from_bounds(after, '}', 0);
                    reveal_strlit("${");
                    lemma_replacement_same(after.take(e), a, b, cenv);
                    lemma_substitute_same(after.skip(e + 1), a, b, cenv);
                },
            }
        },
    }
}

proof fn lemma_substituted_same(v: JsonView, a: ContextView, b: ContextView, cenv: Option<Seq<(String, String)>>)
    requires
        same_but_label_order(a, b),
    ensures
        substituted(v, Some(a), cenv) == substituted(v, Some(b), cenv),
    decreases v, 0nat,
{
    match v {
        JsonView::Str(t) => lemma_substitute_same(t, a, b, cenv),
        JsonView::Array(items) => lemma_substituted_items_same(items, a, b, cenv),
        JsonView::Object(entries) => lemma_substituted_entries_same(entries, a, b, cenv),
        _ => {},
    }
}

proof fn lemma_substituted_items_same(items: Seq<JsonView>, a: ContextView, b: ContextView, cenv: Option<Seq<(String, String)>>)
    requires
        same_but_label_order(a, b),
    ensures
        substituted_items(items, Some(a), cenv) == substituted_items(items, Some(b), cenv),
    decreases items, 1nat,
{
    if items.len() > 0 {
        lemma_substituted_same(items[0], a, b, cenv);
        lemma_substituted_items_same(items.drop_first(), a, b, cenv);
    }
}

proof fn lemma_substituted_entries_same(
    entries: Seq<(Seq<char>, JsonView)>,
    a: ContextView,
    b: ContextView,
    cenv: Option<Seq<(String, String)>>,
)
    requires
        same_but_label_order(a, b),
    ensures
        substituted_entries(entries, Some(a), cenv) == substituted_entries(entries, Some(b), cenv),
    decreases entries, 1nat,
{
    if entries.len() > 0 {
        lemma_substituted_same(entries[0].1, a, b, cenv);
        lemma_substituted_entries_same(entries.drop_first(), a, b, cenv);
    }
}

/// Substituting a local context does not depend on the order of its
/// identifying labels: two contexts that agree on everything else, and
/// hold the same labels with distinct names, substitute a value alike.
pub proof fn lemma_substitution_ignores_label_order(value: JsonView, a: ContextView, b: ContextView)
    requires
        a.workspace_folder == b.workspace_folder,
        a.env == b.env,
        a.container_workspace_folder == b.container_workspace_folder,
        crate::collections::distinct_keys(labels_view(a.id_labels)),
        crate::collections::distinct_keys(labels_view(b.id_labels)),
        forall|e: (Seq<char>, Seq<char>)| labels_view(a.id_labels).contains(e) <==> labels_view(b.id_labels).contains(e),
    ensures
        substituted(value, Some(resolved_context(a)), None) == substituted(value, Some(resolved_context(b)), None),
{
    let p = labels_view(a.id_labels);
    let q = labels_view(b.id_labels);
    crate::devcontainer_id::lemma_devcontainer_id_ignores_label_order(p, q);
    if p.len() > 0 && q.len() == 0 {
        assert(p.contains(p[0]));
    }
    if q.len() > 0 && p.len() == 0 {
        assert(q.contains(q[0]));
    }
    let inner_a = ContextView { workspace_folder: a.workspace_folder, env: a.env, container_workspace_folder: None, id_labels: a.id_labels };
    let inner_b = ContextView { workspace_folder: b.workspace_folder, env: b.env, container_workspace_folder: None, id_labels: b.id_labels };
    assert(same_but_label_order(inner_a, inner_b));
    match a.container_workspace_folder {
        Some(f) => lemma_substitute_same(f, inner_a, inner_b, None),
        None => {},
    }
    assert(same_but_label_order(resolved_context(a), resolved_context(b)));
    lemma_substituted_same(value, resolved_context(a), resolved_context(b), None);
}

} // verus!
