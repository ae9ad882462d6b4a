//! The `read-configuration` payload: the configuration as read, the
//! workspace it maps, the features configuration, and the configuration
//! merged with the metadata that applies to it.
use vstd::prelude::*;
use crate::config::{resolved_context, substitute_container_env, substitute_local_context, substituted, ConfigContext};
use crate::feature_metadata::picked;
use crate::feature_resolution::{object_from, object_of, text};
use crate::json_object::{entries_of, object_insert, vinsert, Entries};
use crate::json_value::{
    entries_get, jentries, json_clone, json_get, jview, jviews, lemma_entry_value_view, lemma_get_view,
    lemma_jentries, lemma_jviews, vget, ventry, JsonValue, JsonView,
};
use crate::merge::{merge_configuration, merged_configuration_of};
use crate::runtime::{remote_folder_of, remote_workspace_folder, workspace_mount, workspace_mount_of, ResolvedConfig};
use crate::text::{chars_of, copy_string, find_char, find_char_from, opt_view, slice_chars, string_of, str_views};

verus! {

/// The keys of a configuration that are its own metadata.
pub open spec fn config_metadata_keys() -> Seq<Seq<char>> {
    seq![
        "onCreateCommand"@,
        "updateContentCommand"@,
        "postCreateCommand"@,
        "postStartCommand"@,
        "postAttachCommand"@,
        "waitFor"@,
        "customizations"@,
        "mounts"@,
        "containerEnv"@,
        "containerUser"@,
        "init"@,
        "privileged"@,
        "capAdd"@,
        "securityOpt"@,
        "remoteUser"@,
        "userEnvProbe"@,
        "remoteEnv"@,
        "overrideCommand"@,
        "portsAttributes"@,
        "otherPortsAttributes"@,
        "forwardPorts"@,
        "shutdownAction"@,
        "updateRemoteUserUID"@,
        "hostRequirements"@,
        "entrypoint"@,
    ]
}

/// The metadata a configuration carries itself.
pub open spec fn config_metadata_of(configuration: JsonView) -> JsonView {
    JsonView::Object(picked(config_metadata_keys(), entries_of(configuration)))
}

proof fn lemma_picked_nothing(keys: Seq<Seq<char>>)
    ensures
        picked(keys, Seq::empty()) == Seq::<(Seq<char>, JsonView)>::empty(),
    decreases keys.len(),
{
    if keys.len() > 0 {
        lemma_picked_nothing(keys.drop_last());
    }
}

/// The metadata a configuration carries itself.
pub fn pick_config_metadata(configuration: &JsonValue) -> (r: JsonValue)
    ensures
        r@ == config_metadata_of(configuration@),
{
    let keys: [&str; 25] = [
        "onCreateCommand",
        "updateContentCommand",
        "postCreateCommand",
        "postStartCommand",
        "postAttachCommand",
        "waitFor",
        "customizations",
        "mounts",
        "containerEnv",
        "containerUser",
        "init",
        "privileged",
        "capAdd",
        "securityOpt",
        "remoteUser",
        "userEnvProbe",
        "remoteEnv",
        "overrideCommand",
        "portsAttributes",
        "otherPortsAttributes",
        "forwardPorts",
        "shutdownAction",
        "updateRemoteUserUID",
        "hostRequirements",
        "entrypoint",
    ];
    let ghost kv = str_views(keys@);
    proof {
        assert(kv =~= config_metadata_keys());
        assert(kv.take(0) =~= Seq::<Seq<char>>::empty());
    }
    let mut out: Vec<(String, JsonValue)> = Vec::new();
    proof {
        assert(jentries(out@) =~= Seq::<(Seq<char>, JsonView)>::empty());
    }
    match configuration {
        JsonValue::Object(entries) => {
            let ghost ev = jentries(entries@);
            let mut i: usize = 0;
            while i < 25
                invariant
                    i <= 25,
                    keys@.len() == 25,
                    kv == str_views(keys@),
                    kv.len() == 25,
                    ev == jentries(entries@),
                    jentries(out@) == picked(kv.take(i as int), ev),
                decreases 25 - i,
            {
                proof {
                    assert(kv.take(i + 1).drop_last() =~= kv.take(i as int));
                    assert(kv.take(i + 1).last() == kv[i as int]);
                    assert(kv[i as int] == keys@[i as int]@);
                    lemma_entry_value_view(entries@, keys@[i as int]@);
                }
                match entries_get(entries, keys[i]) {
                    Some(v) => {
                        let c = json_clone(v);
                        object_insert(&mut out, String::from_str(keys[i]), c);
                    },
                    None => {},
                }
                i = i + 1;
            }
            proof {
                assert(kv.take(25) =~= kv);
            }
        },
        _ => {
            proof {
                lemma_picked_nothing(config_metadata_keys());
            }
        },
    }
    JsonValue::Object(out)
}

/// The metadata that applies, then the configuration's own when it has any.
pub open spec fn applied_metadata(configuration: JsonView, metadata: Seq<JsonView>) -> Seq<JsonView> {
    let own = config_metadata_of(configuration);
    if entries_of(own).len() > 0 {
        metadata.push(own)
    } else {
        metadata
    }
}

/// The configuration merged with the metadata that applies to it (the
/// container's, or the features'), its own metadata last.
pub fn merged_configuration_payload(configuration: &JsonValue, metadata_entries: &Vec<JsonValue>) -> (r: JsonValue)
    ensures
        r@ == merged_configuration_of(configuration@, applied_metadata(configuration@, jviews(metadata_entries@))),
{
    let mut entries: Vec<JsonValue> = Vec::new();
    let mut i: usize = 0;
    proof {
        lemma_jviews(metadata_entries@);
    }
    while i < metadata_entries.len()
        invariant
            i <= metadata_entries.len(),
            jviews(metadata_entries@).len() == metadata_entries@.len(),
            forall|q: int| 0 <= q < metadata_entries@.len() ==> #[trigger] jviews(metadata_entries@)[q] == metadata_entries@[q]@,
            jviews(entries@) == jviews(metadata_entries@).take(i as int),
        decreases metadata_entries.len() - i,
    {
        let c = json_clone(&metadata_entries[i]);
        let ghost before = entries@;
        entries.push(c);
        proof {
            crate::merge::lemma_jviews_push(before, c);
            assert(jviews(metadata_entries@).take(i + 1) =~= jviews(metadata_entries@).take(i as int).push(
                metadata_entries@[i as int]@,
            ));
        }
        i = i + 1;
    }
    proof {
        assert(jviews(metadata_entries@).take(metadata_entries.len() as int) =~= jviews(metadata_entries@));
    }
    let own = pick_config_metadata(configuration);
    let keep = match &own {
        JsonValue::Object(e) => {
            proof {
                lemma_jentries(e@);
            }
            e.len() > 0
        },
        _ => false,
    };
    if keep {
        let ghost before = entries@;
        entries.push(own);
        proof {
            crate::merge::lemma_jviews_push(before, entries@.last());
            assert(entries@ == before.push(entries@.last()));
        }
    }
    merge_configuration(configuration, &entries)
}

/// The configuration `read-configuration` reports: the loaded one with the
/// path of its file, or an empty object; with the container's environment
/// substituted when a container was inspected.
pub open spec fn read_configuration_of(
    loaded: Option<(JsonView, Seq<char>)>,
    container_env: Option<Seq<(String, String)>>,
) -> JsonView {
    let c = match loaded {
        Some((configuration, config_file)) => match configuration {
            JsonView::Object(e) => JsonView::Object(vinsert(e, "configFilePath"@, text(config_file))),
            _ => configuration,
        },
        None => JsonView::Object(Seq::empty()),
    };
    match container_env {
        Some(env) => substituted(c, None, Some(env)),
        None => c,
    }
}

/// The configuration `read-configuration` reports.
pub fn read_configuration_value(loaded: Option<&ResolvedConfig>, container_env: Option<&Vec<(String, String)>>) -> (r: JsonValue)
    ensures
        r@ == read_configuration_of(
            match loaded {
                Some(l) => Some((l.configuration@, l.config_file@)),
                None => None,
            },
            match container_env {
                Some(e) => Some(e@),
                None => None,
            },
        ),
{
    let c = match loaded {
        Some(l) => match json_clone(&l.configuration) {
            JsonValue::Object(e) => {
                let mut e2 = e;
                object_insert(&mut e2, String::from_str("configFilePath"), JsonValue::Str(copy_string(&l.config_file)));
                JsonValue::Object(e2)
            },
            other => other,
        },
        None => {
            let e: Vec<(String, JsonValue)> = Vec::new();
            proof {
                assert(jentries(e@) =~= Seq::<(Seq<char>, JsonView)>::empty());
            }
            JsonValue::Object(e)
        },
    };
    match container_env {
        Some(env) => substitute_container_env(&c, env),
        None => c,
    }
}

/// Where the workspace is in the container, and, outside compose, how it is
/// mounted; `resolved` holds the configuration as reported.
pub open spec fn workspace_payload_of(resolved: ResolvedConfig) -> JsonView {
    let configuration = resolved.configuration;
    let folder = remote_folder_of(resolved);
    if crate::json_value::get(configuration, "dockerComposeFile"@) is Some && crate::json_value::get_str(
        configuration,
        "service"@,
    ) is Some {
        object_of(seq![("workspaceFolder"@, text(folder))])
    } else {
        object_of(seq![("workspaceFolder"@, text(folder)), ("workspaceMount"@, text(workspace_mount_of(resolved, folder)))])
    }
}

/// The workspace section of the payload.
pub fn workspace_payload(resolved: &ResolvedConfig) -> (r: JsonValue)
    ensures
        r@ == workspace_payload_of(*resolved),
{
    let folder = remote_workspace_folder(resolved);
    let mut pairs: Vec<(String, JsonValue)> = Vec::new();
    pairs.push((String::from_str("workspaceFolder"), JsonValue::Str(copy_string(&folder))));
    if !crate::compose::uses_compose_config(&resolved.configuration) {
        let mount = workspace_mount(resolved, folder.as_str());
        pairs.push((String::from_str("workspaceMount"), JsonValue::Str(mount)));
    }
    proof {
        lemma_jentries(pairs@);
        if pairs@.len() == 1 {
            assert(jentries(pairs@) =~= seq![(pairs@[0].0@, pairs@[0].1@)]);
        } else {
            assert(jentries(pairs@) =~= seq![(pairs@[0].0@, pairs@[0].1@), (pairs@[1].0@, pairs@[1].1@)]);
        }
    }
    object_from(pairs)
}

/// What `inspect` reports of a container that `read-configuration` uses:
/// its environment, the local folder it was made from, and its metadata
/// label's text.
#[derive(Debug)]
pub struct InspectDetails {
    pub container_env: Vec<(String, String)>,
    pub local_folder: Option<String>,
    pub metadata_label: Option<String>,
}

/// A `NAME=value` entry of a container's environment, split at its first `=`.
pub open spec fn env_entry(t: Seq<char>) -> Option<(Seq<char>, Seq<char>)> {
    match find_char_from(t, '=', 0) {
        Some(i) => Some((t.take(i), t.skip(i + 1))),
        None => None,
    }
}

/// The entries of a container's environment list that are `NAME=value` texts.
pub open spec fn env_entries(items: Seq<JsonView>) -> Seq<(Seq<char>, Seq<char>)>
    decreases items.len(),
{
    if items.len() == 0 {
        Seq::empty()
    } else {
        let rest = env_entries(items.drop_last());
        match items.last() {
            JsonView::Str(t) => match env_entry(t) {
                Some(p) => rest.push(p),
                None => rest,
            },
            _ => rest,
        }
    }
}

/// The text at `key` of an object.
pub open spec fn text_at(v: Option<JsonView>, key: Seq<char>) -> Option<Seq<char>> {
    match v {
        Some(o) => match vget(o, key) {
            Some(JsonView::Str(t)) => Some(t),
            _ => None,
        },
        None => None,
    }
}

/// What the inspect output says of the first container: its environment
/// entries, local folder label and metadata label; an error when there is
/// no container.
pub open spec fn inspect_details_of(inspected: JsonView) -> Result<(Seq<(Seq<char>, Seq<char>)>, Option<Seq<char>>, Option<Seq<char>>), Seq<char>> {
    match inspected {
        JsonView::Array(items) => if items.len() == 0 {
            Err("Container engine did not return inspect details"@)
        } else {
            let config = vget(items[0], "Config"@);
            let labels = match config {
                Some(c) => match vget(c, "Labels"@) {
                    Some(JsonView::Object(l)) => Some(JsonView::Object(l)),
                    _ => None,
                },
                None => None,
            };
            let env = match config {
                Some(c) => match vget(c, "Env"@) {
                    Some(JsonView::Array(values)) => env_entries(values),
                    _ => Seq::empty(),
                },
                None => Seq::empty(),
            };
            Ok((env, text_at(labels, "devcontainer.local_folder"@), text_at(labels, "devcontainer.metadata"@)))
        },
        _ => Err("Container engine did not return inspect details"@),
    }
}

fn env_entry_of(t: &String) -> (r: Option<(String, String)>)
    ensures
        match r {
            Some(p) => env_entry(t@) == Some((p.0@, p.1@)),
            None => env_entry(t@) is None,
        },
{
    let v = chars_of(t.as_str());
    match find_char(&v, '=', 0) {
        Some(i) => {
            proof {
                crate::text::lemma_find_char_from_bounds(v@, '=', 0);
            }
            let name = slice_chars(&v, 0, i);
            let value = slice_chars(&v, i + 1, v.len());
            Some((string_of(&name), string_of(&value)))
        },
        None => None,
    }
}

fn text_at_of(v: Option<&JsonValue>, key: &str) -> (r: Option<String>)
    ensures
        opt_view(r) == text_at(
            match v {
                Some(x) => Some(x@),
                None => None,
            },
            key@,
        ),
{
    match v {
        Some(o) => {
            proof {
                lemma_get_view(*o, key@);
            }
            match json_get(o, key) {
                Some(JsonValue::Str(t)) => Some(copy_string(t)),
                _ => None,
            }
        },
        None => None,
    }
}

/// What the inspect output says of the first container.
pub fn inspect_details(inspected: &JsonValue) -> (r: Result<InspectDetails, String>)
    ensures
        match inspect_details_of(inspected@) {
            Ok((env, folder, label)) => r matches Ok(d) && d.container_env@.map_values(|p: (String, String)| (p.0@, p.1@))
                == env && opt_view(d.local_folder) == folder && opt_view(d.metadata_label) == label,
            Err(e) => r matches Err(x) && x@ == e,
        },
{
    let items = match inspected {
        JsonValue::Array(items) => items,
        _ => return Err(String::from_str("Container engine did not return inspect details")),
    };
    proof {
        lemma_jviews(items@);
    }
    if items.len() == 0 {
        return Err(String::from_str("Container engine did not return inspect details"));
    }
    let first = &items[0];
    proof {
        lemma_get_view(*first, "Config"@);
    }
    let config = json_get(first, "Config");
    let labels: Option<&JsonValue> = match config {
        Some(c) => {
            proof {
                lemma_get_view(*c, "Labels"@);
            }
            match json_get(c, "Labels") {
                Some(l) => match l {
                    JsonValue::Object(_) => Some(l),
                    _ => None,
                },
                None => None,
            }
        },
        None => None,
    };
    let mut env: Vec<(String, String)> = Vec::new();
    proof {
        assert(env@.map_values(|p: (String, String)| (p.0@, p.1@)) =~= Seq::<(Seq<char>, Seq<char>)>::empty());
    }
    match config {
        Some(c) => {
            proof {
                lemma_get_view(*c, "Env"@);
            }
            match json_get(c, "Env") {
                Some(JsonValue::Array(values)) => {
                    let ghost vv = jviews(values@);
                    proof {
                        lemma_jviews(values@);
                        assert(vv.take(0) =~= Seq::<JsonView>::empty());
                    }
                    let mut i: usize = 0;
                    while i < values.len()
                        invariant
                            i <= values.len(),
                            vv == jviews(values@),
                            vv.len() == values@.len(),
                            forall|q: int| 0 <= q < values@.len() ==> #[trigger] vv[q] == values@[q]@,
                            env@.map_values(|p: (String, String)| (p.0@, p.1@)) == env_entries(vv.take(i as int)),
                        decreases values.len() - i,
                    {
                        proof {
                            assert(vv.take(i + 1).drop_last() =~= vv.take(i as int));
                            assert(vv.take(i + 1).last() == vv[i as int]);
                        }
                        match &values[i] {
                            JsonValue::Str(t) => match env_entry_of(t) {
                                Some(p) => {
                                    let ghost before = env@;
                                    env.push(p);
                                    proof {
                                        assert(env@.map_values(|p: (String, String)| (p.0@, p.1@)) =~= before.map_values(
                                            |p: (String, String)| (p.0@, p.1@),
                                        ).push((env@.last().0@, env@.last().1@)));
                                    }
                                },
                                None => {},
                            },
                            _ => {},
                        }
                        i = i + 1;
                    }
                    proof {
                        assert(vv.take(values.len() as int) =~= vv);
                    }
                },
                _ => {},
            }
        },
        None => {},
    }
    let local_folder = text_at_of(labels, "devcontainer.local_folder");
    let metadata_label = text_at_of(labels, "devcontainer.metadata");
    Ok(InspectDetails { container_env: env, local_folder, metadata_label })
}

/// A container's metadata entry with the local context (when the local
/// folder is known) and then the container's environment substituted.
pub open spec fn container_entry(e: JsonView, local: Option<crate::config::ContextView>, env: Seq<(String, String)>) -> JsonView {
    let e1 = match local {
        Some(ctx) => substituted(e, Some(resolved_context(ctx)), None),
        None => e,
    };
    substituted(e1, None, Some(env))
}

/// The container's metadata entries from its parsed label, substituted.
pub fn container_metadata_entries(
    label: Option<&JsonValue>,
    local: Option<&ConfigContext>,
    container_env: &Vec<(String, String)>,
) -> (r: Vec<JsonValue>)
    ensures
        jviews(r@) == crate::metadata::label_entries(
            match label {
                Some(x) => Some(x@),
                None => None,
            },
        ).map_values(|e: JsonView| container_entry(e, crate::config::ctx_view(local), container_env@)),
{
    let entries = crate::metadata::label_entries_of(label);
    let ghost ev = jviews(entries@);
    proof {
        lemma_jviews(entries@);
    }
    let mut out: Vec<JsonValue> = Vec::new();
    proof {
        assert(jviews(out@) =~= ev.take(0).map_values(|e: JsonView| container_entry(e, crate::config::ctx_view(local), container_env@)));
    }
    let mut i: usize = 0;
    while i < entries.len()
        invariant
            i <= entries.len(),
            ev == jviews(entries@),
            ev.len() == entries@.len(),
            forall|q: int| 0 <= q < entries@.len() ==> #[trigger] ev[q] == entries@[q]@,
            jviews(out@) == ev.take(i as int).map_values(|e: JsonView| container_entry(e, crate::config::ctx_view(local), container_env@)),
        decreases entries.len() - i,
    {
        let e1 = match local {
            Some(ctx) => substitute_local_context(&entries[i], ctx),
            None => json_clone(&entries[i]),
        };
        let e2 = substitute_container_env(&e1, container_env);
        let ghost before = out@;
        out.push(e2);
        proof {
            crate::merge::lemma_jviews_push(before, e2);
            assert(ev.take(i + 1).map_values(|e: JsonView| container_entry(e, crate::config::ctx_view(local), container_env@)) =~= ev.take(
                i as int,
            ).map_values(|e: JsonView| container_entry(e, crate::config::ctx_view(local), container_env@)).push(
                container_entry(ev[i as int], crate::config::ctx_view(local), container_env@),
            ));
        }
        i = i + 1;
    }
    proof {
        assert(ev.take(entries.len() as int) =~= ev);
    }
    out
}

/// The `read-configuration` payload: the configuration, the workspace when
/// a configuration was loaded, the features configuration when asked for
/// (or when merging without a container), and the merged configuration when
/// asked for.
pub open spec fn read_payload_of(
    configuration: JsonView,
    workspace: Option<JsonView>,
    features_configuration: Option<JsonView>,
    merged: JsonView,
    include_features: bool,
    include_merged: bool,
    inspected: bool,
) -> JsonView {
    let e1 = seq![("configuration"@, configuration)];
    let e2 = e1 + match workspace {
        Some(w) => seq![("workspace"@, w)],
        None => Seq::empty(),
    };
    let e3 = e2 + if include_features || (include_merged && !inspected) {
        seq![
            (
                "featuresConfiguration"@,
                match features_configuration {
                    Some(f) => f,
                    None => object_of(seq![("featureSets"@, JsonView::Array(Seq::empty()))]),
                },
            ),
        ]
    } else {
        Seq::empty()
    };
    object_of(
        e3 + if include_merged {
            seq![("mergedConfiguration"@, merged)]
        } else {
            Seq::empty()
        },
    )
}

/// The `read-configuration` payload.
pub fn read_configuration_payload(
    configuration: JsonValue,
    workspace: Option<JsonValue>,
    features_configuration: Option<JsonValue>,
    merged: JsonValue,
    include_features: bool,
    include_merged: bool,
    inspected: bool,
) -> (r: JsonValue)
    ensures
        r@ == read_payload_of(
            configuration@,
            match workspace {
                Some(w) => Some(w@),
                None => None,
            },
            match features_configuration {
                Some(f) => Some(f@),
                None => None,
            },
            merged@,
            include_features,
            include_merged,
            inspected,
        ),
{
    let ghost cv = configuration@;
    let ghost wv = match &workspace {
        Some(w) => Some(w@),
        None => None::<JsonView>,
    };
    let ghost fv = match &features_configuration {
        Some(f) => Some(f@),
        None => None::<JsonView>,
    };
    let ghost mv = merged@;
    let mut pairs: Vec<(String, JsonValue)> = Vec::new();
    pairs.push((String::from_str("configuration"), configuration));
    proof {
        lemma_jentries(pairs@);
        assert(jentries(pairs@) =~= seq![("configuration"@, cv)]);
    }
    let ghost p1 = jentries(pairs@);
    match workspace {
        Some(w) => {
            pairs.push((String::from_str("workspace"), w));
        },
        None => {},
    }
    proof {
        lemma_jentries(pairs@);
        assert(jentries(pairs@) =~= p1 + match wv {
            Some(w) => seq![("workspace"@, w)],
            None => Seq::<(Seq<char>, JsonView)>::empty(),
        });
    }
    let ghost p2 = jentries(pairs@);
    if include_features || (include_merged && !inspected) {
        let f = match features_configuration {
            Some(f) => f,
            None => {
                let mut e: Vec<(String, JsonValue)> = Vec::new();
                e.push((String::from_str("featureSets"), JsonValue::Array(Vec::new())));
                proof {
                    lemma_jentries(e@);
                    assert(jviews(Seq::<JsonValue>::empty()) =~= Seq::<JsonView>::empty());
                    assert(jentries(e@) =~= seq![("featureSets"@, JsonView::Array(Seq::empty()))]);
                }
                object_from(e)
            },
        };
        pairs.push((String::from_str("featuresConfiguration"), f));
    }
    proof {
        lemma_jentries(pairs@);
        assert(jentries(pairs@) =~= p2 + if include_features || (include_merged && !inspected) {
            seq![
                (
                    "featuresConfiguration"@,
                    match fv {
                        Some(f) => f,
                        None => object_of(seq![("featureSets"@, JsonView::Array(Seq::empty()))]),
                    },
                ),
            ]
        } else {
            Seq::<(Seq<char>, JsonView)>::empty()
        });
    }
    let ghost p3 = jentries(pairs@);
    if include_merged {
        pairs.push((String::from_str("mergedConfiguration"), merged));
    }
    proof {
        lemma_jentries(pairs@);
        assert(jentries(pairs@) =~= p3 + if include_merged {
            seq![("mergedConfiguration"@, mv)]
        } else {
            Seq::<(Seq<char>, JsonView)>::empty()
        });
    }
    object_from(pairs)
}

} // verus!
