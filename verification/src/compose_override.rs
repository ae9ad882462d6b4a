//! The compose override file that gives the service its labels, image,
//! volumes, environment, user and privileges.
use vstd::prelude::*;
use crate::args::{option_values, parse_option_values};
use crate::compose::{escape_compose_label, escape_compose_scalar, escaped};
use crate::compose_mounts::{
    as_text, compose_mount_definition, compose_mount_definition_from_str, configured_volume,
    definition_of_str, short_syntax_of, volume_view, ComposeMountDefinition, ComposeVolumeEntry, VolumeView,
};
use crate::compose_yaml::{spaces, write_item, yaml_item};
use crate::container::{array_strings, is_true, json_array_strings, json_object_strings, metadata_text, object_strings, serialized_container_metadata};
use crate::devcontainer_id::labels_view;
use crate::json_object::Entries;
use crate::json_value::{get, get_str, jentries, json_get, json_get_str, ventry, JsonValue, JsonView};
use crate::runtime::{workspace_mount, workspace_mount_of, ResolvedConfig};
use crate::text::{append_chars, chars_of, str_eq, string_of, views};

verus! {

/// The message for a compose configuration without a service.
pub open spec fn missing_service_message() -> Seq<char> {
    "Compose configuration must define service"@
}

/// The labels of the service: folder, configuration file, metadata, and the `--id-label` labels.
pub open spec fn override_labels(r: ResolvedConfig, args: Seq<Seq<char>>, remote_folder: Seq<char>) -> Seq<Seq<char>> {
    seq![
        "devcontainer.local_folder="@ + r.workspace_folder@,
        "devcontainer.config_file="@ + r.config_file@,
        "devcontainer.metadata="@ + metadata_text(
            r.configuration,
            remote_folder,
            args.contains("--omit-config-remote-env-from-metadata"@),
        ),
    ] + option_values(args, "--id-label"@)
}

/// Each label as a quoted list item on a line of its own.
pub open spec fn label_lines(labels: Seq<Seq<char>>) -> Seq<char>
    decreases labels.len(),
{
    if labels.len() == 0 {
        Seq::empty()
    } else {
        label_lines(labels.drop_last()) + "\n      - '"@ + escaped(labels.last(), true) + "'"@
    }
}

/// The type of volume fields, `bind` when it is not text.
pub open spec fn type_or_bind(f: Entries) -> Seq<char> {
    match as_text(ventry(f, "type"@)) {
        Some(t) => t,
        None => "bind"@,
    }
}

/// The workspace volume: a bind mount of the workspace, short where it can be.
pub open spec fn workspace_volume(r: ResolvedConfig, remote_folder: Seq<char>) -> Option<VolumeView> {
    match definition_of_str(workspace_mount_of(r, remote_folder)) {
        None => None,
        Some(f) => if type_or_bind(f) != "bind"@ {
            None
        } else {
            match short_syntax_of(f) {
                Some(s) => Some(VolumeView::Short(s)),
                None => Some(VolumeView::Long(f)),
            }
        },
    }
}

/// The volumes of the configured mounts, in order.
pub open spec fn configured_volumes(items: Seq<JsonValue>) -> Seq<VolumeView>
    decreases items.len(),
{
    if items.len() == 0 {
        Seq::empty()
    } else {
        let rest = configured_volumes(items.drop_last());
        match configured_volume(items.last()@) {
            Some(v) => rest.push(v),
            None => rest,
        }
    }
}

/// The workspace volume, then the configured ones.
pub open spec fn override_volumes(r: ResolvedConfig, remote_folder: Seq<char>) -> Seq<VolumeView> {
    (match workspace_volume(r, remote_folder) {
        Some(v) => seq![v],
        None => Seq::empty(),
    }) + match get(r.configuration, "mounts"@) {
        Some(JsonValue::Array(items)) => configured_volumes(items@),
        _ => Seq::empty(),
    }
}

/// A volume as a list item under `volumes`.
pub open spec fn volume_yaml(v: VolumeView) -> Seq<char> {
    match v {
        VolumeView::Short(s) => yaml_item(JsonView::Str(s), 6),
        VolumeView::Long(f) => yaml_item(JsonView::Object(f), 6),
    }
}

/// The volumes, one after the other.
pub open spec fn volumes_yaml(vs: Seq<VolumeView>) -> Seq<char>
    decreases vs.len(),
{
    if vs.len() == 0 {
        Seq::empty()
    } else {
        volumes_yaml(vs.drop_last()) + volume_yaml(vs.last())
    }
}

/// `name: 'value'` for each variable.
pub open spec fn environment_yaml(env: Seq<(Seq<char>, Seq<char>)>) -> Seq<char>
    decreases env.len(),
{
    if env.len() == 0 {
        Seq::empty()
    } else {
        environment_yaml(env.drop_last()) + "      "@ + env.last().0 + ": '"@ + escaped(env.last().1, false)
            + "'\n"@
    }
}

/// `- 'value'` for each value.
pub open spec fn quoted_items(values: Seq<Seq<char>>) -> Seq<char>
    decreases values.len(),
{
    if values.len() == 0 {
        Seq::empty()
    } else {
        quoted_items(values.drop_last()) + "      - '"@ + escaped(values.last(), false) + "'\n"@
    }
}

/// The image line, when an image is given.
pub open spec fn image_part(image: Option<Seq<char>>) -> Seq<char> {
    match image {
        Some(i) => "    image: '"@ + escaped(i, false) + "'\n"@,
        None => Seq::empty(),
    }
}

/// The volumes, when there are any.
pub open spec fn volumes_part(r: ResolvedConfig, remote_folder: Seq<char>) -> Seq<char> {
    let vs = override_volumes(r, remote_folder);
    if vs.len() > 0 {
        "\n    volumes:\n"@ + volumes_yaml(vs)
    } else {
        Seq::empty()
    }
}

/// The container environment, when it has string variables.
pub open spec fn environment_part(c: JsonValue) -> Seq<char> {
    let env = object_strings(get(c, "containerEnv"@));
    if env.len() > 0 {
        "    environment:\n"@ + environment_yaml(env)
    } else {
        Seq::empty()
    }
}

/// `key: 'text'` for a string setting.
pub open spec fn string_part(c: JsonValue, key: Seq<char>, head: Seq<char>) -> Seq<char> {
    match get_str(c, key) {
        Some(u) => head + escaped(u, false) + "'\n"@,
        None => Seq::empty(),
    }
}

/// The user the service runs as: the container user, else the remote user.
pub open spec fn user_part(c: JsonValue) -> Seq<char> {
    if get_str(c, "containerUser"@) is Some {
        string_part(c, "containerUser"@, "    user: '"@)
    } else {
        string_part(c, "remoteUser"@, "    user: '"@)
    }
}

/// The lines after the labels: image, volumes, environment and user.
pub open spec fn override_middle(r: ResolvedConfig, remote_folder: Seq<char>, image: Option<Seq<char>>) -> Seq<char> {
    image_part(image) + volumes_part(r, remote_folder) + environment_part(r.configuration) + user_part(r.configuration)
}

/// `line` when the setting is `true`.
pub open spec fn flag_part(c: JsonValue, key: Seq<char>, line: Seq<char>) -> Seq<char> {
    if is_true(get(c, key)) {
        line
    } else {
        Seq::empty()
    }
}

/// The header and the quoted string items, when the setting is a list.
pub open spec fn list_part(c: JsonValue, key: Seq<char>, header: Seq<char>) -> Seq<char> {
    if get(c, key) matches Some(JsonValue::Array(_)) {
        header + quoted_items(array_strings(get(c, key)))
    } else {
        Seq::empty()
    }
}

/// The reservation of all GPUs.
pub open spec fn gpu_part(add_gpu: bool) -> Seq<char> {
    if add_gpu {
        "    deploy:\n      resources:\n        reservations:\n          devices:\n            - capabilities: [gpu]\n"@
    } else {
        Seq::empty()
    }
}

/// The lines after the user: privileges, capabilities, security options,
/// entrypoint and GPUs.
pub open spec fn override_tail(c: JsonValue, add_gpu: bool) -> Seq<char> {
    flag_part(c, "privileged"@, "    privileged: true\n"@) + flag_part(c, "init"@, "    init: true\n"@)
        + list_part(c, "capAdd"@, "    cap_add:\n"@) + list_part(c, "securityOpt"@, "    security_opt:\n"@)
        + string_part(c, "entrypoint"@, "    entrypoint: '"@) + gpu_part(add_gpu)
}

/// The override file for the service; an error when the configuration names no service.
pub open spec fn override_content(
    r: ResolvedConfig,
    args: Seq<Seq<char>>,
    remote_folder: Seq<char>,
    image: Option<Seq<char>>,
    add_gpu: bool,
) -> Result<Seq<char>, Seq<char>> {
    match get_str(r.configuration, "service"@) {
        None => Err(missing_service_message()),
        Some(service) => Ok(
            "services:\n"@ + "  '"@ + service + "':\n    labels:"@ + label_lines(
                override_labels(r, args, remote_folder),
            ) + "\n"@ + override_middle(r, remote_folder, image) + override_tail(r.configuration, add_gpu),
        ),
    }
}

fn push_lit(out: &mut Vec<char>, s: &str)
    ensures
        final(out)@ == old(out)@ + s@,
{
    let c = chars_of(s);
    append_chars(out, &c);
}

fn push_escaped(out: &mut Vec<char>, s: &str, quote_dollar: bool)
    ensures
        final(out)@ == old(out)@ + escaped(s@, quote_dollar),
{
    let e = if quote_dollar {
        escape_compose_label(s)
    } else {
        escape_compose_scalar(s)
    };
    push_lit(out, e.as_str());
}

/// The workspace volume of the service.
pub fn compose_workspace_volume(resolved: &ResolvedConfig, remote_workspace_folder: &str) -> (r: Option<ComposeVolumeEntry>)
    ensures
        match r {
            Some(e) => workspace_volume(*resolved, remote_workspace_folder@) == Some(volume_view(e)),
            None => workspace_volume(*resolved, remote_workspace_folder@) is None,
        },
{
    let mount = workspace_mount(resolved, remote_workspace_folder);
    let definition = match compose_mount_definition_from_str(mount.as_str()) {
        Some(d) => d,
        None => return None,
    };
    let is_bind = match definition.mount_type() {
        Some(t) => str_eq(t.as_str(), "bind"),
        None => true,
    };
    if !is_bind {
        return None;
    }
    match definition.short_syntax() {
        Some(s) => Some(ComposeVolumeEntry::Short(s)),
        None => Some(ComposeVolumeEntry::Long(definition)),
    }
}

fn push_volume(out: &mut Vec<char>, v: &ComposeVolumeEntry)
    ensures
        final(out)@ == old(out)@ + volume_yaml(volume_view(*v)),
{
    let mut pad: Vec<char> = Vec::new();
    let mut i: usize = 0;
    while i < 6
        invariant
            i <= 6,
            pad@ == spaces(i as nat),
        decreases 6 - i,
    {
        pad.push(' ');
        proof {
            assert(pad@ =~= spaces((i + 1) as nat));
        }
        i = i + 1;
    }
    match v {
        ComposeVolumeEntry::Short(s) => {
            let item = JsonValue::Str(crate::text::copy_string(s));
            write_item(&item, &pad, out);
        },
        ComposeVolumeEntry::Long(d) => {
            let item = JsonValue::Object(copy_fields(&d.fields));
            write_item(&item, &pad, out);
        },
    }
}

fn copy_fields(f: &Vec<(String, JsonValue)>) -> (r: Vec<(String, JsonValue)>)
    ensures
        jentries(r@) == jentries(f@),
{
    match crate::json_value::json_clone(&JsonValue::Object(copy_pairs_shallow(f))) {
        JsonValue::Object(e) => e,
        _ => Vec::new(),
    }
}

fn copy_pairs_shallow(f: &Vec<(String, JsonValue)>) -> (r: Vec<(String, JsonValue)>)
    ensures
        jentries(r@) == jentries(f@),
{
    let mut out: Vec<(String, JsonValue)> = Vec::new();
    let mut i: usize = 0;
    proof {
        crate::json_value::lemma_jentries(f@);
    }
    while i < f.len()
        invariant
            i <= f.len(),
            out@.len() == i,
            forall|q: int| 0 <= q < i ==> #[trigger] out@[q].0@ == f@[q].0@ && out@[q].1@ == f@[q].1@,
        decreases f.len() - i,
    {
        out.push((crate::text::copy_string(&f[i].0), crate::json_value::json_clone(&f[i].1)));
        i = i + 1;
    }
    proof {
        crate::json_value::lemma_jentries(out@);
        crate::json_value::lemma_jentries(f@);
        assert(jentries(out@) =~= jentries(f@));
    }
    out
}

/// The volumes of the service: the workspace, then the configured mounts.
pub fn compose_volumes(resolved: &ResolvedConfig, remote_workspace_folder: &str) -> (r: Vec<ComposeVolumeEntry>)
    ensures
        r@.map_values(|e: ComposeVolumeEntry| volume_view(e)) == override_volumes(*resolved, remote_workspace_folder@),
{
    let mut out: Vec<ComposeVolumeEntry> = Vec::new();
    match compose_workspace_volume(resolved, remote_workspace_folder) {
        Some(v) => out.push(v),
        None => {},
    }
    let ghost head = out@.map_values(|e: ComposeVolumeEntry| volume_view(e));
    proof {
        assert(head =~= match workspace_volume(*resolved, remote_workspace_folder@) {
            Some(v) => seq![v],
            None => Seq::<VolumeView>::empty(),
        });
    }
    match json_get(&resolved.configuration, "mounts") {
        Some(JsonValue::Array(items)) => {
            let mut i: usize = 0;
            proof {
                assert(items@.take(0) =~= Seq::<JsonValue>::empty());
                assert(out@.map_values(|e: ComposeVolumeEntry| volume_view(e)) =~= head + configured_volumes(
                    items@.take(0),
                ));
            }
            while i < items.len()
                invariant
                    i <= items.len(),
                    out@.map_values(|e: ComposeVolumeEntry| volume_view(e)) == head + configured_volumes(
                        items@.take(i as int),
                    ),
                decreases items.len() - i,
            {
                proof {
                    assert(items@.take(i + 1).drop_last() =~= items@.take(i as int));
                    assert(items@.take(i + 1).last() == items@[i as int]);
                }
                match compose_mount_definition(&items[i]) {
                    Some(v) => {
                        let ghost before = out@;
                        out.push(v);
                        proof {
                            assert(out@.map_values(|e: ComposeVolumeEntry| volume_view(e)) =~= before.map_values(
                                |e: ComposeVolumeEntry| volume_view(e),
                            ).push(volume_view(v)));
                        }
                    },
                    None => {},
                }
                i = i + 1;
            }
            proof {
                assert(items@.take(items.len() as int) =~= items@);
            }
        },
        _ => {
            proof {
                assert(out@.map_values(|e: ComposeVolumeEntry| volume_view(e)) =~= head + Seq::<VolumeView>::empty());
            }
        },
    }
    out
}

fn push_volumes(out: &mut Vec<char>, vs: &Vec<ComposeVolumeEntry>)
    ensures
        final(out)@ == old(out)@ + volumes_yaml(vs@.map_values(|e: ComposeVolumeEntry| volume_view(e))),
{
    let ghost start = out@;
    let ghost vv = vs@.map_values(|e: ComposeVolumeEntry| volume_view(e));
    proof {
        assert(vv.take(0) =~= Seq::<VolumeView>::empty());
    }
    let mut i: usize = 0;
    while i < vs.len()
        invariant
            i <= vs.len(),
            vv == vs@.map_values(|e: ComposeVolumeEntry| volume_view(e)),
            out@ == start + volumes_yaml(vv.take(i as int)),
        decreases vs.len() - i,
    {
        proof {
            assert(vv.take(i + 1).drop_last() =~= vv.take(i as int));
            assert(vv.take(i + 1).last() == volume_view(vs@[i as int]));
        }
        push_volume(out, &vs[i]);
        proof {
            assert(out@ =~= start + volumes_yaml(vv.take(i + 1)));
        }
        i = i + 1;
    }
    proof {
        assert(vv.take(vs.len() as int) =~= vv);
    }
}

fn push_environment(out: &mut Vec<char>, env: &Vec<(String, String)>)
    ensures
        final(out)@ == old(out)@ + environment_yaml(labels_view(env@)),
{
    let ghost start = out@;
    let ghost ev = labels_view(env@);
    proof {
        assert(ev.take(0) =~= Seq::<(Seq<char>, Seq<char>)>::empty());
    }
    let mut i: usize = 0;
    while i < env.len()
        invariant
            i <= env.len(),
            ev == labels_view(env@),
            out@ == start + environment_yaml(ev.take(i as int)),
        decreases env.len() - i,
    {
        proof {
            assert(ev.take(i + 1).drop_last() =~= ev.take(i as int));
            assert(ev.take(i + 1).last() == ev[i as int]);
        }
        push_lit(out, "      ");
        push_lit(out, env[i].0.as_str());
        push_lit(out, ": '");
        push_escaped(out, env[i].1.as_str(), false);
        push_lit(out, "'\n");
        proof {
            assert(out@ =~= start + environment_yaml(ev.take(i + 1)));
        }
        i = i + 1;
    }
    proof {
        assert(ev.take(env.len() as int) =~= ev);
    }
}

fn push_quoted_items(out: &mut Vec<char>, values: &Vec<String>)
    ensures
        final(out)@ == old(out)@ + quoted_items(views(values@)),
{
    let ghost start = out@;
    let ghost vs = views(values@);
    proof {
        assert(vs.take(0) =~= Seq::<Seq<char>>::empty());
    }
    let mut i: usize = 0;
    while i < values.len()
        invariant
            i <= values.len(),
            vs == views(values@),
            out@ == start + quoted_items(vs.take(i as int)),
        decreases values.len() - i,
    {
        proof {
            assert(vs.take(i + 1).drop_last() =~= vs.take(i as int));
            assert(vs.take(i + 1).last() == values@[i as int]@);
        }
        push_lit(out, "      - '");
        push_escaped(out, values[i].as_str(), false);
        push_lit(out, "'\n");
        proof {
            assert(out@ =~= start + quoted_items(vs.take(i + 1)));
        }
        i = i + 1;
    }
    proof {
        assert(vs.take(values.len() as int) =~= vs);
    }
}

fn push_labels(out: &mut Vec<char>, labels: &Vec<String>)
    ensures
        final(out)@ == old(out)@ + label_lines(views(labels@)),
{
    let ghost start = out@;
    let ghost vs = views(labels@);
    proof {
        assert(vs.take(0) =~= Seq::<Seq<char>>::empty());
    }
    let mut i: usize = 0;
    while i < labels.len()
        invariant
            i <= labels.len(),
            vs == views(labels@),
            out@ == start + label_lines(vs.take(i as int)),
        decreases labels.len() - i,
    {
        proof {
            assert(vs.take(i + 1).drop_last() =~= vs.take(i as int));
            assert(vs.take(i + 1).last() == labels@[i as int]@);
        }
        push_lit(out, "\n      - '");
        push_escaped(out, labels[i].as_str(), true);
        push_lit(out, "'");
        proof {
            assert(out@ =~= start + label_lines(vs.take(i + 1)));
        }
        i = i + 1;
    }
    proof {
        assert(vs.take(labels.len() as int) =~= vs);
    }
}

fn labels_of(resolved: &ResolvedConfig, args: &[String], remote_workspace_folder: &str) -> (r: Vec<String>)
    ensures
        views(r@) == override_labels(*resolved, views(args@), remote_workspace_folder@),
{
    let mut labels: Vec<String> = Vec::new();
    let mut a = String::from_str("devcontainer.local_folder=");
    a.append(resolved.workspace_folder.as_str());
    labels.push(a);
    let mut b = String::from_str("devcontainer.config_file=");
    b.append(resolved.config_file.as_str());
    labels.push(b);
    let omit = crate::args::has_flag(args, "--omit-config-remote-env-from-metadata");
    let metadata = serialized_container_metadata(&resolved.configuration, remote_workspace_folder, omit);
    let mut c = String::from_str("devcontainer.metadata=");
    c.append(metadata.as_str());
    labels.push(c);
    let ghost head = views(labels@);
    let mut extra = parse_option_values(args, "--id-label");
    let ghost ev = views(extra@);
    labels.append(&mut extra);
    proof {
        assert(views(labels@) =~= head + ev);
        assert(head =~= seq![a@, b@, c@]);
    }
    labels
}

fn push_image(out: &mut Vec<char>, image_name: Option<&str>)
    ensures
        final(out)@ == old(out)@ + image_part(
            match image_name {
                Some(i) => Some(i@),
                None => None,
            },
        ),
{
    match image_name {
        Some(i) => {
            push_lit(out, "    image: '");
            push_escaped(out, i, false);
            push_lit(out, "'\n");
        },
        None => {},
    }
    proof {
        assert(out@ =~= old(out)@ + image_part(
            match image_name {
                Some(i) => Some(i@),
                None => None,
            },
        ));
    }
}

fn push_volumes_part(out: &mut Vec<char>, resolved: &ResolvedConfig, remote_workspace_folder: &str)
    ensures
        final(out)@ == old(out)@ + volumes_part(*resolved, remote_workspace_folder@),
{
    let volumes = compose_volumes(resolved, remote_workspace_folder);
    if volumes.len() > 0 {
        push_lit(out, "\n    volumes:\n");
        push_volumes(out, &volumes);
    }
    proof {
        assert(out@ =~= old(out)@ + volumes_part(*resolved, remote_workspace_folder@));
    }
}

fn push_environment_part(out: &mut Vec<char>, c: &JsonValue)
    ensures
        final(out)@ == old(out)@ + environment_part(*c),
{
    let env = json_object_strings(json_get(c, "containerEnv"));
    if env.len() > 0 {
        push_lit(out, "    environment:\n");
        push_environment(out, &env);
    }
    proof {
        assert(out@ =~= old(out)@ + environment_part(*c));
    }
}

fn push_string_part(out: &mut Vec<char>, c: &JsonValue, key: &str, head: &str)
    ensures
        final(out)@ == old(out)@ + string_part(*c, key@, head@),
{
    match json_get_str(c, key) {
        Some(u) => {
            push_lit(out, head);
            push_escaped(out, u.as_str(), false);
            push_lit(out, "'\n");
        },
        None => {},
    }
    proof {
        assert(out@ =~= old(out)@ + string_part(*c, key@, head@));
    }
}

fn push_middle(out: &mut Vec<char>, resolved: &ResolvedConfig, remote_workspace_folder: &str, image_name: Option<&str>)
    ensures
        final(out)@ == old(out)@ + override_middle(
            *resolved,
            remote_workspace_folder@,
            match image_name {
                Some(i) => Some(i@),
                None => None,
            },
        ),
{
    let ghost s0 = out@;
    push_image(out, image_name);
    push_volumes_part(out, resolved, remote_workspace_folder);
    push_environment_part(out, &resolved.configuration);
    if json_get_str(&resolved.configuration, "containerUser").is_some() {
        push_string_part(out, &resolved.configuration, "containerUser", "    user: '");
    } else {
        push_string_part(out, &resolved.configuration, "remoteUser", "    user: '");
    }
    proof {
        let im = match image_name {
            Some(i) => Some(i@),
            None => None::<Seq<char>>,
        };
        assert(out@ =~= s0 + override_middle(*resolved, remote_workspace_folder@, im));
    }
}

fn push_string_list(out: &mut Vec<char>, c: &JsonValue, key: &str, header: &str)
    ensures
        final(out)@ == old(out)@ + list_part(*c, key@, header@),
{
    let v = json_get(c, key);
    match v {
        Some(JsonValue::Array(_)) => {
            push_lit(out, header);
            let values = json_array_strings(v);
            push_quoted_items(out, &values);
            proof {
                assert(out@ =~= old(out)@ + list_part(*c, key@, header@));
            }
        },
        _ => {
            proof {
                assert(out@ =~= old(out)@ + list_part(*c, key@, header@));
            }
        },
    }
}

fn push_flag_part(out: &mut Vec<char>, c: &JsonValue, key: &str, line: &str)
    ensures
        final(out)@ == old(out)@ + flag_part(*c, key@, line@),
{
    match json_get(c, key) {
        Some(JsonValue::Bool(true)) => push_lit(out, line),
        _ => {},
    }
    proof {
        assert(out@ =~= old(out)@ + flag_part(*c, key@, line@));
    }
}

fn push_tail(out: &mut Vec<char>, c: &JsonValue, add_gpu: bool)
    ensures
        final(out)@ == old(out)@ + override_tail(*c, add_gpu),
{
    let ghost s0 = out@;
    push_flag_part(out, c, "privileged", "    privileged: true\n");
    push_flag_part(out, c, "init", "    init: true\n");
    push_string_list(out, c, "capAdd", "    cap_add:\n");
    push_string_list(out, c, "securityOpt", "    security_opt:\n");
    push_string_part(out, c, "entrypoint", "    entrypoint: '");
    let ghost s5 = out@;
    if add_gpu {
        push_lit(
            out,
            "    deploy:\n      resources:\n        reservations:\n          devices:\n            - capabilities: [gpu]\n",
        );
    }
    proof {
        assert(out@ =~= s5 + gpu_part(add_gpu));
        assert(out@ =~= s0 + override_tail(*c, add_gpu));
    }
}

/// The text of the compose override file for the service, or the error for
/// a configuration without a service; `add_gpu` is the GPU decision already made.
pub fn compose_override_content(
    resolved: &ResolvedConfig,
    args: &[String],
    remote_workspace_folder: &str,
    image_name: Option<&str>,
    add_gpu: bool,
) -> (r: Result<String, String>)
    ensures
        match r {
            Ok(t) => override_content(
                *resolved,
                views(args@),
                remote_workspace_folder@,
                match image_name {
                    Some(i) => Some(i@),
                    None => None,
                },
                add_gpu,
            ) == Ok::<Seq<char>, Seq<char>>(t@),
            Err(e) => override_content(
                *resolved,
                views(args@),
                remote_workspace_folder@,
                match image_name {
                    Some(i) => Some(i@),
                    None => None,
                },
                add_gpu,
            ) == Err::<Seq<char>, Seq<char>>(e@),
        },
{
    let service = match json_get_str(&resolved.configuration, "service") {
        Some(s) => s,
        None => return Err(String::from_str("Compose configuration must define service")),
    };
    let labels = labels_of(resolved, args, remote_workspace_folder);
    let mut out: Vec<char> = Vec::new();
    push_lit(&mut out, "services:\n");
    push_lit(&mut out, "  '");
    push_lit(&mut out, service.as_str());
    push_lit(&mut out, "':\n    labels:");
    push_labels(&mut out, &labels);
    push_lit(&mut out, "\n");
    let ghost head = out@;
    push_middle(&mut out, resolved, remote_workspace_folder, image_name);
    push_tail(&mut out, &resolved.configuration, add_gpu);
    proof {
        let im = match image_name {
            Some(i) => Some(i@),
            None => None::<Seq<char>>,
        };
        assert(out@ =~= override_content(*resolved, views(args@), remote_workspace_folder@, im, add_gpu)->Ok_0);
    }
    Ok(string_of(&out))
}

/// `t` holds `p` somewhere.
pub open spec fn holds_text(t: Seq<char>, p: Seq<char>) -> bool {
    exists|i: int| 0 <= i && i + p.len() <= t.len() && #[trigger] t.subrange(i, i + p.len()) == p
}

proof fn lemma_holds_between(x: Seq<char>, m: Seq<char>, y: Seq<char>)
    ensures
        holds_text(x + m + y, m),
{
    let t = x + m + y;
    let i = x.len() as int;
    assert(t.subrange(i, i + m.len()) =~= m);
}

proof fn lemma_tail_requests(head: Seq<char>, c: JsonValue, add_gpu: bool)
    ensures
        is_true(get(c, "init"@)) ==> holds_text(head + override_tail(c, add_gpu), "    init: true\n"@),
        is_true(get(c, "privileged"@)) ==> holds_text(head + override_tail(c, add_gpu), "    privileged: true\n"@),
{
    let fp = flag_part(c, "privileged"@, "    privileged: true\n"@);
    let fi = flag_part(c, "init"@, "    init: true\n"@);
    let l1 = list_part(c, "capAdd"@, "    cap_add:\n"@);
    let l2 = list_part(c, "securityOpt"@, "    security_opt:\n"@);
    let sp = string_part(c, "entrypoint"@, "    entrypoint: '"@);
    let g = gpu_part(add_gpu);
    let rest = l1 + l2 + sp + g;
    assert(override_tail(c, add_gpu) == fp + fi + l1 + l2 + sp + g);
    assert(head + (fp + fi + l1 + l2 + sp + g) =~= (head + fp) + fi + rest);
    assert(head + (fp + fi + l1 + l2 + sp + g) =~= head + fp + (fi + rest));
    if is_true(get(c, "init"@)) {
        assert(fi == "    init: true\n"@);
        lemma_holds_between(head + fp, fi, rest);
    }
    if is_true(get(c, "privileged"@)) {
        assert(fp == "    privileged: true\n"@);
        lemma_holds_between(head, fp, fi + rest);
    }
}

/// The override file asks compose for what the configuration turns on: a
/// configuration that names a service gets a file, and that file requests
/// an init process when `init` is `true` and a privileged container when
/// `privileged` is `true`.
pub proof fn lemma_override_requests_init_and_privileged(
    r: ResolvedConfig,
    args: Seq<Seq<char>>,
    remote_folder: Seq<char>,
    image: Option<Seq<char>>,
    add_gpu: bool,
)
    ensures
        get_str(r.configuration, "service"@) is Some ==> override_content(r, args, remote_folder, image, add_gpu) is Ok,
        override_content(r, args, remote_folder, image, add_gpu) matches Ok(t) ==> (is_true(get(r.configuration, "init"@))
            ==> holds_text(t, "    init: true\n"@)),
        override_content(r, args, remote_folder, image, add_gpu) matches Ok(t) ==> (is_true(get(r.configuration, "privileged"@))
            ==> holds_text(t, "    privileged: true\n"@)),
{
    match get_str(r.configuration, "service"@) {
        None => {},
        Some(service) => {
            let head = "services:\n"@ + "  '"@ + service + "':\n    labels:"@ + label_lines(override_labels(r, args, remote_folder))
                + "\n"@ + override_middle(r, remote_folder, image);
            lemma_tail_requests(head, r.configuration, add_gpu);
        },
    }
}

} // verus!
