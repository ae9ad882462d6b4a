//! What the feature and template collection commands answer: the summary of
//! a feature's manifest, a template's metadata, the manifest of a published
//! template, the configuration a catalog template writes, and the README
//! generated from a manifest.
use vstd::prelude::*;
use crate::collections::{collection_reference_version, collection_slug, humanize_collection_slug, humanized, normalize_collection_reference, normalized_reference, reference_version, slug_of};
use crate::feature_resolution::{object_from, object_of, published_feature_manifest, published_manifest_of, text};
use crate::json_object::Entries;
use crate::json_value::{json_clone, json_get, json_get_str, lemma_get_view, vget, JsonValue, JsonView};
use crate::args::{has_flag, option_value, parse_option_value};
use crate::devcontainer_id::{chars_lt, key_lt};
use crate::text::{append_chars, chars_of, decimal, find, find_chars, starts_with, str_eq, str_starts_with, string_of, usize_to_string, views};

verus! {

/// The value at `key`, or `default` when there is none.
pub open spec fn got_or(m: JsonView, key: Seq<char>, default: JsonView) -> JsonView {
    match vget(m, key) {
        Some(v) => v,
        None => default,
    }
}

/// The text of the string at `key`.
pub open spec fn vstr(m: JsonView, key: Seq<char>) -> Option<Seq<char>> {
    match vget(m, key) {
        Some(JsonView::Str(s)) => Some(s),
        _ => None,
    }
}

fn value_or(m: &JsonValue, key: &str, default: JsonValue) -> (r: JsonValue)
    ensures
        r@ == got_or(m@, key@, default@),
{
    proof {
        lemma_get_view(*m, key@);
    }
    match json_get(m, key) {
        Some(v) => json_clone(v),
        None => default,
    }
}

fn str_or(m: &JsonValue, key: &str, default: &str) -> (r: String)
    ensures
        r@ == match vstr(m@, key@) {
            Some(s) => s,
            None => default@,
        },
{
    proof {
        lemma_get_view(*m, key@);
    }
    match json_get_str(m, key) {
        Some(s) => s,
        None => String::from_str(default),
    }
}

fn pair(k: &str, v: JsonValue) -> (r: (String, JsonValue))
    ensures
        r.0@ == k@,
        r.1@ == v@,
{
    (String::from_str(k), v)
}

fn empty_object() -> (r: JsonValue)
    ensures
        r@ == object_of(Seq::empty()),
{
    object_from(Vec::new())
}

/// The summary `features info manifest` prints of a manifest.
pub open spec fn feature_info_of(manifest: JsonView) -> JsonView {
    object_of(
        seq![
            ("id"@, got_or(manifest, "id"@, text("unknown"@))),
            ("name"@, got_or(manifest, "name"@, text("unknown"@))),
            ("version"@, got_or(manifest, "version"@, text("0.0.0"@))),
            ("options"@, got_or(manifest, "options"@, object_of(Seq::empty()))),
        ],
    )
}

/// The summary of a feature's manifest: its identifier, name, version and options.
pub fn feature_info_payload(manifest: &JsonValue) -> (r: JsonValue)
    ensures
        r@ == feature_info_of(manifest@),
{
    let pairs = vec![
        pair("id", value_or(manifest, "id", JsonValue::Str(String::from_str("unknown")))),
        pair("name", value_or(manifest, "name", JsonValue::Str(String::from_str("unknown")))),
        pair("version", value_or(manifest, "version", JsonValue::Str(String::from_str("0.0.0")))),
        pair("options", value_or(manifest, "options", empty_object())),
    ];
    let r = object_from(pairs);
    proof {
        assert(crate::json_value::jentries(pairs@) =~= seq![
            ("id"@, got_or(manifest@, "id"@, text("unknown"@))),
            ("name"@, got_or(manifest@, "name"@, text("unknown"@))),
            ("version"@, got_or(manifest@, "version"@, text("0.0.0"@))),
            ("options"@, got_or(manifest@, "options"@, object_of(Seq::empty()))),
        ]) by {
            crate::json_value::lemma_jentries(pairs@);
        }
    }
    r
}

/// `features info <mode> <feature>`: the summary of the manifest of a
/// published feature, or of the local feature's manifest as read
/// (`local_manifest`, consulted only for a path that is not a published
/// reference).
pub fn build_feature_info_payload(mode: &str, feature_path: &str, local_manifest: Result<JsonValue, String>) -> (r: Result<JsonValue, String>)
    ensures
        mode@ != "manifest"@ ==> (r matches Err(e) && e@ == "Unsupported features info mode: "@ + mode@),
        mode@ == "manifest"@ && starts_with(feature_path@, "ghcr.io/"@) ==> match published_manifest_of(feature_path@) {
            Some(m) => r matches Ok(p) && p@ == feature_info_of(m),
            None => r matches Err(e) && e@ == "Unknown published feature: "@ + feature_path@,
        },
        mode@ == "manifest"@ && !starts_with(feature_path@, "ghcr.io/"@) ==> match local_manifest {
            Ok(m) => r matches Ok(p) && p@ == feature_info_of(m@),
            Err(x) => r matches Err(e) && e@ == x@,
        },
{
    if !str_eq(mode, "manifest") {
        let mut msg = chars_of("Unsupported features info mode: ");
        append_chars(&mut msg, &chars_of(mode));
        return Err(string_of(&msg));
    }
    if str_starts_with(feature_path, "ghcr.io/") {
        match published_feature_manifest(feature_path) {
            Some(m) => Ok(feature_info_payload(&m)),
            None => {
                let mut msg = chars_of("Unknown published feature: ");
                append_chars(&mut msg, &chars_of(feature_path));
                Err(string_of(&msg))
            },
        }
    } else {
        match local_manifest {
            Ok(m) => Ok(feature_info_payload(&m)),
            Err(e) => Err(e),
        }
    }
}

/// The slugs of the templates whose sources come with the tool.
pub open spec fn is_embedded_slug(s: Seq<char>) -> bool {
    s == "alpine"@ || s == "cpp"@ || s == "mytemplate"@ || s == "node-mongo"@
}

/// The slug of the embedded template a reference names, if it names one.
pub open spec fn embedded_slug_of(reference: Seq<char>) -> Option<Seq<char>> {
    let s = slug_of(reference);
    if is_embedded_slug(s) {
        Some(s)
    } else {
        None
    }
}

/// The slug of the embedded template that `reference` names, if any: the
/// directory whose `devcontainer-template.json` holds its manifest.
pub fn embedded_template_slug(reference: &str) -> (r: Option<String>)
    ensures
        crate::text::opt_view(r) == embedded_slug_of(reference@),
{
    let s = match collection_slug(reference) {
        Some(s) => s,
        None => String::new(),
    };
    if str_eq(s.as_str(), "alpine") || str_eq(s.as_str(), "cpp") || str_eq(s.as_str(), "mytemplate") || str_eq(
        s.as_str(),
        "node-mongo",
    ) {
        Some(s)
    } else {
        None
    }
}

/// The manifest of a published template: the known one, else that of the
/// embedded template the reference names (`embedded`, as parsed from its
/// file, when it parsed), else for any other template reference a generic
/// one named after its slug.
pub open spec fn published_template_of(template_id: Seq<char>, embedded: Option<JsonView>) -> Option<JsonView> {
    let n = normalized_reference(template_id);
    if n == "ghcr.io/devcontainers/templates/docker-from-docker"@ {
        Some(
            object_of(
                seq![
                    ("id"@, text("docker-from-docker"@)),
                    ("name"@, text("Docker from Docker"@)),
                    ("description"@, text("Create a dev container with Docker available inside the container."@)),
                    ("version"@, text("1.0.0"@)),
                ],
            ),
        )
    } else if embedded_slug_of(n) is Some && embedded is Some {
        embedded
    } else if find(n, "/templates/"@) is Some {
        let slug = slug_of(n);
        Some(
            object_of(
                seq![
                    ("id"@, text(slug)),
                    ("name"@, text(humanized(slug))),
                    ("description"@, text(Seq::empty())),
                    ("version"@, text(reference_version(template_id))),
                ],
            ),
        )
    } else {
        None
    }
}

/// The manifest of a published template; `embedded` is the parsed manifest
/// of the embedded template that the reference names, when there is one.
pub fn published_template_manifest(template_id: &str, embedded: Option<&JsonValue>) -> (r: Option<JsonValue>)
    ensures
        match r {
            Some(m) => published_template_of(template_id@, match embedded {
                Some(e) => Some(e@),
                None => None,
            }) == Some(m@),
            None => published_template_of(template_id@, match embedded {
                Some(e) => Some(e@),
                None => None,
            }) is None,
        },
{
    let n = normalize_collection_reference(template_id);
    if str_eq(n.as_str(), "ghcr.io/devcontainers/templates/docker-from-docker") {
        let pairs = vec![
            pair("id", JsonValue::Str(String::from_str("docker-from-docker"))),
            pair("name", JsonValue::Str(String::from_str("Docker from Docker"))),
            pair(
                "description",
                JsonValue::Str(String::from_str("Create a dev container with Docker available inside the container.")),
            ),
            pair("version", JsonValue::Str(String::from_str("1.0.0"))),
        ];
        proof {
            crate::json_value::lemma_jentries(pairs@);
            assert(crate::json_value::jentries(pairs@) =~= seq![
                ("id"@, text("docker-from-docker"@)),
                ("name"@, text("Docker from Docker"@)),
                ("description"@, text("Create a dev container with Docker available inside the container."@)),
                ("version"@, text("1.0.0"@)),
            ]);
        }
        return Some(object_from(pairs));
    }
    match (embedded_template_slug(n.as_str()), embedded) {
        (Some(_), Some(e)) => {
            return Some(json_clone(e));
        },
        _ => {},
    }
    let nv = chars_of(n.as_str());
    let pat = chars_of("/templates/");
    match find_chars(&nv, &pat, 0) {
        None => None,
        Some(_) => {
            let slug = match collection_slug(n.as_str()) {
                Some(s) => s,
                None => String::new(),
            };
            let name = humanize_collection_slug(slug.as_str());
            let version = collection_reference_version(template_id);
            let pairs = vec![
                pair("id", JsonValue::Str(slug)),
                pair("name", JsonValue::Str(name)),
                pair("description", JsonValue::Str(String::new())),
                pair("version", JsonValue::Str(version)),
            ];
            proof {
                crate::json_value::lemma_jentries(pairs@);
                assert(crate::json_value::jentries(pairs@) =~= seq![
                    ("id"@, text(slug_of(n@))),
                    ("name"@, text(humanized(slug_of(n@)))),
                    ("description"@, text(Seq::empty())),
                    ("version"@, text(reference_version(template_id@))),
                ]);
            }
            Some(object_from(pairs))
        },
    }
}

/// The metadata `templates metadata` prints of a manifest.
pub open spec fn template_metadata_of(manifest: JsonView) -> JsonView {
    object_of(
        seq![
            ("id"@, got_or(manifest, "id"@, text("unknown"@))),
            ("name"@, got_or(manifest, "name"@, text("unknown"@))),
            ("description"@, got_or(manifest, "description"@, text(Seq::empty()))),
        ],
    )
}

/// The metadata of a template's manifest: its identifier, name and description.
pub fn template_metadata_payload(manifest: &JsonValue) -> (r: JsonValue)
    ensures
        r@ == template_metadata_of(manifest@),
{
    let pairs = vec![
        pair("id", value_or(manifest, "id", JsonValue::Str(String::from_str("unknown")))),
        pair("name", value_or(manifest, "name", JsonValue::Str(String::from_str("unknown")))),
        pair("description", value_or(manifest, "description", JsonValue::Str(String::new()))),
    ];
    proof {
        crate::json_value::lemma_jentries(pairs@);
        assert(crate::json_value::jentries(pairs@) =~= seq![
            ("id"@, got_or(manifest@, "id"@, text("unknown"@))),
            ("name"@, got_or(manifest@, "name"@, text("unknown"@))),
            ("description"@, got_or(manifest@, "description"@, text(Seq::empty()))),
        ]);
    }
    object_from(pairs)
}

/// `templates metadata <template>`: the metadata of a published template's
/// manifest, or of the local template's manifest as read.
pub fn build_template_metadata_payload(
    template_path: &str,
    local_manifest: Result<JsonValue, String>,
    embedded: Option<&JsonValue>,
) -> (r: Result<JsonValue, String>)
    ensures
        starts_with(template_path@, "ghcr.io/"@) ==> match published_template_of(template_path@, match embedded {
            Some(e) => Some(e@),
            None => None,
        }) {
            Some(m) => r matches Ok(p) && p@ == template_metadata_of(m),
            None => r matches Err(e) && e@ == "Unknown published template: "@ + template_path@,
        },
        !starts_with(template_path@, "ghcr.io/"@) ==> match local_manifest {
            Ok(m) => r matches Ok(p) && p@ == template_metadata_of(m@),
            Err(x) => r matches Err(e) && e@ == x@,
        },
{
    if str_starts_with(template_path, "ghcr.io/") {
        match published_template_manifest(template_path, embedded) {
            Some(m) => Ok(template_metadata_payload(&m)),
            None => {
                let mut msg = chars_of("Unknown published template: ");
                append_chars(&mut msg, &chars_of(template_path));
                Err(string_of(&msg))
            },
        }
    } else {
        match local_manifest {
            Ok(m) => Ok(template_metadata_payload(&m)),
            Err(e) => Err(e),
        }
    }
}

/// The extra features a template is applied with, by identifier: each item
/// with a string `id`, with its `options` (an empty object when it has none).
pub open spec fn extra_feature_pairs(items: Seq<JsonView>) -> Entries
    decreases items.len(),
{
    if items.len() == 0 {
        Seq::empty()
    } else {
        let rest = extra_feature_pairs(items.drop_last());
        match vstr(items.last(), "id"@) {
            Some(id) => rest.push((id, got_or(items.last(), "options"@, object_of(Seq::empty())))),
            None => rest,
        }
    }
}

/// The features a catalog template declares, put in one after the other:
/// common utilities and Docker from Docker with options from the template
/// arguments, then the extra features.
pub open spec fn catalog_template_features(template_args: JsonView, extra: JsonView) -> Entries {
    seq![
        (
            "ghcr.io/devcontainers/features/common-utils:1"@,
            object_of(
                seq![
                    ("installZsh"@, got_or(template_args, "installZsh"@, text("true"@))),
                    ("upgradePackages"@, got_or(template_args, "upgradePackages"@, text("false"@))),
                ],
            ),
        ),
        (
            "ghcr.io/devcontainers/features/docker-from-docker:1"@,
            object_of(
                seq![
                    ("version"@, got_or(template_args, "dockerVersion"@, text("latest"@))),
                    ("moby"@, got_or(template_args, "moby"@, text("true"@))),
                    ("enableNonRootDocker"@, got_or(template_args, "enableNonRootDocker"@, text("true"@))),
                ],
            ),
        ),
    ] + match extra {
        JsonView::Array(items) => extra_feature_pairs(items),
        _ => Seq::empty(),
    }
}

/// The configuration a catalog template writes.
pub open spec fn catalog_template_config_of(manifest: JsonView, template_args: JsonView, extra: JsonView) -> JsonView {
    object_of(
        seq![
            ("name"@, got_or(manifest, "name"@, text("Docker from Docker"@))),
            ("image"@, text("mcr.microsoft.com/devcontainers/base:ubuntu"@)),
            ("features"@, object_of(catalog_template_features(template_args, extra))),
        ],
    )
}

fn option_pair(args: &JsonValue, option: &str, key: &str, default: &str) -> (r: (String, JsonValue))
    ensures
        r.0@ == option@,
        r.1@ == got_or(args@, key@, text(default@)),
{
    pair(option, value_or(args, key, JsonValue::Str(String::from_str(default))))
}

fn catalog_template_feature_pairs(template_args: &JsonValue, extra: &JsonValue) -> (r: Vec<(String, JsonValue)>)
    ensures
        crate::json_value::jentries(r@) == catalog_template_features(template_args@, extra@),
{
    let common = vec![
        option_pair(template_args, "installZsh", "installZsh", "true"),
        option_pair(template_args, "upgradePackages", "upgradePackages", "false"),
    ];
    let docker = vec![
        option_pair(template_args, "version", "dockerVersion", "latest"),
        option_pair(template_args, "moby", "moby", "true"),
        option_pair(template_args, "enableNonRootDocker", "enableNonRootDocker", "true"),
    ];
    proof {
        crate::json_value::lemma_jentries(common@);
        crate::json_value::lemma_jentries(docker@);
        assert(crate::json_value::jentries(common@) =~= seq![
            ("installZsh"@, got_or(template_args@, "installZsh"@, text("true"@))),
            ("upgradePackages"@, got_or(template_args@, "upgradePackages"@, text("false"@))),
        ]);
        assert(crate::json_value::jentries(docker@) =~= seq![
            ("version"@, got_or(template_args@, "dockerVersion"@, text("latest"@))),
            ("moby"@, got_or(template_args@, "moby"@, text("true"@))),
            ("enableNonRootDocker"@, got_or(template_args@, "enableNonRootDocker"@, text("true"@))),
        ]);
    }
    let mut out: Vec<(String, JsonValue)> = vec![
        pair("ghcr.io/devcontainers/features/common-utils:1", object_from(common)),
        pair("ghcr.io/devcontainers/features/docker-from-docker:1", object_from(docker)),
    ];
    let ghost head = crate::json_value::jentries(out@);
    proof {
        crate::json_value::lemma_jentries(out@);
        assert(head + Seq::<(Seq<char>, JsonView)>::empty() =~= head);
    }
    match extra {
        JsonValue::Array(items) => {
            proof {
                crate::json_value::lemma_jviews(items@);
                assert(crate::json_value::jviews(items@).take(0) =~= Seq::<JsonView>::empty());
            }
            let mut i: usize = 0;
            while i < items.len()
                invariant
                    i <= items.len(),
                    crate::json_value::jviews(items@).len() == items@.len(),
                    forall|q: int| 0 <= q < items@.len() ==> #[trigger] crate::json_value::jviews(items@)[q] == items@[q]@,
                    crate::json_value::jentries(out@) == head + extra_feature_pairs(crate::json_value::jviews(items@).take(i as int)),
                decreases items.len() - i,
            {
                let ghost vs = crate::json_value::jviews(items@);
                proof {
                    assert(vs.take(i + 1).drop_last() =~= vs.take(i as int));
                    assert(vs.take(i + 1).last() == items@[i as int]@);
                    lemma_get_view(items@[i as int], "id"@);
                }
                let ghost before = out@;
                match json_get_str(&items[i], "id") {
                    Some(id) => {
                        let options = value_or(&items[i], "options", empty_object());
                        out.push((id, options));
                        proof {
                            crate::json_value::lemma_jentries(before);
                            crate::json_value::lemma_jentries(out@);
                            assert(crate::json_value::jentries(out@) =~= crate::json_value::jentries(before).push(
                                (out@.last().0@, out@.last().1@),
                            ));
                        }
                    },
                    None => {},
                }
                i = i + 1;
            }
            proof {
                assert(crate::json_value::jviews(items@).take(items.len() as int) =~= crate::json_value::jviews(items@));
            }
        },
        _ => {},
    }
    out
}

/// The configuration a catalog template writes: named after the template,
/// on the base image, with its features.
pub fn catalog_template_config(manifest: &JsonValue, template_args: &JsonValue, extra: &JsonValue) -> (r: JsonValue)
    ensures
        r@ == catalog_template_config_of(manifest@, template_args@, extra@),
{
    let features = catalog_template_feature_pairs(template_args, extra);
    let pairs = vec![
        pair("name", value_or(manifest, "name", JsonValue::Str(String::from_str("Docker from Docker")))),
        pair("image", JsonValue::Str(String::from_str("mcr.microsoft.com/devcontainers/base:ubuntu"))),
        pair("features", object_from(features)),
    ];
    proof {
        crate::json_value::lemma_jentries(pairs@);
        assert(crate::json_value::jentries(pairs@) =~= seq![
            ("name"@, got_or(manifest@, "name"@, text("Docker from Docker"@))),
            ("image"@, text("mcr.microsoft.com/devcontainers/base:ubuntu"@)),
            ("features"@, object_of(catalog_template_features(template_args@, extra@))),
        ]);
    }
    object_from(pairs)
}

/// The view of an optional value, or `default`.
pub open spec fn view_or(v: Option<JsonValue>, default: JsonView) -> JsonView {
    match v {
        Some(x) => x@,
        None => default,
    }
}

/// Applying a published template: the configuration it writes, from the
/// template's manifest, the parsed `--template-args` (an empty object when
/// not given) and the parsed `--features` (an empty list when not given).
/// An unknown template, then a value that did not parse, is an error.
pub fn catalog_template_configuration(
    template_id: &str,
    manifest: Option<&JsonValue>,
    template_args: Result<Option<JsonValue>, String>,
    extra_features: Result<Option<JsonValue>, String>,
) -> (r: Result<JsonValue, String>)
    ensures
        match manifest {
            None => r matches Err(e) && e@ == "Unknown published template: "@ + template_id@,
            Some(m) => match (template_args, extra_features) {
                (Err(x), _) => r matches Err(e) && e@ == x@,
                (Ok(_), Err(x)) => r matches Err(e) && e@ == x@,
                (Ok(a), Ok(f)) => r matches Ok(c) && c@ == catalog_template_config_of(
                    m@,
                    view_or(a, JsonView::Object(Seq::empty())),
                    view_or(f, JsonView::Array(Seq::empty())),
                ),
            },
        },
{
    let m = match manifest {
        None => {
            let mut msg = chars_of("Unknown published template: ");
            append_chars(&mut msg, &chars_of(template_id));
            return Err(string_of(&msg));
        },
        Some(m) => m,
    };
    let args = match template_args {
        Err(e) => return Err(e),
        Ok(Some(a)) => a,
        Ok(None) => JsonValue::Object(Vec::new()),
    };
    let extra = match extra_features {
        Err(e) => return Err(e),
        Ok(Some(f)) => f,
        Ok(None) => JsonValue::Array(Vec::new()),
    };
    proof {
        assert(crate::json_value::jentries(Seq::empty()) =~= Seq::<(Seq<char>, JsonView)>::empty());
        assert(crate::json_value::jviews(Seq::empty()) =~= Seq::<JsonView>::empty());
    }
    Ok(catalog_template_config(m, &args, &extra))
}

/// Where a collection's README points: its registry and namespace, and
/// the repository holding its sources.
pub struct ManifestDocOptions {
    pub registry: Option<String>,
    pub namespace: Option<String>,
    pub github_owner: Option<String>,
    pub github_repo: Option<String>,
}

/// The README generated from a manifest: its name (or the fallback title)
/// and description, then its OCI reference when the registry, namespace and
/// identifier are known, then its source repository when known.
pub open spec fn manifest_docs_of(
    manifest: JsonView,
    fallback_title: Seq<char>,
    registry: Option<Seq<char>>,
    namespace: Option<Seq<char>>,
    owner: Option<Seq<char>>,
    repo: Option<Seq<char>>,
) -> Seq<char> {
    let name = match vstr(manifest, "name"@) {
        Some(s) => s,
        None => fallback_title,
    };
    let description = match vstr(manifest, "description"@) {
        Some(s) => s,
        None => "Generated documentation."@,
    };
    let oci = match (registry, namespace, vstr(manifest, "id"@)) {
        (Some(r), Some(n), Some(id)) => "\n## OCI Reference\n\n`"@ + r + "/"@ + n + "/"@ + id + "`\n"@,
        _ => Seq::empty(),
    };
    let source = match (owner, repo) {
        (Some(o), Some(p)) => "\n## Source Repository\n\nhttps://github.com/"@ + o + "/"@ + p + "\n"@,
        _ => Seq::empty(),
    };
    "# "@ + name + "\n\n"@ + description + "\n"@ + oci + source
}

/// The README text generated from a manifest.
pub fn manifest_docs_contents(manifest: &JsonValue, fallback_title: &str, options: &ManifestDocOptions) -> (r: String)
    ensures
        r@ == manifest_docs_of(
            manifest@,
            fallback_title@,
            crate::text::opt_view(options.registry),
            crate::text::opt_view(options.namespace),
            crate::text::opt_view(options.github_owner),
            crate::text::opt_view(options.github_repo),
        ),
{
    proof {
        lemma_get_view(*manifest, "id"@);
    }
    let name = str_or(manifest, "name", fallback_title);
    let description = str_or(manifest, "description", "Generated documentation.");
    let mut out = chars_of("# ");
    append_chars(&mut out, &chars_of(name.as_str()));
    append_chars(&mut out, &chars_of("\n\n"));
    append_chars(&mut out, &chars_of(description.as_str()));
    append_chars(&mut out, &chars_of("\n"));
    let ghost head = out@;
    match (&options.registry, &options.namespace, json_get_str(manifest, "id")) {
        (Some(r), Some(n), Some(id)) => {
            append_chars(&mut out, &chars_of("\n## OCI Reference\n\n`"));
            append_chars(&mut out, &chars_of(r.as_str()));
            append_chars(&mut out, &chars_of("/"));
            append_chars(&mut out, &chars_of(n.as_str()));
            append_chars(&mut out, &chars_of("/"));
            append_chars(&mut out, &chars_of(id.as_str()));
            append_chars(&mut out, &chars_of("`\n"));
        },
        _ => {},
    }
    let ghost mid = out@;
    match (&options.github_owner, &options.github_repo) {
        (Some(o), Some(p)) => {
            append_chars(&mut out, &chars_of("\n## Source Repository\n\nhttps://github.com/"));
            append_chars(&mut out, &chars_of(o.as_str()));
            append_chars(&mut out, &chars_of("/"));
            append_chars(&mut out, &chars_of(p.as_str()));
            append_chars(&mut out, &chars_of("\n"));
        },
        _ => {},
    }
    let r = string_of(&out);
    proof {
        let oci = match (crate::text::opt_view(options.registry), crate::text::opt_view(options.namespace), vstr(manifest@, "id"@)) {
            (Some(r), Some(n), Some(id)) => "\n## OCI Reference\n\n`"@ + r + "/"@ + n + "/"@ + id + "`\n"@,
            _ => Seq::empty(),
        };
        assert(mid =~= head + oci);
    }
    r
}

/// A directory under a feature project's `test` directory: its name,
/// whether it holds `test.sh` and `duplicate.sh`, and the scenario names
/// that its `scenarios.json` declares.
pub struct ScenarioDirectory {
    pub name: String,
    pub has_test_script: bool,
    pub has_duplicate_script: bool,
    pub named_scenarios: Vec<String>,
}

/// The scenario that runs a feature's test twice.
pub open spec fn duplicate_scenario(name: Seq<char>) -> Seq<char> {
    name + " executed twice with randomized options"@
}

/// The scenarios a test directory contributes: `_global` its named ones
/// unless one feature is picked; another directory, unless a different
/// feature is picked, its generated test, its duplicate test (each unless
/// skipped) and its named ones.
pub open spec fn directory_scenarios(
    d: ScenarioDirectory,
    feature_filter: Option<Seq<char>>,
    skip_autogenerated: bool,
    skip_duplicated: bool,
) -> Seq<Seq<char>> {
    if d.name@ == "_global"@ {
        if feature_filter is None {
            views(d.named_scenarios@)
        } else {
            Seq::empty()
        }
    } else if feature_filter is Some && feature_filter.unwrap() != d.name@ {
        Seq::empty()
    } else {
        (if d.has_test_script && !skip_autogenerated {
            seq![d.name@]
        } else {
            Seq::empty()
        }) + (if d.has_duplicate_script && !skip_duplicated {
            seq![duplicate_scenario(d.name@)]
        } else {
            Seq::empty()
        }) + views(d.named_scenarios@)
    }
}

/// The scenarios of the test directories, one directory after the other.
pub open spec fn scenario_candidates(
    ds: Seq<ScenarioDirectory>,
    feature_filter: Option<Seq<char>>,
    skip_autogenerated: bool,
    skip_duplicated: bool,
) -> Seq<Seq<char>>
    decreases ds.len(),
{
    if ds.len() == 0 {
        Seq::empty()
    } else {
        scenario_candidates(ds.drop_last(), feature_filter, skip_autogenerated, skip_duplicated) + directory_scenarios(
            ds.last(),
            feature_filter,
            skip_autogenerated,
            skip_duplicated,
        )
    }
}

/// Names strictly increase along the sequence.
pub open spec fn names_sorted(s: Seq<Seq<char>>) -> bool {
    forall|i: int, j: int| 0 <= i < j < s.len() ==> key_lt(#[trigger] s[i], #[trigger] s[j])
}

/// A scenario passes the `--filter` when it contains the filter's text.
pub open spec fn passes_filter(x: Seq<char>, filter: Option<Seq<char>>) -> bool {
    match filter {
        Some(f) => find(x, f) is Some,
        None => true,
    }
}

/// The feature picked by `-f`, else by `--features`.
pub open spec fn feature_filter_of(args: Seq<Seq<char>>) -> Option<Seq<char>> {
    match option_value(args, "-f"@) {
        Some(f) => Some(f),
        None => option_value(args, "--features"@),
    }
}

/// `(a + b)` holds what `a` or `b` holds.
pub proof fn lemma_contains_concat(a: Seq<Seq<char>>, b: Seq<Seq<char>>, y: Seq<char>)
    ensures
        (a + b).contains(y) <==> (a.contains(y) || b.contains(y)),
{
    if (a + b).contains(y) {
        let k = choose|k: int| 0 <= k < (a + b).len() && (a + b)[k] == y;
        if k < a.len() {
            assert(a[k] == y);
        } else {
            assert(b[k - a.len()] == y);
        }
    }
    if a.contains(y) {
        let k = choose|k: int| 0 <= k < a.len() && a[k] == y;
        assert((a + b)[k] == y);
    }
    if b.contains(y) {
        let k = choose|k: int| 0 <= k < b.len() && b[k] == y;
        assert((a + b)[k + a.len()] == y);
    }
}

fn sorted_position(out: &Vec<String>, xv: &Vec<char>) -> (p: usize)
    ensures
        p <= out.len(),
        forall|k: int| 0 <= k < p ==> key_lt(#[trigger] views(out@)[k], xv@),
        p < out.len() ==> !key_lt(views(out@)[p as int], xv@),
{
    let mut p: usize = 0;
    while p < out.len()
        invariant
            p <= out.len(),
            forall|k: int| 0 <= k < p ==> key_lt(#[trigger] views(out@)[k], xv@),
        decreases out.len() - p,
    {
        let cur = chars_of(out[p].as_str());
        proof {
            assert(views(out@)[p as int] == out@[p as int]@);
        }
        if !chars_lt(&cur, xv) {
            return p;
        }
        p = p + 1;
    }
    p
}

fn insert_name(out: &mut Vec<String>, x: String)
    requires
        names_sorted(views(old(out)@)),
    ensures
        names_sorted(views(final(out)@)),
        forall|y: Seq<char>| views(final(out)@).contains(y) <==> (views(old(out)@).contains(y) || y == x@),
{
    let ghost v = views(out@);
    let xv = chars_of(x.as_str());
    let p = sorted_position(out, &xv);
    if p < out.len() && str_eq(out[p].as_str(), x.as_str()) {
        proof {
            assert(v[p as int] == x@);
            assert forall|y: Seq<char>| v.contains(y) <==> (v.contains(y) || y == x@) by {
                if y == x@ {
                    assert(v[p as int] == y);
                }
            }
        }
        return;
    }
    proof {
        if p < v.len() {
            assert(v[p as int] != x@);
            assert(!key_lt(v[p as int], x@));
            crate::devcontainer_id::lemma_key_lt_total(v[p as int], x@);
        }
    }
    out.insert(p, x);
    proof {
        let w = views(out@);
        assert(w =~= v.insert(p as int, xv@));
        assert forall|i: int, j: int| 0 <= i < j < w.len() implies key_lt(#[trigger] w[i], #[trigger] w[j]) by {
            if j < p {
                assert(w[i] == v[i] && w[j] == v[j]);
            } else if j == p {
                assert(w[i] == v[i]);
            } else if i < p {
                assert(w[i] == v[i] && w[j] == v[j - 1]);
            } else if i == p {
                assert(w[j] == v[j - 1]);
                if j - 1 > p {
                    assert(key_lt(v[p as int], v[j - 1]));
                    crate::devcontainer_id::lemma_key_lt_transitive(x@, v[p as int], v[j - 1]);
                }
            } else {
                assert(w[i] == v[i - 1] && w[j] == v[j - 1]);
            }
        }
        assert forall|y: Seq<char>| w.contains(y) <==> (v.contains(y) || y == x@) by {
            if w.contains(y) {
                let k = choose|k: int| 0 <= k < w.len() && w[k] == y;
                if k < p {
                    assert(v[k] == y);
                } else if k > p {
                    assert(v[k - 1] == y);
                }
            }
            if v.contains(y) {
                let k = choose|k: int| 0 <= k < v.len() && v[k] == y;
                if k < p {
                    assert(w[k] == y);
                } else {
                    assert(w[k + 1] == y);
                }
            }
            if y == x@ {
                assert(w[p as int] == y);
            }
        }
    }
}

fn copy_names(v: &Vec<String>) -> (r: Vec<String>)
    ensures
        views(r@) == views(v@),
{
    let mut r: Vec<String> = Vec::new();
    let mut i: usize = 0;
    while i < v.len()
        invariant
            i <= v.len(),
            views(r@) == views(v@).take(i as int),
        decreases v.len() - i,
    {
        let c = crate::text::copy_string(&v[i]);
        let ghost old_r = r@;
        r.push(c);
        proof {
            assert(views(r@) =~= views(old_r).push(c@));
            assert(views(r@) =~= views(v@).take(i + 1));
        }
        i = i + 1;
    }
    proof {
        assert(views(v@).take(v.len() as int) =~= views(v@));
    }
    r
}

fn directory_scenario_list(
    d: &ScenarioDirectory,
    feature_filter: &Option<String>,
    skip_autogenerated: bool,
    skip_duplicated: bool,
) -> (r: Vec<String>)
    ensures
        views(r@) == directory_scenarios(*d, crate::text::opt_view(*feature_filter), skip_autogenerated, skip_duplicated),
{
    if str_eq(d.name.as_str(), "_global") {
        return match feature_filter {
            None => copy_names(&d.named_scenarios),
            Some(_) => {
                proof {
                    assert(views(Seq::<String>::empty()) =~= Seq::<Seq<char>>::empty());
                }
                Vec::new()
            },
        };
    }
    match feature_filter {
        Some(f) => {
            if !str_eq(f.as_str(), d.name.as_str()) {
                proof {
                    assert(views(Seq::<String>::empty()) =~= Seq::<Seq<char>>::empty());
                }
                return Vec::new();
            }
        },
        None => {},
    }
    let mut out: Vec<String> = Vec::new();
    if d.has_test_script && !skip_autogenerated {
        out.push(crate::text::copy_string(&d.name));
    }
    if d.has_duplicate_script && !skip_duplicated {
        let mut t = chars_of(d.name.as_str());
        append_chars(&mut t, &chars_of(" executed twice with randomized options"));
        out.push(string_of(&t));
    }
    let ghost head = views(out@);
    proof {
        assert(head =~= (if d.has_test_script && !skip_autogenerated {
            seq![d.name@]
        } else {
            Seq::empty()
        }) + (if d.has_duplicate_script && !skip_duplicated {
            seq![duplicate_scenario(d.name@)]
        } else {
            Seq::empty()
        }));
    }
    let mut i: usize = 0;
    while i < d.named_scenarios.len()
        invariant
            i <= d.named_scenarios.len(),
            views(out@) == head + views(d.named_scenarios@).take(i as int),
        decreases d.named_scenarios.len() - i,
    {
        let c = crate::text::copy_string(&d.named_scenarios[i]);
        let ghost old_out = out@;
        out.push(c);
        proof {
            assert(views(out@) =~= views(old_out).push(c@));
            assert(views(d.named_scenarios@).take(i + 1) =~= views(d.named_scenarios@).take(i as int).push(c@));
            assert(views(out@) =~= head + views(d.named_scenarios@).take(i + 1));
        }
        i = i + 1;
    }
    proof {
        assert(views(d.named_scenarios@).take(d.named_scenarios.len() as int) =~= views(d.named_scenarios@));
    }
    out
}

/// `features test`: the scenarios of the test directories, each once, in
/// sorted order, those that contain the `--filter` text when one is given.
pub fn select_feature_test_scenarios(dirs: &Vec<ScenarioDirectory>, args: &[String]) -> (r: Vec<String>)
    ensures
        names_sorted(views(r@)),
        forall|y: Seq<char>|
            #[trigger] views(r@).contains(y) <==> (scenario_candidates(
                dirs@,
                feature_filter_of(views(args@)),
                views(args@).contains("--skip-autogenerated"@),
                views(args@).contains("--skip-duplicated"@),
            ).contains(y) && passes_filter(y, option_value(views(args@), "--filter"@))),
{
    let filter = parse_option_value(args, "--filter");
    let feature_filter = match parse_option_value(args, "-f") {
        Some(f) => Some(f),
        None => parse_option_value(args, "--features"),
    };
    let skip_autogenerated = has_flag(args, "--skip-autogenerated");
    let skip_duplicated = has_flag(args, "--skip-duplicated");
    let ghost ff = crate::text::opt_view(feature_filter);
    let ghost fl = crate::text::opt_view(filter);
    let pat = match &filter {
        Some(f) => chars_of(f.as_str()),
        None => Vec::new(),
    };
    let mut out: Vec<String> = Vec::new();
    proof {
        assert(dirs@.take(0) =~= Seq::<ScenarioDirectory>::empty());
        assert(ff == feature_filter_of(views(args@)));
        assert(views(out@) =~= Seq::<Seq<char>>::empty());
    }
    let mut i: usize = 0;
    while i < dirs.len()
        invariant
            i <= dirs.len(),
            ff == crate::text::opt_view(feature_filter),
            fl == crate::text::opt_view(filter),
            ff == feature_filter_of(views(args@)),
            fl == option_value(views(args@), "--filter"@),
            skip_autogenerated == views(args@).contains("--skip-autogenerated"@),
            skip_duplicated == views(args@).contains("--skip-duplicated"@),
            filter is Some ==> pat@ == fl.unwrap(),
            names_sorted(views(out@)),
            forall|y: Seq<char>|
                #[trigger] views(out@).contains(y) <==> (scenario_candidates(
                    dirs@.take(i as int),
                    ff,
                    skip_autogenerated,
                    skip_duplicated,
                ).contains(y) && passes_filter(y, fl)),
        decreases dirs.len() - i,
    {
        let ghost before = scenario_candidates(dirs@.take(i as int), ff, skip_autogenerated, skip_duplicated);
        proof {
            assert(dirs@.take(i + 1).drop_last() =~= dirs@.take(i as int));
            assert(dirs@.take(i + 1).last() == dirs@[i as int]);
        }
        let list = directory_scenario_list(&dirs[i], &feature_filter, skip_autogenerated, skip_duplicated);
        let ghost lv = views(list@);
        proof {
            assert(lv.take(0) =~= Seq::<Seq<char>>::empty());
            assert forall|y: Seq<char>| #[trigger] views(out@).contains(y) <==> ((before.contains(y) || lv.take(0).contains(y)) && passes_filter(y, fl)) by {
                assert(!lv.take(0).contains(y));
            }
        }
        let mut k: usize = 0;
        while k < list.len()
            invariant
                k <= list.len(),
                i < dirs.len(),
                lv == views(list@),
                lv == directory_scenarios(dirs@[i as int], ff, skip_autogenerated, skip_duplicated),
                before == scenario_candidates(dirs@.take(i as int), ff, skip_autogenerated, skip_duplicated),
                ff == crate::text::opt_view(feature_filter),
                fl == crate::text::opt_view(filter),
                filter is Some ==> pat@ == fl.unwrap(),
                names_sorted(views(out@)),
                forall|y: Seq<char>|
                    #[trigger] views(out@).contains(y) <==> ((before.contains(y) || lv.take(k as int).contains(y)) && passes_filter(y, fl)),
            decreases list.len() - k,
        {
            let ghost old_out = views(out@);
            let keep = match &filter {
                Some(_) => {
                    let v = chars_of(list[k].as_str());
                    find_chars(&v, &pat, 0).is_some()
                },
                None => true,
            };
            proof {
                assert(lv[k as int] == list@[k as int]@);
                assert(keep == passes_filter(lv[k as int], fl));
                assert forall|y: Seq<char>| lv.take(k + 1).contains(y) <==> (lv.take(k as int).contains(y) || y == lv[k as int]) by {
                    assert(lv.take(k + 1) =~= lv.take(k as int) + seq![lv[k as int]]);
                    lemma_contains_concat(lv.take(k as int), seq![lv[k as int]], y);
                    if seq![lv[k as int]].contains(y) {
                        let q = choose|q: int| 0 <= q < 1 && seq![lv[k as int]][q] == y;
                    }
                    if y == lv[k as int] {
                        assert(seq![lv[k as int]][0] == y);
                    }
                }
            }
            if keep {
                let c = crate::text::copy_string(&list[k]);
                insert_name(&mut out, c);
            }
            proof {
                assert forall|y: Seq<char>|
                    #[trigger] views(out@).contains(y) <==> ((before.contains(y) || lv.take(k + 1).contains(y)) && passes_filter(y, fl)) by {
                    assert(old_out.contains(y) <==> ((before.contains(y) || lv.take(k as int).contains(y)) && passes_filter(y, fl)));
                    assert(lv.take(k + 1).contains(y) <==> (lv.take(k as int).contains(y) || y == lv[k as int]));
                }
            }
            k = k + 1;
        }
        proof {
            assert(lv.take(list.len() as int) =~= lv);
            assert forall|y: Seq<char>| scenario_candidates(dirs@.take(i + 1), ff, skip_autogenerated, skip_duplicated).contains(y)
                <==> (before.contains(y) || lv.contains(y)) by {
                lemma_contains_concat(before, lv, y);
            }
        }
        i = i + 1;
    }
    proof {
        assert(dirs@.take(dirs.len() as int) =~= dirs@);
    }
    out
}

/// The last argument that is not an option.
pub open spec fn last_operand(args: Seq<Seq<char>>) -> Option<Seq<char>>
    decreases args.len(),
{
    if args.len() == 0 {
        None
    } else if !starts_with(args.last(), "-"@) {
        Some(args.last())
    } else {
        last_operand(args.drop_last())
    }
}

/// The feature project `features test` runs in: `--project-folder`, else
/// `--projectFolder`, else the last argument that is not an option.
pub open spec fn project_folder_of(args: Seq<Seq<char>>) -> Option<Seq<char>> {
    match option_value(args, "--project-folder"@) {
        Some(p) => Some(p),
        None => match option_value(args, "--projectFolder"@) {
            Some(p) => Some(p),
            None => last_operand(args),
        },
    }
}

/// The project folder of `features test`, or the error when none is given.
pub fn feature_test_project_folder(args: &[String]) -> (r: Result<String, String>)
    ensures
        match project_folder_of(views(args@)) {
            Some(p) => r matches Ok(x) && x@ == p,
            None => r matches Err(e) && e@ == "features test requires a project folder"@,
        },
{
    match parse_option_value(args, "--project-folder") {
        Some(p) => return Ok(p),
        None => {},
    }
    match parse_option_value(args, "--projectFolder") {
        Some(p) => return Ok(p),
        None => {},
    }
    let ghost a = views(args@);
    let mut i: usize = args.len();
    proof {
        assert(a.take(args.len() as int) =~= a);
    }
    while i > 0
        invariant
            i <= args.len(),
            a == views(args@),
            option_value(a, "--project-folder"@) is None,
            option_value(a, "--projectFolder"@) is None,
            last_operand(a) == last_operand(a.take(i as int)),
        decreases i,
    {
        proof {
            assert(a.take(i as int).last() == args@[i - 1]@);
            assert(a.take(i as int).drop_last() =~= a.take(i - 1));
        }
        if !str_starts_with(args[i - 1].as_str(), "-") {
            proof {
                assert(last_operand(a.take(i as int)) == Some(args@[i - 1]@));
            }
            return Ok(crate::text::copy_string(&args[i - 1]));
        }
        i = i - 1;
    }
    Err(String::from_str("features test requires a project folder"))
}

/// The scenario names a parsed `scenarios.json` declares: its keys.
pub fn scenario_names(parsed: &JsonValue) -> (r: Vec<String>)
    ensures
        views(r@) == match parsed@ {
            JsonView::Object(e) => e.map_values(|p: (Seq<char>, JsonView)| p.0),
            _ => Seq::empty(),
        },
{
    let mut out: Vec<String> = Vec::new();
    match parsed {
        JsonValue::Object(entries) => {
            let ghost keys = crate::json_value::jentries(entries@).map_values(|p: (Seq<char>, JsonView)| p.0);
            proof {
                crate::json_value::lemma_jentries(entries@);
            }
            let mut i: usize = 0;
            while i < entries.len()
                invariant
                    i <= entries.len(),
                    keys == crate::json_value::jentries(entries@).map_values(|p: (Seq<char>, JsonView)| p.0),
                    keys.len() == entries@.len(),
                    forall|q: int| 0 <= q < entries@.len() ==> #[trigger] keys[q] == entries@[q].0@,
                    views(out@) == keys.take(i as int),
                decreases entries.len() - i,
            {
                let c = crate::text::copy_string(&entries[i].0);
                let ghost old_out = out@;
                out.push(c);
                proof {
                    assert(views(out@) =~= views(old_out).push(c@));
                    assert(keys.take(i + 1) =~= keys.take(i as int).push(c@));
                    assert(views(out@) =~= keys.take(i + 1));
                }
                i = i + 1;
            }
            proof {
                assert(keys.take(entries.len() as int) =~= keys);
                assert(views(out@) =~= match parsed@ {
                    JsonView::Object(e) => e.map_values(|p: (Seq<char>, JsonView)| p.0),
                    _ => Seq::empty(),
                });
            }
        },
        _ => {
            proof {
                assert(views(out@) =~= Seq::<Seq<char>>::empty());
            }
        },
    }
    out
}

/// The report of `features test`: a header, a line for each scenario that
/// passed, and the clean-up line unless the test containers are kept.
pub open spec fn test_report_lines(scenarios: Seq<Seq<char>>, preserve: bool) -> Seq<Seq<char>> {
    seq!["  ================== TEST REPORT =================="@] + scenarios.map_values(
        |s: Seq<char>| "\u{2705} Passed:      '"@ + s + "'"@,
    ) + if preserve {
        Seq::empty()
    } else {
        seq!["Cleaning up "@ + decimal(scenarios.len()) + " test containers"@]
    }
}

/// The lines `features test` prints for the scenarios that passed.
pub fn feature_test_report(scenarios: &Vec<String>, args: &[String]) -> (r: Vec<String>)
    ensures
        views(r@) == test_report_lines(views(scenarios@), views(args@).contains("--preserve-test-containers"@)),
{
    let preserve = has_flag(args, "--preserve-test-containers");
    let mut out: Vec<String> = Vec::new();
    out.push(String::from_str("  ================== TEST REPORT =================="));
    let ghost sv = views(scenarios@);
    let ghost passed = sv.map_values(|s: Seq<char>| "\u{2705} Passed:      '"@ + s + "'"@);
    let mut i: usize = 0;
    while i < scenarios.len()
        invariant
            i <= scenarios.len(),
            sv == views(scenarios@),
            passed == sv.map_values(|s: Seq<char>| "\u{2705} Passed:      '"@ + s + "'"@),
            views(out@) == seq!["  ================== TEST REPORT =================="@] + passed.take(i as int),
        decreases scenarios.len() - i,
    {
        let mut line = chars_of("\u{2705} Passed:      '");
        append_chars(&mut line, &chars_of(scenarios[i].as_str()));
        append_chars(&mut line, &chars_of("'"));
        let ln = string_of(&line);
        let ghost old_out = out@;
        out.push(ln);
        proof {
            assert(views(out@) =~= views(old_out).push(ln@));
            assert(passed[i as int] == ln@);
            assert(passed.take(i + 1) =~= passed.take(i as int).push(ln@));
            assert(views(out@) =~= seq!["  ================== TEST REPORT =================="@] + passed.take(i + 1));
        }
        i = i + 1;
    }
    proof {
        assert(passed.take(scenarios.len() as int) =~= passed);
    }
    if !preserve {
        let mut line = chars_of("Cleaning up ");
        append_chars(&mut line, &chars_of(usize_to_string(scenarios.len()).as_str()));
        append_chars(&mut line, &chars_of(" test containers"));
        let ghost before = views(out@);
        out.push(string_of(&line));
        proof {
            assert(views(out@) =~= before + seq!["Cleaning up "@ + decimal(sv.len()) + " test containers"@]);
        }
    } else {
        proof {
            assert(views(out@) =~= views(out@) + Seq::<Seq<char>>::empty());
        }
    }
    out
}

/// What a `features` or `templates` command line asks for.
#[derive(Debug, Clone, Copy, PartialEq, Eq, Structural)]
pub enum CollectionAction {
    List,
    ResolveDependencies,
    Info,
    Test,
    Package,
    Publish,
    GenerateDocs,
    Apply,
    Metadata,
}

/// The subcommand of a collection command line, `list` when none is given.
pub open spec fn subcommand_of(args: Seq<Seq<char>>) -> Seq<char> {
    if args.len() == 0 {
        "list"@
    } else {
        args[0]
    }
}

/// What `features <args>` asks for, or the error for a missing operand or
/// an unknown subcommand.
pub open spec fn features_action_of(args: Seq<Seq<char>>) -> Result<CollectionAction, Seq<char>> {
    let sub = subcommand_of(args);
    if sub == "list"@ || sub == "ls"@ {
        Ok(CollectionAction::List)
    } else if sub == "resolve-dependencies"@ {
        Ok(CollectionAction::ResolveDependencies)
    } else if sub == "info"@ {
        if args.len() < 3 {
            Err("features info requires manifest <feature>"@)
        } else {
            Ok(CollectionAction::Info)
        }
    } else if sub == "test"@ {
        Ok(CollectionAction::Test)
    } else if sub == "package"@ {
        if args.len() < 2 {
            Err("features package requires <target>"@)
        } else {
            Ok(CollectionAction::Package)
        }
    } else if sub == "publish"@ {
        if args.len() < 2 {
            Err("features publish requires <target>"@)
        } else {
            Ok(CollectionAction::Publish)
        }
    } else if sub == "generate-docs"@ {
        if args.len() < 2 {
            Err("features generate-docs requires <target>"@)
        } else {
            Ok(CollectionAction::GenerateDocs)
        }
    } else {
        Err("Unsupported features subcommand: "@ + sub)
    }
}

/// What `templates <args>` asks for, or the error for a missing operand or
/// an unknown subcommand.
pub open spec fn templates_action_of(args: Seq<Seq<char>>) -> Result<CollectionAction, Seq<char>> {
    let sub = subcommand_of(args);
    if sub == "list"@ || sub == "ls"@ {
        Ok(CollectionAction::List)
    } else if sub == "apply"@ {
        Ok(CollectionAction::Apply)
    } else if sub == "metadata"@ {
        if args.len() < 2 {
            Err("templates metadata requires <target>"@)
        } else {
            Ok(CollectionAction::Metadata)
        }
    } else if sub == "publish"@ {
        if args.len() < 2 {
            Err("templates publish requires <target>"@)
        } else {
            Ok(CollectionAction::Publish)
        }
    } else if sub == "generate-docs"@ {
        if args.len() < 2 {
            Err("templates generate-docs requires <target>"@)
        } else {
            Ok(CollectionAction::GenerateDocs)
        }
    } else {
        Err("Unsupported templates subcommand: "@ + sub)
    }
}

fn text_err(message: &str) -> (r: Result<CollectionAction, String>)
    ensures
        r matches Err(e) && e@ == message@,
{
    Err(String::from_str(message))
}

fn unsupported(prefix: &str, sub: &str) -> (r: Result<CollectionAction, String>)
    ensures
        r matches Err(e) && e@ == prefix@ + sub@,
{
    let mut msg = chars_of(prefix);
    append_chars(&mut msg, &chars_of(sub));
    Err(string_of(&msg))
}

/// What a `features` command line asks for; the operands stay in `args`.
pub fn features_action(args: &[String]) -> (r: Result<CollectionAction, String>)
    ensures
        match features_action_of(views(args@)) {
            Ok(a) => r matches Ok(x) && x == a,
            Err(e) => r matches Err(x) && x@ == e,
        },
{
    let sub: &str = if args.len() == 0 {
        "list"
    } else {
        args[0].as_str()
    };
    proof {
        assert(sub@ == subcommand_of(views(args@)));
    }
    if str_eq(sub, "list") || str_eq(sub, "ls") {
        Ok(CollectionAction::List)
    } else if str_eq(sub, "resolve-dependencies") {
        Ok(CollectionAction::ResolveDependencies)
    } else if str_eq(sub, "info") {
        if args.len() < 3 {
            text_err("features info requires manifest <feature>")
        } else {
            Ok(CollectionAction::Info)
        }
    } else if str_eq(sub, "test") {
        Ok(CollectionAction::Test)
    } else if str_eq(sub, "package") {
        if args.len() < 2 {
            text_err("features package requires <target>")
        } else {
            Ok(CollectionAction::Package)
        }
    } else if str_eq(sub, "publish") {
        if args.len() < 2 {
            text_err("features publish requires <target>")
        } else {
            Ok(CollectionAction::Publish)
        }
    } else if str_eq(sub, "generate-docs") {
        if args.len() < 2 {
            text_err("features generate-docs requires <target>")
        } else {
            Ok(CollectionAction::GenerateDocs)
        }
    } else {
        unsupported("Unsupported features subcommand: ", sub)
    }
}

/// What a `templates` command line asks for; the operands stay in `args`.
pub fn templates_action(args: &[String]) -> (r: Result<CollectionAction, String>)
    ensures
        match templates_action_of(views(args@)) {
            Ok(a) => r matches Ok(x) && x == a,
            Err(e) => r matches Err(x) && x@ == e,
        },
{
    let sub: &str = if args.len() == 0 {
        "list"
    } else {
        args[0].as_str()
    };
    proof {
        assert(sub@ == subcommand_of(views(args@)));
    }
    if str_eq(sub, "list") || str_eq(sub, "ls") {
        Ok(CollectionAction::List)
    } else if str_eq(sub, "apply") {
        Ok(CollectionAction::Apply)
    } else if str_eq(sub, "metadata") {
        if args.len() < 2 {
            text_err("templates metadata requires <target>")
        } else {
            Ok(CollectionAction::Metadata)
        }
    } else if str_eq(sub, "publish") {
        if args.len() < 2 {
            text_err("templates publish requires <target>")
        } else {
            Ok(CollectionAction::Publish)
        }
    } else if str_eq(sub, "generate-docs") {
        if args.len() < 2 {
            text_err("templates generate-docs requires <target>")
        } else {
            Ok(CollectionAction::GenerateDocs)
        }
    } else {
        unsupported("Unsupported templates subcommand: ", sub)
    }
}

} // verus!
