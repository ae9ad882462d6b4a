//! Resolving the features a configuration declares: the manifest of each,
//! where it comes from, its options and metadata, and the order in which
//! the features install, each after the features it depends on.
use vstd::prelude::*;
use crate::collections::{
    collection_reference_version, collection_slug, humanize_collection_slug, humanized, normalize_collection_reference,
    normalized_reference, reference_version, slug_of,
};
use crate::feature_metadata::{feature_metadata_entry, metadata_entry_of};
use crate::feature_options::{
    env_name, env_text, feature_option_values_from_manifest, feature_options, merged_options_of,
};
use crate::features::{is_local_feature_reference, is_local_reference, local_feature_path, resolve_local_feature_path};
use crate::json_object::{entries_of, object_insert, Entries};
use crate::json_value::{jentries, json_clone, json_get, lemma_get_view, lemma_jentries, vget, JsonValue, JsonView};
use crate::merge::fold_insert;
use crate::text::{chars_of, copy_string, find, find_chars, str_eq};

verus! {

/// The object JSON builds from these entries, put in one after the other.
pub open spec fn object_of(pairs: Entries) -> JsonView {
    JsonView::Object(fold_insert(Seq::empty(), pairs))
}

/// A string value.
pub open spec fn text(s: Seq<char>) -> JsonView {
    JsonView::Str(s)
}

/// An option declared as a string with a default.
pub open spec fn string_option(default: Seq<char>) -> JsonView {
    object_of(seq![("type"@, text("string"@)), ("default"@, text(default))])
}

/// The manifest of a published feature: those of the known features, and
/// for any other feature reference a generic one named after its slug.
pub open spec fn published_manifest_of(feature_id: Seq<char>) -> Option<JsonView> {
    let n = normalized_reference(feature_id);
    if n == "ghcr.io/devcontainers/features/azure-cli"@ {
        Some(
            object_of(
                seq![
                    ("id"@, text("azure-cli"@)),
                    ("name"@, text("Azure CLI"@)),
                    ("version"@, text("1.2.1"@)),
                    ("options"@, object_of(seq![("version"@, string_option("latest"@))])),
                ],
            ),
        )
    } else if n == "ghcr.io/devcontainers/features/common-utils"@ {
        Some(
            object_of(
                seq![
                    ("id"@, text("common-utils"@)),
                    ("name"@, text("Common Utilities"@)),
                    ("version"@, text("2.5.4"@)),
                    (
                        "options"@,
                        object_of(
                            seq![("installZsh"@, string_option("true"@)), ("upgradePackages"@, string_option("true"@))],
                        ),
                    ),
                ],
            ),
        )
    } else if n == "ghcr.io/devcontainers/features/docker-from-docker"@ {
        Some(
            object_of(
                seq![
                    ("id"@, text("docker-from-docker"@)),
                    ("name"@, text("Docker from Docker"@)),
                    ("version"@, text("2.12.4"@)),
                    (
                        "options"@,
                        object_of(
                            seq![
                                ("version"@, string_option("latest"@)),
                                ("moby"@, string_option("true"@)),
                                ("enableNonRootDocker"@, string_option("true"@)),
                            ],
                        ),
                    ),
                ],
            ),
        )
    } else if n == "ghcr.io/devcontainers/features/github-cli"@ {
        Some(
            object_of(
                seq![
                    ("id"@, text("github-cli"@)),
                    ("name"@, text("GitHub CLI"@)),
                    ("version"@, text("1.0.9"@)),
                    ("options"@, object_of(Seq::empty())),
                ],
            ),
        )
    } else if find(n, "/features/"@) is Some {
        let slug = slug_of(n);
        Some(
            object_of(
                seq![
                    ("id"@, text(slug)),
                    ("name"@, text(humanized(slug))),
                    ("version"@, text(reference_version(feature_id))),
                    ("options"@, object_of(Seq::empty())),
                ],
            ),
        )
    } else {
        None
    }
}

fn put_text(m: &mut Vec<(String, JsonValue)>, key: &str, value: String)
    ensures
        jentries(final(m)@) == crate::json_object::vinsert(jentries(old(m)@), key@, text(value@)),
{
    object_insert(m, String::from_str(key), JsonValue::Str(value));
}

/// The object JSON builds from these entries, put in one after the other.
pub fn object_from(pairs: Vec<(String, JsonValue)>) -> (r: JsonValue)
    ensures
        r@ == object_of(jentries(pairs@)),
{
    let ghost pv = jentries(pairs@);
    proof {
        lemma_jentries(pairs@);
        assert(pv.take(0) =~= Seq::<(Seq<char>, JsonView)>::empty());
    }
    let mut m: Vec<(String, JsonValue)> = Vec::new();
    proof {
        assert(jentries(m@) =~= Seq::<(Seq<char>, JsonView)>::empty());
    }
    let mut i: usize = 0;
    while i < pairs.len()
        invariant
            i <= pairs.len(),
            pv == jentries(pairs@),
            pv.len() == pairs@.len(),
            forall|q: int| 0 <= q < pairs@.len() ==> #[trigger] pv[q] == (pairs@[q].0@, pairs@[q].1@),
            jentries(m@) == fold_insert(Seq::empty(), pv.take(i as int)),
        decreases pairs.len() - i,
    {
        proof {
            lemma_fold_insert_push(Seq::empty(), pv.take(i as int), pv[i as int]);
            assert(pv.take(i as int).push(pv[i as int]) =~= pv.take(i + 1));
        }
        object_insert(&mut m, copy_string(&pairs[i].0), json_clone(&pairs[i].1));
        i = i + 1;
    }
    proof {
        assert(pv.take(pairs.len() as int) =~= pv);
    }
    JsonValue::Object(m)
}

/// Putting one more entry in extends the fold by one insertion.
pub proof fn lemma_fold_insert_push(m: Entries, pairs: Entries, p: (Seq<char>, JsonView))
    ensures
        fold_insert(m, pairs.push(p)) == crate::json_object::vinsert(fold_insert(m, pairs), p.0, p.1),
{
    assert(pairs.push(p).drop_last() =~= pairs);
}

fn string_option_value(default: &str) -> (r: JsonValue)
    ensures
        r@ == string_option(default@),
{
    let mut m: Vec<(String, JsonValue)> = Vec::new();
    let ghost e = Seq::<(Seq<char>, JsonView)>::empty();
    proof {
        assert(jentries(m@) =~= e);
    }
    put_text(&mut m, "type", String::from_str("string"));
    proof {
        lemma_fold_insert_push(e, e, ("type"@, text("string"@)));
        assert(e.push(("type"@, text("string"@))) =~= seq![("type"@, text("string"@))]);
    }
    put_text(&mut m, "default", String::from_str(default));
    proof {
        lemma_fold_insert_push(e, seq![("type"@, text("string"@))], ("default"@, text(default@)));
        assert(seq![("type"@, text("string"@))].push(("default"@, text(default@))) =~= seq![
            ("type"@, text("string"@)),
            ("default"@, text(default@)),
        ]);
    }
    JsonValue::Object(m)
}

fn manifest_value(id: &str, name: String, version: String, options: JsonValue) -> (r: JsonValue)
    ensures
        r@ == object_of(seq![("id"@, text(id@)), ("name"@, text(name@)), ("version"@, text(version@)), ("options"@, options@)]),
{
    let ghost nv = name@;
    let ghost vv = version@;
    let ghost ov = options@;
    let ghost e = Seq::<(Seq<char>, JsonView)>::empty();
    let ghost p1 = ("id"@, text(id@));
    let ghost p2 = ("name"@, text(nv));
    let ghost p3 = ("version"@, text(vv));
    let ghost p4 = ("options"@, ov);
    let mut m: Vec<(String, JsonValue)> = Vec::new();
    proof {
        assert(jentries(m@) =~= e);
    }
    put_text(&mut m, "id", String::from_str(id));
    proof {
        lemma_fold_insert_push(e, e, p1);
        assert(e.push(p1) =~= seq![p1]);
    }
    put_text(&mut m, "name", name);
    proof {
        lemma_fold_insert_push(e, seq![p1], p2);
        assert(seq![p1].push(p2) =~= seq![p1, p2]);
    }
    put_text(&mut m, "version", version);
    proof {
        lemma_fold_insert_push(e, seq![p1, p2], p3);
        assert(seq![p1, p2].push(p3) =~= seq![p1, p2, p3]);
    }
    object_insert(&mut m, String::from_str("options"), options);
    proof {
        lemma_fold_insert_push(e, seq![p1, p2, p3], p4);
        assert(seq![p1, p2, p3].push(p4) =~= seq![p1, p2, p3, p4]);
    }
    JsonValue::Object(m)
}

fn options_value(names: &[&str], defaults: &[&str]) -> (r: JsonValue)
    requires
        names.len() == defaults.len(),
    ensures
        r@ == object_of(
            Seq::new(names@.len(), |i: int| (names@[i]@, string_option(defaults@[i]@))),
        ),
{
    let ghost pairs = Seq::new(names@.len(), |i: int| (names@[i]@, string_option(defaults@[i]@)));
    let mut m: Vec<(String, JsonValue)> = Vec::new();
    proof {
        assert(jentries(m@) =~= Seq::<(Seq<char>, JsonView)>::empty());
        assert(pairs.take(0) =~= Seq::<(Seq<char>, JsonView)>::empty());
    }
    let mut i: usize = 0;
    while i < names.len()
        invariant
            i <= names.len(),
            names.len() == defaults.len(),
            pairs == Seq::new(names@.len(), |q: int| (names@[q]@, string_option(defaults@[q]@))),
            jentries(m@) == fold_insert(Seq::empty(), pairs.take(i as int)),
        decreases names.len() - i,
    {
        proof {
            assert(pairs.take(i + 1).drop_last() =~= pairs.take(i as int));
            assert(pairs.take(i + 1).last() == pairs[i as int]);
        }
        object_insert(&mut m, String::from_str(names[i]), string_option_value(defaults[i]));
        i = i + 1;
    }
    proof {
        assert(pairs.take(names.len() as int) =~= pairs);
    }
    JsonValue::Object(m)
}

/// The manifest of a published feature, when the reference names one.
pub fn published_feature_manifest(feature_id: &str) -> (r: Option<JsonValue>)
    ensures
        match r {
            Some(m) => published_manifest_of(feature_id@) == Some(m@),
            None => published_manifest_of(feature_id@) is None,
        },
{
    let n = normalize_collection_reference(feature_id);
    if str_eq(n.as_str(), "ghcr.io/devcontainers/features/azure-cli") {
        let names: [&str; 1] = ["version"];
        let defaults: [&str; 1] = ["latest"];
        let options = options_value(&names, &defaults);
        proof {
            assert(Seq::new(1, |i: int| (names@[i]@, string_option(defaults@[i]@))) =~= seq![
                ("version"@, string_option("latest"@)),
            ]);
        }
        return Some(
            manifest_value("azure-cli", String::from_str("Azure CLI"), String::from_str("1.2.1"), options),
        );
    }
    if str_eq(n.as_str(), "ghcr.io/devcontainers/features/common-utils") {
        let names: [&str; 2] = ["installZsh", "upgradePackages"];
        let defaults: [&str; 2] = ["true", "true"];
        let options = options_value(&names, &defaults);
        proof {
            assert(Seq::new(2, |i: int| (names@[i]@, string_option(defaults@[i]@))) =~= seq![
                ("installZsh"@, string_option("true"@)),
                ("upgradePackages"@, string_option("true"@)),
            ]);
        }
        return Some(
            manifest_value(
                "common-utils",
                String::from_str("Common Utilities"),
                String::from_str("2.5.4"),
                options,
            ),
        );
    }
    if str_eq(n.as_str(), "ghcr.io/devcontainers/features/docker-from-docker") {
        let names: [&str; 3] = ["version", "moby", "enableNonRootDocker"];
        let defaults: [&str; 3] = ["latest", "true", "true"];
        let options = options_value(&names, &defaults);
        proof {
            assert(Seq::new(3, |i: int| (names@[i]@, string_option(defaults@[i]@))) =~= seq![
                ("version"@, string_option("latest"@)),
                ("moby"@, string_option("true"@)),
                ("enableNonRootDocker"@, string_option("true"@)),
            ]);
        }
        return Some(
            manifest_value(
                "docker-from-docker",
                String::from_str("Docker from Docker"),
                String::from_str("2.12.4"),
                options,
            ),
        );
    }
    if str_eq(n.as_str(), "ghcr.io/devcontainers/features/github-cli") {
        let names: [&str; 0] = [];
        let defaults: [&str; 0] = [];
        let options = options_value(&names, &defaults);
        proof {
            assert(Seq::new(0, |i: int| (names@[i]@, string_option(defaults@[i]@))) =~= Seq::<(Seq<char>, JsonView)>::empty());
        }
        return Some(
            manifest_value("github-cli", String::from_str("GitHub CLI"), String::from_str("1.0.9"), options),
        );
    }
    let nv = chars_of(n.as_str());
    let pat = chars_of("/features/");
    match find_chars(&nv, &pat, 0) {
        None => None,
        Some(_) => {
            let slug = match collection_slug(n.as_str()) {
                Some(s) => s,
                None => String::new(),
            };
            let name = humanize_collection_slug(slug.as_str());
            let version = collection_reference_version(feature_id);
            let names: [&str; 0] = [];
            let defaults: [&str; 0] = [];
            let options = options_value(&names, &defaults);
            proof {
                assert(Seq::new(0, |i: int| (names@[i]@, string_option(defaults@[i]@))) =~= Seq::<(Seq<char>, JsonView)>::empty());
            }
            Some(manifest_value(slug.as_str(), name, version, options))
        },
    }
}

/// The manifest of a feature that is neither known nor named after a
/// published collection: named after its slug, at version `latest`.
pub open spec fn fallback_manifest_of(feature_id: Seq<char>) -> JsonView {
    let slug = slug_of(feature_id);
    let name = humanized(slug);
    object_of(
        seq![
            ("id"@, text(slug)),
            ("name"@, text(if name.len() > 0 { name } else { feature_id })),
            ("version"@, text("latest"@)),
            ("options"@, object_of(Seq::empty())),
        ],
    )
}

/// The manifest of a feature: a local feature's as read, given by
/// identifier in `manifests`; a published feature's as known.
pub open spec fn manifest_for(feature_id: Seq<char>, manifests: Entries) -> Option<JsonView> {
    if is_local_reference(feature_id) {
        crate::json_value::ventry(manifests, feature_id)
    } else {
        match published_manifest_of(feature_id) {
            Some(m) => Some(m),
            None => Some(fallback_manifest_of(feature_id)),
        }
    }
}

/// The identifiers a manifest depends on, in order.
pub open spec fn dependency_ids(manifest: JsonView) -> Seq<Seq<char>> {
    match vget(manifest, "dependsOn"@) {
        Some(JsonView::Object(e)) => e.map_values(|p: (Seq<char>, JsonView)| p.0),
        _ => Seq::empty(),
    }
}

/// Where a feature comes from: a local directory, or its published reference.
pub open spec fn source_information_of(feature_id: Seq<char>, config_root: Seq<char>) -> JsonView {
    if is_local_reference(feature_id) {
        object_of(
            seq![
                ("type"@, text("file-path"@)),
                ("resolvedFilePath"@, text(local_feature_path(config_root, feature_id))),
                ("userFeatureId"@, text(feature_id)),
            ],
        )
    } else {
        object_of(
            seq![
                ("type"@, text("oci"@)),
                ("userFeatureId"@, text(feature_id)),
                ("userFeatureIdWithoutVersion"@, text(normalized_reference(feature_id))),
            ],
        )
    }
}

/// Where a feature is installed from.
#[derive(Debug)]
pub enum FeatureInstallationSource {
    Local(String),
    Published(String),
}

/// A feature to install: its source and the environment its options give.
#[derive(Debug)]
pub struct FeatureInstallation {
    pub source: FeatureInstallationSource,
    pub env: Vec<(String, String)>,
}

/// A resolved feature.
#[derive(Debug)]
pub struct FeatureSpec {
    pub manifest: JsonValue,
    pub options: JsonValue,
    pub source_information: JsonValue,
    pub metadata_entry: JsonValue,
    pub installation: FeatureInstallation,
    pub depends_on: Vec<String>,
}

/// The environment of the options, as texts.
pub open spec fn env_pairs(manifest: JsonView, value: JsonView) -> Seq<(Seq<char>, Seq<char>)> {
    merged_options_of(manifest, value).map_values(|p: (Seq<char>, JsonView)| (env_name(p.0), env_text(p.1)))
}

/// The environment pairs as texts.
pub open spec fn pair_views(s: Seq<(String, String)>) -> Seq<(Seq<char>, Seq<char>)> {
    s.map_values(|p: (String, String)| (p.0@, p.1@))
}

/// `spec` is what the feature resolves to, given its manifest.
pub open spec fn describes(
    spec: FeatureSpec,
    feature_id: Seq<char>,
    value: JsonView,
    config_root: Seq<char>,
    manifest: JsonView,
) -> bool {
    &&& spec.manifest@ == manifest
    &&& spec.options@ == JsonView::Object(merged_options_of(manifest, value))
    &&& spec.source_information@ == source_information_of(feature_id, config_root)
    &&& spec.metadata_entry@ == metadata_entry_of(manifest)
    &&& (if is_local_reference(feature_id) {
        spec.installation.source matches FeatureInstallationSource::Local(d) && d@ == local_feature_path(config_root, feature_id)
    } else {
        spec.installation.source matches FeatureInstallationSource::Published(p) && p@ == feature_id
    })
    &&& pair_views(spec.installation.env@) == env_pairs(manifest, value)
    &&& crate::text::views(spec.depends_on@) == dependency_ids(manifest)
}

fn fallback_manifest(feature_id: &str) -> (r: JsonValue)
    ensures
        r@ == fallback_manifest_of(feature_id@),
{
    let slug = match collection_slug(feature_id) {
        Some(s) => s,
        None => String::new(),
    };
    let humane = humanize_collection_slug(slug.as_str());
    let name = if crate::text::chars_of(humane.as_str()).len() > 0 {
        humane
    } else {
        String::from_str(feature_id)
    };
    let names: [&str; 0] = [];
    let defaults: [&str; 0] = [];
    let options = options_value(&names, &defaults);
    proof {
        assert(Seq::new(0, |i: int| (names@[i]@, string_option(defaults@[i]@))) =~= Seq::<(Seq<char>, JsonView)>::empty());
    }
    manifest_value(slug.as_str(), name, String::from_str("latest"), options)
}

fn source_information(feature_id: &str, config_root: &str) -> (r: JsonValue)
    ensures
        r@ == source_information_of(feature_id@, config_root@),
{
    let ghost e = Seq::<(Seq<char>, JsonView)>::empty();
    let mut m: Vec<(String, JsonValue)> = Vec::new();
    proof {
        assert(jentries(m@) =~= e);
    }
    if is_local_feature_reference(feature_id) {
        let dir = resolve_local_feature_path(config_root, feature_id);
        let ghost p1 = ("type"@, text("file-path"@));
        let ghost p2 = ("resolvedFilePath"@, text(dir@));
        let ghost p3 = ("userFeatureId"@, text(feature_id@));
        put_text(&mut m, "type", String::from_str("file-path"));
        proof {
            lemma_fold_insert_push(e, e, p1);
            assert(e.push(p1) =~= seq![p1]);
        }
        put_text(&mut m, "resolvedFilePath", dir);
        proof {
            lemma_fold_insert_push(e, seq![p1], p2);
            assert(seq![p1].push(p2) =~= seq![p1, p2]);
        }
        put_text(&mut m, "userFeatureId", String::from_str(feature_id));
        proof {
            lemma_fold_insert_push(e, seq![p1, p2], p3);
            assert(seq![p1, p2].push(p3) =~= seq![p1, p2, p3]);
        }
    } else {
        let normalized = normalize_collection_reference(feature_id);
        let ghost p1 = ("type"@, text("oci"@));
        let ghost p2 = ("userFeatureId"@, text(feature_id@));
        let ghost p3 = ("userFeatureIdWithoutVersion"@, text(normalized@));
        put_text(&mut m, "type", String::from_str("oci"));
        proof {
            lemma_fold_insert_push(e, e, p1);
            assert(e.push(p1) =~= seq![p1]);
        }
        put_text(&mut m, "userFeatureId", String::from_str(feature_id));
        proof {
            lemma_fold_insert_push(e, seq![p1], p2);
            assert(seq![p1].push(p2) =~= seq![p1, p2]);
        }
        put_text(&mut m, "userFeatureIdWithoutVersion", normalized);
        proof {
            lemma_fold_insert_push(e, seq![p1, p2], p3);
            assert(seq![p1, p2].push(p3) =~= seq![p1, p2, p3]);
        }
    }
    JsonValue::Object(m)
}

/// The manifest of a feature, when it is known: a local one must be in `manifests`.
pub fn feature_manifest(feature_id: &str, manifests: &Vec<(String, JsonValue)>) -> (r: Option<JsonValue>)
    ensures
        match r {
            Some(m) => manifest_for(feature_id@, jentries(manifests@)) == Some(m@),
            None => manifest_for(feature_id@, jentries(manifests@)) is None,
        },
{
    if is_local_feature_reference(feature_id) {
        proof {
            crate::json_value::lemma_entry_value_view(manifests@, feature_id@);
        }
        match crate::json_value::entries_get(manifests, feature_id) {
            Some(m) => Some(json_clone(m)),
            None => None,
        }
    } else {
        match published_feature_manifest(feature_id) {
            Some(m) => Some(m),
            None => Some(fallback_manifest(feature_id)),
        }
    }
}

fn dependency_list(manifest: &JsonValue) -> (r: Vec<String>)
    ensures
        crate::text::views(r@) == dependency_ids(manifest@),
{
    proof {
        lemma_get_view(*manifest, "dependsOn"@);
    }
    let mut out: Vec<String> = Vec::new();
    match json_get(manifest, "dependsOn") {
        Some(JsonValue::Object(e)) => {
            let ghost ev = jentries(e@);
            proof {
                lemma_jentries(e@);
            }
            let mut i: usize = 0;
            while i < e.len()
                invariant
                    i <= e.len(),
                    ev == jentries(e@),
                    ev.len() == e@.len(),
                    forall|q: int| 0 <= q < e@.len() ==> #[trigger] ev[q] == (e@[q].0@, e@[q].1@),
                    crate::text::views(out@) == ev.take(i as int).map_values(|p: (Seq<char>, JsonView)| p.0),
                decreases e.len() - i,
            {
                let ghost before = out@;
                out.push(copy_string(&e[i].0));
                proof {
                    assert(crate::text::views(out@) =~= crate::text::views(before).push(e@[i as int].0@));
                    assert(ev.take(i + 1).map_values(|p: (Seq<char>, JsonView)| p.0) =~= ev.take(i as int).map_values(
                        |p: (Seq<char>, JsonView)| p.0,
                    ).push(ev[i as int].0));
                }
                i = i + 1;
            }
            proof {
                assert(ev.take(e.len() as int) =~= ev);
            }
        },
        _ => {
            proof {
                assert(crate::text::views(out@) =~= Seq::<Seq<char>>::empty());
            }
        },
    }
    out
}

/// Resolves a feature: `None` exactly when it is local and its manifest is
/// not among `manifests`.
pub fn resolve_feature_spec(
    feature_id: &str,
    value: &JsonValue,
    config_root: &str,
    manifests: &Vec<(String, JsonValue)>,
) -> (r: Option<FeatureSpec>)
    ensures
        match r {
            Some(s) => manifest_for(feature_id@, jentries(manifests@)) == Some(s.manifest@) && describes(
                s,
                feature_id@,
                value@,
                config_root@,
                s.manifest@,
            ),
            None => manifest_for(feature_id@, jentries(manifests@)) is None,
        },
{
    let manifest = match feature_manifest(feature_id, manifests) {
        Some(m) => m,
        None => return None,
    };
    let source_information = source_information(feature_id, config_root);
    let env = feature_option_values_from_manifest(&manifest, value);
    proof {
        assert(pair_views(env@) =~= env_pairs(manifest@, value@));
    }
    let source = if is_local_feature_reference(feature_id) {
        FeatureInstallationSource::Local(resolve_local_feature_path(config_root, feature_id))
    } else {
        FeatureInstallationSource::Published(String::from_str(feature_id))
    };
    let options = feature_options(&manifest, value);
    let metadata_entry = feature_metadata_entry(&manifest);
    let depends_on = dependency_list(&manifest);
    Some(FeatureSpec {
        manifest,
        options,
        source_information,
        metadata_entry,
        installation: FeatureInstallation { source, env },
        depends_on,
    })
}

/// Why ordering the features stops: a local feature whose manifest is yet
/// to be read, or a dependency cycle through a feature.
pub enum OrderStop {
    NeedManifest(Seq<char>),
    Cyclic(Seq<char>),
}

/// The features a feature depends on, once its manifest is known.
pub open spec fn deps_of(feature_id: Seq<char>, manifests: Entries) -> Option<Seq<Seq<char>>> {
    match manifest_for(feature_id, manifests) {
        Some(m) => Some(dependency_ids(m)),
        None => None,
    }
}

/// How many of the given manifests belong to features not being visited.
pub open spec fn unvisited(manifests: Entries, visiting: Seq<Seq<char>>) -> nat
    decreases manifests.len(),
{
    if manifests.len() == 0 {
        0
    } else {
        unvisited(manifests.drop_first(), visiting) + if visiting.contains(manifests[0].0) {
            0nat
        } else {
            1nat
        }
    }
}

pub proof fn lemma_unvisited_mono(manifests: Entries, visiting: Seq<Seq<char>>, id: Seq<char>)
    ensures
        unvisited(manifests, visiting.push(id)) <= unvisited(manifests, visiting),
    decreases manifests.len(),
{
    if manifests.len() > 0 {
        lemma_unvisited_mono(manifests.drop_first(), visiting, id);
        if visiting.contains(manifests[0].0) {
            let k = choose|k: int| 0 <= k < visiting.len() && visiting[k] == manifests[0].0;
            assert(visiting.push(id)[k] == manifests[0].0);
        }
    }
}

pub proof fn lemma_unvisited_drops(manifests: Entries, visiting: Seq<Seq<char>>, id: Seq<char>)
    requires
        crate::json_value::ventry(manifests, id) is Some,
        !visiting.contains(id),
    ensures
        unvisited(manifests, visiting.push(id)) < unvisited(manifests, visiting),
    decreases manifests.len(),
{
    let v2 = visiting.push(id);
    assert(v2[visiting.len() as int] == id);
    if manifests[0].0 == id {
        lemma_unvisited_mono(manifests.drop_first(), visiting, id);
        assert(v2.contains(manifests[0].0));
    } else {
        lemma_unvisited_drops(manifests.drop_first(), visiting, id);
        if v2.contains(manifests[0].0) {
            let k = choose|k: int| 0 <= k < v2.len() && v2[k] == manifests[0].0;
            assert(k < visiting.len());
            assert(visiting[k] == manifests[0].0);
        }
        if visiting.contains(manifests[0].0) {
            let k = choose|k: int| 0 <= k < visiting.len() && visiting[k] == manifests[0].0;
            assert(v2[k] == manifests[0].0);
        }
    }
}

/// Entries put in one by one leave a key no entry has unset.
pub proof fn lemma_fold_insert_absent(m: Entries, pairs: Entries, k: Seq<char>)
    requires
        crate::json_value::ventry(m, k) is None,
        forall|i: int| 0 <= i < pairs.len() ==> (#[trigger] pairs[i]).0 != k,
    ensures
        crate::json_value::ventry(fold_insert(m, pairs), k) is None,
    decreases pairs.len(),
{
    if pairs.len() > 0 {
        let rest = pairs.drop_last();
        assert forall|i: int| 0 <= i < rest.len() implies (#[trigger] rest[i]).0 != k by {
            assert(rest[i] == pairs[i]);
        }
        lemma_fold_insert_absent(m, rest, k);
        assert(pairs.last() == pairs[pairs.len() - 1]);
        crate::json_object::lemma_vinsert_reads(fold_insert(m, rest), pairs.last().0, pairs.last().1, k);
    }
}

/// The keys of a built-in manifest are none of those that carry dependencies
/// or legacy customizations.
proof fn lemma_manifest_keys(k: Seq<char>)
    requires
        k == "dependsOn"@ || k == "extensions"@ || k == "settings"@,
    ensures
        "id"@ != k,
        "name"@ != k,
        "version"@ != k,
        "options"@ != k,
{
    reveal_strlit("dependsOn");
    reveal_strlit("extensions");
    reveal_strlit("settings");
    reveal_strlit("id");
    reveal_strlit("name");
    reveal_strlit("version");
    reveal_strlit("options");
    assert(k.len() == 9 || k.len() == 10 || k.len() == 8);
    assert("id"@.len() == 2);
    assert("name"@.len() == 4);
    assert("version"@.len() == 7);
    assert("options"@.len() == 7);
}

/// A built-in manifest has none of the keys that carry dependencies or
/// legacy customizations.
pub proof fn lemma_builtin_manifest_keys(feature_id: Seq<char>, k: Seq<char>)
    requires
        !is_local_reference(feature_id),
        k == "dependsOn"@ || k == "extensions"@ || k == "settings"@,
    ensures
        manifest_for(feature_id, Seq::empty()) matches Some(JsonView::Object(e)) && crate::json_value::ventry(e, k) is None,
        forall|ms: Entries| #[trigger] manifest_for(feature_id, ms) == manifest_for(feature_id, Seq::empty()),
{
    lemma_manifest_keys(k);
    let e = Seq::<(Seq<char>, JsonView)>::empty();
    let m = manifest_for(feature_id, e).unwrap();
    let pairs: Entries = match m {
        JsonView::Object(_) => {
            if published_manifest_of(feature_id) is Some {
                let n = normalized_reference(feature_id);
                if n == "ghcr.io/devcontainers/features/azure-cli"@ {
                    seq![
                        ("id"@, text("azure-cli"@)),
                        ("name"@, text("Azure CLI"@)),
                        ("version"@, text("1.2.1"@)),
                        ("options"@, object_of(seq![("version"@, string_option("latest"@))])),
                    ]
                } else if n == "ghcr.io/devcontainers/features/common-utils"@ {
                    seq![
                        ("id"@, text("common-utils"@)),
                        ("name"@, text("Common Utilities"@)),
                        ("version"@, text("2.5.4"@)),
                        (
                            "options"@,
                            object_of(
                                seq![("installZsh"@, string_option("true"@)), ("upgradePackages"@, string_option("true"@))],
                            ),
                        ),
                    ]
                } else if n == "ghcr.io/devcontainers/features/docker-from-docker"@ {
                    seq![
                        ("id"@, text("docker-from-docker"@)),
                        ("name"@, text("Docker from Docker"@)),
                        ("version"@, text("2.12.4"@)),
                        (
                            "options"@,
                            object_of(
                                seq![
                                    ("version"@, string_option("latest"@)),
                                    ("moby"@, string_option("true"@)),
                                    ("enableNonRootDocker"@, string_option("true"@)),
                                ],
                            ),
                        ),
                    ]
                } else if n == "ghcr.io/devcontainers/features/github-cli"@ {
                    seq![
                        ("id"@, text("github-cli"@)),
                        ("name"@, text("GitHub CLI"@)),
                        ("version"@, text("1.0.9"@)),
                        ("options"@, object_of(Seq::empty())),
                    ]
                } else {
                    let slug = slug_of(n);
                    seq![
                        ("id"@, text(slug)),
                        ("name"@, text(humanized(slug))),
                        ("version"@, text(reference_version(feature_id))),
                        ("options"@, object_of(Seq::empty())),
                    ]
                }
            } else {
                let slug = slug_of(feature_id);
                let name = humanized(slug);
                seq![
                    ("id"@, text(slug)),
                    ("name"@, text(if name.len() > 0 { name } else { feature_id })),
                    ("version"@, text("latest"@)),
                    ("options"@, object_of(Seq::empty())),
                ]
            }
        },
        _ => Seq::empty(),
    };
    assert(m == object_of(pairs));
    assert(forall|i: int| 0 <= i < pairs.len() ==> (#[trigger] pairs[i]).0 != k) by {
        assert forall|i: int| 0 <= i < pairs.len() implies (#[trigger] pairs[i]).0 != k by {
            assert(i == 0 || i == 1 || i == 2 || i == 3);
        }
    }
    lemma_fold_insert_absent(e, pairs, k);
}

pub proof fn lemma_deps_mean_manifest(feature_id: Seq<char>, manifests: Entries)
    requires
        deps_of(feature_id, manifests) matches Some(ds) && ds.len() > 0,
    ensures
        crate::json_value::ventry(manifests, feature_id) is Some,
{
    if !is_local_reference(feature_id) {
        lemma_builtin_manifest_keys(feature_id, "dependsOn"@);
        assert(manifest_for(feature_id, manifests) == manifest_for(feature_id, Seq::empty()));
    }
}

/// The features in install order after visiting `feature_id`: nothing new
/// when it is ordered already; its dependencies first, depth first, then
/// the feature itself; a stop at a cycle or at a manifest still to read.
pub open spec fn visit(feature_id: Seq<char>, manifests: Entries, visiting: Seq<Seq<char>>, ordered: Seq<Seq<char>>) -> Result<Seq<Seq<char>>, OrderStop>
    decreases unvisited(manifests, visiting), 0nat,
{
    if ordered.contains(feature_id) {
        Ok(ordered)
    } else if visiting.contains(feature_id) {
        Err(OrderStop::Cyclic(feature_id))
    } else {
        match deps_of(feature_id, manifests) {
            None => Err(OrderStop::NeedManifest(feature_id)),
            Some(ds) => if ds.len() == 0 {
                Ok(ordered.push(feature_id))
            } else {
                proof {
                    lemma_deps_mean_manifest(feature_id, manifests);
                    lemma_unvisited_drops(manifests, visiting, feature_id);
                }
                match visit_all(ds, manifests, visiting.push(feature_id), ordered) {
                    Ok(o) => Ok(o.push(feature_id)),
                    Err(e) => Err(e),
                }
            },
        }
    }
}

/// The features in install order after visiting each of `ds` in turn.
pub open spec fn visit_all(ds: Seq<Seq<char>>, manifests: Entries, visiting: Seq<Seq<char>>, ordered: Seq<Seq<char>>) -> Result<Seq<Seq<char>>, OrderStop>
    decreases unvisited(manifests, visiting), ds.len() + 1,
{
    if ds.len() == 0 {
        Ok(ordered)
    } else {
        match visit(ds[0], manifests, visiting, ordered) {
            Ok(o) => visit_all(ds.drop_first(), manifests, visiting, o),
            Err(e) => Err(e),
        }
    }
}

/// Why ordering the features stopped: a local feature whose manifest is
/// still to be read, or a dependency cycle through a feature.
#[derive(Debug, PartialEq)]
pub enum InstallStop {
    NeedManifest(String),
    Cyclic(String),
}

pub open spec fn stop_view(s: InstallStop) -> OrderStop {
    match s {
        InstallStop::NeedManifest(id) => OrderStop::NeedManifest(id@),
        InstallStop::Cyclic(id) => OrderStop::Cyclic(id@),
    }
}

/// The message of a dependency cycle.
pub fn cyclic_dependency_error(feature_id: &str) -> (r: String)
    ensures
        r@ == "Detected cyclic feature dependency at "@ + feature_id@,
{
    let mut out = crate::text::chars_of("Detected cyclic feature dependency at ");
    let id = crate::text::chars_of(feature_id);
    crate::text::append_chars(&mut out, &id);
    crate::text::string_of(&out)
}

proof fn lemma_views_push(s: Seq<String>, x: String)
    ensures
        crate::text::views(s.push(x)) == crate::text::views(s).push(x@),
{
    assert(crate::text::views(s.push(x)) =~= crate::text::views(s).push(x@));
}

proof fn lemma_views_drop_last(s: Seq<String>)
    requires
        s.len() > 0,
    ensures
        crate::text::views(s.drop_last()) == crate::text::views(s).drop_last(),
{
    assert(crate::text::views(s.drop_last()) =~= crate::text::views(s).drop_last());
}

fn visit_feature(
    feature_id: &str,
    manifests: &Vec<(String, JsonValue)>,
    visiting: &mut Vec<String>,
    ordered: &mut Vec<String>,
) -> (r: Result<(), InstallStop>)
    ensures
        crate::text::views(final(visiting)@) == crate::text::views(old(visiting)@),
        match visit(feature_id@, jentries(manifests@), crate::text::views(old(visiting)@), crate::text::views(old(ordered)@)) {
            Ok(o) => r is Ok && crate::text::views(final(ordered)@) == o,
            Err(e) => r matches Err(s) && stop_view(s) == e,
        },
    decreases unvisited(jentries(manifests@), crate::text::views(visiting@)), 0nat,
{
    let ghost ms = jentries(manifests@);
    let ghost vis = crate::text::views(visiting@);
    let ghost ord = crate::text::views(ordered@);
    if crate::merge::holds_text(ordered, feature_id) {
        return Ok(());
    }
    if crate::merge::holds_text(visiting, feature_id) {
        return Err(InstallStop::Cyclic(String::from_str(feature_id)));
    }
    let manifest = match feature_manifest(feature_id, manifests) {
        Some(m) => m,
        None => return Err(InstallStop::NeedManifest(String::from_str(feature_id))),
    };
    let ds = dependency_list(&manifest);
    if ds.len() == 0 {
        let ghost before = ordered@;
        ordered.push(String::from_str(feature_id));
        proof {
            lemma_views_push(before, ordered@.last());
            assert(ordered@ == before.push(ordered@.last()));
        }
        return Ok(());
    }
    proof {
        lemma_deps_mean_manifest(feature_id@, ms);
        lemma_unvisited_drops(ms, vis, feature_id@);
    }
    let ghost before_visiting = visiting@;
    visiting.push(String::from_str(feature_id));
    proof {
        lemma_views_push(before_visiting, visiting@.last());
        assert(visiting@ == before_visiting.push(visiting@.last()));
    }
    let r = visit_dependencies(&ds, manifests, visiting, ordered);
    let ghost pushed = visiting@;
    proof {
        assert(crate::text::views(pushed).len() == pushed.len());
        assert(crate::text::views(pushed) == vis.push(feature_id@));
    }
    let _ = visiting.pop();
    proof {
        lemma_views_drop_last(pushed);
        assert(crate::text::views(visiting@) =~= vis);
    }
    match r {
        Ok(()) => {
            let ghost before = ordered@;
            ordered.push(String::from_str(feature_id));
            proof {
                lemma_views_push(before, ordered@.last());
                assert(ordered@ == before.push(ordered@.last()));
            }
            Ok(())
        },
        Err(e) => Err(e),
    }
}

fn visit_dependencies(
    ds: &Vec<String>,
    manifests: &Vec<(String, JsonValue)>,
    visiting: &mut Vec<String>,
    ordered: &mut Vec<String>,
) -> (r: Result<(), InstallStop>)
    ensures
        crate::text::views(final(visiting)@) == crate::text::views(old(visiting)@),
        match visit_all(crate::text::views(ds@), jentries(manifests@), crate::text::views(old(visiting)@), crate::text::views(old(ordered)@)) {
            Ok(o) => r is Ok && crate::text::views(final(ordered)@) == o,
            Err(e) => r matches Err(s) && stop_view(s) == e,
        },
    decreases unvisited(jentries(manifests@), crate::text::views(visiting@)), ds@.len() + 1,
{
    let ghost ms = jentries(manifests@);
    let ghost vis = crate::text::views(visiting@);
    let ghost dv = crate::text::views(ds@);
    let ghost whole = visit_all(dv, ms, vis, crate::text::views(ordered@));
    proof {
        assert(dv.skip(0) =~= dv);
    }
    let mut i: usize = 0;
    while i < ds.len()
        invariant
            i <= ds.len(),
            ms == jentries(manifests@),
            dv == crate::text::views(ds@),
            dv.len() == ds@.len(),
            crate::text::views(visiting@) == vis,
            vis == crate::text::views(old(visiting)@),
            whole == visit_all(dv, ms, vis, crate::text::views(old(ordered)@)),
            whole == visit_all(dv.skip(i as int), ms, vis, crate::text::views(ordered@)),
        decreases ds.len() - i,
    {
        proof {
            let t = dv.skip(i as int);
            assert(t[0] == dv[i as int]);
            assert(t.drop_first() =~= dv.skip(i + 1));
            assert(dv[i as int] == ds@[i as int]@);
        }
        let step = visit_feature(ds[i].as_str(), manifests, visiting, ordered);
        match step {
            Ok(()) => {},
            Err(e) => return Err(e),
        }
        i = i + 1;
    }
    proof {
        assert(dv.skip(ds.len() as int) =~= Seq::<Seq<char>>::empty());
    }
    Ok(())
}

/// The features of `ids` ordered one after the other, each with its dependencies first.
pub open spec fn order_all(ids: Seq<Seq<char>>, manifests: Entries) -> Result<Seq<Seq<char>>, OrderStop>
    decreases ids.len(),
{
    if ids.len() == 0 {
        Ok(Seq::empty())
    } else {
        match order_all(ids.drop_last(), manifests) {
            Ok(o) => visit(ids.last(), manifests, Seq::empty(), o),
            Err(e) => Err(e),
        }
    }
}

/// The declared features the configuration's `overrideFeatureInstallOrder` names, in its order.
pub open spec fn override_ids(items: Seq<JsonView>, declared: Entries) -> Seq<Seq<char>>
    decreases items.len(),
{
    if items.len() == 0 {
        Seq::empty()
    } else {
        let rest = override_ids(items.drop_last(), declared);
        match items.last() {
            JsonView::Str(t) => if crate::json_value::ventry(declared, t) is Some {
                rest.push(t)
            } else {
                rest
            },
            _ => rest,
        }
    }
}

/// The declared features not named in `explicit`, in declaration order.
pub open spec fn remaining_ids(declared: Entries, explicit: Seq<Seq<char>>) -> Seq<Seq<char>>
    decreases declared.len(),
{
    if declared.len() == 0 {
        Seq::empty()
    } else {
        let rest = remaining_ids(declared.drop_last(), explicit);
        if explicit.contains(declared.last().0) {
            rest
        } else {
            rest.push(declared.last().0)
        }
    }
}

/// The order in which the declared features are visited: those the
/// configuration orders explicitly, then the others.
pub open spec fn install_sequence(declared: Entries, configuration: JsonView) -> Seq<Seq<char>> {
    let explicit = override_ids(
        match vget(configuration, "overrideFeatureInstallOrder"@) {
            Some(JsonView::Array(items)) => items,
            _ => Seq::empty(),
        },
        declared,
    );
    explicit + remaining_ids(declared, explicit)
}

fn install_sequence_of(declared: &Vec<(String, JsonValue)>, configuration: &JsonValue) -> (r: Vec<String>)
    ensures
        crate::text::views(r@) == install_sequence(jentries(declared@), configuration@),
{
    let ghost dv = jentries(declared@);
    proof {
        lemma_get_view(*configuration, "overrideFeatureInstallOrder"@);
        lemma_jentries(declared@);
    }
    let mut explicit: Vec<String> = Vec::new();
    proof {
        assert(crate::text::views(explicit@) =~= Seq::<Seq<char>>::empty());
    }
    match json_get(configuration, "overrideFeatureInstallOrder") {
        Some(JsonValue::Array(items)) => {
            let ghost iv = crate::json_value::jviews(items@);
            proof {
                crate::json_value::lemma_jviews(items@);
                assert(iv.take(0) =~= Seq::<JsonView>::empty());
            }
            let mut i: usize = 0;
            while i < items.len()
                invariant
                    i <= items.len(),
                    dv == jentries(declared@),
                    iv == crate::json_value::jviews(items@),
                    iv.len() == items@.len(),
                    forall|q: int| 0 <= q < items@.len() ==> #[trigger] iv[q] == items@[q]@,
                    crate::text::views(explicit@) == override_ids(iv.take(i as int), dv),
                decreases items.len() - i,
            {
                proof {
                    assert(iv.take(i + 1).drop_last() =~= iv.take(i as int));
                    assert(iv.take(i + 1).last() == iv[i as int]);
                }
                match &items[i] {
                    JsonValue::Str(t) => {
                        proof {
                            crate::json_value::lemma_entry_value_view(declared@, t@);
                        }
                        if crate::json_value::entries_get(declared, t.as_str()).is_some() {
                            let ghost before = explicit@;
                            explicit.push(copy_string(t));
                            proof {
                                lemma_views_push(before, explicit@.last());
                                assert(explicit@ == before.push(explicit@.last()));
                            }
                        }
                    },
                    _ => {},
                }
                i = i + 1;
            }
            proof {
                assert(iv.take(items.len() as int) =~= iv);
            }
        },
        _ => {},
    }
    let ghost ev = crate::text::views(explicit@);
    let mut rest: Vec<String> = Vec::new();
    proof {
        assert(crate::text::views(rest@) =~= Seq::<Seq<char>>::empty());
        assert(dv.take(0) =~= Seq::<(Seq<char>, JsonView)>::empty());
    }
    let mut k: usize = 0;
    while k < declared.len()
        invariant
            k <= declared.len(),
            dv == jentries(declared@),
            dv.len() == declared@.len(),
            forall|q: int| 0 <= q < declared@.len() ==> #[trigger] dv[q] == (declared@[q].0@, declared@[q].1@),
            ev == crate::text::views(explicit@),
            crate::text::views(rest@) == remaining_ids(dv.take(k as int), ev),
        decreases declared.len() - k,
    {
        proof {
            assert(dv.take(k + 1).drop_last() =~= dv.take(k as int));
            assert(dv.take(k + 1).last() == dv[k as int]);
        }
        if !crate::merge::holds_text(&explicit, declared[k].0.as_str()) {
            let ghost before = rest@;
            rest.push(copy_string(&declared[k].0));
            proof {
                lemma_views_push(before, rest@.last());
                assert(rest@ == before.push(rest@.last()));
            }
        }
        k = k + 1;
    }
    proof {
        assert(dv.take(declared.len() as int) =~= dv);
    }
    let mut all = explicit;
    let mut j: usize = 0;
    let ghost start = all@;
    while j < rest.len()
        invariant
            j <= rest.len(),
            crate::text::views(all@) == ev + crate::text::views(rest@).take(j as int),
        decreases rest.len() - j,
    {
        let ghost before = all@;
        all.push(copy_string(&rest[j]));
        proof {
            lemma_views_push(before, all@.last());
            assert(all@ == before.push(all@.last()));
            assert(crate::text::views(rest@).take(j + 1) =~= crate::text::views(rest@).take(j as int).push(rest@[j as int]@));
            assert(ev + crate::text::views(rest@).take(j + 1) =~= (ev + crate::text::views(rest@).take(j as int)).push(rest@[j as int]@));
        }
        j = j + 1;
    }
    proof {
        assert(crate::text::views(rest@).take(rest.len() as int) =~= crate::text::views(rest@));
    }
    all
}

/// The declared features in install order: those named in the
/// configuration's `overrideFeatureInstallOrder` first, then the others,
/// each after the features it depends on; or why ordering stopped.
pub fn resolve_feature_install_order(
    declared: &Vec<(String, JsonValue)>,
    configuration: &JsonValue,
    manifests: &Vec<(String, JsonValue)>,
) -> (r: Result<Vec<String>, InstallStop>)
    ensures
        match order_all(install_sequence(jentries(declared@), configuration@), jentries(manifests@)) {
            Ok(o) => r is Ok && crate::text::views(r->Ok_0@) == o,
            Err(e) => r matches Err(s) && stop_view(s) == e,
        },
{
    let ids = install_sequence_of(declared, configuration);
    let ghost iv = crate::text::views(ids@);
    let ghost ms = jentries(manifests@);
    let mut ordered: Vec<String> = Vec::new();
    let mut visiting: Vec<String> = Vec::new();
    proof {
        assert(iv.take(0) =~= Seq::<Seq<char>>::empty());
        assert(crate::text::views(ordered@) =~= Seq::<Seq<char>>::empty());
    }
    let mut i: usize = 0;
    while i < ids.len()
        invariant
            i <= ids.len(),
            iv == crate::text::views(ids@),
            iv == install_sequence(jentries(declared@), configuration@),
            iv.len() == ids@.len(),
            ms == jentries(manifests@),
            crate::text::views(visiting@) == Seq::<Seq<char>>::empty(),
            order_all(iv.take(i as int), ms) == Ok::<Seq<Seq<char>>, OrderStop>(crate::text::views(ordered@)),
        decreases ids.len() - i,
    {
        proof {
            assert(iv.take(i + 1).drop_last() =~= iv.take(i as int));
            assert(iv.take(i + 1).last() == iv[i as int]);
            assert(iv[i as int] == ids@[i as int]@);
        }
        let ghost ord_before = crate::text::views(ordered@);
        let step = visit_feature(ids[i].as_str(), manifests, &mut visiting, &mut ordered);
        proof {
            assert(order_all(iv.take(i + 1), ms) == visit(iv[i as int], ms, Seq::<Seq<char>>::empty(), ord_before));
        }
        match step {
            Ok(()) => {},
            Err(e) => {
                proof {
                    lemma_order_all_stops(iv, ms, i as int);
                }
                return Err(e);
            },
        }
        i = i + 1;
    }
    proof {
        assert(iv.take(ids.len() as int) =~= iv);
    }
    Ok(ordered)
}

proof fn lemma_order_all_stops(ids: Seq<Seq<char>>, manifests: Entries, i: int)
    requires
        0 <= i < ids.len(),
        order_all(ids.take(i + 1), manifests) is Err,
    ensures
        order_all(ids, manifests) == order_all(ids.take(i + 1), manifests),
    decreases ids.len() - i,
{
    if i + 1 < ids.len() {
        assert(ids.take(i + 2).drop_last() =~= ids.take(i + 1));
        lemma_order_all_stops(ids, manifests, i + 1);
    } else {
        assert(ids.take(i + 1) =~= ids);
    }
}

/// The features a configuration declares, with those of
/// `--additional-features` put over them; an error when those are not an
/// object.
pub open spec fn declared_of(configuration: JsonView, additional: Option<JsonView>) -> Result<Entries, Seq<char>> {
    let declared = match vget(configuration, "features"@) {
        Some(JsonView::Object(e)) => e,
        _ => Seq::empty(),
    };
    match additional {
        None => Ok(declared),
        Some(JsonView::Object(add)) => Ok(fold_insert(declared, add)),
        Some(_) => Err("--additional-features must be a JSON object"@),
    }
}

/// The declared features of a configuration, with the parsed value of
/// `--additional-features`, when given, put over them.
pub fn declared_features(configuration: &JsonValue, additional: Option<&JsonValue>) -> (r: Result<Vec<(String, JsonValue)>, String>)
    ensures
        match declared_of(
            configuration@,
            match additional {
                Some(a) => Some(a@),
                None => None,
            },
        ) {
            Ok(e) => r matches Ok(d) && jentries(d@) == e,
            Err(m) => r matches Err(t) && t@ == m,
        },
{
    proof {
        lemma_get_view(*configuration, "features"@);
    }
    let empty: Vec<(String, JsonValue)> = Vec::new();
    proof {
        assert(jentries(empty@) =~= Seq::<(Seq<char>, JsonView)>::empty());
    }
    let mut declared: Vec<(String, JsonValue)> = match json_get(configuration, "features") {
        Some(v) => match json_clone(v) {
            JsonValue::Object(c) => c,
            _ => empty,
        },
        None => empty,
    };
    match additional {
        None => Ok(declared),
        Some(JsonValue::Object(add)) => {
            crate::merge::insert_all(&mut declared, add);
            Ok(declared)
        },
        Some(_) => Err(String::from_str("--additional-features must be a JSON object")),
    }
}

/// Every feature of `ids` has a known manifest.
pub open spec fn all_known(ids: Seq<Seq<char>>, manifests: Entries) -> bool {
    forall|i: int| 0 <= i < ids.len() ==> (#[trigger] manifest_for(ids[i], manifests)) is Some
}

proof fn lemma_known_push(ids: Seq<Seq<char>>, manifests: Entries, id: Seq<char>)
    requires
        all_known(ids, manifests),
        manifest_for(id, manifests) is Some,
    ensures
        all_known(ids.push(id), manifests),
{
    assert forall|i: int| 0 <= i < ids.push(id).len() implies (#[trigger] manifest_for(ids.push(id)[i], manifests)) is Some by {
        if i < ids.len() {
            assert(ids.push(id)[i] == ids[i]);
        }
    }
}

/// Visiting only orders features whose manifests are known.
pub proof fn lemma_visit_known(id: Seq<char>, manifests: Entries, visiting: Seq<Seq<char>>, ordered: Seq<Seq<char>>)
    requires
        all_known(ordered, manifests),
    ensures
        visit(id, manifests, visiting, ordered) matches Ok(o) ==> all_known(o, manifests),
    decreases unvisited(manifests, visiting), 0nat,
{
    if !ordered.contains(id) && !visiting.contains(id) {
        match deps_of(id, manifests) {
            None => {},
            Some(ds) => {
                if ds.len() == 0 {
                    lemma_known_push(ordered, manifests, id);
                } else {
                    lemma_deps_mean_manifest(id, manifests);
                    lemma_unvisited_drops(manifests, visiting, id);
                    lemma_visit_all_known(ds, manifests, visiting.push(id), ordered);
                    match visit_all(ds, manifests, visiting.push(id), ordered) {
                        Ok(o) => lemma_known_push(o, manifests, id),
                        Err(_) => {},
                    }
                }
            },
        }
    }
}

/// Visiting dependencies only orders features whose manifests are known.
pub proof fn lemma_visit_all_known(ds: Seq<Seq<char>>, manifests: Entries, visiting: Seq<Seq<char>>, ordered: Seq<Seq<char>>)
    requires
        all_known(ordered, manifests),
    ensures
        visit_all(ds, manifests, visiting, ordered) matches Ok(o) ==> all_known(o, manifests),
    decreases unvisited(manifests, visiting), ds.len() + 1,
{
    if ds.len() > 0 {
        lemma_visit_known(ds[0], manifests, visiting, ordered);
        match visit(ds[0], manifests, visiting, ordered) {
            Ok(o) => lemma_visit_all_known(ds.drop_first(), manifests, visiting, o),
            Err(_) => {},
        }
    }
}

/// Ordering only yields features whose manifests are known.
pub proof fn lemma_order_all_known(ids: Seq<Seq<char>>, manifests: Entries)
    ensures
        order_all(ids, manifests) matches Ok(o) ==> all_known(o, manifests),
    decreases ids.len(),
{
    if ids.len() > 0 {
        lemma_order_all_known(ids.drop_last(), manifests);
        match order_all(ids.drop_last(), manifests) {
            Ok(o) => lemma_visit_known(ids.last(), manifests, Seq::empty(), o),
            Err(_) => {},
        }
    }
}

/// The value a configuration gives a feature: the declared one, or an empty object.
pub open spec fn declared_value(declared: Entries, id: Seq<char>) -> JsonView {
    match crate::json_value::ventry(declared, id) {
        Some(v) => v,
        None => JsonView::Object(Seq::empty()),
    }
}

/// The feature set reported for a feature.
pub open spec fn feature_set_of(id: Seq<char>, declared: Entries, config_root: Seq<char>, manifests: Entries) -> JsonView {
    let m = manifest_for(id, manifests).unwrap();
    let value = declared_value(declared, id);
    object_of(
        seq![
            (
                "features"@,
                JsonView::Array(
                    seq![crate::feature_options::feature_object_of(m, JsonView::Object(merged_options_of(m, value)), value)],
                ),
            ),
            ("internalVersion"@, text("2"@)),
            ("sourceInformation"@, source_information_of(id, config_root)),
        ],
    )
}

/// The metadata entries of the features, in order, leaving out empty ones.
pub open spec fn kept_metadata(ids: Seq<Seq<char>>, manifests: Entries) -> Seq<JsonView>
    decreases ids.len(),
{
    if ids.len() == 0 {
        Seq::empty()
    } else {
        let rest = kept_metadata(ids.drop_last(), manifests);
        let e = metadata_entry_of(manifest_for(ids.last(), manifests).unwrap());
        if entries_of(e).len() > 0 {
            rest.push(e)
        } else {
            rest
        }
    }
}

/// `inst` installs the feature `id` with the given manifest and value.
pub open spec fn installs(inst: FeatureInstallation, id: Seq<char>, value: JsonView, config_root: Seq<char>, m: JsonView) -> bool {
    &&& (if is_local_reference(id) {
        inst.source matches FeatureInstallationSource::Local(d) && d@ == local_feature_path(config_root, id)
    } else {
        inst.source matches FeatureInstallationSource::Published(p) && p@ == id
    })
    &&& pair_views(inst.env@) == env_pairs(m, value)
}

/// The local manifests of these features can have their legacy
/// customizations moved.
pub open spec fn manifests_fit(ids: Seq<Seq<char>>, manifests: Entries) -> bool {
    forall|i: int|
        0 <= i < ids.len() && is_local_reference(#[trigger] ids[i]) && crate::json_value::ventry(manifests, ids[i]) is Some
            ==> crate::feature_options::legacy_fits(entries_of(crate::json_value::ventry(manifests, ids[i]).unwrap()))
}

/// A known manifest of a feature can have its legacy customizations moved.
proof fn lemma_manifest_fits(ids: Seq<Seq<char>>, k: int, manifests: Entries)
    requires
        0 <= k < ids.len(),
        manifests_fit(ids, manifests),
        manifest_for(ids[k], manifests) is Some,
    ensures
        crate::feature_options::legacy_fits(entries_of(manifest_for(ids[k], manifests).unwrap())),
{
    let id = ids[k];
    if !is_local_reference(id) {
        lemma_builtin_manifest_keys(id, "extensions"@);
        lemma_builtin_manifest_keys(id, "settings"@);
        assert(manifest_for(id, manifests) == manifest_for(id, Seq::empty()));
    }
}

/// The resolved features of a configuration.
#[derive(Debug)]
pub struct ResolvedFeatureSupport {
    pub features_configuration: JsonValue,
    pub metadata_entries: Vec<JsonValue>,
    pub installations: Vec<FeatureInstallation>,
    pub ordered_feature_ids: Vec<String>,
}

/// `sup` is the resolution of the features `o`, in that order.
pub open spec fn resolves(sup: ResolvedFeatureSupport, o: Seq<Seq<char>>, declared: Entries, config_root: Seq<char>, manifests: Entries) -> bool {
    &&& crate::text::views(sup.ordered_feature_ids@) == o
    &&& sup.features_configuration@ == object_of(
        seq![("featureSets"@, JsonView::Array(o.map_values(|id: Seq<char>| feature_set_of(id, declared, config_root, manifests))))],
    )
    &&& crate::json_value::jviews(sup.metadata_entries@) == kept_metadata(o, manifests)
    &&& sup.installations@.len() == o.len()
    &&& forall|i: int|
        0 <= i < o.len() ==> installs(
            #[trigger] sup.installations@[i],
            o[i],
            declared_value(declared, o[i]),
            config_root,
            manifest_for(o[i], manifests).unwrap(),
        )
}

fn feature_set(feature_id: &str, spec: FeatureSpec, value: &JsonValue) -> (r: (JsonValue, JsonValue, FeatureInstallation))
    requires
        crate::feature_options::legacy_fits(entries_of(spec.manifest@)),
    ensures
        r.0@ == object_of(
            seq![
                (
                    "features"@,
                    JsonView::Array(seq![crate::feature_options::feature_object_of(spec.manifest@, spec.options@, value@)]),
                ),
                ("internalVersion"@, text("2"@)),
                ("sourceInformation"@, spec.source_information@),
            ],
        ),
        r.1 == spec.metadata_entry,
        r.2 == spec.installation,
{
    let object = crate::feature_options::feature_object(&spec.manifest, &spec.options, value);
    let mut features: Vec<JsonValue> = Vec::new();
    features.push(object);
    proof {
        crate::json_value::lemma_jviews(features@);
        assert(crate::json_value::jviews(features@) =~= seq![
            crate::feature_options::feature_object_of(spec.manifest@, spec.options@, value@),
        ]);
    }
    let ghost fv = JsonValue::Array(features)@;
    let ghost e = Seq::<(Seq<char>, JsonView)>::empty();
    let ghost p1 = ("features"@, fv);
    let ghost p2 = ("internalVersion"@, text("2"@));
    let ghost p3 = ("sourceInformation"@, spec.source_information@);
    let mut m: Vec<(String, JsonValue)> = Vec::new();
    proof {
        assert(jentries(m@) =~= e);
    }
    object_insert(&mut m, String::from_str("features"), JsonValue::Array(features));
    proof {
        lemma_fold_insert_push(e, e, p1);
        assert(e.push(p1) =~= seq![p1]);
    }
    put_text(&mut m, "internalVersion", String::from_str("2"));
    proof {
        lemma_fold_insert_push(e, seq![p1], p2);
        assert(seq![p1].push(p2) =~= seq![p1, p2]);
    }
    object_insert(&mut m, String::from_str("sourceInformation"), spec.source_information);
    proof {
        lemma_fold_insert_push(e, seq![p1, p2], p3);
        assert(seq![p1, p2].push(p3) =~= seq![p1, p2, p3]);
    }
    (JsonValue::Object(m), spec.metadata_entry, spec.installation)
}

/// Resolves the declared features: nothing when none is declared; else
/// their feature sets, metadata and installations in install order; or why
/// ordering stopped.
pub fn resolve_feature_support(
    declared: &Vec<(String, JsonValue)>,
    configuration: &JsonValue,
    config_root: &str,
    manifests: &Vec<(String, JsonValue)>,
) -> (r: Result<Option<ResolvedFeatureSupport>, InstallStop>)
    requires
        match order_all(install_sequence(jentries(declared@), configuration@), jentries(manifests@)) {
            Ok(o) => manifests_fit(o, jentries(manifests@)),
            Err(_) => true,
        },
    ensures
        declared@.len() == 0 ==> r matches Ok(None),
        declared@.len() > 0 ==> match order_all(install_sequence(jentries(declared@), configuration@), jentries(manifests@)) {
            Ok(o) => r matches Ok(Some(sup)) && resolves(sup, o, jentries(declared@), config_root@, jentries(manifests@)),
            Err(e) => r matches Err(s) && stop_view(s) == e,
        },
{
    if declared.len() == 0 {
        return Ok(None);
    }
    let ordered = match resolve_feature_install_order(declared, configuration, manifests) {
        Ok(o) => o,
        Err(e) => return Err(e),
    };
    let ghost ov = crate::text::views(ordered@);
    let ghost dv = jentries(declared@);
    let ghost ms = jentries(manifests@);
    proof {
        lemma_order_all_known(install_sequence(dv, configuration@), ms);
        assert(ov.take(0) =~= Seq::<Seq<char>>::empty());
    }
    let mut sets: Vec<JsonValue> = Vec::new();
    let mut metadata_entries: Vec<JsonValue> = Vec::new();
    let mut installations: Vec<FeatureInstallation> = Vec::new();
    proof {
        assert(crate::json_value::jviews(sets@) =~= Seq::<JsonView>::empty());
        assert(crate::json_value::jviews(metadata_entries@) =~= Seq::<JsonView>::empty());
    }
    let empty_value = JsonValue::Object(Vec::new());
    proof {
        assert(jentries(Seq::<(String, JsonValue)>::empty()) =~= Seq::<(Seq<char>, JsonView)>::empty());
    }
    let mut i: usize = 0;
    while i < ordered.len()
        invariant
            i <= ordered.len(),
            ov == crate::text::views(ordered@),
            ov.len() == ordered@.len(),
            dv == jentries(declared@),
            ms == jentries(manifests@),
            manifests_fit(ov, ms),
            all_known(ov, ms),
            empty_value@ == JsonView::Object(Seq::empty()),
            crate::json_value::jviews(sets@) == ov.take(i as int).map_values(|id: Seq<char>| feature_set_of(id, dv, config_root@, ms)),
            crate::json_value::jviews(metadata_entries@) == kept_metadata(ov.take(i as int), ms),
            installations@.len() == i,
            forall|q: int|
                0 <= q < i ==> installs(
                    #[trigger] installations@[q],
                    ov[q],
                    declared_value(dv, ov[q]),
                    config_root@,
                    manifest_for(ov[q], ms).unwrap(),
                ),
        decreases ordered.len() - i,
    {
        let id = ordered[i].as_str();
        proof {
            assert(ov[i as int] == id@);
            assert(manifest_for(ov[i as int], ms) is Some);
            crate::json_value::lemma_entry_value_view(declared@, id@);
            assert(ov.take(i + 1).drop_last() =~= ov.take(i as int));
            assert(ov.take(i + 1).last() == ov[i as int]);
        }
        let value: &JsonValue = match crate::json_value::entries_get(declared, id) {
            Some(v) => v,
            None => &empty_value,
        };
        let spec = match resolve_feature_spec(id, value, config_root, manifests) {
            Some(s) => s,
            None => {
                proof {
                    assert(false);
                }
                return Err(InstallStop::NeedManifest(String::from_str(id)));
            },
        };
        proof {
            lemma_manifest_fits(ov, i as int, ms);
        }
        let ghost mv = spec.manifest@;
        let (set, entry, installation) = feature_set(id, spec, value);
        proof {
            assert(set@ == feature_set_of(ov[i as int], dv, config_root@, ms));
        }
        let ghost sets_before = sets@;
        sets.push(set);
        proof {
            crate::merge::lemma_jviews_push(sets_before, set);
            assert(ov.take(i + 1).map_values(|id: Seq<char>| feature_set_of(id, dv, config_root@, ms)) =~= ov.take(
                i as int,
            ).map_values(|id: Seq<char>| feature_set_of(id, dv, config_root@, ms)).push(feature_set_of(ov[i as int], dv, config_root@, ms)));
        }
        proof {
            assert(entry@ == metadata_entry_of(mv));
        }
        let keep = match &entry {
            JsonValue::Object(e) => {
                proof {
                    lemma_jentries(e@);
                }
                e.len() > 0
            },
            _ => false,
        };
        if keep {
            let ghost before = metadata_entries@;
            metadata_entries.push(entry);
            proof {
                crate::merge::lemma_jviews_push(before, entry);
            }
        }
        installations.push(installation);
        i = i + 1;
    }
    proof {
        assert(ov.take(ordered.len() as int) =~= ov);
    }
    let mut top: Vec<(String, JsonValue)> = Vec::new();
    let ghost e = Seq::<(Seq<char>, JsonView)>::empty();
    let ghost sv = crate::json_value::jviews(sets@);
    proof {
        assert(jentries(top@) =~= e);
    }
    object_insert(&mut top, String::from_str("featureSets"), JsonValue::Array(sets));
    proof {
        lemma_fold_insert_push(e, e, ("featureSets"@, JsonView::Array(sv)));
        assert(e.push(("featureSets"@, JsonView::Array(sv))) =~= seq![("featureSets"@, JsonView::Array(sv))]);
    }
    Ok(
        Some(
            ResolvedFeatureSupport {
                features_configuration: JsonValue::Object(top),
                metadata_entries,
                installations,
                ordered_feature_ids: ordered,
            },
        ),
    )
}

/// The features a configuration declares.
pub open spec fn configured_features(configuration: JsonView) -> Entries {
    match vget(configuration, "features"@) {
        Some(JsonView::Object(e)) => e,
        _ => Seq::empty(),
    }
}

/// The payload of `features resolve-dependencies`: the declared features in
/// the order they are taken up.
pub open spec fn resolve_dependencies_payload_of(configuration: JsonView) -> JsonView {
    let ids = install_sequence(configured_features(configuration), configuration);
    object_of(
        seq![
            ("outcome"@, text("success"@)),
            ("command"@, text("features resolve-dependencies"@)),
            ("resolvedFeatures"@, JsonView::Array(ids.map_values(|id: Seq<char>| text(id)))),
        ],
    )
}

/// The payload of `features resolve-dependencies` for a configuration.
pub fn build_features_resolve_dependencies_payload(configuration: &JsonValue) -> (r: JsonValue)
    ensures
        r@ == resolve_dependencies_payload_of(configuration@),
{
    proof {
        lemma_get_view(*configuration, "features"@);
    }
    let empty: Vec<(String, JsonValue)> = Vec::new();
    proof {
        assert(jentries(empty@) =~= Seq::<(Seq<char>, JsonView)>::empty());
    }
    let features: Vec<(String, JsonValue)> = match json_get(configuration, "features") {
        Some(v) => match json_clone(v) {
            JsonValue::Object(c) => c,
            _ => empty,
        },
        None => empty,
    };
    let ids = install_sequence_of(&features, configuration);
    let ghost iv = crate::text::views(ids@);
    let mut items: Vec<JsonValue> = Vec::new();
    proof {
        assert(crate::json_value::jviews(items@) =~= Seq::<JsonView>::empty());
    }
    let mut i: usize = 0;
    while i < ids.len()
        invariant
            i <= ids.len(),
            iv == crate::text::views(ids@),
            crate::json_value::jviews(items@) == iv.take(i as int).map_values(|id: Seq<char>| text(id)),
        decreases ids.len() - i,
    {
        let ghost before = items@;
        let item = JsonValue::Str(copy_string(&ids[i]));
        items.push(item);
        proof {
            crate::merge::lemma_jviews_push(before, item);
            assert(iv.take(i + 1).map_values(|id: Seq<char>| text(id)) =~= iv.take(i as int).map_values(
                |id: Seq<char>| text(id),
            ).push(text(iv[i as int])));
        }
        i = i + 1;
    }
    proof {
        assert(iv.take(ids.len() as int) =~= iv);
    }
    let ghost av = crate::json_value::jviews(items@);
    let ghost e = Seq::<(Seq<char>, JsonView)>::empty();
    let ghost p1 = ("outcome"@, text("success"@));
    let ghost p2 = ("command"@, text("features resolve-dependencies"@));
    let ghost p3 = ("resolvedFeatures"@, JsonView::Array(av));
    let mut m: Vec<(String, JsonValue)> = Vec::new();
    proof {
        assert(jentries(m@) =~= e);
    }
    put_text(&mut m, "outcome", String::from_str("success"));
    proof {
        lemma_fold_insert_push(e, e, p1);
        assert(e.push(p1) =~= seq![p1]);
    }
    put_text(&mut m, "command", String::from_str("features resolve-dependencies"));
    proof {
        lemma_fold_insert_push(e, seq![p1], p2);
        assert(seq![p1].push(p2) =~= seq![p1, p2]);
    }
    object_insert(&mut m, String::from_str("resolvedFeatures"), JsonValue::Array(items));
    proof {
        lemma_fold_insert_push(e, seq![p1, p2], p3);
        assert(seq![p1, p2].push(p3) =~= seq![p1, p2, p3]);
    }
    JsonValue::Object(m)
}

/// The dependencies of a feature, none while its manifest is unknown.
pub open spec fn dep_ids(id: Seq<char>, manifests: Entries) -> Seq<Seq<char>> {
    match deps_of(id, manifests) {
        Some(ds) => ds,
        None => Seq::empty(),
    }
}

/// No feature occurs twice.
pub open spec fn no_repeats(s: Seq<Seq<char>>) -> bool {
    forall|i: int, j: int| 0 <= i < j < s.len() ==> s[i] != s[j]
}

/// Each feature comes after every feature it depends on.
pub open spec fn deps_before(o: Seq<Seq<char>>, manifests: Entries) -> bool {
    forall|j: int, k: int|
        0 <= j < o.len() && 0 <= k < dep_ids(o[j], manifests).len() ==> o.take(j).contains(
            #[trigger] dep_ids(o[j], manifests)[k],
        )
}

/// What visiting keeps: no repeats, dependencies first, the features
/// ordered before still first, and nothing new that was being visited.
pub open spec fn grows_well(ord: Seq<Seq<char>>, o: Seq<Seq<char>>, visiting: Seq<Seq<char>>, manifests: Entries) -> bool {
    &&& no_repeats(o)
    &&& deps_before(o, manifests)
    &&& ord.len() <= o.len()
    &&& o.take(ord.len() as int) == ord
    &&& forall|k: int| ord.len() <= k < o.len() ==> !visiting.contains(#[trigger] o[k])
}

proof fn lemma_push_keeps(o: Seq<Seq<char>>, id: Seq<char>, manifests: Entries)
    requires
        no_repeats(o),
        deps_before(o, manifests),
        !o.contains(id),
        forall|k: int| 0 <= k < dep_ids(id, manifests).len() ==> o.contains(#[trigger] dep_ids(id, manifests)[k]),
    ensures
        no_repeats(o.push(id)),
        deps_before(o.push(id), manifests),
{
    let o2 = o.push(id);
    assert forall|i: int, j: int| 0 <= i < j < o2.len() implies o2[i] != o2[j] by {
        if j < o.len() {
            assert(o2[i] == o[i] && o2[j] == o[j]);
        } else {
            assert(o2[j] == id);
            assert(o2[i] == o[i]);
        }
    }
    assert forall|j: int, k: int| 0 <= j < o2.len() && 0 <= k < dep_ids(o2[j], manifests).len() implies o2.take(j).contains(
        #[trigger] dep_ids(o2[j], manifests)[k],
    ) by {
        if j < o.len() {
            assert(o2[j] == o[j]);
            assert(o2.take(j) =~= o.take(j));
            assert(o.take(j).contains(dep_ids(o[j], manifests)[k]));
        } else {
            assert(o2[j] == id);
            assert(o2.take(j) =~= o);
            assert(o.contains(dep_ids(id, manifests)[k]));
        }
    }
}

/// Visiting a feature orders it after its dependencies and keeps what was ordered.
pub proof fn lemma_visit_grows_well(id: Seq<char>, manifests: Entries, visiting: Seq<Seq<char>>, ordered: Seq<Seq<char>>)
    requires
        no_repeats(ordered),
        deps_before(ordered, manifests),
    ensures
        visit(id, manifests, visiting, ordered) matches Ok(o) ==> grows_well(ordered, o, visiting, manifests) && o.contains(id),
    decreases unvisited(manifests, visiting), 0nat,
{
    if ordered.contains(id) {
        assert(ordered.take(ordered.len() as int) =~= ordered);
    } else if !visiting.contains(id) {
        match deps_of(id, manifests) {
            None => {},
            Some(ds) => {
                if ds.len() == 0 {
                    lemma_push_keeps(ordered, id, manifests);
                    let o = ordered.push(id);
                    assert(o.take(ordered.len() as int) =~= ordered);
                    assert(o[ordered.len() as int] == id);
                } else {
                    lemma_deps_mean_manifest(id, manifests);
                    lemma_unvisited_drops(manifests, visiting, id);
                    let vis2 = visiting.push(id);
                    lemma_visit_all_grows_well(ds, manifests, vis2, ordered);
                    match visit_all(ds, manifests, vis2, ordered) {
                        Ok(o1) => {
                            assert(vis2[visiting.len() as int] == id);
                            assert(!o1.contains(id)) by {
                                if o1.contains(id) {
                                    let k = choose|k: int| 0 <= k < o1.len() && o1[k] == id;
                                    if k < ordered.len() {
                                        assert(o1.take(ordered.len() as int)[k] == o1[k]);
                                        assert(ordered[k] == id);
                                    } else {
                                        assert(!vis2.contains(o1[k]));
                                    }
                                }
                            }
                            lemma_push_keeps(o1, id, manifests);
                            let o = o1.push(id);
                            assert(o.take(ordered.len() as int) =~= o1.take(ordered.len() as int));
                            assert forall|k: int| ordered.len() <= k < o.len() implies !visiting.contains(#[trigger] o[k]) by {
                                if k < o1.len() {
                                    assert(o[k] == o1[k]);
                                    assert(!vis2.contains(o1[k]));
                                    if visiting.contains(o1[k]) {
                                        let q = choose|q: int| 0 <= q < visiting.len() && visiting[q] == o1[k];
                                        assert(vis2[q] == o1[k]);
                                    }
                                } else {
                                    assert(o[k] == id);
                                }
                            }
                            assert(o[o1.len() as int] == id);
                        },
                        Err(_) => {},
                    }
                }
            },
        }
    }
}

/// Visiting the dependencies orders each of them and keeps what was ordered.
pub proof fn lemma_visit_all_grows_well(ds: Seq<Seq<char>>, manifests: Entries, visiting: Seq<Seq<char>>, ordered: Seq<Seq<char>>)
    requires
        no_repeats(ordered),
        deps_before(ordered, manifests),
    ensures
        visit_all(ds, manifests, visiting, ordered) matches Ok(o) ==> grows_well(ordered, o, visiting, manifests) && forall|k: int|
            0 <= k < ds.len() ==> o.contains(#[trigger] ds[k]),
    decreases unvisited(manifests, visiting), ds.len() + 1,
{
    if ds.len() == 0 {
        assert(ordered.take(ordered.len() as int) =~= ordered);
    } else {
        lemma_visit_grows_well(ds[0], manifests, visiting, ordered);
        match visit(ds[0], manifests, visiting, ordered) {
            Ok(o1) => {
                lemma_visit_all_grows_well(ds.drop_first(), manifests, visiting, o1);
                match visit_all(ds.drop_first(), manifests, visiting, o1) {
                    Ok(o) => {
                        assert(o.take(ordered.len() as int) =~= o.take(o1.len() as int).take(ordered.len() as int));
                        assert forall|k: int| ordered.len() <= k < o.len() implies !visiting.contains(#[trigger] o[k]) by {
                            if k < o1.len() {
                                assert(o.take(o1.len() as int)[k] == o[k]);
                            }
                        }
                        assert forall|k: int| 0 <= k < ds.len() implies o.contains(#[trigger] ds[k]) by {
                            if k == 0 {
                                let q = choose|q: int| 0 <= q < o1.len() && o1[q] == ds[0];
                                assert(o.take(o1.len() as int)[q] == o[q]);
                            } else {
                                assert(ds.drop_first()[k - 1] == ds[k]);
                            }
                        }
                    },
                    Err(_) => {},
                }
            },
            Err(_) => {},
        }
    }
}

/// The install order holds no feature twice, puts every feature after the
/// features it depends on, and holds every feature it was asked to order.
pub proof fn lemma_install_order_is_topological(ids: Seq<Seq<char>>, manifests: Entries)
    ensures
        order_all(ids, manifests) matches Ok(o) ==> no_repeats(o) && deps_before(o, manifests) && forall|i: int|
            0 <= i < ids.len() ==> o.contains(#[trigger] ids[i]),
    decreases ids.len(),
{
    if ids.len() > 0 {
        lemma_install_order_is_topological(ids.drop_last(), manifests);
        match order_all(ids.drop_last(), manifests) {
            Ok(o0) => {
                lemma_visit_grows_well(ids.last(), manifests, Seq::empty(), o0);
                match visit(ids.last(), manifests, Seq::empty(), o0) {
                    Ok(o) => {
                        assert forall|i: int| 0 <= i < ids.len() implies o.contains(#[trigger] ids[i]) by {
                            if i < ids.len() - 1 {
                                assert(ids.drop_last()[i] == ids[i]);
                                let q = choose|q: int| 0 <= q < o0.len() && o0[q] == ids.drop_last()[i];
                                assert(o.take(o0.len() as int)[q] == o[q]);
                            }
                        }
                    },
                    Err(_) => {},
                }
            },
            Err(_) => {},
        }
    } else {
        assert forall|i: int, j: int| 0 <= i < j < Seq::<Seq<char>>::empty().len() implies Seq::<Seq<char>>::empty()[i] != Seq::<Seq<char>>::empty()[j] by {}
    }
}

} // verus!
