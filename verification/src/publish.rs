//! Publishing a collection target as a local OCI image layout: the digests
//! of its blobs, its image manifest and index, and the report of the
//! publication.
use vstd::prelude::*;
use crate::devcontainer_id::{encode_hex_lower, hex_lower, sha256_digest, sha256_of};
use crate::feature_resolution::{object_from, object_of, text};
use crate::json::{json_text, to_json_text};
use crate::json_value::{jentries, json_get, lemma_get_view, lemma_jentries, vget, JsonValue, JsonView};
use crate::host_requirements::{digits_len, digits_len_exec};
use crate::text::{append_chars, chars_of, copy_string, decimal, parent, path_join, path_parent, split, split_chars, string_of, usize_to_string};

verus! {

/// A number value.
pub open spec fn number(n: nat) -> JsonView {
    JsonView::Number(decimal(n))
}

/// A text value, or null.
pub open spec fn opt_text(t: Option<Seq<char>>) -> JsonView {
    match t {
        Some(s) => text(s),
        None => JsonView::Null,
    }
}

/// The lower-case hexadecimal SHA-256 digest of the bytes.
pub fn sha256_hex(bytes: &[u8]) -> (r: String)
    ensures
        r@ == hex_lower(sha256_of(bytes@)),
{
    let d = sha256_digest(bytes);
    encode_hex_lower(d.as_slice())
}

/// `sha256:` followed by a digest.
pub open spec fn digest_ref(digest: Seq<char>) -> Seq<char> {
    "sha256:"@ + digest
}

fn digest_text(digest: &str) -> (r: String)
    ensures
        r@ == digest_ref(digest@),
{
    let mut out = chars_of("sha256:");
    append_chars(&mut out, &chars_of(digest));
    string_of(&out)
}

/// The empty configuration blob, `{}`.
pub open spec fn config_blob() -> Seq<u8> {
    seq![0x7bu8, 0x7du8]
}

/// The blobs of a layout for an archive: the empty configuration's digest,
/// the archive's digest, and the image manifest naming both by digest and
/// size, each digest the lower-case hexadecimal SHA-256 of its blob.
pub fn oci_layout_blobs(layer: &[u8], metadata: &JsonValue, resource: Option<&str>) -> (r: (String, String, JsonValue))
    ensures
        r.0@ == hex_lower(sha256_of(config_blob())),
        r.1@ == hex_lower(sha256_of(layer@)),
        r.2@ == oci_manifest_of(
            hex_lower(sha256_of(config_blob())),
            2,
            hex_lower(sha256_of(layer@)),
            layer@.len(),
            metadata@,
            match resource {
                Some(s) => Some(s@),
                None => None,
            },
        ),
{
    let config: [u8; 2] = [0x7b, 0x7d];
    proof {
        assert(config@ =~= config_blob());
    }
    let config_digest = sha256_hex(&config);
    let layer_digest = sha256_hex(layer);
    let manifest = oci_manifest(config_digest.as_str(), 2, layer_digest.as_str(), layer.len(), metadata, resource);
    (config_digest, layer_digest, manifest)
}

/// The digest a layout is published under: `sha256:` and the digest of the
/// manifest's bytes as written.
pub fn manifest_digest_ref(manifest_bytes: &[u8]) -> (r: String)
    ensures
        r@ == digest_ref(hex_lower(sha256_of(manifest_bytes@))),
{
    let d = sha256_hex(manifest_bytes);
    digest_text(d.as_str())
}

/// The annotations of the image manifest: the metadata as JSON text, and the
/// reference name when there is one.
pub open spec fn annotations_of(metadata_text: Seq<char>, resource: Option<Seq<char>>) -> JsonView {
    object_of(
        seq![("dev.containers.metadata"@, text(metadata_text))] + match resource {
            Some(r) => seq![("org.opencontainers.image.ref.name"@, text(r))],
            None => Seq::empty(),
        },
    )
}

/// The image manifest of the layout: the empty config and the archive as
/// its one layer, by digest and size, with the metadata annotations.
pub open spec fn oci_manifest_of(
    config_digest: Seq<char>,
    config_size: nat,
    layer_digest: Seq<char>,
    layer_size: nat,
    metadata: JsonView,
    resource: Option<Seq<char>>,
) -> JsonView {
    object_of(
        seq![
            ("schemaVersion"@, number(2)),
            ("mediaType"@, text("application/vnd.oci.image.manifest.v1+json"@)),
            (
                "config"@,
                object_of(
                    seq![
                        ("mediaType"@, text("application/vnd.oci.empty.v1+json"@)),
                        ("digest"@, text(digest_ref(config_digest))),
                        ("size"@, number(config_size)),
                    ],
                ),
            ),
            (
                "layers"@,
                JsonView::Array(
                    seq![
                        object_of(
                            seq![
                                ("mediaType"@, text("application/vnd.devcontainers.layer.v1+tar+gzip"@)),
                                ("digest"@, text(digest_ref(layer_digest))),
                                ("size"@, number(layer_size)),
                            ],
                        ),
                    ],
                ),
            ),
            ("annotations"@, annotations_of(json_text(metadata), resource)),
        ],
    )
}

fn pair(k: &str, v: JsonValue) -> (r: (String, JsonValue))
    ensures
        r.0@ == k@,
        r.1 == v,
{
    (String::from_str(k), v)
}

fn num(n: usize) -> (r: JsonValue)
    ensures
        r@ == number(n as nat),
{
    JsonValue::Number(usize_to_string(n))
}

fn str_value(s: String) -> (r: JsonValue)
    ensures
        r@ == text(s@),
{
    JsonValue::Str(s)
}

fn three(a: (String, JsonValue), b: (String, JsonValue), c: (String, JsonValue)) -> (r: Vec<(String, JsonValue)>)
    ensures
        jentries(r@) == seq![(a.0@, a.1@), (b.0@, b.1@), (c.0@, c.1@)],
{
    let mut v: Vec<(String, JsonValue)> = Vec::new();
    v.push(a);
    v.push(b);
    v.push(c);
    proof {
        lemma_jentries(v@);
        assert(jentries(v@) =~= seq![(v@[0].0@, v@[0].1@), (v@[1].0@, v@[1].1@), (v@[2].0@, v@[2].1@)]);
    }
    v
}

/// The image manifest of a layout.
pub fn oci_manifest(
    config_digest: &str,
    config_size: usize,
    layer_digest: &str,
    layer_size: usize,
    metadata: &JsonValue,
    resource: Option<&str>,
) -> (r: JsonValue)
    ensures
        r@ == oci_manifest_of(
            config_digest@,
            config_size as nat,
            layer_digest@,
            layer_size as nat,
            metadata@,
            match resource {
                Some(s) => Some(s@),
                None => None,
            },
        ),
{
    let config = object_from(
        three(
            pair("mediaType", str_value(String::from_str("application/vnd.oci.empty.v1+json"))),
            pair("digest", str_value(digest_text(config_digest))),
            pair("size", num(config_size)),
        ),
    );
    let layer = object_from(
        three(
            pair("mediaType", str_value(String::from_str("application/vnd.devcontainers.layer.v1+tar+gzip"))),
            pair("digest", str_value(digest_text(layer_digest))),
            pair("size", num(layer_size)),
        ),
    );
    let mut layers: Vec<JsonValue> = Vec::new();
    layers.push(layer);
    proof {
        crate::json_value::lemma_jviews(layers@);
        assert(crate::json_value::jviews(layers@) =~= seq![layers@[0]@]);
    }
    let mut notes: Vec<(String, JsonValue)> = Vec::new();
    notes.push(pair("dev.containers.metadata", str_value(to_json_text(metadata))));
    match resource {
        Some(r) => notes.push(pair("org.opencontainers.image.ref.name", str_value(String::from_str(r)))),
        None => {},
    }
    proof {
        lemma_jentries(notes@);
        assert(jentries(notes@) =~= seq![("dev.containers.metadata"@, text(json_text(metadata@)))] + match resource {
            Some(r) => seq![("org.opencontainers.image.ref.name"@, text(r@))],
            None => Seq::<(Seq<char>, JsonView)>::empty(),
        });
    }
    let annotations = object_from(notes);
    let mut top: Vec<(String, JsonValue)> = Vec::new();
    top.push(pair("schemaVersion", num(2)));
    top.push(pair("mediaType", str_value(String::from_str("application/vnd.oci.image.manifest.v1+json"))));
    top.push(pair("config", config));
    top.push(pair("layers", JsonValue::Array(layers)));
    top.push(pair("annotations", annotations));
    proof {
        lemma_jentries(top@);
        assert(jentries(top@) =~= seq![
            (top@[0].0@, top@[0].1@),
            (top@[1].0@, top@[1].1@),
            (top@[2].0@, top@[2].1@),
            (top@[3].0@, top@[3].1@),
            (top@[4].0@, top@[4].1@),
        ]);
    }
    object_from(top)
}

/// A version of three dot-separated whole numbers.
pub open spec fn is_semver(v: Seq<char>) -> bool {
    let p = split(v, '.');
    &&& p.len() == 3
    &&& forall|i: int| 0 <= i < 3 ==> #[trigger] p[i].len() > 0 && digits_len(p[i]) == p[i].len()
}

/// The tags a version is published under: a version `x.y.z` under `x`,
/// `x.y`, `x.y.z` and `latest`; any other version under itself; no version
/// under `latest`.
pub open spec fn published_tags_of(version: Option<Seq<char>>) -> Seq<Seq<char>> {
    match version {
        None => seq!["latest"@],
        Some(v) => if is_semver(v) {
            let p = split(v, '.');
            seq![p[0], p[0] + "."@ + p[1], v, "latest"@]
        } else {
            seq![v]
        },
    }
}

/// The version of a manifest, when it is a string.
pub open spec fn version_of_manifest(metadata: JsonView) -> Option<Seq<char>> {
    match vget(metadata, "version"@) {
        Some(JsonView::Str(v)) => Some(v),
        _ => None,
    }
}

/// The tags the manifest's version is published under.
pub fn published_tags(metadata: &JsonValue) -> (r: Vec<String>)
    ensures
        crate::text::views(r@) == published_tags_of(version_of_manifest(metadata@)),
{
    proof {
        lemma_get_view(*metadata, "version"@);
    }
    let mut out: Vec<String> = Vec::new();
    match json_get(metadata, "version") {
        Some(JsonValue::Str(v)) => {
            let cv = chars_of(v.as_str());
            let parts = split_chars(&cv, '.');
            let ghost pv = parts@.map_values(|p: Vec<char>| p@);
            let mut ok = parts.len() == 3;
            if ok {
                let mut i: usize = 0;
                while i < 3
                    invariant
                        i <= 3,
                        parts@.len() == 3,
                        pv == parts@.map_values(|p: Vec<char>| p@),
                        ok <==> forall|j: int| 0 <= j < i ==> #[trigger] pv[j].len() > 0 && digits_len(pv[j]) == pv[j].len(),
                    decreases 3 - i,
                {
                    let n = digits_len_exec(&parts[i]);
                    let good = parts[i].len() > 0 && n == parts[i].len();
                    proof {
                        assert(pv[i as int] == parts@[i as int]@);
                        assert((ok && good) <==> forall|j: int| 0 <= j < i + 1 ==> #[trigger] pv[j].len() > 0 && digits_len(pv[j]) == pv[j].len()) by {
                            if ok && good {
                                assert forall|j: int| 0 <= j < i + 1 implies #[trigger] pv[j].len() > 0 && digits_len(pv[j]) == pv[j].len() by {
                                    if j < i {
                                        assert(0 <= j < i);
                                    }
                                }
                            }
                            if !good {
                                assert(!(pv[i as int].len() > 0 && digits_len(pv[i as int]) == pv[i as int].len()));
                            }
                        }
                    }
                    ok = ok && good;
                    i = i + 1;
                }
            }
            proof {
                assert(ok == is_semver(v@));
            }
            if ok {
                proof {
                    assert(pv[0] == parts@[0]@);
                    assert(pv[1] == parts@[1]@);
                }
                let major = string_of(&parts[0]);
                let mut minor = chars_of(major.as_str());
                append_chars(&mut minor, &chars_of("."));
                append_chars(&mut minor, &parts[1]);
                out.push(major);
                out.push(string_of(&minor));
                out.push(copy_string(v));
                out.push(String::from_str("latest"));
            } else {
                out.push(copy_string(v));
            }
        },
        _ => {
            out.push(String::from_str("latest"));
        },
    }
    proof {
        assert(crate::text::views(out@) =~= published_tags_of(version_of_manifest(metadata@)));
    }
    out
}

/// The tag an index entry is named by.
pub open spec fn ref_name_of(entry: JsonView) -> Option<Seq<char>> {
    match vget(entry, "annotations"@) {
        Some(a) => match vget(a, "org.opencontainers.image.ref.name"@) {
            Some(JsonView::Str(t)) => Some(t),
            _ => None,
        },
        None => None,
    }
}

/// Whether an index entry is named by one of the tags.
pub open spec fn moves(entry: JsonView, tags: Seq<Seq<char>>) -> bool {
    match ref_name_of(entry) {
        Some(t) => tags.contains(t),
        None => false,
    }
}

/// The entries of an earlier index that stay: those not named by one of
/// the tags, in order.
pub open spec fn kept_manifests(existing: Seq<JsonView>, tags: Seq<Seq<char>>) -> Seq<JsonView>
    decreases existing.len(),
{
    if existing.len() == 0 {
        Seq::empty()
    } else {
        let rest = kept_manifests(existing.drop_last(), tags);
        if moves(existing.last(), tags) {
            rest
        } else {
            rest.push(existing.last())
        }
    }
}

/// The index entry naming the manifest by a tag.
pub open spec fn tag_entry(manifest_digest: Seq<char>, manifest_size: nat, tag: Seq<char>) -> JsonView {
    object_of(
        seq![
            ("mediaType"@, text("application/vnd.oci.image.manifest.v1+json"@)),
            ("digest"@, text(digest_ref(manifest_digest))),
            ("size"@, number(manifest_size)),
            ("annotations"@, object_of(seq![("org.opencontainers.image.ref.name"@, text(tag))])),
        ],
    )
}

/// The index of a layout: the entries of the earlier index whose tag is not
/// published again, then an entry naming the manifest by each tag.
pub open spec fn oci_index_of(
    manifest_digest: Seq<char>,
    manifest_size: nat,
    tags: Seq<Seq<char>>,
    existing: Seq<JsonView>,
) -> JsonView {
    object_of(
        seq![
            ("schemaVersion"@, number(2)),
            (
                "manifests"@,
                JsonView::Array(
                    kept_manifests(existing, tags) + tags.map_values(
                        |t: Seq<char>| tag_entry(manifest_digest, manifest_size, t),
                    ),
                ),
            ),
        ],
    )
}

/// The entries of an earlier index, when there is one.
pub fn index_manifests(index: Option<&JsonValue>) -> (r: Vec<JsonValue>)
    ensures
        crate::json_value::jviews(r@) == match index {
            Some(i) => match vget(i@, "manifests"@) {
                Some(JsonView::Array(items)) => items,
                _ => Seq::empty(),
            },
            None => Seq::empty(),
        },
{
    let mut out: Vec<JsonValue> = Vec::new();
    match index {
        Some(i) => {
            proof {
                lemma_get_view(*i, "manifests"@);
            }
            match json_get(i, "manifests") {
                Some(JsonValue::Array(items)) => {
                    let mut k: usize = 0;
                    proof {
                        crate::json_value::lemma_jviews(items@);
                    }
                    while k < items.len()
                        invariant
                            k <= items.len(),
                            crate::json_value::jviews(items@).len() == items@.len(),
                            forall|q: int| 0 <= q < items@.len() ==> #[trigger] crate::json_value::jviews(items@)[q] == items@[q]@,
                            crate::json_value::jviews(out@) == crate::json_value::jviews(items@).take(k as int),
                        decreases items.len() - k,
                    {
                        let c = crate::json_value::json_clone(&items[k]);
                        let ghost before = out@;
                        out.push(c);
                        proof {
                            crate::json_value::lemma_jviews(before);
                            crate::json_value::lemma_jviews(out@);
                            assert(crate::json_value::jviews(out@) =~= crate::json_value::jviews(items@).take(k + 1));
                        }
                        k = k + 1;
                    }
                    proof {
                        assert(crate::json_value::jviews(items@).take(items.len() as int) =~= crate::json_value::jviews(items@));
                    }
                },
                _ => {
                    proof {
                        assert(crate::json_value::jviews(out@) =~= Seq::<JsonView>::empty());
                    }
                },
            }
        },
        None => {
            proof {
                assert(crate::json_value::jviews(out@) =~= Seq::<JsonView>::empty());
            }
        },
    }
    out
}

fn ref_name_exec(entry: &JsonValue) -> (r: Option<String>)
    ensures
        crate::text::opt_view(r) == ref_name_of(entry@),
{
    proof {
        lemma_get_view(*entry, "annotations"@);
    }
    match json_get(entry, "annotations") {
        Some(a) => {
            proof {
                lemma_get_view(*a, "org.opencontainers.image.ref.name"@);
            }
            match json_get(a, "org.opencontainers.image.ref.name") {
                Some(JsonValue::Str(t)) => Some(copy_string(t)),
                _ => None,
            }
        },
        None => None,
    }
}

fn tag_entry_value(manifest_digest: &str, manifest_size: usize, tag: &String) -> (r: JsonValue)
    ensures
        r@ == tag_entry(manifest_digest@, manifest_size as nat, tag@),
{
    let mut notes: Vec<(String, JsonValue)> = Vec::new();
    notes.push(pair("org.opencontainers.image.ref.name", str_value(copy_string(tag))));
    proof {
        lemma_jentries(notes@);
        assert(jentries(notes@) =~= seq![(notes@[0].0@, notes@[0].1@)]);
    }
    let annotations = object_from(notes);
    let mut entry: Vec<(String, JsonValue)> = Vec::new();
    entry.push(pair("mediaType", str_value(String::from_str("application/vnd.oci.image.manifest.v1+json"))));
    entry.push(pair("digest", str_value(digest_text(manifest_digest))));
    entry.push(pair("size", num(manifest_size)));
    entry.push(pair("annotations", annotations));
    proof {
        lemma_jentries(entry@);
        assert(jentries(entry@) =~= seq![
            (entry@[0].0@, entry@[0].1@),
            (entry@[1].0@, entry@[1].1@),
            (entry@[2].0@, entry@[2].1@),
            (entry@[3].0@, entry@[3].1@),
        ]);
    }
    object_from(entry)
}

fn names_contain(tags: &Vec<String>, t: &String) -> (r: bool)
    ensures
        r == crate::text::views(tags@).contains(t@),
{
    let mut i: usize = 0;
    while i < tags.len()
        invariant
            i <= tags.len(),
            forall|k: int| 0 <= k < i ==> tags@[k]@ != t@,
        decreases tags.len() - i,
    {
        if crate::text::str_eq(tags[i].as_str(), t.as_str()) {
            proof {
                assert(crate::text::views(tags@)[i as int] == t@);
            }
            return true;
        }
        i = i + 1;
    }
    proof {
        if crate::text::views(tags@).contains(t@) {
            let k = choose|k: int| 0 <= k < crate::text::views(tags@).len() && crate::text::views(tags@)[k] == t@;
            assert(tags@[k]@ == t@);
        }
    }
    false
}

/// The index of a layout, given the tags of the manifest and the entries
/// of the index written before.
pub fn oci_index(manifest_digest: &str, manifest_size: usize, tags: &Vec<String>, existing: &Vec<JsonValue>) -> (r: JsonValue)
    ensures
        r@ == oci_index_of(manifest_digest@, manifest_size as nat, crate::text::views(tags@), crate::json_value::jviews(existing@)),
{
    let ghost tv = crate::text::views(tags@);
    let ghost ev = crate::json_value::jviews(existing@);
    let mut manifests: Vec<JsonValue> = Vec::new();
    proof {
        crate::json_value::lemma_jviews(existing@);
        assert(ev.take(0) =~= Seq::<JsonView>::empty());
        assert(crate::json_value::jviews(manifests@) =~= Seq::<JsonView>::empty());
    }
    let mut i: usize = 0;
    while i < existing.len()
        invariant
            i <= existing.len(),
            ev == crate::json_value::jviews(existing@),
            tv == crate::text::views(tags@),
            ev.len() == existing@.len(),
            forall|q: int| 0 <= q < existing@.len() ==> #[trigger] ev[q] == existing@[q]@,
            crate::json_value::jviews(manifests@) == kept_manifests(ev.take(i as int), tv),
        decreases existing.len() - i,
    {
        proof {
            assert(ev.take(i + 1).drop_last() =~= ev.take(i as int));
            assert(ev.take(i + 1).last() == existing@[i as int]@);
        }
        let moved = match ref_name_exec(&existing[i]) {
            Some(t) => names_contain(tags, &t),
            None => false,
        };
        if !moved {
            let c = crate::json_value::json_clone(&existing[i]);
            let ghost before = manifests@;
            manifests.push(c);
            proof {
                crate::json_value::lemma_jviews(before);
                crate::json_value::lemma_jviews(manifests@);
                assert(crate::json_value::jviews(manifests@) =~= crate::json_value::jviews(before).push(c@));
            }
        }
        i = i + 1;
    }
    proof {
        assert(ev.take(existing.len() as int) =~= ev);
    }
    let ghost kept = crate::json_value::jviews(manifests@);
    let ghost entries = tv.map_values(|t: Seq<char>| tag_entry(manifest_digest@, manifest_size as nat, t));
    let mut j: usize = 0;
    proof {
        assert(kept + entries.take(0) =~= kept);
    }
    while j < tags.len()
        invariant
            j <= tags.len(),
            tv == crate::text::views(tags@),
            entries == tv.map_values(|t: Seq<char>| tag_entry(manifest_digest@, manifest_size as nat, t)),
            crate::json_value::jviews(manifests@) == kept + entries.take(j as int),
        decreases tags.len() - j,
    {
        let e = tag_entry_value(manifest_digest, manifest_size, &tags[j]);
        let ghost before = manifests@;
        manifests.push(e);
        proof {
            crate::json_value::lemma_jviews(before);
            crate::json_value::lemma_jviews(manifests@);
            assert(crate::json_value::jviews(manifests@) =~= crate::json_value::jviews(before).push(e@));
            assert(entries[j as int] == e@);
            assert(kept + entries.take(j + 1) =~= (kept + entries.take(j as int)).push(e@));
        }
        j = j + 1;
    }
    proof {
        assert(entries.take(tags.len() as int) =~= entries);
    }
    let mut top: Vec<(String, JsonValue)> = Vec::new();
    top.push(pair("schemaVersion", num(2)));
    top.push(pair("manifests", JsonValue::Array(manifests)));
    proof {
        lemma_jentries(top@);
        assert(jentries(top@) =~= seq![(top@[0].0@, top@[0].1@), (top@[1].0@, top@[1].1@)]);
    }
    object_from(top)
}

/// Publishing again keeps an entry of the earlier index exactly when its
/// tag is not one of those published now (those tags move to the entries
/// naming the new manifest).
pub proof fn lemma_republished_tags_move(existing: Seq<JsonView>, tags: Seq<Seq<char>>, e: JsonView)
    ensures
        kept_manifests(existing, tags).contains(e) <==> (existing.contains(e) && !moves(e, tags)),
    decreases existing.len(),
{
    if existing.len() > 0 {
        lemma_republished_tags_move(existing.drop_last(), tags, e);
        let rest = kept_manifests(existing.drop_last(), tags);
        assert(existing =~= existing.drop_last().push(existing.last()));
        if existing.contains(e) && !existing.drop_last().contains(e) {
            let k = choose|k: int| 0 <= k < existing.len() && existing[k] == e;
            if k < existing.len() - 1 {
                assert(existing.drop_last()[k] == e);
            }
        }
        if existing.drop_last().contains(e) {
            let k = choose|k: int| 0 <= k < existing.len() - 1 && existing.drop_last()[k] == e;
            assert(existing[k] == e);
        }
        if !moves(existing.last(), tags) {
            assert(rest.push(existing.last()).last() == existing.last());
            if rest.contains(e) {
                let k = choose|k: int| 0 <= k < rest.len() && rest[k] == e;
                assert(rest.push(existing.last())[k] == e);
            }
            if rest.push(existing.last()).contains(e) {
                let k = choose|k: int| 0 <= k < rest.len() + 1 && rest.push(existing.last())[k] == e;
                if k < rest.len() {
                    assert(rest[k] == e);
                }
            }
        }
    }
}

/// The reference the layout is published under: the registry, the
/// namespace and the manifest's `id`, when a namespace is given and the
/// manifest has an id.
pub open spec fn oci_resource_of(manifest: JsonView, registry: Seq<char>, namespace: Option<Seq<char>>) -> Option<Seq<char>> {
    match namespace {
        Some(ns) => match vget(manifest, "id"@) {
            Some(JsonView::Str(id)) => Some(registry + "/"@ + ns + "/"@ + id),
            _ => None,
        },
        None => None,
    }
}

/// The reference the layout is published under.
pub fn oci_resource(manifest: &JsonValue, registry: &str, namespace: Option<&str>) -> (r: Option<String>)
    ensures
        crate::text::opt_view(r) == oci_resource_of(
            manifest@,
            registry@,
            match namespace {
                Some(n) => Some(n@),
                None => None,
            },
        ),
{
    proof {
        lemma_get_view(*manifest, "id"@);
    }
    match namespace {
        Some(ns) => match json_get(manifest, "id") {
            Some(JsonValue::Str(id)) => {
                let mut out = chars_of(registry);
                append_chars(&mut out, &chars_of("/"));
                append_chars(&mut out, &chars_of(ns));
                append_chars(&mut out, &chars_of("/"));
                append_chars(&mut out, &chars_of(id.as_str()));
                Some(string_of(&out))
            },
            _ => None,
        },
        None => None,
    }
}

/// Where the layout is written: the given folder, else `<prefix>-oci-layout`
/// beside the target.
pub open spec fn oci_output_dir_of(target: Seq<char>, prefix: Seq<char>, explicit: Option<Seq<char>>) -> Seq<char> {
    match explicit {
        Some(d) => d,
        None => path_join(
            match parent(target) {
                Some(p) => p,
                None => target,
            },
            prefix + "-oci-layout"@,
        ),
    }
}

/// Where the layout is written.
pub fn oci_output_dir(target: &str, prefix: &str, explicit: Option<String>) -> (r: String)
    ensures
        r@ == oci_output_dir_of(
            target@,
            prefix@,
            match explicit {
                Some(d) => Some(d@),
                None => None,
            },
        ),
{
    match explicit {
        Some(d) => d,
        None => {
            let base = match path_parent(target) {
                Some(p) => p,
                None => String::from_str(target),
            };
            let mut name = chars_of(prefix);
            append_chars(&mut name, &chars_of("-oci-layout"));
            crate::text::join_path(base.as_str(), string_of(&name).as_str())
        },
    }
}

/// The report of a publication.
pub open spec fn publish_payload_of(
    command: Seq<char>,
    archive: Seq<char>,
    layout: Seq<char>,
    digest: Seq<char>,
    registry: Seq<char>,
    namespace: Option<Seq<char>>,
    resource: Option<Seq<char>>,
    tags: Seq<Seq<char>>,
) -> JsonView {
    object_of(
        seq![
            ("outcome"@, text("success"@)),
            ("command"@, text(command)),
            ("archive"@, text(archive)),
            ("published"@, JsonView::Bool(true)),
            ("layout"@, text(layout)),
            ("digest"@, text(digest)),
            ("mode"@, text("local-oci-layout"@)),
            ("registry"@, text(registry)),
            ("namespace"@, opt_text(namespace)),
            ("resource"@, opt_text(resource)),
            ("publishedTags"@, JsonView::Array(tags.map_values(|t: Seq<char>| text(t)))),
        ],
    )
}

fn opt_value(t: Option<String>) -> (r: JsonValue)
    ensures
        r@ == opt_text(crate::text::opt_view(t)),
{
    match t {
        Some(s) => JsonValue::Str(s),
        None => JsonValue::Null,
    }
}

/// The report of a publication.
pub fn publish_payload(
    command: &str,
    archive: &str,
    layout: &str,
    digest: &str,
    registry: &str,
    namespace: Option<String>,
    resource: Option<String>,
    tags: &Vec<String>,
) -> (r: JsonValue)
    ensures
        r@ == publish_payload_of(
            command@,
            archive@,
            layout@,
            digest@,
            registry@,
            crate::text::opt_view(namespace),
            crate::text::opt_view(resource),
            crate::text::views(tags@),
        ),
{
    let ghost tv = crate::text::views(tags@);
    let mut tag_values: Vec<JsonValue> = Vec::new();
    let mut i: usize = 0;
    proof {
        assert(crate::json_value::jviews(tag_values@) =~= tv.map_values(|t: Seq<char>| text(t)).take(0));
    }
    while i < tags.len()
        invariant
            i <= tags.len(),
            tv == crate::text::views(tags@),
            crate::json_value::jviews(tag_values@) == tv.map_values(|t: Seq<char>| text(t)).take(i as int),
        decreases tags.len() - i,
    {
        let v = str_value(copy_string(&tags[i]));
        let ghost before = tag_values@;
        tag_values.push(v);
        proof {
            crate::json_value::lemma_jviews(before);
            crate::json_value::lemma_jviews(tag_values@);
            assert(crate::json_value::jviews(tag_values@) =~= crate::json_value::jviews(before).push(v@));
            assert(tv.map_values(|t: Seq<char>| text(t)).take(i + 1) =~= tv.map_values(|t: Seq<char>| text(t)).take(i as int).push(v@));
        }
        i = i + 1;
    }
    proof {
        assert(tv.map_values(|t: Seq<char>| text(t)).take(tags.len() as int) =~= tv.map_values(|t: Seq<char>| text(t)));
    }
    let mut top: Vec<(String, JsonValue)> = Vec::new();
    top.push(pair("outcome", str_value(String::from_str("success"))));
    top.push(pair("command", str_value(String::from_str(command))));
    top.push(pair("archive", str_value(String::from_str(archive))));
    top.push(pair("published", JsonValue::Bool(true)));
    top.push(pair("layout", str_value(String::from_str(layout))));
    top.push(pair("digest", str_value(String::from_str(digest))));
    top.push(pair("mode", str_value(String::from_str("local-oci-layout"))));
    top.push(pair("registry", str_value(String::from_str(registry))));
    top.push(pair("namespace", opt_value(namespace)));
    top.push(pair("resource", opt_value(resource)));
    top.push(pair("publishedTags", JsonValue::Array(tag_values)));
    proof {
        lemma_jentries(top@);
        assert(jentries(top@) =~= seq![
            (top@[0].0@, top@[0].1@),
            (top@[1].0@, top@[1].1@),
            (top@[2].0@, top@[2].1@),
            (top@[3].0@, top@[3].1@),
            (top@[4].0@, top@[4].1@),
            (top@[5].0@, top@[5].1@),
            (top@[6].0@, top@[6].1@),
            (top@[7].0@, top@[7].1@),
            (top@[8].0@, top@[8].1@),
            (top@[9].0@, top@[9].1@),
            (top@[10].0@, top@[10].1@),
        ]);
    }
    object_from(top)
}

} // verus!
