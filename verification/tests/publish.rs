use devcontainer::json::to_json_text;
use devcontainer::json_value::JsonValue;
use devcontainer::publish::{
    index_manifests, manifest_digest_ref, oci_index, oci_layout_blobs, oci_manifest, oci_output_dir, oci_resource, publish_payload, published_tags, sha256_hex,
};

fn s(text: &str) -> JsonValue {
    JsonValue::Str(text.to_string())
}

fn object(entries: Vec<(&str, JsonValue)>) -> JsonValue {
    let mut sorted: Vec<(String, JsonValue)> = entries.into_iter().map(|(k, v)| (k.to_string(), v)).collect();
    sorted.sort_by(|a, b| a.0.cmp(&b.0));
    JsonValue::Object(sorted)
}

#[test]
fn blob_digests_are_lower_case_sha256() {
    assert_eq!(sha256_hex(b"{}"), "44136fa355b3678a1146ad16f7e8649e94fb4fc21fe77e8310c060f61caaff8a");
    assert_eq!(sha256_hex(b""), "e3b0c44298fc1c149afbf4c8996fb92427ae41e4649b934ca495991b7852b855");
}

#[test]
fn image_manifest_names_config_layer_and_metadata() {
    let metadata = object(vec![("id", s("demo")), ("version", s("1.2.3"))]);
    let manifest = oci_manifest("aaa", 2, "bbb", 10, &metadata, Some("ghcr.io/acme/demo"));
    assert_eq!(
        to_json_text(&manifest),
        [
            r#"{"annotations":{"dev.containers.metadata":"{\"id\":\"demo\",\"version\":\"1.2.3\"}","#,
            r#""org.opencontainers.image.ref.name":"ghcr.io/acme/demo"},"#,
            r#""config":{"digest":"sha256:aaa","mediaType":"application/vnd.oci.empty.v1+json","size":2},"#,
            r#""layers":[{"digest":"sha256:bbb","mediaType":"application/vnd.devcontainers.layer.v1+tar+gzip","size":10}],"#,
            r#""mediaType":"application/vnd.oci.image.manifest.v1+json","schemaVersion":2}"#,
        ]
        .concat()
    );
    let bare = oci_manifest("aaa", 2, "bbb", 10, &object(vec![]), None);
    let JsonValue::Object(e) = bare else { panic!("object") };
    let annotations = &e.iter().find(|(k, _)| k == "annotations").expect("annotations").1;
    assert_eq!(annotations, &object(vec![("dev.containers.metadata", s("{}"))]));
}

fn tags_of(index: &JsonValue) -> Vec<(String, String)> {
    let JsonValue::Object(top) = index else { panic!("object") };
    let JsonValue::Array(items) = &top.iter().find(|(k, _)| k == "manifests").expect("manifests").1 else {
        panic!("array")
    };
    items
        .iter()
        .map(|item| {
            let text = to_json_text(item);
            let digest = text.split("\"digest\":\"").nth(1).unwrap().split('"').next().unwrap().to_string();
            let tag = text.split("\"org.opencontainers.image.ref.name\":\"").nth(1).unwrap().split('"').next().unwrap().to_string();
            (tag, digest)
        })
        .collect()
}

#[test]
fn index_names_the_manifest_by_version() {
    let tags = vec!["2.0.0".to_string()];
    let index = oci_index("ccc", 321, &tags, &vec![]);
    assert_eq!(
        to_json_text(&index),
        [
            r#"{"manifests":[{"annotations":{"org.opencontainers.image.ref.name":"2.0.0"},"digest":"sha256:ccc","#,
            r#""mediaType":"application/vnd.oci.image.manifest.v1+json","size":321}],"schemaVersion":2}"#,
        ]
        .concat()
    );
    assert_eq!(published_tags(&object(vec![])), vec!["latest".to_string()]);
    assert_eq!(published_tags(&object(vec![("version", s("nightly"))])), vec!["nightly".to_string()]);
}

#[test]
fn publish_writes_a_local_oci_layout() {
    let tags = published_tags(&object(vec![("version", s("1.0.0"))]));
    assert_eq!(tags, vec!["1", "1.0", "1.0.0", "latest"]);
    let payload = publish_payload("features publish", "/a.tgz", "/out", "sha256:d", "ghcr.io", None, None, &tags);
    assert!(to_json_text(&payload).contains(r#""published":true,"publishedTags":["1","1.0","1.0.0","latest"]"#));
}

#[test]
fn publish_updates_moving_semantic_tags_for_new_patch_versions() {
    let first_tags = published_tags(&object(vec![("version", s("1.0.0"))]));
    let first = oci_index("aaa", 10, &first_tags, &index_manifests(None));
    let second_tags = published_tags(&object(vec![("version", s("1.0.1"))]));
    assert_eq!(second_tags, vec!["1", "1.0", "1.0.1", "latest"]);
    let second = oci_index("bbb", 11, &second_tags, &index_manifests(Some(&first)));
    let mut tags = tags_of(&second);
    tags.sort();
    assert_eq!(
        tags,
        vec![
            ("1".to_string(), "sha256:bbb".to_string()),
            ("1.0".to_string(), "sha256:bbb".to_string()),
            ("1.0.0".to_string(), "sha256:aaa".to_string()),
            ("1.0.1".to_string(), "sha256:bbb".to_string()),
            ("latest".to_string(), "sha256:bbb".to_string()),
        ]
    );
}

#[test]
fn publication_reference_and_report() {
    let manifest = object(vec![("id", s("demo"))]);
    assert_eq!(oci_resource(&manifest, "ghcr.io", Some("acme")), Some("ghcr.io/acme/demo".to_string()));
    assert_eq!(oci_resource(&manifest, "ghcr.io", None), None);
    assert_eq!(oci_resource(&object(vec![]), "ghcr.io", Some("acme")), None);
    assert_eq!(oci_output_dir("/work/src/feature", "feature", None), "/work/src/feature-oci-layout");
    assert_eq!(oci_output_dir("/work/src/feature", "feature", Some("/out".to_string())), "/out");
    let payload = publish_payload(
        "features publish",
        "/work/feature.tgz",
        "/work/feature-oci-layout",
        "sha256:ddd",
        "ghcr.io",
        None,
        None,
        &vec![],
    );
    assert_eq!(
        to_json_text(&payload),
        [
            r#"{"archive":"/work/feature.tgz","command":"features publish","digest":"sha256:ddd","#,
            r#""layout":"/work/feature-oci-layout","mode":"local-oci-layout","namespace":null,"outcome":"success","#,
            r#""published":true,"publishedTags":[],"registry":"ghcr.io","resource":null}"#,
        ]
        .concat()
    );
}

#[test]
fn layout_blobs_are_named_by_their_digests() {
    let metadata = object(vec![("id", s("demo"))]);
    let (config, layer, manifest) = oci_layout_blobs(b"abc", &metadata, None);
    assert_eq!(config, "44136fa355b3678a1146ad16f7e8649e94fb4fc21fe77e8310c060f61caaff8a");
    assert_eq!(layer, "ba7816bf8f01cfea414140de5dae2223b00361a396177a9cb410ff61f20015ad");
    assert!(to_json_text(&manifest).contains(r#""digest":"sha256:ba7816bf8f01cfea414140de5dae2223b00361a396177a9cb410ff61f20015ad","mediaType":"application/vnd.devcontainers.layer.v1+tar+gzip","size":3"#));
    assert_eq!(
        manifest_digest_ref(b""),
        "sha256:e3b0c44298fc1c149afbf4c8996fb92427ae41e4649b934ca495991b7852b855"
    );
}
