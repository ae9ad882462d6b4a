//! The control manifest: features reported as problematic, and the check
//! that a configuration declares none of them.
use vstd::prelude::*;
use crate::json_value::{entries_get, entry_value, get, JsonValue};
use crate::text::{chars_of, copy_string, opt_view, starts_with, str_starts_with};

verus! {

/// A feature identifier prefix that may not be used.
#[derive(Debug)]
pub struct DisallowedFeature {
    pub feature_id_prefix: String,
    pub documentation_url: Option<String>,
}

/// A known problem in a range of versions of a feature.
#[derive(Debug)]
pub struct FeatureAdvisory {
    pub feature_id: String,
    pub introduced_in_version: String,
    pub fixed_in_version: String,
    pub description: String,
    pub documentation_url: Option<String>,
}

/// The disallowed features and advisories in force.
#[derive(Debug)]
pub struct DevContainerControlManifest {
    pub disallowed_features: Vec<DisallowedFeature>,
    pub feature_advisories: Vec<FeatureAdvisory>,
}

/// The identifier is the prefix itself or continues it after `/`, `:` or `@`.
pub open spec fn matches_prefix(feature_id: Seq<char>, prefix: Seq<char>) -> bool {
    starts_with(feature_id, prefix) && (feature_id.len() == prefix.len() || feature_id[prefix.len() as int] == '/'
        || feature_id[prefix.len() as int] == ':' || feature_id[prefix.len() as int] == '@')
}

/// Whether a feature identifier falls under a disallowed prefix.
pub fn feature_matches_prefix(feature_id: &str, prefix: &str) -> (r: bool)
    ensures
        r == matches_prefix(feature_id@, prefix@),
{
    if !str_starts_with(feature_id, prefix) {
        return false;
    }
    let f = chars_of(feature_id);
    let p = chars_of(prefix);
    if f.len() == p.len() {
        return true;
    }
    let c = f[p.len()];
    c == '/' || c == ':' || c == '@'
}

/// The index of the first disallowed entry that the identifier falls under.
pub open spec fn disallowed_index_from(entries: Seq<DisallowedFeature>, feature_id: Seq<char>, i: int) -> Option<int>
    decreases entries.len() - i,
{
    if i < 0 || i >= entries.len() {
        None
    } else if matches_prefix(feature_id, entries[i].feature_id_prefix@) {
        Some(i)
    } else {
        disallowed_index_from(entries, feature_id, i + 1)
    }
}

/// The first disallowed entry that the identifier falls under.
pub fn find_disallowed_feature_entry<'a>(control_manifest: &'a DevContainerControlManifest, feature_id: &str) -> (r: Option<&'a DisallowedFeature>)
    ensures
        match r {
            Some(e) => disallowed_index_from(control_manifest.disallowed_features@, feature_id@, 0) matches Some(i)
                && *e == control_manifest.disallowed_features@[i],
            None => disallowed_index_from(control_manifest.disallowed_features@, feature_id@, 0) is None,
        },
{
    let entries = &control_manifest.disallowed_features;
    let mut i: usize = 0;
    while i < entries.len()
        invariant
            i <= entries.len(),
            entries@ == control_manifest.disallowed_features@,
            disallowed_index_from(entries@, feature_id@, 0) == disallowed_index_from(entries@, feature_id@, i as int),
        decreases entries.len() - i,
    {
        if feature_matches_prefix(feature_id, entries[i].feature_id_prefix.as_str()) {
            return Some(&entries[i]);
        }
        i = i + 1;
    }
    None
}

/// The manifest used when no user data folder provides one.
pub fn fixture_control_manifest() -> (r: DevContainerControlManifest)
    ensures
        r.disallowed_features@.len() == 1,
        r.disallowed_features@[0].feature_id_prefix@ == "ghcr.io/devcontainers/features/problematic-feature"@,
        opt_view(r.disallowed_features@[0].documentation_url) == Some("https://containers.dev/"@),
        r.feature_advisories@.len() == 1,
        r.feature_advisories@[0].feature_id@ == "ghcr.io/devcontainers/features/feature-with-advisory"@,
        r.feature_advisories@[0].introduced_in_version@ == "1.0.7"@,
        r.feature_advisories@[0].fixed_in_version@ == "1.1.10"@,
        r.feature_advisories@[0].description@ == "Fixture advisory entry for native parity testing."@,
        opt_view(r.feature_advisories@[0].documentation_url) == Some("https://containers.dev/"@),
{
    let mut disallowed: Vec<DisallowedFeature> = Vec::new();
    disallowed.push(
        DisallowedFeature {
            feature_id_prefix: String::from_str("ghcr.io/devcontainers/features/problematic-feature"),
            documentation_url: Some(String::from_str("https://containers.dev/")),
        },
    );
    let mut advisories: Vec<FeatureAdvisory> = Vec::new();
    advisories.push(
        FeatureAdvisory {
            feature_id: String::from_str("ghcr.io/devcontainers/features/feature-with-advisory"),
            introduced_in_version: String::from_str("1.0.7"),
            fixed_in_version: String::from_str("1.1.10"),
            description: String::from_str("Fixture advisory entry for native parity testing."),
            documentation_url: Some(String::from_str("https://containers.dev/")),
        },
    );
    DevContainerControlManifest { disallowed_features: disallowed, feature_advisories: advisories }
}

/// The refusal for a declared feature that falls under a disallowed entry.
pub open spec fn disallowed_message(feature_id: Seq<char>, documentation_url: Option<Seq<char>>) -> Seq<char> {
    "Cannot use the '"@ + feature_id
        + "' Feature since it was reported to be problematic. Please remove this Feature from your configuration and rebuild any dev container using it before continuing."@
        + match documentation_url {
        Some(u) => " See "@ + u + " to learn more."@,
        None => Seq::empty(),
    }
}

/// The first declared feature that falls under a disallowed entry, with that entry.
pub open spec fn first_disallowed(manifest: DevContainerControlManifest, ids: Seq<String>) -> Option<(Seq<char>, int)>
    decreases ids.len(),
{
    if ids.len() == 0 {
        None
    } else {
        match disallowed_index_from(manifest.disallowed_features@, ids[0]@, 0) {
            Some(i) => Some((ids[0]@, i)),
            None => first_disallowed(manifest, ids.drop_first()),
        }
    }
}

/// Refuses the first declared feature that the manifest disallows.
pub fn ensure_no_disallowed_features(control_manifest: &DevContainerControlManifest, declared_feature_ids: &Vec<String>) -> (r: Result<(), String>)
    ensures
        match first_disallowed(*control_manifest, declared_feature_ids@) {
            None => r is Ok,
            Some((id, i)) => r matches Err(e) && e@ == disallowed_message(
                id,
                opt_view(control_manifest.disallowed_features@[i].documentation_url),
            ),
        },
{
    let mut k: usize = 0;
    proof {
        assert(declared_feature_ids@.skip(0) =~= declared_feature_ids@);
    }
    while k < declared_feature_ids.len()
        invariant
            k <= declared_feature_ids.len(),
            first_disallowed(*control_manifest, declared_feature_ids@) == first_disallowed(*control_manifest, declared_feature_ids@.skip(k as int)),
        decreases declared_feature_ids.len() - k,
    {
        proof {
            assert(declared_feature_ids@.skip(k as int).drop_first() =~= declared_feature_ids@.skip(k + 1));
            assert(declared_feature_ids@.skip(k as int)[0] == declared_feature_ids@[k as int]);
        }
        match find_disallowed_feature_entry(control_manifest, declared_feature_ids[k].as_str()) {
            Some(entry) => {
                let mut message = String::from_str("Cannot use the '");
                message.append(declared_feature_ids[k].as_str());
                message.append(
                    "' Feature since it was reported to be problematic. Please remove this Feature from your configuration and rebuild any dev container using it before continuing.",
                );
                match &entry.documentation_url {
                    Some(url) => {
                        message.append(" See ");
                        message.append(url.as_str());
                        message.append(" to learn more.");
                    },
                    None => {},
                }
                proof {
                    assert(message@ =~= disallowed_message(declared_feature_ids@[k as int]@, opt_view(entry.documentation_url)));
                    match disallowed_index_from(control_manifest.disallowed_features@, declared_feature_ids@[k as int]@, 0) {
                        Some(j) => {
                            assert(first_disallowed(*control_manifest, declared_feature_ids@.skip(k as int)) == Some((declared_feature_ids@[k as int]@, j)));
                        },
                        None => {},
                    }
                }
                return Err(message);
            },
            None => {},
        }
        k = k + 1;
    }
    proof {
        assert(declared_feature_ids@.skip(k as int).len() == 0);
    }
    Ok(())
}

/// The view of a disallowed feature: its prefix and documentation link.
pub open spec fn disallowed_view(d: DisallowedFeature) -> (Seq<char>, Option<Seq<char>>) {
    (d.feature_id_prefix@, opt_view(d.documentation_url))
}

/// The view of an advisory: feature, versions, description and link.
pub open spec fn advisory_view(a: FeatureAdvisory) -> (Seq<char>, Seq<char>, Seq<char>, Seq<char>, Option<Seq<char>>) {
    (
        a.feature_id@,
        a.introduced_in_version@,
        a.fixed_in_version@,
        a.description@,
        opt_view(a.documentation_url),
    )
}

/// The text of a string value at `key` of an object value.
pub open spec fn str_at(v: JsonValue, key: Seq<char>) -> Option<Seq<char>> {
    crate::json_value::get_str(v, key)
}

/// The disallowed features an array lists: each object with a string
/// `featureIdPrefix`, with its `documentationURL` when that is a string.
pub open spec fn disallowed_entries(items: Seq<JsonValue>) -> Seq<(Seq<char>, Option<Seq<char>>)>
    decreases items.len(),
{
    if items.len() == 0 {
        Seq::empty()
    } else {
        let rest = disallowed_entries(items.drop_last());
        let x = items.last();
        match (x, str_at(x, "featureIdPrefix"@)) {
            (JsonValue::Object(_), Some(p)) => rest.push((p, str_at(x, "documentationURL"@))),
            _ => rest,
        }
    }
}

/// The advisories an array lists: each object with string `featureId`,
/// `introducedInVersion`, `fixedInVersion` and `description`.
pub open spec fn advisory_entries(items: Seq<JsonValue>) -> Seq<(Seq<char>, Seq<char>, Seq<char>, Seq<char>, Option<Seq<char>>)>
    decreases items.len(),
{
    if items.len() == 0 {
        Seq::empty()
    } else {
        let rest = advisory_entries(items.drop_last());
        let x = items.last();
        match (
            x,
            str_at(x, "featureId"@),
            str_at(x, "introducedInVersion"@),
            str_at(x, "fixedInVersion"@),
            str_at(x, "description"@),
        ) {
            (JsonValue::Object(_), Some(f), Some(i), Some(v), Some(d)) => rest.push(
                (f, i, v, d, str_at(x, "documentationURL"@)),
            ),
            _ => rest,
        }
    }
}

/// The items of the array at `key`, none when it is not an array.
pub open spec fn array_at(v: JsonValue, key: Seq<char>) -> Seq<JsonValue> {
    match get(v, key) {
        Some(JsonValue::Array(items)) => items@,
        _ => Seq::empty(),
    }
}

fn str_at_exec(v: &JsonValue, key: &str) -> (r: Option<String>)
    ensures
        opt_view(r) == str_at(*v, key@),
{
    crate::json_value::json_get_str(v, key)
}

/// The control manifest a parsed document describes; entries without their
/// required strings are dropped, and a document that is not an object describes none.
pub fn sanitize_control_manifest(value: &JsonValue) -> (r: DevContainerControlManifest)
    ensures
        r.disallowed_features@.map_values(|d: DisallowedFeature| disallowed_view(d)) == disallowed_entries(
            array_at(*value, "disallowedFeatures"@),
        ),
        r.feature_advisories@.map_values(|a: FeatureAdvisory| advisory_view(a)) == advisory_entries(
            array_at(*value, "featureAdvisories"@),
        ),
{
    let mut disallowed: Vec<DisallowedFeature> = Vec::new();
    let mut advisories: Vec<FeatureAdvisory> = Vec::new();
    match crate::json_value::json_get(value, "disallowedFeatures") {
        Some(JsonValue::Array(items)) => {
            let mut i: usize = 0;
            proof {
                assert(items@.take(0) =~= Seq::<JsonValue>::empty());
            }
            while i < items.len()
                invariant
                    i <= items.len(),
                    disallowed@.map_values(|d: DisallowedFeature| disallowed_view(d)) == disallowed_entries(
                        items@.take(i as int),
                    ),
                decreases items.len() - i,
            {
                proof {
                    assert(items@.take(i + 1).drop_last() =~= items@.take(i as int));
                    assert(items@.take(i + 1).last() == items@[i as int]);
                }
                let x = &items[i];
                let is_object = match x {
                    JsonValue::Object(_) => true,
                    _ => false,
                };
                if is_object {
                    match str_at_exec(x, "featureIdPrefix") {
                        Some(p) => {
                            let d = DisallowedFeature {
                                feature_id_prefix: p,
                                documentation_url: str_at_exec(x, "documentationURL"),
                            };
                            let ghost before = disallowed@;
                            disallowed.push(d);
                            proof {
                                assert(disallowed@.map_values(|d: DisallowedFeature| disallowed_view(d))
                                    =~= before.map_values(|d: DisallowedFeature| disallowed_view(d)).push(
                                    disallowed_view(d),
                                ));
                            }
                        },
                        None => {},
                    }
                }
                i = i + 1;
            }
            proof {
                assert(items@.take(items.len() as int) =~= items@);
            }
        },
        _ => {
            proof {
                assert(disallowed@.map_values(|d: DisallowedFeature| disallowed_view(d)) =~= Seq::<
                    (Seq<char>, Option<Seq<char>>),
                >::empty());
            }
        },
    }
    match crate::json_value::json_get(value, "featureAdvisories") {
        Some(JsonValue::Array(items)) => {
            let mut i: usize = 0;
            proof {
                assert(items@.take(0) =~= Seq::<JsonValue>::empty());
            }
            while i < items.len()
                invariant
                    i <= items.len(),
                    advisories@.map_values(|a: FeatureAdvisory| advisory_view(a)) == advisory_entries(
                        items@.take(i as int),
                    ),
                decreases items.len() - i,
            {
                proof {
                    assert(items@.take(i + 1).drop_last() =~= items@.take(i as int));
                    assert(items@.take(i + 1).last() == items@[i as int]);
                }
                let x = &items[i];
                let is_object = match x {
                    JsonValue::Object(_) => true,
                    _ => false,
                };
                if is_object {
                    let f = str_at_exec(x, "featureId");
                    let iv = str_at_exec(x, "introducedInVersion");
                    let fv = str_at_exec(x, "fixedInVersion");
                    let d = str_at_exec(x, "description");
                    match (f, iv, fv, d) {
                        (Some(f), Some(iv), Some(fv), Some(d)) => {
                            let a = FeatureAdvisory {
                                feature_id: f,
                                introduced_in_version: iv,
                                fixed_in_version: fv,
                                description: d,
                                documentation_url: str_at_exec(x, "documentationURL"),
                            };
                            let ghost before = advisories@;
                            advisories.push(a);
                            proof {
                                assert(advisories@.map_values(|a: FeatureAdvisory| advisory_view(a))
                                    =~= before.map_values(|a: FeatureAdvisory| advisory_view(a)).push(
                                    advisory_view(a),
                                ));
                            }
                        },
                        _ => {},
                    }
                }
                i = i + 1;
            }
            proof {
                assert(items@.take(items.len() as int) =~= items@);
            }
        },
        _ => {
            proof {
                assert(advisories@.map_values(|a: FeatureAdvisory| advisory_view(a)) =~= Seq::<
                    (Seq<char>, Seq<char>, Seq<char>, Seq<char>, Option<Seq<char>>),
                >::empty());
            }
        },
    }
    DevContainerControlManifest { disallowed_features: disallowed, feature_advisories: advisories }
}

} // verus!
