//! A feature's options: the defaults its manifest declares with the values a
//! configuration sets over them, as an object, as environment variables, and
//! in the feature object reported for the configuration.
use vstd::prelude::*;
use crate::features::option_env_char;
use crate::json::json_text;
use crate::json_object::{
    entries_of, items_of, list_at, list_copy, object_at, object_copy, object_insert, object_remove, vinsert, vremove,
    Entries,
};
use crate::json_value::{
    entries_get, jentries, json_clone, json_get, jviews, lemma_entry_value_view, lemma_get_view, lemma_jentries,
    lemma_jviews, vget, ventry, JsonValue, JsonView,
};
use crate::merge::{fold_insert, insert_all, lemma_jviews_push};
use crate::text::copy_string;

verus! {

/// The default of each option that declares one, by option name.
pub open spec fn option_defaults(options: Entries) -> Entries
    decreases options.len(),
{
    if options.len() == 0 {
        Seq::empty()
    } else {
        let rest = option_defaults(options.drop_last());
        match vget(options.last().1, "default"@) {
            Some(d) => vinsert(rest, options.last().0, d),
            None => rest,
        }
    }
}

/// The option values of a feature: the manifest's defaults, with the values
/// the configuration sets for the feature put over them.
pub open spec fn merged_options_of(manifest: JsonView, value: JsonView) -> Entries {
    let defaults = match vget(manifest, "options"@) {
        Some(JsonView::Object(o)) => option_defaults(o),
        _ => Seq::empty(),
    };
    fold_insert(defaults, entries_of(value))
}

/// The text an option value takes in the environment: nothing for null,
/// `true` or `false`, a number's or a string's text, and the JSON text of
/// anything else.
pub open spec fn env_text(v: JsonView) -> Seq<char> {
    match v {
        JsonView::Null => Seq::empty(),
        JsonView::Bool(b) => if b {
            "true"@
        } else {
            "false"@
        },
        JsonView::Number(n) => n,
        JsonView::Str(t) => t,
        _ => json_text(v),
    }
}

/// The environment variable name of an option.
pub open spec fn env_name(key: Seq<char>) -> Seq<char> {
    key.map_values(|c: char| option_env_char(c))
}

fn merged_feature_options(manifest: &JsonValue, value: &JsonValue) -> (r: Vec<(String, JsonValue)>)
    ensures
        jentries(r@) == merged_options_of(manifest@, value@),
{
    let mut merged: Vec<(String, JsonValue)> = Vec::new();
    proof {
        assert(jentries(merged@) =~= Seq::<(Seq<char>, JsonView)>::empty());
        lemma_get_view(*manifest, "options"@);
    }
    match json_get(manifest, "options") {
        Some(JsonValue::Object(options)) => {
            let ghost ov = jentries(options@);
            proof {
                lemma_jentries(options@);
                assert(ov.take(0) =~= Seq::<(Seq<char>, JsonView)>::empty());
            }
            let mut i: usize = 0;
            while i < options.len()
                invariant
                    i <= options.len(),
                    ov == jentries(options@),
                    ov.len() == options@.len(),
                    forall|q: int| 0 <= q < options@.len() ==> #[trigger] ov[q] == (options@[q].0@, options@[q].1@),
                    jentries(merged@) == option_defaults(ov.take(i as int)),
                decreases options.len() - i,
            {
                proof {
                    assert(ov.take(i + 1).drop_last() =~= ov.take(i as int));
                    assert(ov.take(i + 1).last() == ov[i as int]);
                    lemma_get_view(options@[i as int].1, "default"@);
                }
                match json_get(&options[i].1, "default") {
                    Some(d) => {
                        let c = json_clone(d);
                        object_insert(&mut merged, copy_string(&options[i].0), c);
                    },
                    None => {},
                }
                i = i + 1;
            }
            proof {
                assert(ov.take(options.len() as int) =~= ov);
            }
        },
        _ => {},
    }
    match value {
        JsonValue::Object(overrides) => {
            insert_all(&mut merged, overrides);
        },
        _ => {},
    }
    merged
}

/// The option values of a feature as an object.
pub fn feature_options(manifest: &JsonValue, value: &JsonValue) -> (r: JsonValue)
    ensures
        r@ == JsonView::Object(merged_options_of(manifest@, value@)),
{
    JsonValue::Object(merged_feature_options(manifest, value))
}

/// The text of an option value in the environment.
pub fn json_value_to_env(value: &JsonValue) -> (r: String)
    ensures
        r@ == env_text(value@),
{
    match value {
        JsonValue::Null => String::new(),
        JsonValue::Bool(b) => if *b {
            String::from_str("true")
        } else {
            String::from_str("false")
        },
        JsonValue::Number(n) => copy_string(n),
        JsonValue::Str(t) => copy_string(t),
        _ => crate::json::to_json_text(value),
    }
}

/// The option values of a feature as environment variables, in option order.
pub fn feature_option_values_from_manifest(manifest: &JsonValue, value: &JsonValue) -> (r: Vec<(String, String)>)
    ensures
        r@.len() == merged_options_of(manifest@, value@).len(),
        forall|i: int|
            0 <= i < r@.len() ==> (#[trigger] r@[i]).0@ == env_name(merged_options_of(manifest@, value@)[i].0)
                && r@[i].1@ == env_text(merged_options_of(manifest@, value@)[i].1),
{
    let merged = merged_feature_options(manifest, value);
    let ghost mv = jentries(merged@);
    proof {
        lemma_jentries(merged@);
    }
    let mut out: Vec<(String, String)> = Vec::new();
    let mut i: usize = 0;
    while i < merged.len()
        invariant
            i <= merged.len(),
            mv == jentries(merged@),
            mv.len() == merged@.len(),
            forall|q: int| 0 <= q < merged@.len() ==> #[trigger] mv[q] == (merged@[q].0@, merged@[q].1@),
            out@.len() == i,
            forall|q: int|
                0 <= q < i ==> (#[trigger] out@[q]).0@ == env_name(mv[q].0) && out@[q].1@ == env_text(mv[q].1),
        decreases merged.len() - i,
    {
        let name = crate::features::feature_option_env_name(merged[i].0.as_str());
        let text = json_value_to_env(&merged[i].1);
        out.push((name, text));
        i = i + 1;
    }
    out
}

/// Whether the legacy keys can be moved: the customizations, their `vscode`
/// part, and the lists the legacy values join are of the kind they must be.
pub open spec fn legacy_fits(f: Entries) -> bool {
    let cust = ventry(f, "customizations"@);
    let vscode = ventry(object_at(f, "customizations"@), "vscode"@);
    let moving = ventry(f, "extensions"@) is Some || ventry(f, "settings"@) is Some;
    moving ==> {
        &&& (cust is None || cust matches Some(JsonView::Object(_)))
        &&& (vscode is None || vscode matches Some(JsonView::Object(_)))
        &&& (ventry(f, "extensions"@) is Some ==> match ventry(object_at(object_at(f, "customizations"@), "vscode"@), "extensions"@) {
            None => true,
            Some(JsonView::Array(_)) => true,
            _ => false,
        })
        &&& (ventry(f, "settings"@) is Some ==> match ventry(object_at(object_at(f, "customizations"@), "vscode"@), "settings"@) {
            None => true,
            Some(JsonView::Object(_)) => true,
            _ => false,
        })
    }
}

/// The feature with its legacy `extensions` and `settings` moved under
/// `customizations.vscode`: the extensions appended to that list, the
/// settings put into that object.
pub open spec fn migrated(f: Entries) -> Entries {
    let ext = ventry(f, "extensions"@);
    let set = ventry(f, "settings"@);
    if ext is None && set is None {
        f
    } else {
        let g = vremove(vremove(f, "extensions"@), "settings"@);
        let cust = object_at(g, "customizations"@);
        let vscode = object_at(cust, "vscode"@);
        let vscode1 = match ext {
            Some(x) => vinsert(vscode, "extensions"@, JsonView::Array(list_at(vscode, "extensions"@) + items_of(x))),
            None => vscode,
        };
        let vscode2 = match set {
            Some(x) => vinsert(
                vscode1,
                "settings"@,
                JsonView::Object(fold_insert(object_at(vscode1, "settings"@), entries_of(x))),
            ),
            None => vscode1,
        };
        vinsert(g, "customizations"@, JsonView::Object(vinsert(cust, "vscode"@, JsonView::Object(vscode2))))
    }
}

fn append_items(items: &mut Vec<JsonValue>, add: &JsonValue)
    ensures
        jviews(final(items)@) == jviews(old(items)@) + items_of(add@),
{
    match add {
        JsonValue::Array(xs) => {
            let ghost start = jviews(items@);
            let ghost xv = jviews(xs@);
            proof {
                lemma_jviews(xs@);
                assert(start + xv.take(0) =~= start);
            }
            let mut j: usize = 0;
            while j < xs.len()
                invariant
                    j <= xs.len(),
                    xv == jviews(xs@),
                    xv.len() == xs@.len(),
                    forall|q: int| 0 <= q < xs@.len() ==> #[trigger] xv[q] == xs@[q]@,
                    jviews(items@) == start + xv.take(j as int),
                decreases xs.len() - j,
            {
                let c = json_clone(&xs[j]);
                let ghost before = items@;
                items.push(c);
                proof {
                    lemma_jviews_push(before, c);
                    assert(start + xv.take(j + 1) =~= (start + xv.take(j as int)).push(xv[j as int]));
                }
                j = j + 1;
            }
            proof {
                assert(xv.take(xs.len() as int) =~= xv);
            }
        },
        _ => {
            proof {
                assert(jviews(items@) =~= jviews(items@) + Seq::<JsonView>::empty());
            }
        },
    }
}

/// Moves the legacy `extensions` and `settings` of a feature under `customizations.vscode`.
pub fn migrate_legacy_customizations(feature: &mut Vec<(String, JsonValue)>)
    requires
        legacy_fits(jentries(old(feature)@)),
    ensures
        jentries(final(feature)@) == migrated(jentries(old(feature)@)),
{
    proof {
        lemma_entry_value_view(feature@, "extensions"@);
        lemma_entry_value_view(feature@, "settings"@);
    }
    let ext: Option<JsonValue> = match entries_get(feature, "extensions") {
        Some(v) => Some(json_clone(v)),
        None => None,
    };
    let set: Option<JsonValue> = match entries_get(feature, "settings") {
        Some(v) => Some(json_clone(v)),
        None => None,
    };
    if ext.is_none() && set.is_none() {
        return;
    }
    object_remove(feature, "extensions");
    object_remove(feature, "settings");
    let mut cust = object_copy(feature, "customizations");
    let mut vscode = object_copy(&cust, "vscode");
    match &ext {
        Some(x) => {
            let mut items = list_copy(&vscode, "extensions");
            append_items(&mut items, x);
            object_insert(&mut vscode, String::from_str("extensions"), JsonValue::Array(items));
        },
        None => {},
    }
    match &set {
        Some(x) => {
            let mut o = object_copy(&vscode, "settings");
            match x {
                JsonValue::Object(e) => insert_all(&mut o, e),
                _ => {
                    proof {
                        assert(fold_insert(jentries(o@), entries_of(x@)) == jentries(o@));
                    }
                },
            }
            object_insert(&mut vscode, String::from_str("settings"), JsonValue::Object(o));
        },
        None => {},
    }
    object_insert(&mut cust, String::from_str("vscode"), JsonValue::Object(vscode));
    object_insert(feature, String::from_str("customizations"), JsonValue::Object(cust));
}

/// The base entries of a manifest: its entries when it is an object.
pub open spec fn manifest_entries(manifest: JsonView) -> Entries {
    entries_of(manifest)
}

/// The feature object reported for a feature set: the manifest with the
/// options, the configured value and `included` put in, legacy
/// customizations moved.
pub open spec fn feature_object_of(manifest: JsonView, options: JsonView, value: JsonView) -> JsonView {
    JsonView::Object(
        migrated(
            vinsert(
                vinsert(vinsert(manifest_entries(manifest), "options"@, options), "value"@, value),
                "included"@,
                JsonView::Bool(true),
            ),
        ),
    )
}

/// The feature object of a feature set.
pub fn feature_object(manifest: &JsonValue, options: &JsonValue, value: &JsonValue) -> (r: JsonValue)
    requires
        legacy_fits(manifest_entries(manifest@)),
    ensures
        r@ == feature_object_of(manifest@, options@, value@),
{
    let mut feature: Vec<(String, JsonValue)> = match json_clone(manifest) {
        JsonValue::Object(e) => e,
        _ => {
            let r: Vec<(String, JsonValue)> = Vec::new();
            proof {
                assert(jentries(r@) =~= Seq::<(Seq<char>, JsonView)>::empty());
            }
            r
        },
    };
    let ghost base = jentries(feature@);
    object_insert(&mut feature, String::from_str("options"), json_clone(options));
    object_insert(&mut feature, String::from_str("value"), json_clone(value));
    object_insert(&mut feature, String::from_str("included"), JsonValue::Bool(true));
    proof {
        let f1 = vinsert(base, "options"@, options@);
        let f2 = vinsert(f1, "value"@, value@);
        let f3 = vinsert(f2, "included"@, JsonView::Bool(true));
        let cu = "customizations"@;
        let ex = "extensions"@;
        let se = "settings"@;
        assert(cu != "options"@ && cu != "value"@ && cu != "included"@) by {
            reveal_strlit("customizations");
            reveal_strlit("options");
            reveal_strlit("value");
            reveal_strlit("included");
        }
        assert(ex != "options"@ && ex != "value"@ && ex != "included"@) by {
            reveal_strlit("extensions");
            reveal_strlit("options");
            reveal_strlit("value");
            reveal_strlit("included");
        }
        assert(se != "options"@ && se != "value"@ && se != "included"@) by {
            reveal_strlit("settings");
            reveal_strlit("options");
            reveal_strlit("value");
            reveal_strlit("included");
        }
        crate::json_object::lemma_vinsert_reads(base, "options"@, options@, cu);
        crate::json_object::lemma_vinsert_reads(f1, "value"@, value@, cu);
        crate::json_object::lemma_vinsert_reads(f2, "included"@, JsonView::Bool(true), cu);
        crate::json_object::lemma_vinsert_reads(base, "options"@, options@, ex);
        crate::json_object::lemma_vinsert_reads(f1, "value"@, value@, ex);
        crate::json_object::lemma_vinsert_reads(f2, "included"@, JsonView::Bool(true), ex);
        crate::json_object::lemma_vinsert_reads(base, "options"@, options@, se);
        crate::json_object::lemma_vinsert_reads(f1, "value"@, value@, se);
        crate::json_object::lemma_vinsert_reads(f2, "included"@, JsonView::Bool(true), se);
        assert(legacy_fits(f3));
    }
    migrate_legacy_customizations(&mut feature);
    JsonValue::Object(feature)
}

} // verus!
