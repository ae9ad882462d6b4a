//! Finding the container of a workspace: the labels it is looked up by, the
//! engine query, the ids in the engine's answer, and the comparison of the
//! default labels with path separators and drive letters normalized.
use vstd::prelude::*;
use crate::args::{option_values, parse_option_values};
use crate::devcontainer_id::labels_view;
use crate::text::{chars_of, copy_string, is_ws, lookup, lookup_entry, opt_view, split, split_chars, str_eq, string_of, trim, trim_chars, views};

verus! {

/// The label that records the workspace folder of a container.
pub const DEVCONTAINER_LOCAL_FOLDER_LABEL: &'static str = "devcontainer.local_folder";

/// The label that records the configuration file of a container.
pub const DEVCONTAINER_CONFIG_FILE_LABEL: &'static str = "devcontainer.config_file";

/// On Windows, `/` becomes `\` and a leading drive letter lower case; elsewhere
/// the path stays as it is.
pub open spec fn normalized_label_path(platform: Seq<char>, value: Seq<char>) -> Seq<char> {
    if platform != "windows"@ {
        value
    } else {
        let s = value.map_values(|c: char| if c == '/' { '\\' } else { c });
        if s.len() >= 2 && s[1] == ':' && 'A' <= s[0] && s[0] <= 'Z' {
            s.update(0, ((s[0] as u32) + 32) as char)
        } else {
            s
        }
    }
}

/// A label path as it is compared on the given platform.
pub fn normalize_devcontainer_label_path_for_platform(platform: &str, value: &str) -> (r: String)
    ensures
        r@ == normalized_label_path(platform@, value@),
{
    if !str_eq(platform, "windows") {
        return String::from_str(value);
    }
    let v = chars_of(value);
    let mut out: Vec<char> = Vec::new();
    let mut i: usize = 0;
    while i < v.len()
        invariant
            i <= v.len(),
            out@ == v@.take(i as int).map_values(|c: char| if c == '/' { '\\' } else { c }),
        decreases v.len() - i,
    {
        let c = v[i];
        out.push(if c == '/' { '\\' } else { c });
        proof {
            assert(out@ =~= v@.take(i + 1).map_values(|c: char| if c == '/' { '\\' } else { c }));
        }
        i = i + 1;
    }
    proof {
        assert(v@.take(v.len() as int) =~= v@);
    }
    if out.len() >= 2 && out[1] == ':' && 'A' <= out[0] && out[0] <= 'Z' {
        let lower = ((out[0] as u32) + 32) as u8 as char;
        out.set(0, lower);
    }
    string_of(&out)
}

/// How a container's default labels match the workspace.
#[derive(Debug, Clone, Copy, PartialEq, Eq, Structural)]
pub enum DefaultLabelMatch {
    Current,
    Legacy,
}

/// The match of a container's labels: the workspace label must match; then
/// a matching configuration label (or no configuration to compare) is a current
/// match, a missing one a legacy match, and a different one no match.
pub open spec fn label_match(
    labels: Seq<(String, String)>,
    normalized_workspace: Seq<char>,
    normalized_config: Option<Seq<char>>,
    workspace_key: Seq<char>,
    config_key: Seq<char>,
) -> Option<DefaultLabelMatch> {
    match lookup(labels, workspace_key) {
        None => None,
        Some(w) => if normalized_label_path("windows"@, w) != normalized_workspace {
            None
        } else {
            match normalized_config {
                None => Some(DefaultLabelMatch::Current),
                Some(target) => match lookup(labels, config_key) {
                    None => Some(DefaultLabelMatch::Legacy),
                    Some(c) => if normalized_label_path("windows"@, c) == target {
                        Some(DefaultLabelMatch::Current)
                    } else {
                        None
                    },
                },
            }
        },
    }
}

/// Compares a container's default labels with the workspace, Windows paths normalized.
pub fn normalized_default_label_match(
    labels: &Vec<(String, String)>,
    normalized_workspace: &str,
    normalized_config: Option<&str>,
    workspace_key: &str,
    config_key: &str,
) -> (r: Option<DefaultLabelMatch>)
    ensures
        r == label_match(
            labels@,
            normalized_workspace@,
            match normalized_config {
                Some(c) => Some(c@),
                None => None,
            },
            workspace_key@,
            config_key@,
        ),
{
    let workspace_value = match lookup_entry(labels, workspace_key) {
        Some(w) => normalize_devcontainer_label_path_for_platform("windows", w.as_str()),
        None => return None,
    };
    if !str_eq(workspace_value.as_str(), normalized_workspace) {
        return None;
    }
    match normalized_config {
        None => Some(DefaultLabelMatch::Current),
        Some(target) => match lookup_entry(labels, config_key) {
            None => Some(DefaultLabelMatch::Legacy),
            Some(c) => {
                let container_config = normalize_devcontainer_label_path_for_platform("windows", c.as_str());
                if str_eq(container_config.as_str(), target) {
                    Some(DefaultLabelMatch::Current)
                } else {
                    None
                }
            },
        },
    }
}

/// Where the search over candidate containers stands after one candidate.
#[derive(Debug)]
pub enum LabelSearchStep {
    Found(String),
    Continue(Option<String>),
}

/// One step of the search: a current match ends it, the first legacy match is kept.
pub fn default_label_match_step(legacy: Option<String>, container_id: String, m: Option<DefaultLabelMatch>) -> (r: LabelSearchStep)
    ensures
        m == Some(DefaultLabelMatch::Current) ==> (r matches LabelSearchStep::Found(id) && id@ == container_id@),
        m == Some(DefaultLabelMatch::Legacy) && legacy is None ==> (r matches LabelSearchStep::Continue(Some(id)) && id@ == container_id@),
        !(m == Some(DefaultLabelMatch::Current)) && !(m == Some(DefaultLabelMatch::Legacy) && legacy is None)
            ==> (r matches LabelSearchStep::Continue(l) && opt_view(l) == opt_view(legacy)),
{
    match m {
        Some(DefaultLabelMatch::Current) => LabelSearchStep::Found(container_id),
        Some(DefaultLabelMatch::Legacy) => match legacy {
            None => LabelSearchStep::Continue(Some(container_id)),
            Some(l) => LabelSearchStep::Continue(Some(l)),
        },
        None => LabelSearchStep::Continue(legacy),
    }
}

/// The ids in the engine's answer: one per line, trimmed, skipping lines that
/// are empty or hold white space inside.
pub open spec fn container_ids(lines: Seq<Seq<char>>) -> Seq<Seq<char>>
    decreases lines.len(),
{
    if lines.len() == 0 {
        Seq::empty()
    } else {
        let rest = container_ids(lines.drop_last());
        let t = trim(lines.last());
        if t.len() > 0 && (forall|k: int| 0 <= k < t.len() ==> !is_ws(#[trigger] t[k])) {
            rest.push(t)
        } else {
            rest
        }
    }
}

/// The container ids in the output of `ps -q`.
pub fn parse_container_ids(stdout: &str) -> (r: Vec<String>)
    ensures
        views(r@) == container_ids(split(stdout@, '\n')),
{
    let v = chars_of(stdout);
    let lines = split_chars(&v, '\n');
    let ghost lv = lines@.map_values(|p: Vec<char>| p@);
    let mut ids: Vec<String> = Vec::new();
    let mut i: usize = 0;
    while i < lines.len()
        invariant
            i <= lines.len(),
            lv == lines@.map_values(|p: Vec<char>| p@),
            views(ids@) == container_ids(lv.take(i as int)),
        decreases lines.len() - i,
    {
        proof {
            assert(lv.take(i + 1).drop_last() =~= lv.take(i as int));
            assert(lv.take(i + 1).last() == lines@[i as int]@);
        }
        let t = trim_chars(&lines[i]);
        let mut clean = t.len() > 0;
        let mut k: usize = 0;
        while k < t.len()
            invariant
                k <= t.len(),
                clean == (t@.len() > 0 && forall|q: int| 0 <= q < k ==> !is_ws(#[trigger] t@[q])),
            decreases t.len() - k,
        {
            if crate::text::char_is_ws(t[k]) {
                clean = false;
            }
            k = k + 1;
        }
        if clean {
            let id = string_of(&t);
            let ghost old_ids = ids@;
            ids.push(id);
            proof {
                assert(views(ids@) =~= views(old_ids).push(id@));
            }
        }
        i = i + 1;
    }
    proof {
        assert(lv.take(lines.len() as int) =~= lv);
    }
    ids
}

/// `ps -q` (with `-a` for stopped containers too) filtered by each label.
pub open spec fn ps_args_of(labels: Seq<Seq<char>>, include_stopped: bool) -> Seq<Seq<char>>
    decreases labels.len(),
{
    if labels.len() == 0 {
        if include_stopped {
            seq!["ps"@, "-q"@, "-a"@]
        } else {
            seq!["ps"@, "-q"@]
        }
    } else {
        ps_args_of(labels.drop_last(), include_stopped) + seq!["--filter"@, "label="@ + labels.last()]
    }
}

/// The engine arguments that list containers with the given labels.
pub fn ps_engine_args(labels: &Vec<String>, include_stopped: bool) -> (r: Vec<String>)
    ensures
        views(r@) == ps_args_of(views(labels@), include_stopped),
{
    let mut out: Vec<String> = Vec::new();
    out.push(String::from_str("ps"));
    out.push(String::from_str("-q"));
    if include_stopped {
        out.push(String::from_str("-a"));
    }
    proof {
        assert(views(out@) =~= ps_args_of(views(labels@).take(0), include_stopped));
    }
    let ghost lv = views(labels@);
    let mut i: usize = 0;
    while i < labels.len()
        invariant
            i <= labels.len(),
            lv == views(labels@),
            views(out@) == ps_args_of(lv.take(i as int), include_stopped),
        decreases labels.len() - i,
    {
        proof {
            assert(lv.take(i + 1).drop_last() =~= lv.take(i as int));
            assert(lv.take(i + 1).last() == labels@[i as int]@);
        }
        let f = String::from_str("--filter");
        let mut l = String::from_str("label=");
        l.append(labels[i].as_str());
        let ghost old_out = out@;
        out.push(f);
        out.push(l);
        proof {
            assert(views(out@) =~= views(old_out) + seq!["--filter"@, l@]);
        }
        i = i + 1;
    }
    proof {
        assert(lv.take(labels.len() as int) =~= lv);
    }
    out
}

/// The labels a container is looked up by: the `--id-label` values, else the
/// default labels of the workspace folder and configuration file (the folder
/// alone without a configuration file), normalized for the platform.
pub open spec fn target_labels(args: Seq<Seq<char>>, platform: Seq<char>, workspace_folder: Option<Seq<char>>, config_file: Option<Seq<char>>) -> Seq<Seq<char>> {
    let given = option_values(args, "--id-label"@);
    if given.len() > 0 {
        given
    } else {
        match (workspace_folder, config_file) {
            (Some(w), Some(c)) => seq![
                "devcontainer.local_folder"@ + "="@ + normalized_label_path(platform, w),
                "devcontainer.config_file"@ + "="@ + normalized_label_path(platform, c),
            ],
            (Some(w), None) => seq!["devcontainer.local_folder"@ + "="@ + normalized_label_path(platform, w)],
            _ => Seq::empty(),
        }
    }
}

fn label_text(key: &str, platform: &str, path: &str) -> (r: String)
    ensures
        r@ == key@ + "="@ + normalized_label_path(platform@, path@),
{
    let mut s = String::from_str(key);
    s.append("=");
    let n = normalize_devcontainer_label_path_for_platform(platform, path);
    s.append(n.as_str());
    s
}

/// The labels to look the container up by.
pub fn target_container_labels(args: &[String], platform: &str, workspace_folder: Option<&str>, config_file: Option<&str>) -> (r: Vec<String>)
    ensures
        views(r@) == target_labels(
            views(args@),
            platform@,
            match workspace_folder {
                Some(w) => Some(w@),
                None => None,
            },
            match config_file {
                Some(c) => Some(c@),
                None => None,
            },
        ),
{
    let given = parse_option_values(args, "--id-label");
    if given.len() > 0 {
        return given;
    }
    let mut labels: Vec<String> = Vec::new();
    match (workspace_folder, config_file) {
        (Some(w), Some(c)) => {
            labels.push(label_text("devcontainer.local_folder", platform, w));
            labels.push(label_text("devcontainer.config_file", platform, c));
        },
        (Some(w), None) => {
            labels.push(label_text("devcontainer.local_folder", platform, w));
        },
        _ => {},
    }
    proof {
        assert(views(labels@) =~= target_labels(
            views(args@),
            platform@,
            match workspace_folder {
                Some(w) => Some(w@),
                None => None,
            },
            match config_file {
                Some(c) => Some(c@),
                None => None,
            },
        ));
    }
    labels
}

/// The listing asks for stopped containers too (`-a`) exactly when they are
/// to be included, and it filters by every label given.
pub proof fn lemma_ps_args(labels: Seq<Seq<char>>, include_stopped: bool)
    ensures
        ps_args_of(labels, include_stopped).contains("-a"@) <==> include_stopped,
        forall|i: int| 0 <= i < labels.len() ==> ps_args_of(labels, include_stopped).contains("label="@ + #[trigger] labels[i]),
        ps_args_of(labels, include_stopped).len() == 2 + (if include_stopped { 1int } else { 0int }) + 2 * labels.len(),
    decreases labels.len(),
{
    reveal_strlit("-a");
    reveal_strlit("ps");
    reveal_strlit("-q");
    reveal_strlit("--filter");
    reveal_strlit("label=");
    let r = ps_args_of(labels, include_stopped);
    if labels.len() == 0 {
        if include_stopped {
            assert(r[2] == "-a"@);
        } else {
            if r.contains("-a"@) {
                let k = choose|k: int| 0 <= k < r.len() && r[k] == "-a"@;
                assert(r[k][1] != 'a' || r[k].len() != 2);
            }
        }
    } else {
        let rest = labels.drop_last();
        lemma_ps_args(rest, include_stopped);
        let p = ps_args_of(rest, include_stopped);
        let tail = seq!["--filter"@, "label="@ + labels.last()];
        assert(r == p + tail);
        assert(("label="@ + labels.last())[0] == 'l');
        if p.contains("-a"@) {
            let k = choose|k: int| 0 <= k < p.len() && p[k] == "-a"@;
            assert(r[k] == "-a"@);
        }
        if r.contains("-a"@) {
            let k = choose|k: int| 0 <= k < r.len() && r[k] == "-a"@;
            if k >= p.len() {
                assert(r[k] == tail[k - p.len()]);
                assert(r[k][0] == '-');
                assert(r[k].len() == 2);
            } else {
                assert(p[k] == "-a"@);
            }
        }
        assert forall|i: int| 0 <= i < labels.len() implies r.contains("label="@ + #[trigger] labels[i]) by {
            if i < labels.len() - 1 {
                assert(rest[i] == labels[i]);
                let k = choose|k: int| 0 <= k < p.len() && p[k] == "label="@ + rest[i];
                assert(r[k] == p[k]);
            } else {
                assert(r[p.len() as int + 1] == "label="@ + labels[i]);
            }
        }
    }
}

} // verus!
