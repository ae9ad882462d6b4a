use devcontainer::discovery::{
    normalized_default_label_match, parse_container_ids, ps_engine_args, target_container_labels,
    DefaultLabelMatch, DEVCONTAINER_CONFIG_FILE_LABEL, DEVCONTAINER_LOCAL_FOLDER_LABEL,
};

#[test]
fn normalized_default_label_match_accepts_windows_path_casing_changes() {
    let labels = vec![
        (DEVCONTAINER_LOCAL_FOLDER_LABEL.to_string(), "C:\\CodeBlocks\\remill".to_string()),
        (
            DEVCONTAINER_CONFIG_FILE_LABEL.to_string(),
            "C:/CodeBlocks/remill/.devcontainer/devcontainer.json".to_string(),
        ),
    ];

    let label_match = normalized_default_label_match(
        &labels,
        "c:\\CodeBlocks\\remill",
        Some("c:\\CodeBlocks\\remill\\.devcontainer\\devcontainer.json"),
        DEVCONTAINER_LOCAL_FOLDER_LABEL,
        DEVCONTAINER_CONFIG_FILE_LABEL,
    );

    assert_eq!(label_match, Some(DefaultLabelMatch::Current));
}

#[test]
fn normalized_default_label_match_keeps_legacy_workspace_only_matches() {
    let labels = vec![(DEVCONTAINER_LOCAL_FOLDER_LABEL.to_string(), "C:\\CodeBlocks\\remill".to_string())];

    let label_match = normalized_default_label_match(
        &labels,
        "c:\\CodeBlocks\\remill",
        Some("c:\\CodeBlocks\\remill\\.devcontainer\\devcontainer.json"),
        DEVCONTAINER_LOCAL_FOLDER_LABEL,
        DEVCONTAINER_CONFIG_FILE_LABEL,
    );

    assert_eq!(label_match, Some(DefaultLabelMatch::Legacy));
}

#[test]
fn container_ids_are_trimmed_lines_without_spaces() {
    assert_eq!(
        parse_container_ids("abc\n  def  \r\n\nnot an id\n"),
        vec!["abc".to_string(), "def".to_string()]
    );
}

#[test]
fn ps_arguments_filter_by_each_label() {
    assert_eq!(
        ps_engine_args(&vec!["a=1".to_string()], true),
        vec!["ps", "-q", "-a", "--filter", "label=a=1"].into_iter().map(String::from).collect::<Vec<_>>()
    );
}

#[test]
fn default_labels_name_the_folder_and_configuration() {
    assert_eq!(
        target_container_labels(&[], "linux", Some("/w"), Some("/w/.devcontainer.json")),
        vec![
            "devcontainer.local_folder=/w".to_string(),
            "devcontainer.config_file=/w/.devcontainer.json".to_string()
        ]
    );
    assert_eq!(
        target_container_labels(&["--id-label".to_string(), "x=y".to_string()], "linux", Some("/w"), None),
        vec!["x=y".to_string()]
    );
}
