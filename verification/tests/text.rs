use panopticon::app_rules::{
    filter_app_rule_entries, sync_app_rule_tags_editor, tag_chips, AppRuleListEntry,
    AppSelectionEntry,
};
use panopticon::format::{decimal_string, join};
use panopticon::wide::{encode_wide, write_wide_string};
use panopticon::workspace::{
    count_missing_apps, format_workspace_timestamp, workspace_status_summary, workspace_summary,
};

#[test]
fn encode_wide_appends_a_terminator() {
    assert_eq!(encode_wide("Ab"), vec![0x41, 0x62, 0]);
    assert_eq!(encode_wide(""), vec![0]);
    assert_eq!(encode_wide("\u{1F600}"), vec![0xD83D, 0xDE00, 0]);
}

#[test]
fn write_wide_string_fills_the_front_and_keeps_the_rest() {
    let mut buffer = [7u16; 4];
    write_wide_string(&mut buffer, "abcdef");
    assert_eq!(buffer, [0x61, 0x62, 0x63, 0x64]);
    let mut roomy = [7u16; 5];
    write_wide_string(&mut roomy, "ab");
    assert_eq!(roomy, [0x61, 0x62, 0, 7, 7]);
}

#[test]
fn decimal_and_join_format_text() {
    assert_eq!(decimal_string(0), "0");
    assert_eq!(decimal_string(1207), "1207");
    let parts = vec!["a".to_owned(), "b".to_owned(), "c".to_owned()];
    assert_eq!(join(&parts, ", "), "a, b, c");
    assert_eq!(join(&Vec::new(), ", "), "");
}

#[test]
fn workspace_status_lists_the_conditions() {
    assert_eq!(workspace_status_summary(false, false, 0), "Ready");
    assert_eq!(
        workspace_status_summary(true, true, 1),
        "Loaded in this instance \u{b7} Unsaved changes \u{b7} 1 app rule not currently running"
    );
    assert_eq!(
        workspace_status_summary(false, false, 3),
        "3 app rules not currently running"
    );
}

#[test]
fn workspace_timestamps_are_prefixed() {
    assert_eq!(format_workspace_timestamp(Some(42)), "unix-ms:42");
    assert_eq!(format_workspace_timestamp(None), "");
}

fn entry(app_id: &str, running: bool, hidden: bool, blob: &str) -> AppRuleListEntry {
    AppRuleListEntry {
        option: AppSelectionEntry { app_id: app_id.to_owned(), label: app_id.to_owned() },
        is_running: running,
        has_saved_rule: hidden,
        is_hidden: hidden,
        has_tags: false,
        has_custom_refresh: false,
        is_pinned: false,
        searchable_blob: blob.to_owned(),
    }
}

#[test]
fn app_rule_entries_are_filtered_by_kind_and_search() {
    let entries = || {
        vec![
            entry("a", true, false, "alpha a"),
            entry("b", false, true, "beta b"),
            entry("c", true, true, "gamma c work"),
        ]
    };
    let running: Vec<String> =
        filter_app_rule_entries(entries(), 1, "").into_iter().map(|e| e.option.app_id).collect();
    assert_eq!(running, vec!["a".to_owned(), "c".to_owned()]);
    let hidden_work: Vec<String> = filter_app_rule_entries(entries(), 3, "work")
        .into_iter()
        .map(|e| e.option.app_id)
        .collect();
    assert_eq!(hidden_work, vec!["c".to_owned()]);
    assert_eq!(filter_app_rule_entries(entries(), 42, "").len(), 3);
}

#[test]
fn tag_chips_are_trimmed_lowercased_and_non_empty() {
    let tags = vec![" Work ".to_owned(), "".to_owned(), "Beta".to_owned()];
    assert_eq!(tag_chips(&tags), vec!["work".to_owned(), "beta".to_owned()]);
    let (chips, text) = sync_app_rule_tags_editor(&tags);
    assert_eq!(chips, vec!["work".to_owned(), "beta".to_owned()]);
    assert_eq!(text, "work, beta");
}

#[test]
fn workspace_summaries_combine_metadata_and_state() {
    let rules = vec!["app:a".to_owned(), "app:b".to_owned(), "app:c".to_owned()];
    let running = vec!["app:b".to_owned()];
    assert_eq!(count_missing_apps(&rules, &running), 2);
    let summary = workspace_summary(
        "focus".to_owned(),
        Some("focus".to_owned()),
        Some("focus"),
        "  ",
        " Deep work ",
        Some(7),
        None,
        true,
        &rules,
        &running,
    );
    assert_eq!(summary.display_name, "focus");
    assert_eq!(summary.description, "Deep work");
    assert_eq!(summary.created_at_label, "unix-ms:7");
    assert_eq!(summary.updated_at_label, "");
    assert!(!summary.is_default);
    assert!(summary.is_running);
    assert!(summary.is_modified);
    assert_eq!(summary.missing_apps, 2);
    assert_eq!(
        summary.status_summary,
        "Loaded in this instance \u{b7} Unsaved changes \u{b7} 2 app rules not currently running"
    );

    let other = workspace_summary(
        "default".to_owned(),
        None,
        Some("focus"),
        " Home ",
        "",
        None,
        None,
        true,
        &Vec::new(),
        &running,
    );
    assert_eq!(other.display_name, "Home");
    assert!(other.is_default);
    assert!(!other.is_running);
    assert!(!other.is_modified);
    assert_eq!(other.status_summary, "Ready");
}
