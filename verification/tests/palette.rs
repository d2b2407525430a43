use panopticon::palette::{
    command_follow_up, settings_page_for_command, CommandFollowUp,
    command_entries, command_score, order_by_score, rebuild_filtered_commands,
    recent_rank_for_command, remember_recent_command, CommandCategory, CommandEntry, CommandId,
    RECENT_COMMAND_LIMIT,
};
use panopticon::settings_model::LayoutType;

fn entry(id: CommandId, category: CommandCategory, title: &str, keywords: &str) -> CommandEntry {
    CommandEntry { id, category, title: title.to_owned(), keywords: keywords.to_owned() }
}

#[test]
fn category_labels() {
    assert_eq!(CommandCategory::Layout.label(), "Layout");
    assert_eq!(CommandCategory::Workspace.label(), "Workspace");
    assert_eq!(CommandCategory::Filters.label(), "Filters");
}

#[test]
fn remembered_commands_move_to_the_front() {
    let mut recent = Vec::new();
    remember_recent_command(&mut recent, "A".to_owned());
    remember_recent_command(&mut recent, "B".to_owned());
    remember_recent_command(&mut recent, "A".to_owned());
    assert_eq!(recent, vec!["A".to_owned(), "B".to_owned()]);
    assert_eq!(recent_rank_for_command(&recent, "A"), Some(0));
    assert_eq!(recent_rank_for_command(&recent, "B"), Some(1));
    assert_eq!(recent_rank_for_command(&recent, "C"), None);
}

#[test]
fn recent_commands_are_limited() {
    let mut recent = Vec::new();
    for i in 0..20 {
        remember_recent_command(&mut recent, format!("K{i}"));
    }
    assert_eq!(recent.len(), RECENT_COMMAND_LIMIT);
    assert_eq!(recent[0], "K19");
    assert_eq!(recent[11], "K8");
}

#[test]
fn scores_add_up_per_matching_field() {
    let grid = entry(CommandId::SetLayout(LayoutType::Grid), CommandCategory::Layout, "Layout: Grid", "layout grid");
    // title 50, keywords 25, category 10, title prefix 30, word prefix 20
    assert_eq!(command_score(&grid, "layout", None), Some(135));
    // title 50, keywords 25, word prefix 20
    assert_eq!(command_score(&grid, "grid", None), Some(95));
    assert_eq!(command_score(&grid, "grid", Some(0)), Some(135));
    assert_eq!(command_score(&grid, "grid", Some(39)), Some(96));
    assert_eq!(command_score(&grid, "grid", Some(40)), Some(95));
    assert_eq!(command_score(&grid, "zzz", Some(0)), None);
    // inside a word only: title 50, keywords 25
    assert_eq!(command_score(&grid, "rid", None), Some(75));
}

#[test]
fn matches_are_ordered_by_score_then_title() {
    let entries = vec![
        entry(CommandId::ClearTagFilter, CommandCategory::Filters, "Filters: Clear tag", "filters tag clear"),
        entry(CommandId::CycleTheme, CommandCategory::Theme, "Theme: Cycle", "theme cycle next"),
        entry(CommandId::ClearAppFilter, CommandCategory::Filters, "Filters: Clear app", "filters app clear"),
    ];
    let scores = vec![Some(10), None, Some(10)];
    assert_eq!(order_by_score(&entries, &scores), vec![2, 0]);
    let scores = vec![Some(5), Some(7), Some(10)];
    assert_eq!(order_by_score(&entries, &scores), vec![2, 1, 0]);
}

#[test]
fn empty_query_lists_everything_in_catalogue_order() {
    let entries = command_entries(&vec!["default".to_owned()]);
    let keys: Vec<String> = entries.iter().map(|e| format!("{:?}", e.id)).collect();
    let (order, labels) = rebuild_filtered_commands(&entries, &keys, &Vec::new(), "   ");
    assert_eq!(order, (0..entries.len()).collect::<Vec<_>>());
    assert_eq!(labels[0], "[Layout] Layout: Cycle");
}

#[test]
fn query_filters_and_ranks_entries() {
    let entries = command_entries(&Vec::new());
    let keys: Vec<String> = entries.iter().map(|e| format!("{:?}", e.id)).collect();
    let (order, labels) = rebuild_filtered_commands(&entries, &keys, &Vec::new(), " THEME ");
    assert_eq!(order.len(), 1);
    assert_eq!(entries[order[0]].id, CommandId::CycleTheme);
    assert_eq!(labels, vec!["[Theme] Theme: Cycle".to_owned()]);
    let (none, labels) = rebuild_filtered_commands(&entries, &keys, &Vec::new(), "no such thing");
    assert!(none.is_empty());
    assert_eq!(labels, vec!["No commands found".to_owned()]);
}

#[test]
fn recent_commands_rank_higher() {
    let entries = command_entries(&Vec::new());
    let keys: Vec<String> = entries.iter().map(|e| format!("{:?}", e.id)).collect();
    let (plain, _) = rebuild_filtered_commands(&entries, &keys, &Vec::new(), "clear");
    let recent = vec![format!("{:?}", CommandId::ClearTagFilter)];
    let (boosted, _) = rebuild_filtered_commands(&entries, &keys, &recent, "clear");
    assert_eq!(plain.len(), boosted.len());
    assert_eq!(entries[boosted[0]].id, CommandId::ClearTagFilter);
    assert_ne!(entries[plain[0]].id, CommandId::ClearTagFilter);
}

#[test]
fn catalogue_lists_named_workspaces_and_ends_with_exit() {
    let workspaces = vec!["Default".to_owned(), "focus".to_owned()];
    let entries = command_entries(&workspaces);
    assert_eq!(entries.len(), 30 + 2 + 1);
    assert_eq!(entries[0].id, CommandId::CycleLayout);
    assert_eq!(entries[29].id, CommandId::OpenWorkspaceInNewInstance(None));
    assert_eq!(entries[30].id, CommandId::LoadWorkspace(Some("focus".to_owned())));
    assert_eq!(entries[30].title, "Workspace: Load focus");
    assert_eq!(entries[31].title, "Workspace: Open focus in new instance");
    assert_eq!(entries[31].keywords, "workspace open launch new instance focus");
    assert_eq!(entries[32].id, CommandId::Exit);
    assert_eq!(entries[32].title, "Exit Panopticon");
}

#[test]
fn commands_name_their_follow_up_and_settings_page() {
    assert_eq!(command_follow_up(&CommandId::CycleTheme), CommandFollowUp::RefreshUi);
    assert_eq!(command_follow_up(&CommandId::SetTagFilter("x".to_owned())), CommandFollowUp::RefreshWindows);
    assert_eq!(command_follow_up(&CommandId::OpenAbout), CommandFollowUp::Nothing);
    assert_eq!(command_follow_up(&CommandId::SetLayout(LayoutType::Row)), CommandFollowUp::Nothing);
    assert_eq!(settings_page_for_command(&CommandId::OpenSettingsWorkspacesPage), Some(3));
    assert_eq!(settings_page_for_command(&CommandId::OpenSettingsAdvancedPage), Some(5));
    assert_eq!(settings_page_for_command(&CommandId::OpenSettings), None);
}
