use panopticon::settings_model::LayoutType;
use panopticon::shortcuts::{
    apply_recorded_shortcut_binding, matched_shortcut_action, normalize_recorded_shortcut,
    shortcut_matches, shortcut_recording_label, ShortcutAction, ShortcutBindings,
};

fn bindings() -> ShortcutBindings {
    ShortcutBindings {
        layout_grid: "1".to_owned(),
        layout_mosaic: "2".to_owned(),
        layout_bento: "3".to_owned(),
        layout_fibonacci: "4".to_owned(),
        layout_columns: "5".to_owned(),
        layout_row: "6".to_owned(),
        layout_column: "7".to_owned(),
        reset_layout: "0".to_owned(),
        toggle_animations: "A".to_owned(),
        toggle_toolbar: "H".to_owned(),
        toggle_window_info: "I".to_owned(),
        open_menu: "Space".to_owned(),
        toggle_always_on_top: "P".to_owned(),
        open_settings: "O".to_owned(),
        open_command_palette: "K".to_owned(),
        refresh_now: "R".to_owned(),
        cycle_theme: "T".to_owned(),
        cycle_layout: "Tab".to_owned(),
        exit_app: "Esc".to_owned(),
        global_activate: None,
    }
}

#[test]
fn shortcut_matches_supports_named_special_keys() {
    assert!(shortcut_matches("Tab", "\t"));
    assert!(shortcut_matches("Esc", "\u{001B}"));
    assert!(shortcut_matches("Enter", "\n"));
    assert!(shortcut_matches("Space", " "));
    assert!(!shortcut_matches("Tab", "x"));
}

#[test]
fn shortcut_matches_other_bindings_without_ascii_case() {
    assert!(shortcut_matches("Enter", "\r"));
    assert!(shortcut_matches("g", "G"));
    assert!(!shortcut_matches("g", "gg"));
    assert!(!shortcut_matches("Esc", "Esc"));
}

#[test]
fn matched_shortcut_action_uses_the_given_bindings() {
    let mut b = bindings();
    b.layout_grid = "G".to_owned();
    b.open_menu = "Q".to_owned();

    assert_eq!(
        matched_shortcut_action(&b, "g", false),
        Some(ShortcutAction::SetLayout(LayoutType::Grid))
    );
    assert_eq!(matched_shortcut_action(&b, "Q", false), Some(ShortcutAction::OpenMenu));
    assert_eq!(matched_shortcut_action(&b, "1", false), None);
}

#[test]
fn shift_reverses_theme_cycling() {
    let b = bindings();
    assert_eq!(
        matched_shortcut_action(&b, "T", true),
        Some(ShortcutAction::CycleThemePrevious)
    );
    assert_eq!(matched_shortcut_action(&b, "t", false), Some(ShortcutAction::CycleTheme));
}

#[test]
fn first_matching_binding_wins() {
    let mut b = bindings();
    b.exit_app = "1".to_owned();
    assert_eq!(
        matched_shortcut_action(&b, "1", false),
        Some(ShortcutAction::SetLayout(LayoutType::Grid))
    );
    assert_eq!(matched_shortcut_action(&b, "\t", false), Some(ShortcutAction::CycleLayout));
    assert_eq!(matched_shortcut_action(&b, "\u{001B}", false), None);
}

#[test]
fn recorded_shortcut_normalizes_special_keys() {
    assert_eq!(normalize_recorded_shortcut("\t"), Some("Tab".to_owned()));
    assert_eq!(normalize_recorded_shortcut("\n"), Some("Enter".to_owned()));
    assert_eq!(normalize_recorded_shortcut(" "), Some("Space".to_owned()));
}

#[test]
fn recorded_shortcut_uppercases_single_alphanumeric_keys() {
    assert_eq!(normalize_recorded_shortcut("a"), Some("A".to_owned()));
    assert_eq!(normalize_recorded_shortcut("7"), Some("7".to_owned()));
}

#[test]
fn recorded_shortcut_rejects_control_and_multi_character_inputs() {
    assert_eq!(normalize_recorded_shortcut(""), None);
    assert_eq!(normalize_recorded_shortcut("ab"), None);
    assert_eq!(normalize_recorded_shortcut("\u{0001}"), None);
}

#[test]
fn recorded_shortcut_keeps_other_single_characters() {
    assert_eq!(normalize_recorded_shortcut("\r"), Some("Enter".to_owned()));
    assert_eq!(normalize_recorded_shortcut("/"), Some("/".to_owned()));
    assert_eq!(normalize_recorded_shortcut("é"), Some("é".to_owned()));
}

#[test]
fn recording_labels_name_the_targets() {
    assert_eq!(shortcut_recording_label("open_menu"), "Open menu");
    assert_eq!(shortcut_recording_label("toggle_always_on_top"), "Always on top");
    assert_eq!(shortcut_recording_label("layout_grid"), "Shortcut");
}

#[test]
fn recorded_bindings_update_the_target_field() {
    let mut b = bindings();
    assert!(apply_recorded_shortcut_binding(&mut b, "open_menu", "M"));
    assert_eq!(b.open_menu, "M");
    assert!(apply_recorded_shortcut_binding(&mut b, "global_activate", "F9"));
    assert_eq!(b.global_activate, Some("F9".to_owned()));
    assert!(!apply_recorded_shortcut_binding(&mut b, "layout_grid", "Z"));
    assert_eq!(b.layout_grid, "1");
}
