//! Keyboard shortcut bindings: matching pressed keys, normalizing recorded
//! keys and naming recording targets.
use vstd::prelude::*;

use crate::settings_model::LayoutType;
use crate::text::{
    eq_ignore_ascii_case, eq_ignore_case_spec, lower_char, lower_seq, is_alnum_spec, is_control_spec, push_char, str_eq,
    upper_char,
};

verus! {

/// The key text bound to each dashboard action.
pub struct ShortcutBindings {
    pub layout_grid: String,
    pub layout_mosaic: String,
    pub layout_bento: String,
    pub layout_fibonacci: String,
    pub layout_columns: String,
    pub layout_row: String,
    pub layout_column: String,
    pub reset_layout: String,
    pub toggle_animations: String,
    pub toggle_toolbar: String,
    pub toggle_window_info: String,
    pub open_menu: String,
    pub toggle_always_on_top: String,
    pub open_settings: String,
    pub open_command_palette: String,
    pub refresh_now: String,
    pub cycle_theme: String,
    pub cycle_layout: String,
    pub exit_app: String,
    pub global_activate: Option<String>,
}

/// Dashboard action triggered by a key press.
#[derive(Debug, Clone, Copy, PartialEq, Eq, Structural)]
pub enum ShortcutAction {
    SetLayout(LayoutType),
    ResetLayout,
    ToggleAnimations,
    ToggleToolbar,
    ToggleWindowInfo,
    OpenMenu,
    OpenSettings,
    OpenCommandPalette,
    ToggleAlwaysOnTop,
    RefreshNow,
    CycleTheme,
    CycleThemePrevious,
    CycleLayout,
    Exit,
}

/// A key press `key` triggers the binding `binding`: the named special keys
/// `Tab`, `Esc`, `Enter` and `Space` match their control characters, any other
/// binding matches its text compared without ASCII case.
pub open spec fn shortcut_matches_spec(binding: Seq<char>, key: Seq<char>) -> bool {
    if binding == seq!['T', 'a', 'b'] {
        key == seq!['\t']
    } else if binding == seq!['E', 's', 'c'] {
        key == seq!['\u{1b}']
    } else if binding == seq!['E', 'n', 't', 'e', 'r'] {
        key == seq!['\n'] || key == seq!['\r']
    } else if binding == seq!['S', 'p', 'a', 'c', 'e'] {
        key == seq![' ']
    } else {
        eq_ignore_case_spec(key, binding)
    }
}

/// The action of the first binding, in the dashboard's priority order, that
/// `key` matches; `shift` turns theme cycling backwards.
pub open spec fn matched_action_spec(b: ShortcutBindings, key: Seq<char>, shift: bool) -> Option<
    ShortcutAction,
> {
    if shortcut_matches_spec(b.layout_grid@, key) {
        Some(ShortcutAction::SetLayout(LayoutType::Grid))
    } else if shortcut_matches_spec(b.layout_mosaic@, key) {
        Some(ShortcutAction::SetLayout(LayoutType::Mosaic))
    } else if shortcut_matches_spec(b.layout_bento@, key) {
        Some(ShortcutAction::SetLayout(LayoutType::Bento))
    } else if shortcut_matches_spec(b.layout_fibonacci@, key) {
        Some(ShortcutAction::SetLayout(LayoutType::Fibonacci))
    } else if shortcut_matches_spec(b.layout_columns@, key) {
        Some(ShortcutAction::SetLayout(LayoutType::Columns))
    } else if shortcut_matches_spec(b.layout_row@, key) {
        Some(ShortcutAction::SetLayout(LayoutType::Row))
    } else if shortcut_matches_spec(b.layout_column@, key) {
        Some(ShortcutAction::SetLayout(LayoutType::Column))
    } else if shortcut_matches_spec(b.reset_layout@, key) {
        Some(ShortcutAction::ResetLayout)
    } else if shortcut_matches_spec(b.toggle_animations@, key) {
        Some(ShortcutAction::ToggleAnimations)
    } else if shortcut_matches_spec(b.toggle_toolbar@, key) {
        Some(ShortcutAction::ToggleToolbar)
    } else if shortcut_matches_spec(b.toggle_window_info@, key) {
        Some(ShortcutAction::ToggleWindowInfo)
    } else if shortcut_matches_spec(b.open_menu@, key) {
        Some(ShortcutAction::OpenMenu)
    } else if shortcut_matches_spec(b.toggle_always_on_top@, key) {
        Some(ShortcutAction::ToggleAlwaysOnTop)
    } else if shortcut_matches_spec(b.open_settings@, key) {
        Some(ShortcutAction::OpenSettings)
    } else if shortcut_matches_spec(b.open_command_palette@, key) {
        Some(ShortcutAction::OpenCommandPalette)
    } else if shortcut_matches_spec(b.refresh_now@, key) {
        Some(ShortcutAction::RefreshNow)
    } else if shortcut_matches_spec(b.cycle_theme@, key) {
        Some(
            if shift {
                ShortcutAction::CycleThemePrevious
            } else {
                ShortcutAction::CycleTheme
            },
        )
    } else if shortcut_matches_spec(b.cycle_layout@, key) {
        Some(ShortcutAction::CycleLayout)
    } else if shortcut_matches_spec(b.exit_app@, key) {
        Some(ShortcutAction::Exit)
    } else {
        None
    }
}

/// The `i`-th of the 19 bindings in the dashboard's priority order: the seven layouts
/// (grid, mosaic, bento, Fibonacci, columns, row, column), reset layout,
/// animations, toolbar, window info, menu, always on top, settings, command
/// palette, refresh, theme cycling, layout cycling and exit.
pub open spec fn binding_at(b: ShortcutBindings, i: int) -> Seq<char> {
    if i == 0 {
        b.layout_grid@
    } else if i == 1 {
        b.layout_mosaic@
    } else if i == 2 {
        b.layout_bento@
    } else if i == 3 {
        b.layout_fibonacci@
    } else if i == 4 {
        b.layout_columns@
    } else if i == 5 {
        b.layout_row@
    } else if i == 6 {
        b.layout_column@
    } else if i == 7 {
        b.reset_layout@
    } else if i == 8 {
        b.toggle_animations@
    } else if i == 9 {
        b.toggle_toolbar@
    } else if i == 10 {
        b.toggle_window_info@
    } else if i == 11 {
        b.open_menu@
    } else if i == 12 {
        b.toggle_always_on_top@
    } else if i == 13 {
        b.open_settings@
    } else if i == 14 {
        b.open_command_palette@
    } else if i == 15 {
        b.refresh_now@
    } else if i == 16 {
        b.cycle_theme@
    } else if i == 17 {
        b.cycle_layout@
    } else if i == 18 {
        b.exit_app@
    } else {
        Seq::empty()
    }
}

/// The action named by the `i`-th binding; with Shift held, theme cycling
/// goes backwards.
pub open spec fn action_of_binding(i: int, shift: bool) -> ShortcutAction {
    if i == 0 {
        ShortcutAction::SetLayout(LayoutType::Grid)
    } else if i == 1 {
        ShortcutAction::SetLayout(LayoutType::Mosaic)
    } else if i == 2 {
        ShortcutAction::SetLayout(LayoutType::Bento)
    } else if i == 3 {
        ShortcutAction::SetLayout(LayoutType::Fibonacci)
    } else if i == 4 {
        ShortcutAction::SetLayout(LayoutType::Columns)
    } else if i == 5 {
        ShortcutAction::SetLayout(LayoutType::Row)
    } else if i == 6 {
        ShortcutAction::SetLayout(LayoutType::Column)
    } else if i == 7 {
        ShortcutAction::ResetLayout
    } else if i == 8 {
        ShortcutAction::ToggleAnimations
    } else if i == 9 {
        ShortcutAction::ToggleToolbar
    } else if i == 10 {
        ShortcutAction::ToggleWindowInfo
    } else if i == 11 {
        ShortcutAction::OpenMenu
    } else if i == 12 {
        ShortcutAction::ToggleAlwaysOnTop
    } else if i == 13 {
        ShortcutAction::OpenSettings
    } else if i == 14 {
        ShortcutAction::OpenCommandPalette
    } else if i == 15 {
        ShortcutAction::RefreshNow
    } else if i == 16 {
        if shift {
            ShortcutAction::CycleThemePrevious
        } else {
            ShortcutAction::CycleTheme
        }
    } else if i == 17 {
        ShortcutAction::CycleLayout
    } else if i == 18 {
        ShortcutAction::Exit
    } else {
        ShortcutAction::Exit
    }
}

/// The named special bindings match their keys: `Tab` the tab character,
/// `Esc` the escape character, `Enter` both line feed and carriage return,
/// `Space` the space; a one-character binding matches that character in
/// either ASCII case.
pub proof fn lemma_special_bindings_match_their_keys(c: char)
    ensures
        shortcut_matches_spec(seq!['T', 'a', 'b'], seq!['\t']),
        !shortcut_matches_spec(seq!['T', 'a', 'b'], seq!['T', 'a', 'b']),
        shortcut_matches_spec(seq!['E', 's', 'c'], seq!['\u{1b}']),
        shortcut_matches_spec(seq!['E', 'n', 't', 'e', 'r'], seq!['\n']),
        shortcut_matches_spec(seq!['E', 'n', 't', 'e', 'r'], seq!['\r']),
        shortcut_matches_spec(seq!['S', 'p', 'a', 'c', 'e'], seq![' ']),
        !shortcut_matches_spec(seq!['S', 'p', 'a', 'c', 'e'], seq!['\n']),
        shortcut_matches_spec(seq![c], seq![lower_char(c)]),
        shortcut_matches_spec(seq![c], seq![upper_char(c)]),
{
    assert(seq!['T', 'a', 'b'] != seq!['\t']);
    assert(seq![' '][0] != seq!['\n'][0]);
    assert(seq![c].len() == 1 && seq!['T', 'a', 'b'].len() == 3 && seq!['E', 's', 'c'].len() == 3
        && seq!['E', 'n', 't', 'e', 'r'].len() == 5 && seq!['S', 'p', 'a', 'c', 'e'].len() == 5);
    assert(lower_char(lower_char(c)) == lower_char(c));
    assert(lower_char(upper_char(c)) == lower_char(c));
    assert(lower_seq(seq![c]) =~= seq![lower_char(c)]);
    assert(lower_seq(seq![lower_char(c)]) =~= seq![lower_char(lower_char(c))]);
    assert(lower_seq(seq![upper_char(c)]) =~= seq![lower_char(upper_char(c))]);
}

/// A key press triggers the action of the first binding, in priority order,
/// that it matches: when binding `i` matches and no earlier one does, the
/// action is the one binding `i` names.
pub proof fn lemma_first_matching_binding_decides(
    b: ShortcutBindings,
    key: Seq<char>,
    shift: bool,
    i: int,
)
    requires
        0 <= i < 19,
        shortcut_matches_spec(binding_at(b, i), key),
        forall|j: int| 0 <= j < i ==> !shortcut_matches_spec(#[trigger] binding_at(b, j), key),
    ensures
        matched_action_spec(b, key, shift) == Some(action_of_binding(i, shift)),
{
    if i > 0 {
        assert(!shortcut_matches_spec(binding_at(b, 0), key));
    }
    if i > 1 {
        assert(!shortcut_matches_spec(binding_at(b, 1), key));
    }
    if i > 2 {
        assert(!shortcut_matches_spec(binding_at(b, 2), key));
    }
    if i > 3 {
        assert(!shortcut_matches_spec(binding_at(b, 3), key));
    }
    if i > 4 {
        assert(!shortcut_matches_spec(binding_at(b, 4), key));
    }
    if i > 5 {
        assert(!shortcut_matches_spec(binding_at(b, 5), key));
    }
    if i > 6 {
        assert(!shortcut_matches_spec(binding_at(b, 6), key));
    }
    if i > 7 {
        assert(!shortcut_matches_spec(binding_at(b, 7), key));
    }
    if i > 8 {
        assert(!shortcut_matches_spec(binding_at(b, 8), key));
    }
    if i > 9 {
        assert(!shortcut_matches_spec(binding_at(b, 9), key));
    }
    if i > 10 {
        assert(!shortcut_matches_spec(binding_at(b, 10), key));
    }
    if i > 11 {
        assert(!shortcut_matches_spec(binding_at(b, 11), key));
    }
    if i > 12 {
        assert(!shortcut_matches_spec(binding_at(b, 12), key));
    }
    if i > 13 {
        assert(!shortcut_matches_spec(binding_at(b, 13), key));
    }
    if i > 14 {
        assert(!shortcut_matches_spec(binding_at(b, 14), key));
    }
    if i > 15 {
        assert(!shortcut_matches_spec(binding_at(b, 15), key));
    }
    if i > 16 {
        assert(!shortcut_matches_spec(binding_at(b, 16), key));
    }
    if i > 17 {
        assert(!shortcut_matches_spec(binding_at(b, 17), key));
    }
}

/// A key press that matches no binding triggers nothing.
pub proof fn lemma_unmatched_key_does_nothing(b: ShortcutBindings, key: Seq<char>, shift: bool)
    requires
        forall|j: int| 0 <= j < 19 ==> !shortcut_matches_spec(#[trigger] binding_at(b, j), key),
    ensures
        matched_action_spec(b, key, shift) is None,
{
    assert(!shortcut_matches_spec(binding_at(b, 0), key));
    assert(!shortcut_matches_spec(binding_at(b, 1), key));
    assert(!shortcut_matches_spec(binding_at(b, 2), key));
    assert(!shortcut_matches_spec(binding_at(b, 3), key));
    assert(!shortcut_matches_spec(binding_at(b, 4), key));
    assert(!shortcut_matches_spec(binding_at(b, 5), key));
    assert(!shortcut_matches_spec(binding_at(b, 6), key));
    assert(!shortcut_matches_spec(binding_at(b, 7), key));
    assert(!shortcut_matches_spec(binding_at(b, 8), key));
    assert(!shortcut_matches_spec(binding_at(b, 9), key));
    assert(!shortcut_matches_spec(binding_at(b, 10), key));
    assert(!shortcut_matches_spec(binding_at(b, 11), key));
    assert(!shortcut_matches_spec(binding_at(b, 12), key));
    assert(!shortcut_matches_spec(binding_at(b, 13), key));
    assert(!shortcut_matches_spec(binding_at(b, 14), key));
    assert(!shortcut_matches_spec(binding_at(b, 15), key));
    assert(!shortcut_matches_spec(binding_at(b, 16), key));
    assert(!shortcut_matches_spec(binding_at(b, 17), key));
    assert(!shortcut_matches_spec(binding_at(b, 18), key));
}

/// Different bindings name different actions.
pub proof fn lemma_bindings_name_distinct_actions(i: int, j: int, shift: bool)
    requires
        0 <= i < 19,
        0 <= j < 19,
        i != j,
    ensures
        action_of_binding(i, shift) != action_of_binding(j, shift),
{
}

/// Canonical shortcut name of a recorded key press: the named special keys for
/// tab, line feed or carriage return and space; a single ASCII letter or digit
/// upper-cased; any other single non-control character as is; `None` for empty
/// input, several characters or a control character.
pub open spec fn normalized_shortcut_spec(key: Seq<char>) -> Option<Seq<char>> {
    if key == seq!['\t'] {
        Some(seq!['T', 'a', 'b'])
    } else if key == seq!['\n'] || key == seq!['\r'] {
        Some(seq!['E', 'n', 't', 'e', 'r'])
    } else if key == seq![' '] {
        Some(seq!['S', 'p', 'a', 'c', 'e'])
    } else if key.len() != 1 || is_control_spec(key[0]) {
        None
    } else if is_alnum_spec(key[0]) {
        Some(seq![upper_char(key[0])])
    } else {
        Some(key)
    }
}

/// Human-readable label of a shortcut recording target.
pub open spec fn recording_label_spec(target: Seq<char>) -> Seq<char> {
    if target == "layout_column"@ {
        "Layout column"@
    } else if target == "reset_layout"@ {
        "Reset layout"@
    } else if target == "cycle_layout"@ {
        "Cycle layout"@
    } else if target == "toggle_toolbar"@ {
        "Toggle toolbar"@
    } else if target == "toggle_animations"@ {
        "Toggle animations"@
    } else if target == "toggle_window_info"@ {
        "Toggle window info"@
    } else if target == "open_settings"@ {
        "Open settings"@
    } else if target == "open_menu"@ {
        "Open menu"@
    } else if target == "open_command_palette"@ {
        "Open command palette"@
    } else if target == "refresh_now"@ {
        "Refresh now"@
    } else if target == "exit_app"@ {
        "Exit app"@
    } else if target == "toggle_always_on_top"@ {
        "Always on top"@
    } else if target == "global_activate"@ {
        "Global activate"@
    } else {
        "Shortcut"@
    }
}

/// Which recordable binding a recording target names, numbered in the order
/// `layout_column`, `reset_layout`, `cycle_layout`, `toggle_toolbar`,
/// `toggle_animations`, `toggle_window_info`, `open_settings`, `open_menu`,
/// `open_command_palette`, `refresh_now`, `exit_app`, `toggle_always_on_top`,
/// `global_activate`; -1 for any other target.
pub open spec fn recording_target_index(target: Seq<char>) -> int {
    if target == "layout_column"@ {
        0
    } else if target == "reset_layout"@ {
        1
    } else if target == "cycle_layout"@ {
        2
    } else if target == "toggle_toolbar"@ {
        3
    } else if target == "toggle_animations"@ {
        4
    } else if target == "toggle_window_info"@ {
        5
    } else if target == "open_settings"@ {
        6
    } else if target == "open_menu"@ {
        7
    } else if target == "open_command_palette"@ {
        8
    } else if target == "refresh_now"@ {
        9
    } else if target == "exit_app"@ {
        10
    } else if target == "toggle_always_on_top"@ {
        11
    } else if target == "global_activate"@ {
        12
    } else {
        -1
    }
}

/// Each recording target names its own binding: the target's number (the
/// binding whose field `apply_recorded_shortcut_binding` sets) is that of the
/// field of the same name, and no other text has it; the recording prompt
/// names the binding in words.
pub proof fn lemma_recording_targets_by_name(target: Seq<char>)
    ensures
        recording_target_index(target) == 0 <==> target == "layout_column"@,
        recording_target_index(target) == 1 <==> target == "reset_layout"@,
        recording_target_index(target) == 2 <==> target == "cycle_layout"@,
        recording_target_index(target) == 3 <==> target == "toggle_toolbar"@,
        recording_target_index(target) == 4 <==> target == "toggle_animations"@,
        recording_target_index(target) == 5 <==> target == "toggle_window_info"@,
        recording_target_index(target) == 6 <==> target == "open_settings"@,
        recording_target_index(target) == 7 <==> target == "open_menu"@,
        recording_target_index(target) == 8 <==> target == "open_command_palette"@,
        recording_target_index(target) == 9 <==> target == "refresh_now"@,
        recording_target_index(target) == 10 <==> target == "exit_app"@,
        recording_target_index(target) == 11 <==> target == "toggle_always_on_top"@,
        recording_target_index(target) == 12 <==> target == "global_activate"@,
        recording_label_spec("layout_column"@) == "Layout column"@,
        recording_label_spec("reset_layout"@) == "Reset layout"@,
        recording_label_spec("cycle_layout"@) == "Cycle layout"@,
        recording_label_spec("toggle_toolbar"@) == "Toggle toolbar"@,
        recording_label_spec("toggle_animations"@) == "Toggle animations"@,
        recording_label_spec("toggle_window_info"@) == "Toggle window info"@,
        recording_label_spec("open_settings"@) == "Open settings"@,
        recording_label_spec("open_menu"@) == "Open menu"@,
        recording_label_spec("open_command_palette"@) == "Open command palette"@,
        recording_label_spec("refresh_now"@) == "Refresh now"@,
        recording_label_spec("exit_app"@) == "Exit app"@,
        recording_label_spec("toggle_always_on_top"@) == "Always on top"@,
        recording_label_spec("global_activate"@) == "Global activate"@,
{
    reveal_strlit("layout_column");
    reveal_strlit("reset_layout");
    reveal_strlit("cycle_layout");
    reveal_strlit("toggle_toolbar");
    reveal_strlit("toggle_animations");
    reveal_strlit("toggle_window_info");
    reveal_strlit("open_settings");
    reveal_strlit("open_menu");
    reveal_strlit("open_command_palette");
    reveal_strlit("refresh_now");
    reveal_strlit("exit_app");
    reveal_strlit("toggle_always_on_top");
    reveal_strlit("global_activate");
    reveal_strlit("Layout column");
    reveal_strlit("Reset layout");
    reveal_strlit("Cycle layout");
    reveal_strlit("Toggle toolbar");
    reveal_strlit("Toggle animations");
    reveal_strlit("Toggle window info");
    reveal_strlit("Open settings");
    reveal_strlit("Open menu");
    reveal_strlit("Open command palette");
    reveal_strlit("Refresh now");
    reveal_strlit("Exit app");
    reveal_strlit("Always on top");
    reveal_strlit("Global activate");
    assert("layout_column"@.len() == 13 && "layout_column"@[0] == 'l' && "layout_column"@[7] == 'c');
    assert("reset_layout"@.len() == 12 && "reset_layout"@[0] == 'r' && "reset_layout"@[7] == 'a');
    assert("cycle_layout"@.len() == 12 && "cycle_layout"@[0] == 'c' && "cycle_layout"@[7] == 'a');
    assert("toggle_toolbar"@.len() == 14 && "toggle_toolbar"@[0] == 't' && "toggle_toolbar"@[7] == 't');
    assert("toggle_animations"@.len() == 17 && "toggle_animations"@[0] == 't' && "toggle_animations"@[7] == 'a');
    assert("toggle_window_info"@.len() == 18 && "toggle_window_info"@[0] == 't' && "toggle_window_info"@[7] == 'w');
    assert("open_settings"@.len() == 13 && "open_settings"@[0] == 'o' && "open_settings"@[7] == 't');
    assert("open_menu"@.len() == 9 && "open_menu"@[0] == 'o' && "open_menu"@[7] == 'n');
    assert("open_command_palette"@.len() == 20 && "open_command_palette"@[0] == 'o' && "open_command_palette"@[7] == 'm');
    assert("refresh_now"@.len() == 11 && "refresh_now"@[0] == 'r' && "refresh_now"@[7] == '_');
    assert("exit_app"@.len() == 8 && "exit_app"@[0] == 'e' && "exit_app"@[7] == 'p');
    assert("toggle_always_on_top"@.len() == 20 && "toggle_always_on_top"@[0] == 't' && "toggle_always_on_top"@[7] == 'a');
    assert("global_activate"@.len() == 15 && "global_activate"@[0] == 'g' && "global_activate"@[7] == 'a');
}

/// Whether the key press `key` triggers the binding `binding`.
pub fn shortcut_matches(binding: &str, key: &str) -> (r: bool)
    ensures
        r == shortcut_matches_spec(binding@, key@),
{
    proof {
        reveal_strlit("Tab");
        reveal_strlit("Esc");
        reveal_strlit("Enter");
        reveal_strlit("Space");
        reveal_strlit("\t");
        reveal_strlit("\u{001B}");
        reveal_strlit("\n");
        reveal_strlit("\r");
        reveal_strlit(" ");
        assert("Tab"@ =~= seq!['T', 'a', 'b']);
        assert("Esc"@ =~= seq!['E', 's', 'c']);
        assert("Enter"@ =~= seq!['E', 'n', 't', 'e', 'r']);
        assert("Space"@ =~= seq!['S', 'p', 'a', 'c', 'e']);
        assert("\t"@ =~= seq!['\t']);
        assert("\u{001B}"@ =~= seq!['\u{1b}']);
        assert("\n"@ =~= seq!['\n']);
        assert("\r"@ =~= seq!['\r']);
        assert(" "@ =~= seq![' ']);
    }
    if str_eq(binding, "Tab") {
        str_eq(key, "\t")
    } else if str_eq(binding, "Esc") {
        str_eq(key, "\u{001B}")
    } else if str_eq(binding, "Enter") {
        str_eq(key, "\n") || str_eq(key, "\r")
    } else if str_eq(binding, "Space") {
        str_eq(key, " ")
    } else {
        eq_ignore_ascii_case(key, binding)
    }
}

/// The action triggered by the key press `key` under `shortcuts`, if any.
pub fn matched_shortcut_action(shortcuts: &ShortcutBindings, key: &str, shift_pressed: bool) -> (r:
    Option<ShortcutAction>)
    ensures
        r == matched_action_spec(*shortcuts, key@, shift_pressed),
{
    if shortcut_matches(shortcuts.layout_grid.as_str(), key) {
        Some(ShortcutAction::SetLayout(LayoutType::Grid))
    } else if shortcut_matches(shortcuts.layout_mosaic.as_str(), key) {
        Some(ShortcutAction::SetLayout(LayoutType::Mosaic))
    } else if shortcut_matches(shortcuts.layout_bento.as_str(), key) {
        Some(ShortcutAction::SetLayout(LayoutType::Bento))
    } else if shortcut_matches(shortcuts.layout_fibonacci.as_str(), key) {
        Some(ShortcutAction::SetLayout(LayoutType::Fibonacci))
    } else if shortcut_matches(shortcuts.layout_columns.as_str(), key) {
        Some(ShortcutAction::SetLayout(LayoutType::Columns))
    } else if shortcut_matches(shortcuts.layout_row.as_str(), key) {
        Some(ShortcutAction::SetLayout(LayoutType::Row))
    } else if shortcut_matches(shortcuts.layout_column.as_str(), key) {
        Some(ShortcutAction::SetLayout(LayoutType::Column))
    } else if shortcut_matches(shortcuts.reset_layout.as_str(), key) {
        Some(ShortcutAction::ResetLayout)
    } else if shortcut_matches(shortcuts.toggle_animations.as_str(), key) {
        Some(ShortcutAction::ToggleAnimations)
    } else if shortcut_matches(shortcuts.toggle_toolbar.as_str(), key) {
        Some(ShortcutAction::ToggleToolbar)
    } else if shortcut_matches(shortcuts.toggle_window_info.as_str(), key) {
        Some(ShortcutAction::ToggleWindowInfo)
    } else if shortcut_matches(shortcuts.open_menu.as_str(), key) {
        Some(ShortcutAction::OpenMenu)
    } else if shortcut_matches(shortcuts.toggle_always_on_top.as_str(), key) {
        Some(ShortcutAction::ToggleAlwaysOnTop)
    } else if shortcut_matches(shortcuts.open_settings.as_str(), key) {
        Some(ShortcutAction::OpenSettings)
    } else if shortcut_matches(shortcuts.open_command_palette.as_str(), key) {
        Some(ShortcutAction::OpenCommandPalette)
    } else if shortcut_matches(shortcuts.refresh_now.as_str(), key) {
        Some(ShortcutAction::RefreshNow)
    } else if shortcut_matches(shortcuts.cycle_theme.as_str(), key) {
        Some(
            if shift_pressed {
                ShortcutAction::CycleThemePrevious
            } else {
                ShortcutAction::CycleTheme
            },
        )
    } else if shortcut_matches(shortcuts.cycle_layout.as_str(), key) {
        Some(ShortcutAction::CycleLayout)
    } else if shortcut_matches(shortcuts.exit_app.as_str(), key) {
        Some(ShortcutAction::Exit)
    } else {
        None
    }
}

/// Canonical shortcut name of a recorded key press, or `None` when the key
/// cannot be bound.
pub fn normalize_recorded_shortcut(key_text: &str) -> (r: Option<String>)
    ensures
        match r {
            Some(s) => normalized_shortcut_spec(key_text@) == Some(s@),
            None => normalized_shortcut_spec(key_text@) is None,
        },
{
    proof {
        reveal_strlit("Tab");
        reveal_strlit("Enter");
        reveal_strlit("Space");
        reveal_strlit("\t");
        reveal_strlit("\n");
        reveal_strlit("\r");
        reveal_strlit(" ");
        assert("Tab"@ =~= seq!['T', 'a', 'b']);
        assert("Enter"@ =~= seq!['E', 'n', 't', 'e', 'r']);
        assert("Space"@ =~= seq!['S', 'p', 'a', 'c', 'e']);
        assert("\t"@ =~= seq!['\t']);
        assert("\n"@ =~= seq!['\n']);
        assert("\r"@ =~= seq!['\r']);
        assert(" "@ =~= seq![' ']);
    }
    if str_eq(key_text, "\t") {
        return Some("Tab".to_owned());
    }
    if str_eq(key_text, "\n") || str_eq(key_text, "\r") {
        return Some("Enter".to_owned());
    }
    if str_eq(key_text, " ") {
        return Some("Space".to_owned());
    }
    if key_text.unicode_len() != 1 {
        return None;
    }
    let first = key_text.get_char(0);
    if crate::text::is_control(first) {
        return None;
    }
    let mut out = String::new();
    if crate::text::is_ascii_alphanumeric(first) {
        push_char(&mut out, crate::text::to_ascii_uppercase_char(first));
    } else {
        push_char(&mut out, first);
    }
    assert(out@ =~= normalized_shortcut_spec(key_text@).unwrap());
    Some(out)
}

/// Human-readable label of a shortcut recording target; unknown targets are
/// labelled "Shortcut".
pub fn shortcut_recording_label(target: &str) -> (r: &'static str)
    ensures
        r@ == recording_label_spec(target@),
{
    if str_eq(target, "layout_column") {
        "Layout column"
    } else if str_eq(target, "reset_layout") {
        "Reset layout"
    } else if str_eq(target, "cycle_layout") {
        "Cycle layout"
    } else if str_eq(target, "toggle_toolbar") {
        "Toggle toolbar"
    } else if str_eq(target, "toggle_animations") {
        "Toggle animations"
    } else if str_eq(target, "toggle_window_info") {
        "Toggle window info"
    } else if str_eq(target, "open_settings") {
        "Open settings"
    } else if str_eq(target, "open_menu") {
        "Open menu"
    } else if str_eq(target, "open_command_palette") {
        "Open command palette"
    } else if str_eq(target, "refresh_now") {
        "Refresh now"
    } else if str_eq(target, "exit_app") {
        "Exit app"
    } else if str_eq(target, "toggle_always_on_top") {
        "Always on top"
    } else if str_eq(target, "global_activate") {
        "Global activate"
    } else {
        "Shortcut"
    }
}

/// Stores a recorded binding into the field of `bindings` named by `target`;
/// returns `false` and changes nothing for an unknown target.
pub fn apply_recorded_shortcut_binding(
    bindings: &mut ShortcutBindings,
    target: &str,
    binding: &str,
) -> (r: bool)
    ensures
        r == (recording_target_index(target@) >= 0),
        final(bindings).layout_grid@ == old(bindings).layout_grid@,
        final(bindings).layout_mosaic@ == old(bindings).layout_mosaic@,
        final(bindings).layout_bento@ == old(bindings).layout_bento@,
        final(bindings).layout_fibonacci@ == old(bindings).layout_fibonacci@,
        final(bindings).layout_columns@ == old(bindings).layout_columns@,
        final(bindings).layout_row@ == old(bindings).layout_row@,
        final(bindings).layout_column@ == if recording_target_index(target@) == 0 {
            binding@
        } else {
            old(bindings).layout_column@
        },
        final(bindings).reset_layout@ == if recording_target_index(target@) == 1 {
            binding@
        } else {
            old(bindings).reset_layout@
        },
        final(bindings).toggle_animations@ == if recording_target_index(target@) == 4 {
            binding@
        } else {
            old(bindings).toggle_animations@
        },
        final(bindings).toggle_toolbar@ == if recording_target_index(target@) == 3 {
            binding@
        } else {
            old(bindings).toggle_toolbar@
        },
        final(bindings).toggle_window_info@ == if recording_target_index(target@) == 5 {
            binding@
        } else {
            old(bindings).toggle_window_info@
        },
        final(bindings).open_menu@ == if recording_target_index(target@) == 7 {
            binding@
        } else {
            old(bindings).open_menu@
        },
        final(bindings).toggle_always_on_top@ == if recording_target_index(target@) == 11 {
            binding@
        } else {
            old(bindings).toggle_always_on_top@
        },
        final(bindings).open_settings@ == if recording_target_index(target@) == 6 {
            binding@
        } else {
            old(bindings).open_settings@
        },
        final(bindings).open_command_palette@ == if recording_target_index(target@) == 8 {
            binding@
        } else {
            old(bindings).open_command_palette@
        },
        final(bindings).refresh_now@ == if recording_target_index(target@) == 9 {
            binding@
        } else {
            old(bindings).refresh_now@
        },
        final(bindings).cycle_theme@ == old(bindings).cycle_theme@,
        final(bindings).cycle_layout@ == if recording_target_index(target@) == 2 {
            binding@
        } else {
            old(bindings).cycle_layout@
        },
        final(bindings).exit_app@ == if recording_target_index(target@) == 10 {
            binding@
        } else {
            old(bindings).exit_app@
        },
        recording_target_index(target@) == 12 ==> (final(bindings).global_activate matches Some(
            g,
        ) && g@ == binding@),
        recording_target_index(target@) != 12 ==> final(bindings).global_activate
            == old(bindings).global_activate,
{
    let value = binding.to_owned();
    if str_eq(target, "layout_column") {
        bindings.layout_column = value;
    } else if str_eq(target, "reset_layout") {
        bindings.reset_layout = value;
    } else if str_eq(target, "cycle_layout") {
        bindings.cycle_layout = value;
    } else if str_eq(target, "toggle_toolbar") {
        bindings.toggle_toolbar = value;
    } else if str_eq(target, "toggle_animations") {
        bindings.toggle_animations = value;
    } else if str_eq(target, "toggle_window_info") {
        bindings.toggle_window_info = value;
    } else if str_eq(target, "open_settings") {
        bindings.open_settings = value;
    } else if str_eq(target, "open_menu") {
        bindings.open_menu = value;
    } else if str_eq(target, "open_command_palette") {
        bindings.open_command_palette = value;
    } else if str_eq(target, "refresh_now") {
        bindings.refresh_now = value;
    } else if str_eq(target, "exit_app") {
        bindings.exit_app = value;
    } else if str_eq(target, "toggle_always_on_top") {
        bindings.toggle_always_on_top = value;
    } else if str_eq(target, "global_activate") {
        bindings.global_activate = Some(value);
    } else {
        return false;
    }
    true
}

/// A recorded shortcut matches the very key press it was recorded from.
pub proof fn lemma_recorded_shortcut_matches_its_key(key: Seq<char>)
    requires
        normalized_shortcut_spec(key) is Some,
    ensures
        shortcut_matches_spec(normalized_shortcut_spec(key).unwrap(), key),
{
    if key != seq!['\t'] && key != seq!['\n'] && key != seq!['\r'] && key != seq![' '] {
        let c = key[0];
        let b = normalized_shortcut_spec(key).unwrap();
        assert(b.len() == 1);
        assert(b != seq!['T', 'a', 'b']);
        assert(b != seq!['E', 's', 'c']);
        assert(b != seq!['E', 'n', 't', 'e', 'r']);
        assert(b != seq!['S', 'p', 'a', 'c', 'e']);
        assert(lower_char(b[0]) == lower_char(c));
        assert(lower_seq(key) =~= lower_seq(b));
    }
}

} // verus!
