use panopticon::color::{parse_rgb_hex, rgb_components_from_hex};
use panopticon::hotkey::{
    hotkey_modifiers, GlobalHotkeyBinding, GlobalHotkeyKey, MOD_ALT, MOD_CONTROL, MOD_NOREPEAT,
    MOD_SHIFT,
};
use panopticon::layout::sanitize_thumbnail_rect;
use panopticon::managed::Rect;
use panopticon::palette::{recent_rank_for_command, remember_recent_command};
use panopticon::perf::UiTickSignals;
use panopticon::shortcuts::{normalize_recorded_shortcut, shortcut_matches};

#[test]
fn recorded_shortcuts_match_their_own_key() {
    for key in ["\t", "\n", "\r", " ", "a", "Z", "7", "/", "é"] {
        let binding = normalize_recorded_shortcut(key).expect("bindable key");
        assert!(shortcut_matches(&binding, key), "{key:?} -> {binding:?}");
    }
}

#[test]
fn accepted_colours_read_the_same_as_components() {
    for text in ["#112233", " a0B1c2 ", "##FFFFFF"] {
        let (r, g, b) = parse_rgb_hex(text).expect("valid colour");
        assert_eq!(rgb_components_from_hex(text), (r as u8, g as u8, b as u8));
    }
}

#[test]
fn remembering_a_command_makes_it_most_recent_without_duplicates() {
    let mut recent = vec!["A".to_owned(), "B".to_owned(), "C".to_owned()];
    remember_recent_command(&mut recent, "B".to_owned());
    assert_eq!(recent_rank_for_command(&recent, "B"), Some(0));
    assert_eq!(recent, vec!["B".to_owned(), "A".to_owned(), "C".to_owned()]);
}

#[test]
fn modifier_flags_encode_exactly_the_held_keys() {
    for bits in 0..8u8 {
        let binding = GlobalHotkeyBinding {
            ctrl: bits & 1 != 0,
            alt: bits & 2 != 0,
            shift: bits & 4 != 0,
            key: GlobalHotkeyKey::Tab,
        };
        let m = hotkey_modifiers(binding);
        assert_eq!(m & MOD_CONTROL != 0, binding.ctrl);
        assert_eq!(m & MOD_ALT != 0, binding.alt);
        assert_eq!(m & MOD_SHIFT != 0, binding.shift);
        assert!(m & MOD_NOREPEAT != 0);
    }
}

#[test]
fn inserted_tick_signals_are_contained_and_others_kept() {
    let mut s = UiTickSignals::empty();
    s.insert(UiTickSignals::RECOMPUTED_FROM_REFRESH);
    let before = s.contains(UiTickSignals::SYNCED_DWM);
    s.insert(UiTickSignals::HAD_ACTIONS);
    assert!(s.contains(UiTickSignals::HAD_ACTIONS));
    assert!(s.contains(UiTickSignals::RECOMPUTED_FROM_REFRESH));
    assert_eq!(s.contains(UiTickSignals::SYNCED_DWM), before);
}

#[test]
fn visible_thumbnails_fit_the_client_area() {
    let hidden = Rect { left: 0, top: 0, right: 0, bottom: 0 };
    for (l, t, r, b) in [(-50, -50, 500, 500), (10, 20, 30, 40), (399, 1, 1000, 2)] {
        let (rect, visible) = sanitize_thumbnail_rect(Rect { left: l, top: t, right: r, bottom: b }, 400, 300, hidden);
        if visible {
            assert!(0 <= rect.left && rect.left < rect.right && rect.right <= 400);
            assert!(0 <= rect.top && rect.top < rect.bottom && rect.bottom <= 300);
        }
    }
}

#[test]
fn reparsing_parsed_tags_changes_nothing() {
    use_tags_law();
}

fn use_tags_law() {
    for raw in [" Work ,alpha,work, Beta ,,ALPHA ", "", " , ", "x", "b,a,B"] {
        let tags = panopticon::tags::parse_tags_csv(raw);
        let joined = panopticon::format::join(&tags, ",");
        assert_eq!(panopticon::tags::parse_tags_csv(&joined), tags, "{raw:?}");
    }
}

#[test]
fn menu_flags() {
    use_menu_flags();
}

fn use_menu_flags() {
    use_flags(panopticon::menu::checked_flag(true), panopticon::menu::MF_CHECKED);
    use_flags(panopticon::menu::checked_flag(false), panopticon::menu::MF_UNCHECKED);
    use_flags(panopticon::menu::disabled_flag(true), panopticon::menu::MF_GRAYED);
    use_flags(panopticon::menu::disabled_flag(false), 0);
}

fn use_flags(actual: u32, expected: u32) {
    assert_eq!(actual, expected);
}
