use panopticon::hotkey::{
    hotkey_modifiers, hotkey_virtual_key, GlobalHotkeyBinding, GlobalHotkeyKey, MOD_ALT,
    MOD_CONTROL, MOD_NOREPEAT, MOD_SHIFT,
};
use panopticon::layout::{
    apply_layout_rects, content_extent, floating_size_after_resize, rect_has_area,
    sanitize_thumbnail_rect, ScrollDirection,
};
use panopticon::managed::{new_managed_window, ManagedWindow, Rect, WindowInfo};
use panopticon::presentation::derive_empty_state_context;

fn rect(left: i32, top: i32, right: i32, bottom: i32) -> Rect {
    Rect { left, top, right, bottom }
}

fn dummy_window(display_rect: Rect) -> ManagedWindow<(), ()> {
    let mut w = new_managed_window(WindowInfo {
        hwnd: 0,
        title: String::new(),
        app_id: String::new(),
        process_name: String::new(),
        process_path: None,
        class_name: String::new(),
        monitor_name: String::new(),
    });
    w.display_rect = display_rect;
    w
}

#[test]
fn apply_layout_rects_updates_target_and_display_when_no_animation() {
    let mut windows = vec![dummy_window(rect(0, 0, 100, 100))];
    let rects = vec![rect(10, 10, 110, 110)];

    let needed = apply_layout_rects(&mut windows, &rects, false);

    assert!(!needed);
    assert_eq!(windows[0].target_rect, rects[0]);
    assert_eq!(windows[0].display_rect, rects[0]);
}

#[test]
fn apply_layout_rects_flags_animation_when_rect_changes_and_allowed() {
    let mut windows = vec![dummy_window(rect(0, 0, 100, 100))];
    let rects = vec![rect(10, 10, 110, 110)];

    let needed = apply_layout_rects(&mut windows, &rects, true);

    assert!(needed);
    assert_eq!(windows[0].target_rect, rects[0]);
    assert_eq!(windows[0].display_rect, rect(0, 0, 100, 100));
}

#[test]
fn apply_layout_rects_syncs_display_to_target_when_animation_not_needed() {
    let mut windows = vec![dummy_window(rect(5, 5, 105, 105))];
    let rects = vec![rect(5, 5, 105, 105)];

    let needed = apply_layout_rects(&mut windows, &rects, true);

    assert!(!needed);
    assert_eq!(windows[0].display_rect, rects[0]);
}

#[test]
fn windows_without_a_displayed_rect_start_at_their_target() {
    let mut windows = vec![dummy_window(rect(0, 0, 0, 0)), dummy_window(rect(0, 0, 50, 50))];
    let rects = vec![rect(1, 1, 9, 9)];
    let needed = apply_layout_rects(&mut windows, &rects, true);
    assert!(!needed);
    assert_eq!(windows[0].animation_from_rect, rect(1, 1, 9, 9));
    assert_eq!(windows[1].display_rect, windows[1].target_rect);
    assert!(!rect_has_area(rect(3, 3, 3, 9)));
    assert!(rect_has_area(rect(3, 3, 4, 9)));
}

#[test]
fn thumbnail_rects_are_clipped_or_hidden() {
    let hidden = rect(0, 0, 0, 0);
    assert_eq!(sanitize_thumbnail_rect(rect(-10, -5, 50, 60), 40, 40, hidden), (rect(0, 0, 40, 40), true));
    assert_eq!(sanitize_thumbnail_rect(rect(10, 10, 20, 20), 0, 40, hidden), (hidden, false));
    assert_eq!(sanitize_thumbnail_rect(rect(50, 10, 60, 20), 40, 40, hidden), (hidden, false));
    assert_eq!(sanitize_thumbnail_rect(rect(20, 20, 10, 30), 40, 40, hidden), (hidden, false));
    assert_eq!(sanitize_thumbnail_rect(rect(5, 6, 7, 8), 40, 40, hidden), (rect(5, 6, 7, 8), true));
}

#[test]
fn hotkey_registration_values() {
    let binding = GlobalHotkeyBinding { ctrl: true, alt: true, shift: false, key: GlobalHotkeyKey::Character('K') };
    assert_eq!(hotkey_modifiers(binding), MOD_NOREPEAT | MOD_CONTROL | MOD_ALT);
    assert_eq!(hotkey_virtual_key(binding), 'K' as u32);
    let f5 = GlobalHotkeyBinding { ctrl: false, alt: false, shift: true, key: GlobalHotkeyKey::Function(5) };
    assert_eq!(hotkey_modifiers(f5), MOD_NOREPEAT | MOD_SHIFT);
    assert_eq!(hotkey_virtual_key(f5), 0x74);
    let space = GlobalHotkeyBinding { ctrl: false, alt: false, shift: false, key: GlobalHotkeyKey::Space };
    assert_eq!(hotkey_modifiers(space), MOD_NOREPEAT);
    assert_eq!(hotkey_virtual_key(space), 0x20);
}

#[test]
fn empty_state_prefers_filters_then_hidden_apps() {
    let filtered = derive_empty_state_context(true, false, false, 0, "Monitor: A", "Nothing", "Help");
    assert_eq!(filtered.message, "No windows match your current filters");
    assert_eq!(filtered.status_summary, "Active filters: Monitor: A");
    assert!(filtered.can_clear_filters);
    assert!(!filtered.can_show_hidden);

    let both = derive_empty_state_context(false, true, false, 3, "Tag: x", "Nothing", "Help");
    assert_eq!(both.status_summary, "Tag: x \u{b7} 3 hidden apps");
    assert!(both.can_show_hidden);

    let hidden = derive_empty_state_context(false, false, false, 1, "", "Nothing", "Help");
    assert_eq!(hidden.message, "All tracked windows are hidden");
    assert_eq!(hidden.status_summary, "1 app is currently hidden.");

    let empty = derive_empty_state_context(false, false, false, 0, "", "Nothing", "Help");
    assert_eq!(empty.message, "Nothing");
    assert_eq!(empty.helper, "Help");
    assert_eq!(empty.status_summary, "");

    let anonymous = derive_empty_state_context(false, false, true, 0, "", "Nothing", "Help");
    assert_eq!(anonymous.status_summary, "Active filters are restricting visible windows.");
    let plus = derive_empty_state_context(false, false, true, 1, "", "Nothing", "Help");
    assert_eq!(plus.status_summary, "Active filters + 1 hidden app");
}

#[test]
fn content_extent_follows_the_scroll_direction() {
    let rects = vec![rect(0, 0, 50, 300), rect(60, 0, 200, 100), rect(-5, -5, -1, -1)];
    assert_eq!(content_extent(&rects, ScrollDirection::Horizontal), 200);
    assert_eq!(content_extent(&rects, ScrollDirection::Vertical), 300);
    assert_eq!(content_extent(&rects, ScrollDirection::Fixed), 0);
    assert_eq!(content_extent(&Vec::new(), ScrollDirection::Vertical), 0);
    assert_eq!(content_extent(&vec![rect(-9, -9, -3, -4)], ScrollDirection::Horizontal), -3);
}

#[test]
fn floating_size_after_resize_respects_minimums_and_docking() {
    assert_eq!(floating_size_after_resize(900, 700, false, 640, 480), Some((900, 700)));
    assert_eq!(floating_size_after_resize(300, 700, false, 640, 480), Some((640, 700)));
    assert_eq!(floating_size_after_resize(900, 700, true, 640, 480), None);
    assert_eq!(floating_size_after_resize(0, 700, false, 640, 480), None);
    assert_eq!(floating_size_after_resize(900, -1, false, 640, 480), None);
}
