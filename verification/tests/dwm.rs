use std::time::Instant;

use panopticon::dwm::{
    overlay_top_height, record_thumbnail_update, should_push_thumbnail_update,
    should_refresh_bitmap, source_should_be_hidden,
};
use panopticon::managed::{new_managed_window, ManagedWindow, Rect, WindowInfo};
use panopticon::settings_model::ThumbnailRefreshMode;

#[test]
fn hidden_or_gone_sources_lose_their_thumbnail() {
    assert!(!source_should_be_hidden(true, true, false, false));
    assert!(!source_should_be_hidden(true, false, true, false));
    assert!(source_should_be_hidden(true, false, false, false));
    assert!(source_should_be_hidden(false, true, false, false));
    assert!(source_should_be_hidden(true, true, false, true));
}

#[test]
fn info_strip_is_reserved_when_something_is_shown_in_it() {
    assert_eq!(overlay_top_height(false, false, false, true, 24), 0);
    assert_eq!(overlay_top_height(true, false, false, false, 24), 24);
    assert_eq!(overlay_top_height(false, true, false, false, 24), 24);
    assert_eq!(overlay_top_height(false, false, true, true, 24), 24);
    assert_eq!(overlay_top_height(false, false, true, false, 24), 0);
}

#[test]
fn bitmap_refresh_follows_the_refresh_mode() {
    assert!(should_refresh_bitmap(false, ThumbnailRefreshMode::Realtime, true, Some(0), 1000));
    assert!(!should_refresh_bitmap(true, ThumbnailRefreshMode::Realtime, true, None, 1000));
    assert!(should_refresh_bitmap(false, ThumbnailRefreshMode::Frozen, false, Some(5), 1000));
    assert!(!should_refresh_bitmap(false, ThumbnailRefreshMode::Frozen, true, None, 1000));
    assert!(should_refresh_bitmap(false, ThumbnailRefreshMode::Interval, true, None, 1000));
    assert!(!should_refresh_bitmap(false, ThumbnailRefreshMode::Interval, true, Some(999), 1000));
    assert!(should_refresh_bitmap(false, ThumbnailRefreshMode::Interval, true, Some(1000), 1000));
}

#[test]
fn thumbnail_updates_are_pushed_only_on_change() {
    let r = Rect { left: 1, top: 2, right: 3, bottom: 4 };
    let s = Rect { left: 1, top: 2, right: 3, bottom: 5 };
    assert!(!should_push_thumbnail_update(false, Some(r), true, r, true, false));
    assert!(should_push_thumbnail_update(true, Some(r), true, r, true, false));
    assert!(should_push_thumbnail_update(false, Some(r), true, s, true, false));
    assert!(should_push_thumbnail_update(false, None, true, r, true, false));
    assert!(should_push_thumbnail_update(false, Some(r), false, r, true, false));
    assert!(should_push_thumbnail_update(false, Some(r), true, r, true, true));
}

#[test]
fn successful_updates_are_recorded() {
    let mut w: ManagedWindow<(), ()> = new_managed_window(WindowInfo {
        hwnd: 1,
        title: String::new(),
        app_id: String::new(),
        process_name: String::new(),
        process_path: None,
        class_name: String::new(),
        monitor_name: String::new(),
    });
    let r = Rect { left: 1, top: 2, right: 3, bottom: 4 };
    let now = Instant::now();
    record_thumbnail_update(&mut w, r, true, false, now);
    assert_eq!(w.last_thumb_dest, Some(r));
    assert!(w.last_thumb_visible);
    assert!(w.last_thumb_update.is_none());
    record_thumbnail_update(&mut w, r, false, true, now);
    assert_eq!(w.last_thumb_update, Some(now));
    assert!(!w.last_thumb_visible);
}
