use panopticon::animation::cancel;
use panopticon::managed::{
    invalidate_cached_icon, new_managed_window, normalize_source_size, release_all_thumbnails,
    release_thumbnail, release_thumbnails_for_app, ManagedWindow, Rect, Size, WindowInfo,
};
use panopticon::reconcile::{reconcile_managed_windows, ReconcileOutcome};

fn window_info(
    hwnd_value: isize,
    title: &str,
    app_id: &str,
    process_name: &str,
    process_path: Option<&str>,
    class_name: &str,
    monitor_name: &str,
) -> WindowInfo {
    WindowInfo {
        hwnd: hwnd_value,
        title: title.to_owned(),
        app_id: app_id.to_owned(),
        process_name: process_name.to_owned(),
        process_path: process_path.map(str::to_owned),
        class_name: class_name.to_owned(),
        monitor_name: monitor_name.to_owned(),
    }
}

fn zero() -> Rect {
    Rect { left: 0, top: 0, right: 0, bottom: 0 }
}

type Window = ManagedWindow<u32, u32>;

#[test]
fn new_managed_window_uses_clean_runtime_defaults() {
    let managed: Window = new_managed_window(window_info(
        1,
        "Alpha",
        "app:alpha",
        "Alpha",
        Some("C:/Alpha.exe"),
        "AlphaClass",
        "DISPLAY1",
    ));

    assert!(managed.thumbnail.is_none());
    assert_eq!(managed.source_size.cx, 800);
    assert_eq!(managed.source_size.cy, 600);
    assert_eq!(managed.target_rect, zero());
    assert_eq!(managed.display_rect, zero());
    assert!(managed.last_thumb_update.is_none());
    assert!(managed.last_thumb_dest.is_none());
    assert!(!managed.last_thumb_visible);
    assert!(managed.cached_icon.is_none());
}

#[test]
fn reconcile_adds_removes_updates_and_preserves_order() {
    let mut windows: Vec<Window> = vec![
        new_managed_window(window_info(
            1,
            "Alpha",
            "app:alpha",
            "Alpha",
            Some("C:/Alpha.exe"),
            "AlphaClass",
            "DISPLAY1",
        )),
        new_managed_window(window_info(
            2,
            "Beta",
            "app:beta",
            "Beta",
            Some("C:/Beta.exe"),
            "BetaClass",
            "DISPLAY1",
        )),
    ];

    let outcome = reconcile_managed_windows(
        &mut windows,
        vec![
            window_info(
                2,
                "Beta renamed",
                "app:beta",
                "Beta",
                Some("C:/Beta.exe"),
                "BetaClass",
                "DISPLAY2",
            ),
            window_info(
                3,
                "Gamma",
                "app:gamma",
                "Gamma",
                Some("C:/Gamma.exe"),
                "GammaClass",
                "DISPLAY1",
            ),
        ],
    );

    assert!(outcome.changed);
    assert_eq!(outcome.removed, 1);
    assert_eq!(outcome.added, 1);
    assert_eq!(outcome.metadata_updated, 1);
    assert!(outcome.icon_invalidations.is_empty());
    assert_eq!(windows[0].info.hwnd, 2);
    assert_eq!(windows[0].info.title, "Beta renamed");
    assert_eq!(windows[1].info.hwnd, 3);
}

#[test]
fn reconcile_invalidates_icons_only_for_app_or_path_changes() {
    let mut windows: Vec<Window> = vec![new_managed_window(window_info(
        1,
        "Alpha",
        "app:alpha",
        "Alpha",
        Some("C:/Alpha.exe"),
        "AlphaClass",
        "DISPLAY1",
    ))];

    let outcome = reconcile_managed_windows(
        &mut windows,
        vec![window_info(
            1,
            "Alpha",
            "app:alpha-renamed",
            "Alpha",
            Some("D:/Alpha.exe"),
            "AlphaClass",
            "DISPLAY1",
        )],
    );

    assert_eq!(
        outcome.icon_invalidations,
        vec!["app:alpha".to_owned(), "app:alpha-renamed".to_owned()]
    );
    assert!(windows[0].cached_icon.is_none());
}

#[test]
fn reconcile_reports_unchanged_for_equivalent_discovery() {
    let info = window_info(
        1,
        "Alpha",
        "app:alpha",
        "Alpha",
        Some("C:/Alpha.exe"),
        "AlphaClass",
        "DISPLAY1",
    );
    let mut windows: Vec<Window> = vec![new_managed_window(info.clone())];

    let outcome = reconcile_managed_windows(&mut windows, vec![info]);

    assert!(!outcome.changed);
    assert_eq!(outcome, ReconcileOutcome::default());
}

fn simple(hwnd: isize, app: &str) -> WindowInfo {
    window_info(hwnd, "T", app, "P", None, "C", "D")
}

#[test]
fn reconcile_keeps_icons_for_title_changes_and_reports_path_changes_once() {
    let mut windows: Vec<Window> = vec![
        new_managed_window(simple(1, "app:a")),
        new_managed_window(simple(2, "app:a")),
    ];
    windows[0].cached_icon = Some(7);
    windows[1].cached_icon = Some(8);
    let mut renamed = simple(1, "app:a");
    renamed.title = "New title".to_owned();
    let mut moved = simple(2, "app:a");
    moved.process_path = Some("E:/a.exe".to_owned());

    let outcome = reconcile_managed_windows(&mut windows, vec![renamed, moved]);

    assert_eq!(outcome.metadata_updated, 2);
    assert_eq!(outcome.icon_invalidations, vec!["app:a".to_owned()]);
    assert_eq!(windows[0].cached_icon, Some(7));
    assert_eq!(windows[1].cached_icon, None);
    assert_eq!(windows[0].info.title, "New title");
}

#[test]
fn reconcile_follows_discovery_order_and_keeps_thumbnails() {
    let mut windows: Vec<Window> = vec![
        new_managed_window(simple(1, "app:a")),
        new_managed_window(simple(2, "app:b")),
        new_managed_window(simple(3, "app:c")),
    ];
    windows[0].thumbnail = Some(11);
    windows[2].thumbnail = Some(33);

    let outcome = reconcile_managed_windows(
        &mut windows,
        vec![simple(3, "app:c"), simple(4, "app:d"), simple(1, "app:a")],
    );

    let order: Vec<isize> = windows.iter().map(|w| w.info.hwnd).collect();
    assert_eq!(order, vec![3, 4, 1]);
    assert_eq!(windows[0].thumbnail, Some(33));
    assert_eq!(windows[1].thumbnail, None);
    assert_eq!(windows[2].thumbnail, Some(11));
    assert_eq!(outcome.removed, 1);
    assert_eq!(outcome.added, 1);
    assert_eq!(outcome.metadata_updated, 0);
    assert!(outcome.changed);
}

#[test]
fn reconcile_reports_a_pure_reordering_as_a_change() {
    let mut windows: Vec<Window> = vec![
        new_managed_window(simple(1, "app:a")),
        new_managed_window(simple(2, "app:b")),
    ];
    let outcome =
        reconcile_managed_windows(&mut windows, vec![simple(2, "app:b"), simple(1, "app:a")]);
    assert!(outcome.changed);
    assert_eq!(outcome.removed + outcome.added + outcome.metadata_updated, 0);
    assert_eq!(windows[0].info.hwnd, 2);
}

#[test]
fn reconcile_with_an_empty_discovery_drops_everything() {
    let mut windows: Vec<Window> = vec![new_managed_window(simple(1, "app:a"))];
    let outcome = reconcile_managed_windows(&mut windows, Vec::new());
    assert!(windows.is_empty());
    assert_eq!(outcome.removed, 1);
    assert!(outcome.changed);
}

#[test]
fn reconcile_uses_the_last_discovery_of_a_handle() {
    let mut windows: Vec<Window> = vec![new_managed_window(simple(1, "app:a"))];
    let mut later = simple(1, "app:a");
    later.title = "later".to_owned();
    let outcome =
        reconcile_managed_windows(&mut windows, vec![simple(1, "app:a"), simple(2, "app:b"), later]);
    assert_eq!(windows.len(), 2);
    assert_eq!(windows[0].info.hwnd, 2);
    assert_eq!(windows[1].info.title, "later");
    assert_eq!(outcome.metadata_updated, 1);
}

#[test]
fn cancel_snaps_to_targets() {
    let target = Rect { left: 50, top: 50, right: 150, bottom: 150 };
    let mut w: Window = new_managed_window(simple(0, ""));
    w.display_rect = Rect { left: 0, top: 0, right: 100, bottom: 100 };
    w.animation_from_rect = w.display_rect;
    w.target_rect = target;
    let mut windows = vec![w];

    cancel(&mut windows);

    assert_eq!(windows[0].display_rect, target);
}

#[test]
fn releasing_thumbnails_clears_the_bookkeeping() {
    let mut w: Window = new_managed_window(simple(1, "app:a"));
    w.thumbnail = Some(5);
    w.last_thumb_visible = true;
    w.last_thumb_dest = Some(Rect { left: 1, top: 2, right: 3, bottom: 4 });
    w.cached_icon = Some(9);
    release_thumbnail(&mut w);
    assert_eq!(w.thumbnail, None);
    assert!(!w.last_thumb_visible);
    assert_eq!(w.last_thumb_dest, None);
    assert_eq!(w.cached_icon, Some(9));
    invalidate_cached_icon(&mut w);
    assert_eq!(w.cached_icon, None);
}

#[test]
fn releasing_thumbnails_by_application() {
    let mut windows: Vec<Window> = vec![
        new_managed_window(simple(1, "app:a")),
        new_managed_window(simple(2, "app:b")),
    ];
    windows[0].thumbnail = Some(1);
    windows[1].thumbnail = Some(2);
    release_thumbnails_for_app(&mut windows, "app:b");
    assert_eq!(windows[0].thumbnail, Some(1));
    assert_eq!(windows[1].thumbnail, None);
    release_all_thumbnails(&mut windows);
    assert_eq!(windows[0].thumbnail, None);
}

#[test]
fn zero_source_sizes_fall_back_to_the_default() {
    assert_eq!(normalize_source_size(Size { cx: 0, cy: 0 }), Size { cx: 800, cy: 600 });
    assert_eq!(normalize_source_size(Size { cx: 0, cy: 5 }), Size { cx: 800, cy: 5 });
    assert_eq!(normalize_source_size(Size { cx: 3, cy: 4 }), Size { cx: 3, cy: 4 });
}

#[test]
fn second_reconciliation_with_the_same_discovery_changes_nothing() {
    let mut windows: Vec<Window> = vec![
        new_managed_window(simple(1, "app:a")),
        new_managed_window(simple(2, "app:b")),
    ];
    let discovery = || vec![simple(2, "app:b"), simple(5, "app:e"), simple(1, "app:x")];
    let first = reconcile_managed_windows(&mut windows, discovery());
    assert!(first.changed);
    let order: Vec<isize> = windows.iter().map(|w| w.info.hwnd).collect();
    let second = reconcile_managed_windows(&mut windows, discovery());
    assert_eq!(second, ReconcileOutcome::default());
    let again: Vec<isize> = windows.iter().map(|w| w.info.hwnd).collect();
    assert_eq!(order, again);
}
