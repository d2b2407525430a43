//! Windows tracked by the dashboard and their thumbnail and icon state.
use std::time::Instant;

use vstd::prelude::*;

verus! {

/// A screen rectangle in pixels.
#[derive(Debug, Clone, Copy, PartialEq, Eq, Structural)]
pub struct Rect {
    pub left: i32,
    pub top: i32,
    pub right: i32,
    pub bottom: i32,
}

/// A size in pixels.
#[derive(Debug, Clone, Copy, PartialEq, Eq, Structural)]
pub struct Size {
    pub cx: i32,
    pub cy: i32,
}

/// A discovered top-level window and what identifies its application.
#[derive(Debug, Clone)]
pub struct WindowInfo {
    pub hwnd: isize,
    pub title: String,
    pub app_id: String,
    pub process_name: String,
    pub process_path: Option<String>,
    pub class_name: String,
    pub monitor_name: String,
}

/// A window shown on the dashboard, with its thumbnail handle `T`, its
/// cached application icon `I` and its layout geometry.
pub struct ManagedWindow<T, I> {
    pub info: WindowInfo,
    pub thumbnail: Option<T>,
    pub target_rect: Rect,
    pub display_rect: Rect,
    pub animation_from_rect: Rect,
    pub source_size: Size,
    pub last_thumb_update: Option<Instant>,
    pub last_thumb_dest: Option<Rect>,
    pub last_thumb_visible: bool,
    pub cached_icon: Option<I>,
}

/// The rectangle with all coordinates zero.
pub open spec fn zero_rect() -> Rect {
    Rect { left: 0, top: 0, right: 0, bottom: 0 }
}

/// Source size assumed until DWM reports one.
pub open spec fn default_source_size() -> Size {
    Size { cx: 800, cy: 600 }
}

/// A freshly discovered window: no thumbnail, no icon, zero geometry and the
/// default source size.
pub open spec fn fresh_window<T, I>(info: WindowInfo) -> ManagedWindow<T, I> {
    ManagedWindow {
        info,
        thumbnail: None,
        target_rect: zero_rect(),
        display_rect: zero_rect(),
        animation_from_rect: zero_rect(),
        source_size: default_source_size(),
        last_thumb_update: None,
        last_thumb_dest: None,
        last_thumb_visible: false,
        cached_icon: None,
    }
}

/// `w` with its thumbnail and the thumbnail bookkeeping cleared.
pub open spec fn released<T, I>(w: ManagedWindow<T, I>) -> ManagedWindow<T, I> {
    ManagedWindow {
        thumbnail: None,
        last_thumb_update: None,
        last_thumb_dest: None,
        last_thumb_visible: false,
        ..w
    }
}

/// Optional texts equal by their characters.
pub open spec fn same_opt_text(a: Option<String>, b: Option<String>) -> bool {
    match (a, b) {
        (Some(x), Some(y)) => x@ == y@,
        (None, None) => true,
        _ => false,
    }
}

/// The rectangle with all coordinates zero.
pub fn zero_rect_value() -> (r: Rect)
    ensures
        r == zero_rect(),
{
    Rect { left: 0, top: 0, right: 0, bottom: 0 }
}

/// A copy of a window description, equal to it.
pub fn clone_info(info: &WindowInfo) -> (r: WindowInfo)
    ensures
        r == *info,
{
    let process_path = match &info.process_path {
        Some(p) => Some(p.clone()),
        None => None,
    };
    WindowInfo {
        hwnd: info.hwnd,
        title: info.title.clone(),
        app_id: info.app_id.clone(),
        process_name: info.process_name.clone(),
        process_path,
        class_name: info.class_name.clone(),
        monitor_name: info.monitor_name.clone(),
    }
}

/// Whether two optional texts are equal.
pub fn opt_text_eq(a: &Option<String>, b: &Option<String>) -> (r: bool)
    ensures
        r == same_opt_text(*a, *b),
{
    match (a, b) {
        (Some(x), Some(y)) => *x == *y,
        (None, None) => true,
        _ => false,
    }
}

/// A managed window for a newly discovered window.
pub fn new_managed_window<T, I>(info: WindowInfo) -> (r: ManagedWindow<T, I>)
    ensures
        r == fresh_window::<T, I>(info),
{
    ManagedWindow {
        info,
        thumbnail: None,
        target_rect: zero_rect_value(),
        display_rect: zero_rect_value(),
        animation_from_rect: zero_rect_value(),
        source_size: Size { cx: 800, cy: 600 },
        last_thumb_update: None,
        last_thumb_dest: None,
        last_thumb_visible: false,
        cached_icon: None,
    }
}

/// Drops a window's thumbnail and resets the thumbnail bookkeeping.
pub fn release_thumbnail<T, I>(mw: &mut ManagedWindow<T, I>)
    ensures
        *final(mw) == released(*old(mw)),
{
    mw.thumbnail = None;
    mw.last_thumb_update = None;
    mw.last_thumb_dest = None;
    mw.last_thumb_visible = false;
}

/// Drops the cached application icon of a window.
pub fn invalidate_cached_icon<T, I>(mw: &mut ManagedWindow<T, I>)
    ensures
        *final(mw) == (ManagedWindow { cached_icon: None, ..*old(mw) }),
{
    mw.cached_icon = None;
}

/// Drops the thumbnails of all windows.
pub fn release_all_thumbnails<T, I>(windows: &mut Vec<ManagedWindow<T, I>>)
    ensures
        final(windows)@.len() == old(windows)@.len(),
        forall|i: int|
            0 <= i < old(windows)@.len() ==> #[trigger] final(windows)@[i] == released(
                old(windows)@[i],
            ),
{
    let n = windows.len();
    let mut i: usize = 0;
    while i < n
        invariant
            n == windows@.len(),
            n == old(windows)@.len(),
            i <= n,
            forall|j: int| 0 <= j < i ==> #[trigger] windows@[j] == released(old(windows)@[j]),
            forall|j: int| i <= j < n ==> #[trigger] windows@[j] == old(windows)@[j],
        decreases n - i,
    {
        let mut w = windows.remove(i);
        release_thumbnail(&mut w);
        windows.insert(i, w);
        i = i + 1;
    }
}

/// Drops the thumbnails of the windows of one application.
pub fn release_thumbnails_for_app<T, I>(windows: &mut Vec<ManagedWindow<T, I>>, app_id: &str)
    ensures
        final(windows)@.len() == old(windows)@.len(),
        forall|i: int|
            0 <= i < old(windows)@.len() ==> #[trigger] final(windows)@[i] == if old(
                windows,
            )@[i].info.app_id@ == app_id@ {
                released(old(windows)@[i])
            } else {
                old(windows)@[i]
            },
{
    let n = windows.len();
    let mut i: usize = 0;
    while i < n
        invariant
            n == windows@.len(),
            n == old(windows)@.len(),
            i <= n,
            forall|j: int|
                0 <= j < i ==> #[trigger] windows@[j] == if old(windows)@[j].info.app_id@
                    == app_id@ {
                    released(old(windows)@[j])
                } else {
                    old(windows)@[j]
                },
            forall|j: int| i <= j < n ==> #[trigger] windows@[j] == old(windows)@[j],
        decreases n - i,
    {
        if crate::text::str_eq(windows[i].info.app_id.as_str(), app_id) {
            let mut w = windows.remove(i);
            release_thumbnail(&mut w);
            windows.insert(i, w);
        }
        i = i + 1;
    }
}

/// The source size DWM reported, with a zero width or height replaced by the
/// default 800 x 600.
pub fn normalize_source_size(size: Size) -> (r: Size)
    ensures
        r == (Size {
            cx: if size.cx == 0 {
                800
            } else {
                size.cx
            },
            cy: if size.cy == 0 {
                600
            } else {
                size.cy
            },
        }),
{
    Size { cx: if size.cx == 0 { 800 } else { size.cx }, cy: if size.cy == 0 { 600 } else { size.cy } }
}

impl<T, I> ManagedWindow<T, I> {
    /// A managed window for a newly discovered window.
    pub fn new(info: WindowInfo) -> (r: Self)
        ensures
            r == fresh_window::<T, I>(info),
    {
        new_managed_window(info)
    }

    /// Drops the window's thumbnail and resets the thumbnail bookkeeping.
    pub fn release_thumbnail_preview(&mut self)
        ensures
            *final(self) == released(*old(self)),
    {
        release_thumbnail(self);
    }

    /// Drops the window's cached application icon.
    pub fn invalidate_cached_icon(&mut self)
        ensures
            *final(self) == (ManagedWindow { cached_icon: None, ..*old(self) }),
    {
        invalidate_cached_icon(self);
    }
}

} // verus!
