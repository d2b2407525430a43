//! The decisions taken for each window when DWM thumbnails are updated: the
//! caller queries the window, asks these functions what to do, and pushes
//! the thumbnail properties to DWM.
use std::time::Instant;

use crate::managed::{ManagedWindow, Rect};
use crate::settings_model::ThumbnailRefreshMode;
use vstd::prelude::*;

verus! {

/// A window whose thumbnail must be dropped: gone, hidden without being
/// minimised, or cloaked.
pub fn source_should_be_hidden(
    is_source_valid: bool,
    is_source_visible: bool,
    is_minimized: bool,
    is_cloaked: bool,
) -> (r: bool)
    ensures
        r == (!is_source_valid || (!is_source_visible && !is_minimized) || is_cloaked),
{
    !is_source_valid || (!is_source_visible && !is_minimized) || is_cloaked
}

/// Height reserved above the thumbnail for the information strip: needed
/// when window information is shown, the window is minimised, or an icon is
/// shown and the window has one.
pub fn overlay_top_height(
    show_info: bool,
    is_minimized: bool,
    show_icons: bool,
    has_icon: bool,
    info_strip_height: i32,
) -> (r: i32)
    ensures
        r == if show_info || is_minimized || (show_icons && has_icon) {
            info_strip_height
        } else {
            0
        },
{
    if show_info || is_minimized || (show_icons && has_icon) {
        info_strip_height
    } else {
        0
    }
}

/// Whether the thumbnail bitmap is refreshed this time: never for a
/// minimised window; a frozen thumbnail only when there is none yet; an
/// interval thumbnail when it was never refreshed or at least `interval_ms`
/// milliseconds have passed; a real-time thumbnail always.
pub fn should_refresh_bitmap(
    is_minimized: bool,
    mode: ThumbnailRefreshMode,
    has_thumbnail: bool,
    since_last_update_ms: Option<u128>,
    interval_ms: u32,
) -> (r: bool)
    ensures
        r == (!is_minimized && match mode {
            ThumbnailRefreshMode::Frozen => !has_thumbnail,
            ThumbnailRefreshMode::Interval => match since_last_update_ms {
                None => true,
                Some(ms) => ms >= interval_ms,
            },
            ThumbnailRefreshMode::Realtime => true,
        }),
{
    if is_minimized {
        return false;
    }
    match mode {
        ThumbnailRefreshMode::Frozen => !has_thumbnail,
        ThumbnailRefreshMode::Interval => match since_last_update_ms {
            None => true,
            Some(ms) => ms >= interval_ms as u128,
        },
        ThumbnailRefreshMode::Realtime => true,
    }
}

/// Whether the thumbnail properties are pushed to DWM: when the thumbnail
/// was just registered, its destination or visibility changed, or its
/// bitmap is refreshed.
pub fn should_push_thumbnail_update(
    registered_now: bool,
    last_dest: Option<Rect>,
    last_visible: bool,
    dest: Rect,
    visible: bool,
    refresh_bitmap: bool,
) -> (r: bool)
    ensures
        r == (registered_now || last_dest != Some(dest) || last_visible != visible
            || refresh_bitmap),
{
    let dest_changed = match last_dest {
        Some(previous) => previous != dest,
        None => true,
    };
    registered_now || dest_changed || last_visible != visible || refresh_bitmap
}

/// Records a successful thumbnail update: its destination and visibility,
/// and `now` as the last bitmap refresh when the bitmap was refreshed.
pub fn record_thumbnail_update<T, I>(
    mw: &mut ManagedWindow<T, I>,
    dest: Rect,
    visible: bool,
    refreshed_bitmap: bool,
    now: Instant,
)
    ensures
        *final(mw) == (ManagedWindow {
            last_thumb_dest: Some(dest),
            last_thumb_visible: visible,
            last_thumb_update: if refreshed_bitmap {
                Some(now)
            } else {
                old(mw).last_thumb_update
            },
            ..*old(mw)
        }),
{
    mw.last_thumb_dest = Some(dest);
    mw.last_thumb_visible = visible;
    if refreshed_bitmap {
        mw.last_thumb_update = Some(now);
    }
}

} // verus!
