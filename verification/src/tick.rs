//! Decisions of the UI tick loop: when to synchronise DWM thumbnails and how
//! often the refresh timer runs.
use std::time::{Duration, Instant};

use vstd::prelude::*;

use crate::settings_model::RefreshPerformanceMode;

verus! {

/// A point in monotonic time (std's `Instant`), carried through unchanged.
#[verifier::external_type_specification]
#[verifier::external_body]
pub struct ExInstant(std::time::Instant);

/// Idle DWM synchronisation interval in the balanced mode, in milliseconds.
pub const DWM_IDLE_SYNC_INTERVAL_MS: u64 = 250;

/// Idle DWM synchronisation interval in the real-time mode, in milliseconds.
pub const DWM_IDLE_SYNC_INTERVAL_MS_REALTIME: u64 = 64;

/// Idle DWM synchronisation interval in the battery-saver mode, in milliseconds.
pub const DWM_IDLE_SYNC_INTERVAL_MS_BATTERY_SAVER: u64 = 500;

/// Longest idle DWM synchronisation interval in the manual mode, in milliseconds.
pub const DWM_IDLE_SYNC_INTERVAL_MS_MANUAL_MAX: u64 = 2000;

/// Shortest refresh timer interval, in milliseconds.
pub const MIN_REFRESH_TIMER_INTERVAL_MS: u32 = 50;

/// What happened during one UI tick.
#[derive(Debug, Clone, Copy, Default)]
pub struct TickEffects {
    pub had_actions: bool,
    pub recomputed_from_resize: bool,
    pub recomputed_from_refresh: bool,
    pub viewport_changed: bool,
    pub is_animating_or_dirty: bool,
}

impl TickEffects {
    /// Some work was done this tick, so a DWM synchronisation is worthwhile.
    pub open spec fn needs_sync_spec(self) -> bool {
        self.had_actions || self.recomputed_from_resize || self.recomputed_from_refresh
            || self.viewport_changed || self.is_animating_or_dirty
    }

    /// True when any work was done that makes a DWM sync worthwhile.
    pub fn needs_immediate_dwm_sync(self) -> (r: bool)
        ensures
            r == self.needs_sync_spec(),
    {
        self.had_actions || self.recomputed_from_resize || self.recomputed_from_refresh
            || self.viewport_changed || self.is_animating_or_dirty
    }
}

/// Whole nanoseconds from `earlier` to `later` (0 when `earlier` is the
/// later one), as `Instant::duration_since` followed by `Duration::as_nanos`
/// gives them; a function of the two instants alone.
pub uninterp spec fn nanos_between(later: Instant, earlier: Instant) -> u128;

/// Whole nanoseconds of a duration, as `Duration::as_nanos` gives them.
pub uninterp spec fn nanos_of(d: Duration) -> u128;

/// Time elapsed from `earlier` to `now`.
///
/// Trusted: calls `Instant::duration_since`, which std documents as the
/// time from `earlier` to `now`, saturating at zero. The contract claims
/// that the result measures `nanos_between(now, earlier)` nanoseconds; what
/// that number is for given instants is left unsaid.
#[verifier::external_body]
fn duration_since(now: Instant, earlier: Instant) -> (r: Duration)
    ensures
        nanos_of(r) == nanos_between(now, earlier),
{
    now.duration_since(earlier)
}

/// Whole nanoseconds of a duration.
///
/// Trusted: calls `Duration::as_nanos`; the contract claims that the result
/// is `nanos_of(d)`, the duration's length in whole nanoseconds.
#[verifier::external_body]
fn duration_nanos(d: Duration) -> (r: u128)
    ensures
        r == nanos_of(d),
{
    d.as_nanos()
}

/// An idle synchronisation is due when none happened yet, or when at least
/// the interval has elapsed since the previous one.
pub fn idle_sync_due(elapsed_since_previous_nanos: Option<u128>, interval_nanos: u128) -> (r: bool)
    ensures
        r == match elapsed_since_previous_nanos {
            None => true,
            Some(e) => e >= interval_nanos,
        },
{
    match elapsed_since_previous_nanos {
        None => true,
        Some(elapsed) => elapsed >= interval_nanos,
    }
}

/// Decides from elapsed time whether an idle DWM synchronisation is due,
/// recording `now` as the last synchronisation when it is.
pub fn schedule_idle_dwm_sync(last_sync: &mut Option<Instant>, now: Instant, interval: Duration) -> (r:
    bool)
    ensures
        r == match *old(last_sync) {
            None => true,
            Some(previous) => nanos_between(now, previous) >= nanos_of(interval),
        },
        r ==> *final(last_sync) == Some(now),
        !r ==> *final(last_sync) == *old(last_sync),
{
    let elapsed = match *last_sync {
        None => None,
        Some(previous) => Some(duration_nanos(duration_since(now, previous))),
    };
    if idle_sync_due(elapsed, duration_nanos(interval)) {
        *last_sync = Some(now);
        true
    } else {
        false
    }
}

/// Whether DWM is synchronised this tick: at once after any work, otherwise
/// when the idle interval has elapsed.
pub fn decide_dwm_sync(
    effects: TickEffects,
    last_dwm_sync: &mut Option<Instant>,
    now: Instant,
    idle_interval: Duration,
) -> (r: bool)
    ensures
        r == (effects.needs_sync_spec() || match *old(last_dwm_sync) {
            None => true,
            Some(previous) => nanos_between(now, previous) >= nanos_of(idle_interval),
        }),
        r ==> *final(last_dwm_sync) == Some(now),
        !r ==> *final(last_dwm_sync) == *old(last_dwm_sync),
{
    if effects.needs_immediate_dwm_sync() {
        *last_dwm_sync = Some(now);
        true
    } else {
        schedule_idle_dwm_sync(last_dwm_sync, now, idle_interval)
    }
}

/// Idle DWM synchronisation interval of a refresh mode, in milliseconds; the
/// manual mode follows the configured refresh interval within 250..=2000 ms.
pub open spec fn idle_interval_ms_spec(mode: RefreshPerformanceMode, refresh_interval_ms: u32) -> u64 {
    match mode {
        RefreshPerformanceMode::Realtime => 64,
        RefreshPerformanceMode::Balanced => 250,
        RefreshPerformanceMode::BatterySaver => 500,
        RefreshPerformanceMode::Manual => if refresh_interval_ms < 250 {
            250
        } else if refresh_interval_ms > 2000 {
            2000
        } else {
            refresh_interval_ms as u64
        },
    }
}

/// The idle synchronisation interval is 64 ms in the real-time mode, 250 ms
/// balanced and 500 ms on battery; the manual mode follows the configured
/// refresh interval, but never below 250 ms nor above 2000 ms, and never
/// shortens as the configured interval grows.
pub proof fn lemma_idle_interval_of_each_mode(refresh_interval_ms: u32, longer_ms: u32)
    requires
        refresh_interval_ms <= longer_ms,
    ensures
        idle_interval_ms_spec(RefreshPerformanceMode::Realtime, refresh_interval_ms) == 64,
        idle_interval_ms_spec(RefreshPerformanceMode::Balanced, refresh_interval_ms) == 250,
        idle_interval_ms_spec(RefreshPerformanceMode::BatterySaver, refresh_interval_ms) == 500,
        250 <= idle_interval_ms_spec(RefreshPerformanceMode::Manual, refresh_interval_ms) <= 2000,
        250 <= refresh_interval_ms <= 2000 ==> idle_interval_ms_spec(
            RefreshPerformanceMode::Manual,
            refresh_interval_ms,
        ) == refresh_interval_ms,
        idle_interval_ms_spec(RefreshPerformanceMode::Manual, refresh_interval_ms)
            <= idle_interval_ms_spec(RefreshPerformanceMode::Manual, longer_ms),
{
}

/// Idle DWM synchronisation interval of a refresh mode, in milliseconds.
pub fn dwm_idle_sync_interval_ms(mode: RefreshPerformanceMode, refresh_interval_ms: u32) -> (r: u64)
    ensures
        r == idle_interval_ms_spec(mode, refresh_interval_ms),
{
    match mode {
        RefreshPerformanceMode::Realtime => DWM_IDLE_SYNC_INTERVAL_MS_REALTIME,
        RefreshPerformanceMode::Balanced => DWM_IDLE_SYNC_INTERVAL_MS,
        RefreshPerformanceMode::BatterySaver => DWM_IDLE_SYNC_INTERVAL_MS_BATTERY_SAVER,
        RefreshPerformanceMode::Manual => {
            let configured = refresh_interval_ms as u64;
            if configured < DWM_IDLE_SYNC_INTERVAL_MS {
                DWM_IDLE_SYNC_INTERVAL_MS
            } else if configured > DWM_IDLE_SYNC_INTERVAL_MS_MANUAL_MAX {
                DWM_IDLE_SYNC_INTERVAL_MS_MANUAL_MAX
            } else {
                configured
            }
        },
    }
}

/// The refresh timer interval: the configured interval, but at least 50 ms.
pub fn effective_refresh_interval_ms(refresh_interval_ms: u32) -> (r: u32)
    ensures
        r == if refresh_interval_ms < 50 {
            50
        } else {
            refresh_interval_ms
        },
{
    if refresh_interval_ms < MIN_REFRESH_TIMER_INTERVAL_MS {
        MIN_REFRESH_TIMER_INTERVAL_MS
    } else {
        refresh_interval_ms
    }
}

/// Runtime activity flags `(window animation, theme animation, animating or
/// dirty)`; the last is set by either animation or an active separator drag.
pub fn compute_activity_flags(
    window_animation_active: bool,
    theme_animation_active: bool,
    separator_drag_active: bool,
) -> (r: (bool, bool, bool))
    ensures
        r == (window_animation_active, theme_animation_active, window_animation_active
            || theme_animation_active || separator_drag_active),
{
    let is_animating_or_dirty = window_animation_active || theme_animation_active
        || separator_drag_active;
    (window_animation_active, theme_animation_active, is_animating_or_dirty)
}

} // verus!
