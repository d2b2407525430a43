use std::time::{Duration, Instant};

use panopticon::perf::{record_perf_tick, UiPerfCounters, UiTickSignals, PERF_REPORT_EVERY_TICKS};
use panopticon::settings_model::RefreshPerformanceMode;
use panopticon::tick::{
    compute_activity_flags, decide_dwm_sync, dwm_idle_sync_interval_ms,
    effective_refresh_interval_ms, idle_sync_due, schedule_idle_dwm_sync, TickEffects,
};

#[test]
fn idle_scheduler_uses_elapsed_time_instead_of_tick_count() {
    let mut last_sync = None;
    let started = Instant::now();

    assert!(schedule_idle_dwm_sync(&mut last_sync, started, Duration::from_millis(250)));
    assert!(!schedule_idle_dwm_sync(
        &mut last_sync,
        started + Duration::from_millis(249),
        Duration::from_millis(250)
    ));
    assert!(schedule_idle_dwm_sync(
        &mut last_sync,
        started + Duration::from_millis(250),
        Duration::from_millis(250)
    ));
}

#[test]
fn idle_sync_is_due_without_a_previous_sync_or_after_the_interval() {
    assert!(idle_sync_due(None, 10));
    assert!(!idle_sync_due(Some(9), 10));
    assert!(idle_sync_due(Some(10), 10));
}

#[test]
fn work_in_a_tick_forces_an_immediate_sync() {
    let started = Instant::now();
    let mut last = Some(started);
    let busy = TickEffects { had_actions: true, ..TickEffects::default() };
    assert!(busy.needs_immediate_dwm_sync());
    let now = started + Duration::from_millis(1);
    assert!(decide_dwm_sync(busy, &mut last, now, Duration::from_millis(250)));
    assert_eq!(last, Some(now));
    let idle = TickEffects::default();
    assert!(!idle.needs_immediate_dwm_sync());
    assert!(!decide_dwm_sync(idle, &mut last, now + Duration::from_millis(2), Duration::from_millis(250)));
    assert_eq!(last, Some(now));
}

#[test]
fn idle_intervals_follow_the_refresh_mode() {
    assert_eq!(dwm_idle_sync_interval_ms(RefreshPerformanceMode::Realtime, 0), 64);
    assert_eq!(dwm_idle_sync_interval_ms(RefreshPerformanceMode::Balanced, 0), 250);
    assert_eq!(dwm_idle_sync_interval_ms(RefreshPerformanceMode::BatterySaver, 0), 500);
    assert_eq!(dwm_idle_sync_interval_ms(RefreshPerformanceMode::Manual, 100), 250);
    assert_eq!(dwm_idle_sync_interval_ms(RefreshPerformanceMode::Manual, 1000), 1000);
    assert_eq!(dwm_idle_sync_interval_ms(RefreshPerformanceMode::Manual, 9000), 2000);
}

#[test]
fn refresh_timer_interval_has_a_floor() {
    assert_eq!(effective_refresh_interval_ms(10), 50);
    assert_eq!(effective_refresh_interval_ms(500), 500);
}

#[test]
fn activity_flags_combine_animations_and_drags() {
    assert_eq!(compute_activity_flags(false, false, false), (false, false, false));
    assert_eq!(compute_activity_flags(false, false, true), (false, false, true));
    assert_eq!(compute_activity_flags(true, false, false), (true, false, true));
}

#[test]
fn tick_signals_are_a_bit_set() {
    let mut signals = UiTickSignals::empty();
    assert!(!signals.contains(UiTickSignals::SYNCED_DWM));
    signals.insert(UiTickSignals::SYNCED_DWM);
    signals.insert(UiTickSignals::HAD_ACTIONS);
    assert!(signals.contains(UiTickSignals::SYNCED_DWM));
    assert!(signals.contains(UiTickSignals::HAD_ACTIONS));
    assert!(!signals.contains(UiTickSignals::RECOMPUTED_FROM_RESIZE));
}

#[test]
fn perf_counters_report_once_per_period_and_restart() {
    let mut perf = UiPerfCounters::new();
    let mut signals = UiTickSignals::empty();
    signals.insert(UiTickSignals::HAD_ACTIONS);
    for _ in 1..PERF_REPORT_EVERY_TICKS {
        assert!(record_perf_tick(&mut perf, signals).is_none());
    }
    let report = record_perf_tick(&mut perf, UiTickSignals::empty()).expect("report");
    assert_eq!(report.ticks, 60);
    assert_eq!(report.action_batches, 59);
    assert_eq!(report.dwm_syncs, 0);
    assert_eq!(perf.ticks, 0);
    assert_eq!(perf.action_batches, 0);
}

#[test]
fn idle_scheduler_refuses_until_the_interval_has_passed() {
    let started = Instant::now();
    let mut last = Some(started);
    let idle = TickEffects::default();
    assert!(!decide_dwm_sync(idle, &mut last, started + Duration::from_millis(100), Duration::from_millis(250)));
    assert_eq!(last, Some(started));
    let later = started + Duration::from_millis(300);
    assert!(decide_dwm_sync(idle, &mut last, later, Duration::from_millis(250)));
    assert_eq!(last, Some(later));
    let mut earlier_than_last = Some(later);
    assert!(!schedule_idle_dwm_sync(&mut earlier_than_last, started, Duration::from_millis(1)));
}
