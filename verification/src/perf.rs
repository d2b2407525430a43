//! Per-tick signals of the runtime loop and the counters summarised in the
//! periodic performance report.
use vstd::prelude::*;

verus! {

/// Number of ticks between two performance reports.
pub const PERF_REPORT_EVERY_TICKS: u16 = 60;

/// Set of things that happened during one tick, one bit per signal.
#[derive(Debug, Copy, Clone, Default)]
pub struct UiTickSignals(pub u8);

impl UiTickSignals {
    /// The tick drained queued actions.
    pub const HAD_ACTIONS: u8 = 1;
    /// The layout was recomputed after a resize.
    pub const RECOMPUTED_FROM_RESIZE: u8 = 2;
    /// The layout was recomputed after a refresh.
    pub const RECOMPUTED_FROM_REFRESH: u8 = 4;
    /// DWM thumbnails were synchronised.
    pub const SYNCED_DWM: u8 = 8;

    /// An empty signal set.
    pub fn empty() -> (r: Self)
        ensures
            r.0 == 0,
    {
        UiTickSignals(0)
    }

    /// Adds the bits of `flag` to the set.
    pub fn insert(&mut self, flag: u8)
        ensures
            final(self).0 == old(self).0 | flag,
    {
        self.0 = self.0 | flag;
    }

    /// Whether the set shares a bit with `flag`.
    pub fn contains(self, flag: u8) -> (r: bool)
        ensures
            r == (self.0 & flag != 0),
    {
        self.0 & flag != 0
    }
}

/// Counters of the current reporting period.
#[derive(Debug, Copy, Clone)]
pub struct UiPerfCounters {
    pub ticks: u16,
    pub action_batches: u16,
    pub recompute_resize: u16,
    pub recompute_refresh: u16,
    pub dwm_syncs: u16,
}

/// `x + 1`, saturating at the largest `u16`.
pub open spec fn sat_inc(x: u16) -> u16 {
    if x == u16::MAX {
        x
    } else {
        (x + 1) as u16
    }
}

/// `c + 1` (saturating) when the signal set shares a bit with `flag`, else `c`.
pub open spec fn count_if(c: u16, signals: u8, flag: u8) -> u16 {
    if signals & flag != 0 {
        sat_inc(c)
    } else {
        c
    }
}

/// The counters after one more tick with the given signals, before any report.
pub open spec fn counted(p: UiPerfCounters, signals: u8) -> UiPerfCounters {
    UiPerfCounters {
        ticks: sat_inc(p.ticks),
        action_batches: count_if(p.action_batches, signals, UiTickSignals::HAD_ACTIONS),
        recompute_resize: count_if(p.recompute_resize, signals, UiTickSignals::RECOMPUTED_FROM_RESIZE),
        recompute_refresh: count_if(
            p.recompute_refresh,
            signals,
            UiTickSignals::RECOMPUTED_FROM_REFRESH,
        ),
        dwm_syncs: count_if(p.dwm_syncs, signals, UiTickSignals::SYNCED_DWM),
    }
}

impl UiPerfCounters {
    /// Counters of a new reporting period.
    pub fn new() -> (r: Self)
        ensures
            r == (UiPerfCounters {
                ticks: 0,
                action_batches: 0,
                recompute_resize: 0,
                recompute_refresh: 0,
                dwm_syncs: 0,
            }),
    {
        UiPerfCounters {
            ticks: 0,
            action_batches: 0,
            recompute_resize: 0,
            recompute_refresh: 0,
            dwm_syncs: 0,
        }
    }
}

/// `x + 1`, saturating at the largest `u16`.
fn saturating_inc(x: u16) -> (r: u16)
    ensures
        r == sat_inc(x),
{
    if x == u16::MAX {
        x
    } else {
        x + 1
    }
}

/// Counts one tick with its signals. When the period reaches the report
/// length, returns the period's counters and starts a new period.
pub fn record_perf_tick(perf: &mut UiPerfCounters, signals: UiTickSignals) -> (r: Option<
    UiPerfCounters,
>)
    ensures
        counted(*old(perf), signals.0).ticks < PERF_REPORT_EVERY_TICKS ==> r is None && *final(perf)
            == counted(*old(perf), signals.0),
        counted(*old(perf), signals.0).ticks >= PERF_REPORT_EVERY_TICKS ==> r == Some(
            counted(*old(perf), signals.0),
        ) && *final(perf) == (UiPerfCounters {
            ticks: 0,
            action_batches: 0,
            recompute_resize: 0,
            recompute_refresh: 0,
            dwm_syncs: 0,
        }),
{
    perf.ticks = saturating_inc(perf.ticks);
    if signals.contains(UiTickSignals::HAD_ACTIONS) {
        perf.action_batches = saturating_inc(perf.action_batches);
    }
    if signals.contains(UiTickSignals::RECOMPUTED_FROM_RESIZE) {
        perf.recompute_resize = saturating_inc(perf.recompute_resize);
    }
    if signals.contains(UiTickSignals::RECOMPUTED_FROM_REFRESH) {
        perf.recompute_refresh = saturating_inc(perf.recompute_refresh);
    }
    if signals.contains(UiTickSignals::SYNCED_DWM) {
        perf.dwm_syncs = saturating_inc(perf.dwm_syncs);
    }
    if perf.ticks < PERF_REPORT_EVERY_TICKS {
        return None;
    }
    let report = *perf;
    *perf = UiPerfCounters::new();
    Some(report)
}

/// A signal that was inserted is contained, and inserting a signal adds no
/// other signal and removes none.
pub proof fn lemma_signal_insert_then_contains(signals: u8, flag: u8, other: u8)
    requires
        flag != 0,
    ensures
        (signals | flag) & flag != 0,
        signals & other != 0 ==> (signals | flag) & other != 0,
        flag & other == 0 ==> (((signals | flag) & other != 0) == (signals & other != 0)),
{
    assert((signals | flag) & flag != 0 && (signals & other != 0 ==> (signals | flag) & other != 0)
        && (flag & other == 0 ==> (((signals | flag) & other != 0) == (signals & other != 0))))
        by (bit_vector)
        requires
            flag != 0,
    ;
}

} // verus!
