//! Reconciliation of the managed windows with a fresh window discovery.
//!
//! Windows that were not discovered again are dropped, windows whose metadata
//! changed are refreshed (losing their cached icon when the application or
//! executable changed), newly discovered windows are appended, and the result
//! is ordered by where each window was last discovered.
use crate::managed::{
    clone_info, fresh_window, new_managed_window, opt_text_eq, same_opt_text, ManagedWindow,
    WindowInfo,
};
use crate::text::str_eq;
use vstd::prelude::*;

verus! {

/// What one reconciliation did.
#[derive(Debug, Default, PartialEq, Eq)]
pub struct ReconcileOutcome {
    pub changed: bool,
    pub removed: usize,
    pub added: usize,
    pub metadata_updated: usize,
    pub icon_invalidations: Vec<String>,
}

// ---------------------------------------------------------------------------
// The model
// ---------------------------------------------------------------------------

/// The window handles of a discovery, in discovery order.
pub open spec fn hwnd_seq(d: Seq<WindowInfo>) -> Seq<isize> {
    d.map_values(|w: WindowInfo| w.hwnd)
}

/// The window handles of managed windows, in order.
pub open spec fn window_hwnds<T, I>(ws: Seq<ManagedWindow<T, I>>) -> Seq<isize> {
    ws.map_values(|w: ManagedWindow<T, I>| w.info.hwnd)
}

/// The last position of `h` in `s`, or -1 when `h` does not occur.
pub open spec fn last_index_of(s: Seq<isize>, h: isize) -> int
    decreases s.len(),
{
    if s.len() == 0 {
        -1
    } else if s.last() == h {
        s.len() - 1
    } else {
        last_index_of(s.drop_last(), h)
    }
}

/// Where the window `h` was last discovered in `d` (-1 when it was not).
pub open spec fn discovery_index(d: Seq<WindowInfo>, h: isize) -> int {
    last_index_of(hwnd_seq(d), h)
}

/// Managed windows that were discovered again.
pub open spec fn was_discovered<T, I>(d: Seq<WindowInfo>) -> spec_fn(ManagedWindow<T, I>) -> bool {
    |w: ManagedWindow<T, I>| discovery_index(d, w.info.hwnd) >= 0
}

/// Whether any descriptive field of a window differs from its fresh discovery.
pub open spec fn metadata_differs(current: WindowInfo, fresh: WindowInfo) -> bool {
    ||| fresh.app_id@ != current.app_id@
    ||| fresh.class_name@ != current.class_name@
    ||| fresh.monitor_name@ != current.monitor_name@
    ||| fresh.process_name@ != current.process_name@
    ||| !same_opt_text(fresh.process_path, current.process_path)
    ||| fresh.title@ != current.title@
}

/// Whether the cached application icon no longer fits the window: its
/// application or its executable changed.
pub open spec fn icon_outdated(current: WindowInfo, fresh: WindowInfo) -> bool {
    fresh.app_id@ != current.app_id@ || !same_opt_text(fresh.process_path, current.process_path)
}

/// The fresh discovery of a managed window.
pub open spec fn fresh_info<T, I>(w: ManagedWindow<T, I>, d: Seq<WindowInfo>) -> WindowInfo {
    d[discovery_index(d, w.info.hwnd)]
}

/// Whether a managed window's metadata changed in the discovery `d`.
pub open spec fn needs_refresh<T, I>(d: Seq<WindowInfo>) -> spec_fn(ManagedWindow<T, I>) -> bool {
    |w: ManagedWindow<T, I>| metadata_differs(w.info, fresh_info(w, d))
}

/// A retained window after taking over its fresh metadata.
pub open spec fn refreshed<T, I>(w: ManagedWindow<T, I>, d: Seq<WindowInfo>) -> ManagedWindow<T, I> {
    let f = fresh_info(w, d);
    if metadata_differs(w.info, f) {
        ManagedWindow {
            info: f,
            cached_icon: if icon_outdated(w.info, f) {
                None
            } else {
                w.cached_icon
            },
            ..w
        }
    } else {
        w
    }
}

/// The managed windows that survive the discovery `d`, in their old order.
pub open spec fn retained<T, I>(ws: Seq<ManagedWindow<T, I>>, d: Seq<WindowInfo>) -> Seq<
    ManagedWindow<T, I>,
> {
    ws.filter(was_discovered(d))
}

/// The surviving windows with refreshed metadata.
pub open spec fn kept_windows<T, I>(ws: Seq<ManagedWindow<T, I>>, d: Seq<WindowInfo>) -> Seq<
    ManagedWindow<T, I>,
> {
    retained(ws, d).map_values(|w: ManagedWindow<T, I>| refreshed(w, d))
}

/// Discovered windows whose handle is not among the surviving windows.
pub open spec fn is_new_for(known: Seq<isize>) -> spec_fn(WindowInfo) -> bool {
    |i: WindowInfo| !known.contains(i.hwnd)
}

/// The discovered windows that are not yet managed, in discovery order.
pub open spec fn newly_discovered<T, I>(ws: Seq<ManagedWindow<T, I>>, d: Seq<WindowInfo>) -> Seq<
    WindowInfo,
> {
    d.filter(is_new_for(window_hwnds(retained(ws, d))))
}

/// Surviving windows followed by fresh windows for the new discoveries.
pub open spec fn merged<T, I>(ws: Seq<ManagedWindow<T, I>>, d: Seq<WindowInfo>) -> Seq<
    ManagedWindow<T, I>,
> {
    kept_windows(ws, d) + newly_discovered(ws, d).map_values(|i: WindowInfo| fresh_window::<T, I>(i))
}

/// Windows whose last discovery index is `k`.
pub open spec fn discovered_at<T, I>(d: Seq<WindowInfo>, k: int) -> spec_fn(ManagedWindow<T, I>) -> bool {
    |w: ManagedWindow<T, I>| discovery_index(d, w.info.hwnd) == k
}

/// `c` stably sorted by the last discovery index of each window, taking the
/// indices below `n` into account.
pub open spec fn in_discovery_order<T, I>(
    d: Seq<WindowInfo>,
    c: Seq<ManagedWindow<T, I>>,
    n: int,
) -> Seq<ManagedWindow<T, I>>
    decreases n,
{
    if n <= 0 {
        Seq::empty()
    } else {
        in_discovery_order(d, c, n - 1) + c.filter(discovered_at(d, n - 1))
    }
}

/// Windows not yet placed after the indices below `k` were handled.
pub open spec fn placed_later<T, I>(d: Seq<WindowInfo>, k: int) -> spec_fn(ManagedWindow<T, I>) -> bool {
    |w: ManagedWindow<T, I>| !(0 <= discovery_index(d, w.info.hwnd) < k)
}

/// Windows with the handle `h`.
pub open spec fn has_hwnd<T, I>(h: isize) -> spec_fn(ManagedWindow<T, I>) -> bool {
    |w: ManagedWindow<T, I>| w.info.hwnd == h
}

/// Windows with another handle than `h`.
pub open spec fn lacks_hwnd<T, I>(h: isize) -> spec_fn(ManagedWindow<T, I>) -> bool {
    |w: ManagedWindow<T, I>| w.info.hwnd != h
}

/// `s` with `v` appended unless it already occurs.
pub open spec fn push_unique_spec(s: Seq<Seq<char>>, v: Seq<char>) -> Seq<Seq<char>> {
    if s.contains(v) {
        s
    } else {
        s.push(v)
    }
}

/// The application ids whose icons must be dropped, collected over the
/// retained windows `r` in order: the old id of each window whose icon is
/// outdated, then its new id when that differs.
pub open spec fn invalidations<T, I>(r: Seq<ManagedWindow<T, I>>, d: Seq<WindowInfo>) -> Seq<
    Seq<char>,
>
    decreases r.len(),
{
    if r.len() == 0 {
        Seq::empty()
    } else {
        let prev = invalidations(r.drop_last(), d);
        let w = r.last();
        let f = fresh_info(w, d);
        if metadata_differs(w.info, f) && icon_outdated(w.info, f) {
            let s1 = push_unique_spec(prev, w.info.app_id@);
            if f.app_id@ != w.info.app_id@ {
                push_unique_spec(s1, f.app_id@)
            } else {
                s1
            }
        } else {
            prev
        }
    }
}

/// The characters of each string.
pub open spec fn string_views(v: Seq<String>) -> Seq<Seq<char>> {
    v.map_values(|s: String| s@)
}

// ---------------------------------------------------------------------------
// Facts about the model
// ---------------------------------------------------------------------------

proof fn lemma_last_index(s: Seq<isize>, h: isize)
    ensures
        -1 <= last_index_of(s, h) < s.len(),
        last_index_of(s, h) >= 0 ==> s[last_index_of(s, h)] == h,
        forall|j: int| last_index_of(s, h) < j < s.len() ==> s[j] != h,
        last_index_of(s, h) == -1 <==> !s.contains(h),
    decreases s.len(),
{
    if s.len() > 0 {
        lemma_last_index(s.drop_last(), h);
        if s.last() != h {
            if s.drop_last().contains(h) {
                let j = choose|j: int| 0 <= j < s.drop_last().len() && s.drop_last()[j] == h;
                assert(s[j] == h);
            }
            if s.contains(h) {
                let j = choose|j: int| 0 <= j < s.len() && s[j] == h;
                assert(s.drop_last()[j] == h);
            }
            assert forall|j: int| last_index_of(s, h) < j < s.len() implies s[j] != h by {
                if j < s.len() - 1 {
                    assert(s[j] == s.drop_last()[j]);
                }
            }
        } else {
            assert(s[s.len() - 1] == h);
        }
    }
}

proof fn lemma_take_push<A>(s: Seq<A>, i: int)
    requires
        0 <= i < s.len(),
    ensures
        s.take(i + 1) == s.take(i).push(s[i]),
{
    assert(s.take(i + 1) =~= s.take(i).push(s[i]));
}

proof fn lemma_filter_and<A>(s: Seq<A>, p: spec_fn(A) -> bool, q: spec_fn(A) -> bool)
    ensures
        s.filter(p).filter(q) == s.filter(|x: A| p(x) && q(x)),
    decreases s.len(),
{
    let pq = |x: A| p(x) && q(x);
    if s.len() == 0 {
        reveal(Seq::filter);
    } else {
        let t = s.drop_last();
        let x = s.last();
        assert(s == t.push(x));
        lemma_filter_and(t, p, q);
        t.lemma_filter_push(x, p);
        t.lemma_filter_push(x, pq);
        if p(x) {
            t.filter(p).lemma_filter_push(x, q);
        }
    }
}

proof fn lemma_filter_none<A>(s: Seq<A>, p: spec_fn(A) -> bool)
    requires
        forall|j: int| 0 <= j < s.len() ==> !p(s[j]),
    ensures
        s.filter(p) == Seq::<A>::empty(),
    decreases s.len(),
{
    reveal(Seq::filter);
    if s.len() > 0 {
        lemma_filter_none(s.drop_last(), p);
    }
}

proof fn lemma_filter_all<A>(s: Seq<A>, p: spec_fn(A) -> bool)
    requires
        forall|j: int| 0 <= j < s.len() ==> p(s[j]),
    ensures
        s.filter(p) == s,
    decreases s.len(),
{
    reveal(Seq::filter);
    if s.len() > 0 {
        lemma_filter_all(s.drop_last(), p);
        assert(s.drop_last().push(s.last()) =~= s);
    }
}

proof fn lemma_filter_single<A>(s: Seq<A>, p: spec_fn(A) -> bool, k: int)
    requires
        0 <= k < s.len(),
        forall|j: int| 0 <= j < s.len() ==> (p(s[j]) <==> j == k),
    ensures
        s.filter(p) == seq![s[k]],
    decreases s.len(),
{
    reveal(Seq::filter);
    let t = s.drop_last();
    if k == s.len() - 1 {
        lemma_filter_none(t, p);
        assert(Seq::<A>::empty().push(s[k]) =~= seq![s[k]]);
    } else {
        lemma_filter_single(t, p, k);
    }
}

proof fn lemma_map_push<A, B>(s: Seq<A>, x: A, f: spec_fn(A) -> B)
    ensures
        s.push(x).map_values(f) == s.map_values(f).push(f(x)),
{
    assert(s.push(x).map_values(f) =~= s.map_values(f).push(f(x)));
}


proof fn lemma_kept_hwnds<T, I>(ws: Seq<ManagedWindow<T, I>>, d: Seq<WindowInfo>)
    ensures
        window_hwnds(kept_windows(ws, d)) == window_hwnds(retained(ws, d)),
{
    let r = retained(ws, d);
    assert forall|j: int| 0 <= j < r.len() implies #[trigger] refreshed(r[j], d).info.hwnd
        == r[j].info.hwnd by {
        ws.lemma_filter_pred(was_discovered(d), j);
        lemma_last_index(hwnd_seq(d), r[j].info.hwnd);
    }
    assert(window_hwnds(kept_windows(ws, d)) =~= window_hwnds(retained(ws, d)));
}

proof fn lemma_order_step<T, I>(d: Seq<WindowInfo>, c: Seq<ManagedWindow<T, I>>, k: int)
    requires
        0 <= k < d.len(),
        discovery_index(d, d[k].hwnd) == k,
    ensures
        c.filter(placed_later(d, k)).filter(has_hwnd(d[k].hwnd)) == c.filter(discovered_at(d, k)),
        c.filter(placed_later(d, k)).filter(lacks_hwnd(d[k].hwnd)) == c.filter(
            placed_later(d, k + 1),
        ),
{
    let h = d[k].hwnd;
    lemma_filter_and(c, placed_later(d, k), has_hwnd(h));
    lemma_filter_and(c, placed_later(d, k), lacks_hwnd(h));
    assert forall|x: ManagedWindow<T, I>| #[trigger] discovered_at(d, k)(x) == (placed_later(
        d,
        k,
    )(x) && has_hwnd(h)(x)) by {
        lemma_last_index(hwnd_seq(d), x.info.hwnd);
    }
    assert forall|x: ManagedWindow<T, I>| #[trigger] placed_later(d, k + 1)(x) == (placed_later(
        d,
        k,
    )(x) && lacks_hwnd(h)(x)) by {
        lemma_last_index(hwnd_seq(d), x.info.hwnd);
    }
    let p1 = |x: ManagedWindow<T, I>| placed_later(d, k)(x) && has_hwnd(h)(x);
    let p2 = |x: ManagedWindow<T, I>| placed_later(d, k)(x) && lacks_hwnd(h)(x);
    assert(p1 =~= discovered_at(d, k));
    assert(p2 =~= placed_later(d, k + 1));
}

proof fn lemma_order_skip<T, I>(d: Seq<WindowInfo>, c: Seq<ManagedWindow<T, I>>, k: int)
    requires
        0 <= k < d.len(),
        discovery_index(d, d[k].hwnd) != k,
    ensures
        c.filter(discovered_at(d, k)) == Seq::<ManagedWindow<T, I>>::empty(),
        c.filter(placed_later(d, k)) == c.filter(placed_later(d, k + 1)),
{
    assert forall|x: ManagedWindow<T, I>| !#[trigger] discovered_at(d, k)(x) by {
        lemma_last_index(hwnd_seq(d), x.info.hwnd);
        if discovery_index(d, x.info.hwnd) == k {
            assert(hwnd_seq(d)[k] == x.info.hwnd);
        }
    }
    lemma_filter_none(c, discovered_at(d, k));
    assert forall|x: ManagedWindow<T, I>| #[trigger] placed_later(d, k)(x) == placed_later(
        d,
        k + 1,
    )(x) by {
        assert(!discovered_at(d, k)(x));
    }
    assert(placed_later::<T, I>(d, k) =~= placed_later(d, k + 1));
}


/// Two window descriptions with the same handle and the same metadata.
pub open spec fn same_window_info(a: WindowInfo, b: WindowInfo) -> bool {
    a.hwnd == b.hwnd && !metadata_differs(a, b)
}

proof fn lemma_distinct_index(s: Seq<isize>, k: int)
    requires
        s.no_duplicates(),
        0 <= k < s.len(),
    ensures
        last_index_of(s, s[k]) == k,
{
    lemma_last_index(s, s[k]);
    assert(s.contains(s[k]));
}

proof fn lemma_no_invalidations<T, I>(r: Seq<ManagedWindow<T, I>>, d: Seq<WindowInfo>)
    requires
        forall|j: int| 0 <= j < r.len() ==> !metadata_differs(r[j].info, fresh_info(r[j], d)),
    ensures
        invalidations(r, d) == Seq::<Seq<char>>::empty(),
    decreases r.len(),
{
    if r.len() > 0 {
        lemma_no_invalidations(r.drop_last(), d);
        assert(!metadata_differs(r[r.len() - 1].info, fresh_info(r[r.len() - 1], d)));
    }
}

/// When every window of `c` is discovered at its own position of `d`, in
/// order, putting `c` in discovery order keeps it as it is.
proof fn lemma_order_identity<T, I>(d: Seq<WindowInfo>, c: Seq<ManagedWindow<T, I>>, n: int)
    requires
        hwnd_seq(d).no_duplicates(),
        c.len() == d.len(),
        0 <= n <= c.len(),
        forall|j: int| 0 <= j < c.len() ==> #[trigger] c[j].info.hwnd == d[j].hwnd,
    ensures
        in_discovery_order(d, c, n) == c.take(n),
    decreases n,
{
    if n == 0 {
        assert(c.take(0) =~= Seq::<ManagedWindow<T, I>>::empty());
    } else {
        lemma_order_identity(d, c, n - 1);
        assert forall|j: int| 0 <= j < c.len() implies (discovered_at(d, n - 1)(c[j]) <==> j == n
            - 1) by {
            lemma_distinct_index(hwnd_seq(d), j);
            lemma_distinct_index(hwnd_seq(d), n - 1);
        }
        lemma_filter_single(c, discovered_at(d, n - 1), n - 1);
        assert(c.take(n) =~= c.take(n - 1) + seq![c[n - 1]]);
    }
}

/// Reconciling with a discovery that lists exactly the managed windows, in
/// their order, with no handle twice and with unchanged metadata, drops,
/// adds and refreshes nothing, reports no icon and leaves the windows as
/// they were; the outcome then says that nothing changed.
pub proof fn lemma_equivalent_discovery_changes_nothing<T, I>(
    ws: Seq<ManagedWindow<T, I>>,
    d: Seq<WindowInfo>,
)
    requires
        hwnd_seq(d).no_duplicates(),
        ws.len() == d.len(),
        forall|k: int| 0 <= k < d.len() ==> same_window_info(#[trigger] ws[k].info, d[k]),
    ensures
        retained(ws, d) == ws,
        newly_discovered(ws, d).len() == 0,
        retained(ws, d).filter(needs_refresh(d)).len() == 0,
        invalidations(retained(ws, d), d) == Seq::<Seq<char>>::empty(),
        merged(ws, d) == ws,
        in_discovery_order(d, merged(ws, d), d.len() as int) == ws,
{
    assert forall|j: int| 0 <= j < ws.len() implies discovery_index(d, ws[j].info.hwnd) == j by {
        assert(same_window_info(ws[j].info, d[j]));
        lemma_distinct_index(hwnd_seq(d), j);
    }
    assert forall|j: int| 0 <= j < ws.len() implies #[trigger] was_discovered(d)(ws[j]) by {
        assert(discovery_index(d, ws[j].info.hwnd) == j);
    }
    lemma_filter_all(ws, was_discovered(d));
    assert forall|j: int| 0 <= j < ws.len() implies !#[trigger] needs_refresh(d)(ws[j]) by {
        assert(discovery_index(d, ws[j].info.hwnd) == j);
        assert(same_window_info(ws[j].info, d[j]));
    }
    lemma_filter_none(ws, needs_refresh(d));
    assert forall|j: int| 0 <= j < ws.len() implies !metadata_differs(
        ws[j].info,
        fresh_info(ws[j], d),
    ) by {
        assert(!needs_refresh(d)(ws[j]));
    }
    lemma_no_invalidations(ws, d);
    assert forall|j: int| 0 <= j < ws.len() implies #[trigger] refreshed(ws[j], d) == ws[j] by {
        assert(!needs_refresh(d)(ws[j]));
    }
    assert(kept_windows(ws, d) =~= ws);
    let known = window_hwnds(retained(ws, d));
    assert forall|j: int| 0 <= j < d.len() implies !#[trigger] is_new_for(known)(d[j]) by {
        assert(same_window_info(ws[j].info, d[j]));
        assert(known[j] == d[j].hwnd);
    }
    lemma_filter_none(d, is_new_for(known));
    assert(merged(ws, d) =~= ws);
    assert forall|j: int| 0 <= j < ws.len() implies #[trigger] ws[j].info.hwnd == d[j].hwnd by {
        assert(same_window_info(ws[j].info, d[j]));
    }
    lemma_order_identity(d, ws, d.len() as int);
    assert(ws.take(d.len() as int) =~= ws);
}


proof fn lemma_filter_keeps_distinct<A>(s: Seq<A>, key: spec_fn(A) -> isize, p: spec_fn(A) -> bool)
    requires
        s.map_values(key).no_duplicates(),
    ensures
        s.filter(p).map_values(key).no_duplicates(),
    decreases s.len(),
{
    reveal(Seq::filter);
    if s.len() > 0 {
        let t = s.drop_last();
        let x = s.last();
        assert(t.map_values(key) =~= s.map_values(key).drop_last());
        lemma_filter_keeps_distinct(t, key, p);
        if p(x) {
            let f = t.filter(p);
            lemma_map_push(f, x, key);
            assert forall|i: int| 0 <= i < f.len() implies #[trigger] key(f[i]) != key(x) by {
                assert(f.contains(f[i]));
                t.lemma_filter_contains_rev(p, f[i]);
                let y = choose|y: int| 0 <= y < t.len() && t[y] == f[i];
                assert(s.map_values(key)[y] == key(f[i]));
                assert(s.map_values(key)[s.len() - 1] == key(x));
            }
            let m = f.push(x).map_values(key);
            assert forall|a: int, b: int| 0 <= a < m.len() && 0 <= b < m.len() && a != b implies m[a]
                != m[b] by {
                if a < f.len() && b < f.len() {
                    assert(m[a] == f.map_values(key)[a]);
                    assert(m[b] == f.map_values(key)[b]);
                } else if a < f.len() {
                    assert(m[a] == key(f[a]));
                } else if b < f.len() {
                    assert(m[b] == key(f[b]));
                }
            }
        }
    }
}

proof fn lemma_unique_key<A>(s: Seq<A>, key: spec_fn(A) -> isize, p: spec_fn(A) -> bool, j: int)
    requires
        s.map_values(key).no_duplicates(),
        0 <= j < s.len(),
        forall|x: A| #[trigger] p(x) == (key(x) == key(s[j])),
    ensures
        s.filter(p) == seq![s[j]],
{
    assert forall|i: int| 0 <= i < s.len() implies (p(s[i]) <==> i == j) by {
        assert(s.map_values(key)[i] == key(s[i]));
        assert(s.map_values(key)[j] == key(s[j]));
    }
    lemma_filter_single(s, p, j);
}

proof fn lemma_order_singletons<T, I>(
    d: Seq<WindowInfo>,
    c: Seq<ManagedWindow<T, I>>,
    n: int,
    f: spec_fn(int) -> ManagedWindow<T, I>,
)
    requires
        0 <= n,
        forall|k: int| 0 <= k < n ==> #[trigger] c.filter(discovered_at(d, k)) == seq![f(k)],
    ensures
        in_discovery_order(d, c, n) == Seq::new(n as nat, f),
    decreases n,
{
    if n > 0 {
        lemma_order_singletons(d, c, n - 1, f);
        assert(c.filter(discovered_at(d, n - 1)) == seq![f(n - 1)]);
        assert(in_discovery_order(d, c, n) =~= Seq::new(n as nat, f));
    } else {
        assert(in_discovery_order(d, c, n) =~= Seq::new(n as nat, f));
    }
}

/// The window that reconciliation leaves at position `k` of the discovery:
/// the managed window with that handle, refreshed, or a fresh window.
pub open spec fn reconciled_at<T, I>(ws: Seq<ManagedWindow<T, I>>, d: Seq<WindowInfo>, k: int) -> ManagedWindow<T, I> {
    let h = d[k].hwnd;
    let hs = window_hwnds(ws);
    if hs.contains(h) {
        refreshed(ws[last_index_of(hs, h)], d)
    } else {
        fresh_window::<T, I>(d[k])
    }
}

proof fn lemma_merged_at<T, I>(ws: Seq<ManagedWindow<T, I>>, d: Seq<WindowInfo>, k: int)
    requires
        hwnd_seq(d).no_duplicates(),
        window_hwnds(ws).no_duplicates(),
        0 <= k < d.len(),
    ensures
        merged(ws, d).filter(discovered_at(d, k)) == seq![reconciled_at(ws, d, k)],
        same_window_info(reconciled_at(ws, d, k).info, d[k]),
{
    let h = d[k].hwnd;
    let hs = window_hwnds(ws);
    let r = retained(ws, d);
    let kw = kept_windows(ws, d);
    let known = window_hwnds(r);
    let nd = newly_discovered(ws, d);
    let mk = |i: WindowInfo| fresh_window::<T, I>(i);
    let nm = nd.map_values(mk);
    let wkey = |w: ManagedWindow<T, I>| w.info.hwnd;
    let dkey = |w: WindowInfo| w.hwnd;
    lemma_distinct_index(hwnd_seq(d), k);
    assert forall|x: ManagedWindow<T, I>| #[trigger] discovered_at(d, k)(x) == has_hwnd::<T, I>(h)(
        x,
    ) by {
        lemma_last_index(hwnd_seq(d), x.info.hwnd);
    }
    assert(discovered_at::<T, I>(d, k) =~= has_hwnd(h));
    Seq::filter_distributes_over_add(kw, nm, has_hwnd(h));
    assert(merged(ws, d) == kw + nm);
    assert(hs =~= ws.map_values(wkey));
    lemma_filter_keeps_distinct(ws, wkey, was_discovered(d));
    assert(known =~= r.map_values(wkey));
    lemma_kept_hwnds(ws, d);
    assert(window_hwnds(kw) =~= kw.map_values(wkey));
    assert(hwnd_seq(d) =~= d.map_values(dkey));
    lemma_filter_keeps_distinct(d, dkey, is_new_for(known));
    assert forall|i: int| 0 <= i < nm.len() implies #[trigger] nm[i].info.hwnd == nd[i].hwnd
        && !known.contains(nd[i].hwnd) by {
        d.lemma_filter_pred(is_new_for(known), i);
    }
    assert(nm.map_values(wkey) =~= nd.map_values(dkey));
    if hs.contains(h) {
        let j = last_index_of(hs, h);
        lemma_last_index(hs, h);
        assert(was_discovered(d)(ws[j]));
        ws.lemma_filter_contains(was_discovered(d), j);
        let m = choose|m: int| 0 <= m < r.len() && r[m] == ws[j];
        assert(known[m] == h);
        assert(kw[m] == refreshed(r[m], d));
        assert(kw.map_values(wkey)[m] == h);
        lemma_unique_key(kw, wkey, has_hwnd(h), m);
        assert forall|i: int| 0 <= i < nm.len() implies !has_hwnd::<T, I>(h)(nm[i]) by {
            assert(!known.contains(nd[i].hwnd));
        }
        lemma_filter_none(nm, has_hwnd(h));
        assert(seq![kw[m]] + Seq::<ManagedWindow<T, I>>::empty() =~= seq![kw[m]]);
        lemma_last_index(hwnd_seq(d), h);
    } else {
        assert forall|m: int| 0 <= m < r.len() implies #[trigger] known[m] != h by {
            assert(r.contains(r[m]));
            ws.lemma_filter_contains_rev(was_discovered(d), r[m]);
            let x = choose|x: int| 0 <= x < ws.len() && ws[x] == r[m];
            assert(hs[x] == r[m].info.hwnd);
        }
        assert forall|m: int| 0 <= m < kw.len() implies !has_hwnd::<T, I>(h)(kw[m]) by {
            assert(window_hwnds(kw)[m] == known[m]);
        }
        lemma_filter_none(kw, has_hwnd(h));
        assert(!known.contains(h));
        assert(is_new_for(known)(d[k]));
        d.lemma_filter_contains(is_new_for(known), k);
        let q = choose|q: int| 0 <= q < nd.len() && nd[q] == d[k];
        assert(nm.map_values(wkey)[q] == h);
        lemma_unique_key(nm, wkey, has_hwnd(h), q);
        assert(Seq::<ManagedWindow<T, I>>::empty() + seq![nm[q]] =~= seq![nm[q]]);
    }
}

/// With no handle twice among the discovered windows nor among the managed
/// windows, reconciliation leaves exactly one window per discovery, in
/// discovery order: the managed window with that handle, refreshed (keeping
/// its thumbnail and geometry), or else a fresh window; each carries the
/// handle and metadata of its discovery.
pub proof fn lemma_reconciled_windows_follow_discovery<T, I>(
    ws: Seq<ManagedWindow<T, I>>,
    d: Seq<WindowInfo>,
)
    requires
        hwnd_seq(d).no_duplicates(),
        window_hwnds(ws).no_duplicates(),
    ensures
        in_discovery_order(d, merged(ws, d), d.len() as int) == Seq::new(
            d.len(),
            |k: int| reconciled_at(ws, d, k),
        ),
        forall|k: int|
            0 <= k < d.len() ==> same_window_info(#[trigger] reconciled_at(ws, d, k).info, d[k]),
{
    assert forall|k: int| 0 <= k < d.len() implies #[trigger] merged(ws, d).filter(
        discovered_at(d, k),
    ) == seq![reconciled_at(ws, d, k)] by {
        lemma_merged_at(ws, d, k);
    }
    lemma_order_singletons(d, merged(ws, d), d.len() as int, |k: int| reconciled_at(ws, d, k));
    assert forall|k: int| 0 <= k < d.len() implies same_window_info(
        #[trigger] reconciled_at(ws, d, k).info,
        d[k],
    ) by {
        lemma_merged_at(ws, d, k);
    }
}


/// Reconciling a second time with the same discovery (no handle twice among
/// the discovered windows nor among the managed ones) drops, adds and
/// refreshes nothing, reports no icon and keeps the windows as the first
/// reconciliation left them.
pub proof fn lemma_second_reconciliation_changes_nothing<T, I>(
    ws: Seq<ManagedWindow<T, I>>,
    d: Seq<WindowInfo>,
)
    requires
        hwnd_seq(d).no_duplicates(),
        window_hwnds(ws).no_duplicates(),
    ensures
        ({
            let once = in_discovery_order(d, merged(ws, d), d.len() as int);
            &&& retained(once, d) == once
            &&& newly_discovered(once, d).len() == 0
            &&& retained(once, d).filter(needs_refresh(d)).len() == 0
            &&& invalidations(retained(once, d), d) == Seq::<Seq<char>>::empty()
            &&& in_discovery_order(d, merged(once, d), d.len() as int) == once
        }),
{
    lemma_reconciled_windows_follow_discovery(ws, d);
    let once = in_discovery_order(d, merged(ws, d), d.len() as int);
    assert forall|k: int| 0 <= k < d.len() implies same_window_info(#[trigger] once[k].info, d[k]) by {
        assert(once[k] == reconciled_at(ws, d, k));
    }
    lemma_equivalent_discovery_changes_nothing(once, d);
}

// ---------------------------------------------------------------------------
// Helpers
// ---------------------------------------------------------------------------

/// The handles of discovered windows.
fn hwnds_of(d: &Vec<WindowInfo>) -> (r: Vec<isize>)
    ensures
        r@ == hwnd_seq(d@),
{
    let mut r: Vec<isize> = Vec::new();
    let mut i: usize = 0;
    while i < d.len()
        invariant
            i <= d.len(),
            r@ == hwnd_seq(d@.take(i as int)),
        decreases d.len() - i,
    {
        proof {
            lemma_take_push(d@, i as int);
            lemma_map_push(d@.take(i as int), d@[i as int], |w: WindowInfo| w.hwnd);
        }
        r.push(d[i].hwnd);
        i = i + 1;
    }
    assert(d@.take(d.len() as int) =~= d@);
    r
}

/// The handles of managed windows.
fn window_hwnd_list<T, I>(ws: &Vec<ManagedWindow<T, I>>) -> (r: Vec<isize>)
    ensures
        r@ == window_hwnds(ws@),
{
    let mut r: Vec<isize> = Vec::new();
    let mut i: usize = 0;
    while i < ws.len()
        invariant
            i <= ws.len(),
            r@ == window_hwnds(ws@.take(i as int)),
        decreases ws.len() - i,
    {
        proof {
            lemma_take_push(ws@, i as int);
            lemma_map_push(ws@.take(i as int), ws@[i as int], |w: ManagedWindow<T, I>| w.info.hwnd);
        }
        r.push(ws[i].info.hwnd);
        i = i + 1;
    }
    assert(ws@.take(ws.len() as int) =~= ws@);
    r
}

/// The last position of `h` in `hs`.
fn find_last(hs: &Vec<isize>, h: isize) -> (r: Option<usize>)
    ensures
        match r {
            Some(i) => i < hs.len() && i == last_index_of(hs@, h),
            None => last_index_of(hs@, h) == -1,
        },
{
    let mut i: usize = hs.len();
    assert(hs@.take(i as int) =~= hs@);
    while i > 0
        invariant
            i <= hs.len(),
            last_index_of(hs@, h) == last_index_of(hs@.take(i as int), h),
        decreases i,
    {
        let ghost t = hs@.take(i as int);
        assert(t.drop_last() =~= hs@.take(i - 1));
        if hs[i - 1] == h {
            return Some(i - 1);
        }
        i = i - 1;
    }
    assert(hs@.take(0) =~= Seq::<isize>::empty());
    None
}

/// Whether `h` occurs in `hs`.
fn contains_hwnd(hs: &Vec<isize>, h: isize) -> (r: bool)
    ensures
        r == hs@.contains(h),
{
    let mut i: usize = 0;
    while i < hs.len()
        invariant
            i <= hs.len(),
            forall|j: int| 0 <= j < i ==> hs@[j] != h,
        decreases hs.len() - i,
    {
        if hs[i] == h {
            assert(hs@[i as int] == h);
            return true;
        }
        i = i + 1;
    }
    false
}

/// Whether two handle sequences are equal.
fn same_hwnds(a: &Vec<isize>, b: &Vec<isize>) -> (r: bool)
    ensures
        r == (a@ == b@),
{
    if a.len() != b.len() {
        return false;
    }
    let mut i: usize = 0;
    while i < a.len()
        invariant
            a.len() == b.len(),
            i <= a.len(),
            forall|j: int| 0 <= j < i ==> a@[j] == b@[j],
        decreases a.len() - i,
    {
        if a[i] != b[i] {
            return false;
        }
        i = i + 1;
    }
    assert(a@ =~= b@);
    true
}

/// Appends `value` unless an equal string is already present.
fn push_unique(values: &mut Vec<String>, value: String)
    ensures
        string_views(final(values)@) == push_unique_spec(string_views(old(values)@), value@),
{
    let ghost sv = string_views(values@);
    let mut i: usize = 0;
    while i < values.len()
        invariant
            i <= values.len(),
            sv == string_views(values@),
            forall|j: int| 0 <= j < i ==> sv[j] != value@,
        decreases values.len() - i,
    {
        if str_eq(values[i].as_str(), value.as_str()) {
            assert(sv[i as int] == value@);
            return;
        }
        i = i + 1;
    }
    proof {
        lemma_map_push(values@, value, |s: String| s@);
    }
    values.push(value);
}

/// Whether any descriptive field of a window differs from its fresh discovery.
fn window_metadata_changed(current: &WindowInfo, fresh: &WindowInfo) -> (r: bool)
    ensures
        r == metadata_differs(*current, *fresh),
{
    !str_eq(fresh.app_id.as_str(), current.app_id.as_str())
        || !str_eq(fresh.class_name.as_str(), current.class_name.as_str())
        || !str_eq(fresh.monitor_name.as_str(), current.monitor_name.as_str())
        || !str_eq(fresh.process_name.as_str(), current.process_name.as_str())
        || !opt_text_eq(&fresh.process_path, &current.process_path)
        || !str_eq(fresh.title.as_str(), current.title.as_str())
}

/// Whether the cached icon must be dropped: the application or executable changed.
fn should_reset_cached_icon(current: &WindowInfo, fresh: &WindowInfo) -> (r: bool)
    ensures
        r == icon_outdated(*current, *fresh),
{
    !str_eq(fresh.app_id.as_str(), current.app_id.as_str()) || !opt_text_eq(
        &fresh.process_path,
        &current.process_path,
    )
}

/// Moves the windows with handle `h` from `rest` to the end of `out`,
/// keeping their order.
fn move_with_hwnd<T, I>(
    rest: &mut Vec<ManagedWindow<T, I>>,
    out: &mut Vec<ManagedWindow<T, I>>,
    h: isize,
)
    ensures
        final(out)@ == old(out)@ + old(rest)@.filter(has_hwnd(h)),
        final(rest)@ == old(rest)@.filter(lacks_hwnd(h)),
{
    let ghost r0 = rest@;
    let ghost o0 = out@;
    let ghost mut i: int = 0;
    let mut j: usize = 0;
    proof {
        assert(r0.take(0) =~= Seq::<ManagedWindow<T, I>>::empty());
        reveal(Seq::filter);
        assert(r0.skip(0) =~= r0);
        assert(rest@ =~= r0.take(0).filter(lacks_hwnd(h)) + r0.skip(0));
        assert(out@ =~= o0 + r0.take(0).filter(has_hwnd(h)));
    }
    while j < rest.len()
        invariant
            0 <= i <= r0.len(),
            rest@ == r0.take(i).filter(lacks_hwnd(h)) + r0.skip(i),
            j == r0.take(i).filter(lacks_hwnd(h)).len(),
            out@ == o0 + r0.take(i).filter(has_hwnd(h)),
        decreases rest.len() - j,
    {
        let ghost kept = r0.take(i).filter(lacks_hwnd(h));
        proof {
            assert(i < r0.len());
            assert(rest@[j as int] == r0[i]);
            lemma_take_push(r0, i);
            r0.take(i).lemma_filter_push(r0[i], lacks_hwnd(h));
            r0.take(i).lemma_filter_push(r0[i], has_hwnd(h));
        }
        if rest[j].info.hwnd == h {
            let w = rest.remove(j);
            out.push(w);
            proof {
                assert(rest@ =~= kept + r0.skip(i + 1));
                assert(out@ =~= o0 + r0.take(i + 1).filter(has_hwnd(h)));
            }
        } else {
            proof {
                assert(rest@ =~= kept.push(r0[i]) + r0.skip(i + 1));
            }
            j = j + 1;
        }
        proof {
            i = i + 1;
        }
    }
    proof {
        assert(r0.take(i).filter(lacks_hwnd(h)).len() + r0.skip(i).len() == rest@.len());
        assert(i == r0.len());
        assert(r0.take(i) =~= r0);
        assert(rest@ =~= r0.filter(lacks_hwnd(h)));
    }
}

/// The retained windows of `pending`, refreshed, with the number of refreshed
/// windows and the application ids whose icons must be dropped.
fn refresh_retained<T, I>(pending: Vec<ManagedWindow<T, I>>, discovered: &Vec<WindowInfo>, dh: &Vec<isize>) -> (r: (
    Vec<ManagedWindow<T, I>>,
    usize,
    Vec<String>,
))
    requires
        dh@ == hwnd_seq(discovered@),
    ensures
        r.0@ == kept_windows(pending@, discovered@),
        r.1 == retained(pending@, discovered@).filter(needs_refresh(discovered@)).len(),
        string_views(r.2@) == invalidations(retained(pending@, discovered@), discovered@),
{
    let ghost w0 = pending@;
    let ghost d = discovered@;
    let mut pending = pending;
    let mut kept: Vec<ManagedWindow<T, I>> = Vec::new();
    let mut invalidated: Vec<String> = Vec::new();
    let mut updated: usize = 0;
    let ghost mut i: int = 0;
    proof {
        reveal(Seq::filter);
        assert(w0.take(0) =~= Seq::<ManagedWindow<T, I>>::empty());
        assert(w0.skip(0) =~= w0);
        assert(kept@ =~= w0.take(0).filter(was_discovered(d)).map_values(
            |w: ManagedWindow<T, I>| refreshed(w, d),
        ));
        assert(string_views(invalidated@) =~= Seq::<Seq<char>>::empty());
        assert(w0.len() == pending.len());
    }
    while pending.len() > 0
        invariant
            0 <= i <= w0.len(),
            w0.len() <= usize::MAX,
            updated <= i,
            pending@ == w0.skip(i),
            dh@ == hwnd_seq(d),
            discovered@ == d,
            kept@ == w0.take(i).filter(was_discovered(d)).map_values(
                |w: ManagedWindow<T, I>| refreshed(w, d),
            ),
            updated == w0.take(i).filter(was_discovered(d)).filter(needs_refresh(d)).len(),
            string_views(invalidated@) == invalidations(w0.take(i).filter(was_discovered(d)), d),
        decreases pending.len(),
    {
        let ghost r = w0.take(i).filter(was_discovered(d));
        let mut w = pending.remove(0);
        proof {
            assert(w == w0[i]);
            assert(pending@ =~= w0.skip(i + 1));
            lemma_take_push(w0, i);
            w0.take(i).lemma_filter_push(w, was_discovered(d));
            r.lemma_filter_push(w, needs_refresh(d));
            lemma_map_push(r, w, |w: ManagedWindow<T, I>| refreshed(w, d));
            lemma_last_index(hwnd_seq(d), w.info.hwnd);
            r.filter(needs_refresh(d)).lemma_filter_len(needs_refresh(d));
            r.lemma_filter_len(needs_refresh(d));
            w0.take(i).lemma_filter_len(was_discovered(d));
        }
        match find_last(dh, w.info.hwnd) {
            Some(li) => {
                let fresh = &discovered[li];
                let ghost old_w = w;
                proof {
                    assert(r.push(w).drop_last() =~= r);
                    assert(fresh_info(w, d) == *fresh);
                }
                if window_metadata_changed(&w.info, fresh) {
                    if should_reset_cached_icon(&w.info, fresh) {
                        let previous = w.info.app_id.clone();
                        let same = str_eq(fresh.app_id.as_str(), previous.as_str());
                        push_unique(&mut invalidated, previous);
                        if !same {
                            push_unique(&mut invalidated, fresh.app_id.clone());
                        }
                        w.cached_icon = None;
                    }
                    w.info = clone_info(fresh);
                    updated = updated + 1;
                }
                proof {
                    assert(w == refreshed(old_w, d));
                }
                kept.push(w);
            },
            None => {},
        }
        proof {
            i = i + 1;
        }
    }
    proof {
        assert(w0.take(i) =~= w0);
    }
    (kept, updated, invalidated)
}

/// Reconciles the managed windows with a fresh discovery.
///
/// Windows that were not discovered again are dropped; a window whose
/// metadata changed takes over its last discovery (losing its cached icon
/// when its application or executable changed, in which case both application
/// ids are reported once each); discovered windows not yet managed are added
/// as fresh windows; the result is stably ordered by last discovery index.
pub fn reconcile_managed_windows<T, I>(
    windows: &mut Vec<ManagedWindow<T, I>>,
    discovered: Vec<WindowInfo>,
) -> (outcome: ReconcileOutcome)
    ensures
        final(windows)@ == in_discovery_order(
            discovered@,
            merged(old(windows)@, discovered@),
            discovered@.len() as int,
        ),
        outcome.removed == old(windows)@.len() - retained(old(windows)@, discovered@).len(),
        outcome.added == newly_discovered(old(windows)@, discovered@).len(),
        outcome.metadata_updated == retained(old(windows)@, discovered@).filter(
            needs_refresh(discovered@),
        ).len(),
        string_views(outcome.icon_invalidations@) == invalidations(
            retained(old(windows)@, discovered@),
            discovered@,
        ),
        outcome.changed == (outcome.removed > 0 || outcome.added > 0 || outcome.metadata_updated > 0
            || window_hwnds(merged(old(windows)@, discovered@)) != window_hwnds(final(windows)@)),
{
    let ghost w0 = windows@;
    let ghost d = discovered@;
    let dh = hwnds_of(&discovered);
    let previous_len = windows.len();
    let mut pending: Vec<ManagedWindow<T, I>> = Vec::new();
    std::mem::swap(windows, &mut pending);
    let (kept, metadata_updated, icon_invalidations) = refresh_retained(pending, &discovered, &dh);
    proof {
        w0.lemma_filter_len(was_discovered(d));
        lemma_kept_hwnds(w0, d);
    }
    let removed = previous_len - kept.len();
    let existing = window_hwnd_list(&kept);
    let mut combined = kept;
    let mut added: usize = 0;
    let n = discovered.len();
    let ghost newp = is_new_for(window_hwnds(retained(w0, d)));
    let ghost mk = |i: WindowInfo| fresh_window::<T, I>(i);
    proof {
        reveal(Seq::filter);
        assert(d.take(0) =~= Seq::<WindowInfo>::empty());
        assert(combined@ =~= kept_windows(w0, d) + d.take(0).filter(newp).map_values(mk));
    }
    let mut k: usize = 0;
    while k < n
        invariant
            n == d.len(),
            discovered@ == d,
            dh@ == hwnd_seq(d),
            k <= n,
            existing@ == window_hwnds(retained(w0, d)),
            newp == is_new_for(window_hwnds(retained(w0, d))),
            mk == (|i: WindowInfo| fresh_window::<T, I>(i)),
            combined@ == kept_windows(w0, d) + d.take(k as int).filter(newp).map_values(mk),
            added == d.take(k as int).filter(newp).len(),
        decreases n - k,
    {
        proof {
            lemma_take_push(d, k as int);
            d.take(k as int).lemma_filter_push(d[k as int], newp);
            lemma_map_push(d.take(k as int).filter(newp), d[k as int], mk);
            d.take(k as int).lemma_filter_len(newp);
        }
        if !contains_hwnd(&existing, discovered[k].hwnd) {
            combined.push(new_managed_window(clone_info(&discovered[k])));
            added = added + 1;
        }
        k = k + 1;
    }
    proof {
        assert(d.take(n as int) =~= d);
    }
    let before = window_hwnd_list(&combined);
    let ghost c = combined@;
    let mut rest = combined;
    let mut ordered: Vec<ManagedWindow<T, I>> = Vec::new();
    proof {
        assert(placed_later::<T, I>(d, 0) =~= |w: ManagedWindow<T, I>| true);
        lemma_filter_all(c, placed_later(d, 0));
        assert(ordered@ =~= in_discovery_order(d, c, 0));
    }
    let mut k: usize = 0;
    while k < n
        invariant
            n == d.len(),
            dh@ == hwnd_seq(d),
            k <= n,
            ordered@ == in_discovery_order(d, c, k as int),
            rest@ == c.filter(placed_later(d, k as int)),
        decreases n - k,
    {
        let h = dh[k];
        match find_last(&dh, h) {
            Some(li) if li == k => {
                proof {
                    lemma_order_step(d, c, k as int);
                }
                move_with_hwnd(&mut rest, &mut ordered, h);
            },
            _ => {
                proof {
                    lemma_order_skip(d, c, k as int);
                    assert(in_discovery_order(d, c, k + 1) =~= in_discovery_order(d, c, k as int));
                }
            },
        }
        k = k + 1;
    }
    let after = window_hwnd_list(&ordered);
    let same = same_hwnds(&before, &after);
    *windows = ordered;
    ReconcileOutcome {
        changed: removed > 0 || added > 0 || metadata_updated > 0 || !same,
        removed,
        added,
        metadata_updated,
        icon_invalidations,
    }
}

} // verus!
