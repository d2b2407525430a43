//! Applying computed layout rectangles to the managed windows.
use crate::managed::{ManagedWindow, Rect};
use vstd::prelude::*;

verus! {

/// A rectangle with a positive width and height.
pub open spec fn has_area(r: Rect) -> bool {
    r.right > r.left && r.bottom > r.top
}

/// Whether a rectangle has a positive width and height.
pub fn rect_has_area(rect: Rect) -> (r: bool)
    ensures
        r == has_area(rect),
{
    rect.right > rect.left && rect.bottom > rect.top
}

/// Where the animation of a window towards `target` starts: its displayed
/// rectangle, or the target itself when nothing is displayed yet.
pub open spec fn animation_start<T, I>(w: ManagedWindow<T, I>, target: Rect) -> Rect {
    if has_area(w.display_rect) {
        w.display_rect
    } else {
        target
    }
}

/// Window `i` moves to a new rectangle in an animation.
pub open spec fn moves<T, I>(
    ws: Seq<ManagedWindow<T, I>>,
    rects: Seq<Rect>,
    can_animate: bool,
    i: int,
) -> bool {
    0 <= i < ws.len() && i < rects.len() && can_animate && animation_start(ws[i], rects[i])
        != rects[i]
}

/// Some window needs an animated transition.
pub open spec fn animation_needed<T, I>(
    ws: Seq<ManagedWindow<T, I>>,
    rects: Seq<Rect>,
    can_animate: bool,
) -> bool {
    exists|i: int| #[trigger] moves(ws, rects, can_animate, i)
}

/// Window `i` after the layout is applied.
pub open spec fn laid_out<T, I>(
    ws: Seq<ManagedWindow<T, I>>,
    rects: Seq<Rect>,
    can_animate: bool,
    i: int,
) -> ManagedWindow<T, I> {
    let w = ws[i];
    if i < rects.len() {
        ManagedWindow {
            animation_from_rect: animation_start(w, rects[i]),
            target_rect: rects[i],
            display_rect: if animation_needed(ws, rects, can_animate) && moves(
                ws,
                rects,
                can_animate,
                i,
            ) {
                w.display_rect
            } else {
                rects[i]
            },
            ..w
        }
    } else if animation_needed(ws, rects, can_animate) {
        w
    } else {
        ManagedWindow { display_rect: w.target_rect, ..w }
    }
}

/// Gives each window its computed rectangle as target (windows beyond the
/// computed rectangles keep theirs) and records where an animation towards
/// it starts. Returns whether an animated transition is needed; when it is
/// not, every window is shown at its target at once.
pub fn apply_layout_rects<T, I>(windows: &mut Vec<ManagedWindow<T, I>>, rects: &Vec<Rect>, can_animate: bool) -> (r: bool)
    ensures
        r == animation_needed(old(windows)@, rects@, can_animate),
        final(windows)@.len() == old(windows)@.len(),
        forall|i: int|
            0 <= i < old(windows)@.len() ==> #[trigger] final(windows)@[i] == laid_out(
                old(windows)@,
                rects@,
                can_animate,
                i,
            ),
{
    let ghost ws = windows@;
    let n = windows.len();
    let mut needed = false;
    let mut i: usize = 0;
    while i < n
        invariant
            n == windows@.len(),
            n == ws.len(),
            i <= n,
            needed == exists|j: int| 0 <= j < i && #[trigger] moves(ws, rects@, can_animate, j),
            forall|j: int|
                0 <= j < i && j < rects@.len() ==> #[trigger] windows@[j] == (ManagedWindow {
                    animation_from_rect: animation_start(ws[j], rects@[j]),
                    target_rect: rects@[j],
                    display_rect: if moves(ws, rects@, can_animate, j) {
                        ws[j].display_rect
                    } else {
                        rects@[j]
                    },
                    ..ws[j]
                }),
            forall|j: int| (i <= j < n || (0 <= j < n && j >= rects@.len())) ==> #[trigger] windows@[j] == ws[j],
        decreases n - i,
    {
        if i < rects.len() {
            let rect = rects[i];
            let mut w = windows.remove(i);
            let prev = if rect_has_area(w.display_rect) {
                w.display_rect
            } else {
                rect
            };
            w.animation_from_rect = prev;
            w.target_rect = rect;
            if can_animate && prev != rect {
                needed = true;
            } else {
                w.display_rect = rect;
            }
            windows.insert(i, w);
            proof {
                assert(moves(ws, rects@, can_animate, i as int) == (can_animate && prev != rect));
            }
        }
        i = i + 1;
    }
    if !needed {
        let mut k: usize = 0;
        while k < n
            invariant
                n == windows@.len(),
                n == ws.len(),
                k <= n,
                !animation_needed(ws, rects@, can_animate),
                forall|j: int| 0 <= j < k ==> #[trigger] windows@[j] == laid_out(ws, rects@, can_animate, j),
                forall|j: int|
                    k <= j < n && j < rects@.len() ==> #[trigger] windows@[j] == (ManagedWindow {
                        animation_from_rect: animation_start(ws[j], rects@[j]),
                        target_rect: rects@[j],
                        display_rect: rects@[j],
                        ..ws[j]
                    }),
                forall|j: int| k <= j < n && j >= rects@.len() ==> #[trigger] windows@[j] == ws[j],
            decreases n - k,
        {
            let mut w = windows.remove(k);
            w.display_rect = w.target_rect;
            windows.insert(k, w);
            k = k + 1;
        }
    }
    needed
}

/// `v` limited to `lo..=hi`.
pub open spec fn clamp_spec(v: i32, lo: i32, hi: i32) -> i32 {
    if v < lo {
        lo
    } else if v > hi {
        hi
    } else {
        v
    }
}

/// `v` limited to `lo..=hi`.
fn clamp_i32(v: i32, lo: i32, hi: i32) -> (r: i32)
    requires
        lo <= hi,
    ensures
        r == clamp_spec(v, lo, hi),
{
    if v < lo {
        lo
    } else if v > hi {
        hi
    } else {
        v
    }
}

/// Where a thumbnail destination ends up inside a client area of the given
/// size: `None` when it must be hidden (empty client area, empty or fully
/// outside destination, or nothing left after clipping), otherwise the
/// destination clipped to the client area.
pub open spec fn sanitized_spec(dest: Rect, width: i32, height: i32) -> Option<Rect> {
    if width <= 0 || height <= 0 || dest.right <= dest.left || dest.bottom <= dest.top {
        None
    } else if dest.right <= 0 || dest.bottom <= 0 || dest.left >= width || dest.top >= height {
        None
    } else {
        let clipped = Rect {
            left: clamp_spec(dest.left, 0, (width - 1) as i32),
            top: clamp_spec(dest.top, 0, (height - 1) as i32),
            right: clamp_spec(dest.right, 1, width),
            bottom: clamp_spec(dest.bottom, 1, height),
        };
        if clipped.right <= clipped.left || clipped.bottom <= clipped.top {
            None
        } else {
            Some(clipped)
        }
    }
}

/// Clips a thumbnail destination to the client area. Returns the rectangle to
/// use and whether the thumbnail is visible; a thumbnail that must be hidden
/// gets the rectangle `hidden`.
pub fn sanitize_thumbnail_rect(dest: Rect, client_width: i32, client_height: i32, hidden: Rect) -> (r: (
    Rect,
    bool,
))
    ensures
        r == match sanitized_spec(dest, client_width, client_height) {
            Some(c) => (c, true),
            None => (hidden, false),
        },
{
    if client_width <= 0 || client_height <= 0 || dest.right <= dest.left || dest.bottom <= dest.top {
        return (hidden, false);
    }
    if dest.right <= 0 || dest.bottom <= 0 || dest.left >= client_width || dest.top >= client_height {
        return (hidden, false);
    }
    let clipped = Rect {
        left: clamp_i32(dest.left, 0, client_width - 1),
        top: clamp_i32(dest.top, 0, client_height - 1),
        right: clamp_i32(dest.right, 1, client_width),
        bottom: clamp_i32(dest.bottom, 1, client_height),
    };
    if clipped.right <= clipped.left || clipped.bottom <= clipped.top {
        (hidden, false)
    } else {
        (clipped, true)
    }
}

/// A visible thumbnail lies within the client area and has an area.
pub proof fn lemma_sanitized_rect_fits(dest: Rect, width: i32, height: i32)
    ensures
        sanitized_spec(dest, width, height) matches Some(c) ==> {
            &&& 0 <= c.left < c.right <= width
            &&& 0 <= c.top < c.bottom <= height
            &&& has_area(c)
        },
{
}

/// The direction in which the dashboard scrolls when its content overflows.
#[derive(Debug, Clone, Copy, PartialEq, Eq, Structural)]
pub enum ScrollDirection {
    Horizontal,
    Vertical,
    /// The layout never scrolls.
    Fixed,
}

/// The largest right edge (or, when `right_edges` is false, bottom edge) of
/// `rects`, or 0 when there is none.
pub open spec fn max_edge(rects: Seq<Rect>, right_edges: bool) -> i32
    decreases rects.len(),
{
    if rects.len() == 0 {
        0
    } else {
        let rest = max_edge(rects.drop_last(), right_edges);
        let e = if right_edges {
            rects.last().right
        } else {
            rects.last().bottom
        };
        if rects.len() == 1 || e > rest {
            e
        } else {
            rest
        }
    }
}

/// How far the laid-out content reaches along the scroll direction: the
/// largest right edge when scrolling horizontally, the largest bottom edge
/// when scrolling vertically (0 without rectangles), and 0 when the layout
/// does not scroll.
pub fn content_extent(rects: &Vec<Rect>, direction: ScrollDirection) -> (r: i32)
    ensures
        r == match direction {
            ScrollDirection::Horizontal => max_edge(rects@, true),
            ScrollDirection::Vertical => max_edge(rects@, false),
            ScrollDirection::Fixed => 0,
        },
{
    let right_edges = match direction {
        ScrollDirection::Horizontal => true,
        ScrollDirection::Vertical => false,
        ScrollDirection::Fixed => {
            return 0;
        },
    };
    let mut best: i32 = 0;
    let mut i: usize = 0;
    while i < rects.len()
        invariant
            i <= rects.len(),
            best == max_edge(rects@.take(i as int), right_edges),
        decreases rects.len() - i,
    {
        let e = if right_edges {
            rects[i].right
        } else {
            rects[i].bottom
        };
        proof {
            assert(rects@.take(i + 1).drop_last() =~= rects@.take(i as int));
        }
        if i == 0 || e > best {
            best = e;
        }
        i = i + 1;
    }
    assert(rects@.take(rects.len() as int) =~= rects@);
    best
}

/// Every rectangle reaches at most the content extent, and one reaches it.
pub proof fn lemma_content_extent_is_the_maximum(rects: Seq<Rect>, right_edges: bool)
    requires
        rects.len() > 0,
    ensures
        forall|i: int|
            0 <= i < rects.len() ==> (if right_edges {
                rects[i].right
            } else {
                rects[i].bottom
            }) <= max_edge(rects, right_edges),
        exists|i: int|
            0 <= i < rects.len() && (if right_edges {
                rects[i].right
            } else {
                rects[i].bottom
            }) == max_edge(rects, right_edges),
    decreases rects.len(),
{
    let n = rects.len();
    if n > 1 {
        let t = rects.drop_last();
        lemma_content_extent_is_the_maximum(t, right_edges);
        assert forall|i: int| 0 <= i < n implies (if right_edges {
            rects[i].right
        } else {
            rects[i].bottom
        }) <= max_edge(rects, right_edges) by {
            if i < n - 1 {
                assert(rects[i] == t[i]);
            }
        }
        let e = if right_edges {
            rects.last().right
        } else {
            rects.last().bottom
        };
        if e <= max_edge(t, right_edges) {
            let k = choose|k: int|
                0 <= k < t.len() && (if right_edges {
                    t[k].right
                } else {
                    t[k].bottom
                }) == max_edge(t, right_edges);
            assert(rects[k] == t[k]);
        } else {
            assert(rects[n - 1] == rects.last());
        }
    } else {
        assert(rects[0] == rects.last());
    }
}

/// The fixed floating-window size recorded after the user resized the
/// window to `logical_w` x `logical_h`: nothing for a docked window or a
/// size that is not positive, otherwise each side raised to its minimum.
pub fn floating_size_after_resize(
    logical_w: i32,
    logical_h: i32,
    docked: bool,
    min_width: u32,
    min_height: u32,
) -> (r: Option<(u32, u32)>)
    ensures
        r == if logical_w <= 0 || logical_h <= 0 || docked {
            None
        } else {
            Some(
                (
                    if (logical_w as u32) < min_width {
                        min_width
                    } else {
                        logical_w as u32
                    },
                    if (logical_h as u32) < min_height {
                        min_height
                    } else {
                        logical_h as u32
                    },
                ),
            )
        },
{
    if logical_w <= 0 || logical_h <= 0 || docked {
        return None;
    }
    let width = logical_w as u32;
    let height = logical_h as u32;
    Some(
        (
            if width < min_width {
                min_width
            } else {
                width
            },
            if height < min_height {
                min_height
            } else {
                height
            },
        ),
    )
}

} // verus!
