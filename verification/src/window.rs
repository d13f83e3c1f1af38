//! Placement of the floating window: its size on a monitor, snapping to
//! the monitor's edges, and the debounce of snaps while it is dragged.
use vstd::prelude::*;

use crate::status::Orientation;

verus! {

/// How close (in pixels) to a monitor edge the window snaps onto it.
pub const SNAP_DISTANCE: i32 = 24;

// ── Size ───────────────────────────────────────────────────────────

pub open spec fn at_least(v: int, floor: int) -> int {
    if v < floor {
        floor
    } else {
        v
    }
}

/// The window's size on a monitor of `width` x `height` pixels. The
/// vertical height is a fifth and a half of the monitor's height, rounded
/// down: `height / 5.5`, which is `2 * height / 11`.
pub open spec fn widget_size_of(width: int, height: int, o: Orientation) -> (int, int) {
    match o {
        Orientation::Horizontal => (at_least(width / 10, 120), at_least(height / 15, 56)),
        Orientation::Vertical => (at_least(width / 24, 44), at_least((2 * height) / 11, 180)),
    }
}

/// The window's size on a monitor of `width` x `height` pixels.
pub fn widget_size(width: u32, height: u32, orientation: Orientation) -> (r: (u32, u32))
    ensures
        (r.0 as int, r.1 as int) == widget_size_of(width as int, height as int, orientation),
{
    match orientation {
        Orientation::Horizontal => {
            let w = width / 10;
            let h = height / 15;
            (if w < 120 {
                120
            } else {
                w
            }, if h < 56 {
                56
            } else {
                h
            })
        },
        Orientation::Vertical => {
            let w = width / 24;
            let h = ((2 * (height as u64)) / 11) as u32;
            (if w < 44 {
                44
            } else {
                w
            }, if h < 180 {
                180
            } else {
                h
            })
        },
    }
}

// ── Snapping ───────────────────────────────────────────────────────

pub open spec fn clamp(p: int, lo: int, hi: int) -> int {
    if p < lo {
        lo
    } else if p > hi {
        hi
    } else {
        p
    }
}

/// Where the window's edge goes along one axis when the range of allowed
/// positions is `lo..=hi`: into the range, then onto `lo` when within the
/// snap distance of it, then onto `hi` when within the snap distance of it.
pub open spec fn snap_axis(p: int, lo: int, hi: int) -> int {
    let c = clamp(p, lo, hi);
    let a = if c - lo <= SNAP_DISTANCE {
        lo
    } else {
        c
    };
    if hi - a <= SNAP_DISTANCE {
        hi
    } else {
        a
    }
}

/// A monitor's position and size, in physical pixels.
#[derive(Clone, Copy, Debug, PartialEq, Eq, Structural)]
pub struct MonitorArea {
    pub x: i32,
    pub y: i32,
    pub width: u32,
    pub height: u32,
}

/// The window of size `w` x `h` fits on the monitor, and the monitor's
/// size and far corner are valid `i32` coordinates.
pub open spec fn fits(m: MonitorArea, w: u32, h: u32) -> bool {
    &&& m.width <= i32::MAX
    &&& m.height <= i32::MAX
    &&& w <= m.width
    &&& h <= m.height
    &&& m.x + m.width <= i32::MAX
    &&& m.y + m.height <= i32::MAX
}

/// The position the window snaps to.
pub open spec fn snapped(m: MonitorArea, w: u32, h: u32, x: int, y: int) -> (int, int) {
    (
        snap_axis(x, m.x as int, m.x + m.width - w),
        snap_axis(y, m.y as int, m.y + m.height - h),
    )
}

fn snap_axis_exec(p: i32, lo: i32, hi: i32) -> (r: i32)
    requires
        lo <= hi,
    ensures
        r == snap_axis(p as int, lo as int, hi as int),
{
    let c = if p < lo {
        lo
    } else if p > hi {
        hi
    } else {
        p
    };
    let a = if (c as i64) - (lo as i64) <= SNAP_DISTANCE as i64 {
        lo
    } else {
        c
    };
    if (hi as i64) - (a as i64) <= SNAP_DISTANCE as i64 {
        hi
    } else {
        a
    }
}

/// Where a window of size `w` x `h` at `(x, y)` goes on monitor `m`: kept
/// on the monitor, and pulled onto any edge within `SNAP_DISTANCE` pixels.
pub fn snap_position(m: MonitorArea, w: u32, h: u32, x: i32, y: i32) -> (r: (i32, i32))
    requires
        fits(m, w, h),
    ensures
        (r.0 as int, r.1 as int) == snapped(m, w, h, x as int, y as int),
{
    let max_x = ((m.x as i64) + (m.width as i64) - (w as i64)) as i32;
    let max_y = ((m.y as i64) + (m.height as i64) - (h as i64)) as i32;
    (snap_axis_exec(x, m.x, max_x), snap_axis_exec(y, m.y, max_y))
}

/// A snapped window lies wholly on the monitor.
pub proof fn lemma_snapped_on_monitor(m: MonitorArea, w: u32, h: u32, x: int, y: int)
    requires
        fits(m, w, h),
    ensures
        ({
            let (sx, sy) = snapped(m, w, h, x, y);
            &&& m.x <= sx && sx + w <= m.x + m.width
            &&& m.y <= sy && sy + h <= m.y + m.height
        }),
{
}

/// Snapping a snapped window leaves it where it is.
pub proof fn lemma_snap_idempotent(m: MonitorArea, w: u32, h: u32, x: int, y: int)
    requires
        fits(m, w, h),
    ensures
        ({
            let (sx, sy) = snapped(m, w, h, x, y);
            snapped(m, w, h, sx, sy) == (sx, sy)
        }),
{
}

/// After snapping, the window either touches an edge or is more than the
/// snap distance from both edges and has not moved.
pub proof fn lemma_snap_leaves_no_near_gap(p: int, lo: int, hi: int)
    requires
        lo <= hi,
    ensures
        ({
            let s = snap_axis(p, lo, hi);
            ||| s == lo
            ||| s == hi
            ||| (s == p && p - lo > SNAP_DISTANCE && hi - p > SNAP_DISTANCE)
        }),
{
}

/// The horizontal size is a tenth of the monitor's width (at least 120)
/// by a fifteenth of its height (at least 56); the vertical size is a
/// twenty-fourth of the width (at least 44) by the height divided by 5.5
/// (at least 180). Each side is the largest whole number of pixels within
/// its fraction, unless the minimum is larger.
pub proof fn lemma_widget_size_fractions(width: nat, height: nat)
    ensures
        ({
            let (w, h) = widget_size_of(width as int, height as int, Orientation::Horizontal);
            &&& w >= 120 && (w > 120 ==> w * 10 <= width < (w + 1) * 10) && (w == 120
                ==> width < 1210)
            &&& h >= 56 && (h > 56 ==> h * 15 <= height < (h + 1) * 15) && (h == 56 ==> height
                < 57 * 15)
        }),
        ({
            let (w, h) = widget_size_of(width as int, height as int, Orientation::Vertical);
            &&& w >= 44 && (w > 44 ==> w * 24 <= width < (w + 1) * 24) && (w == 44 ==> width
                < 45 * 24)
            &&& h >= 180 && (h > 180 ==> h * 11 <= 2 * height < (h + 1) * 11) && (h == 180
                ==> 2 * height < 181 * 11)
        }),
{
}

/// The window grows with its monitor: a larger monitor never gives a
/// smaller window.
pub proof fn lemma_widget_size_monotone(w1: nat, h1: nat, w2: nat, h2: nat, o: Orientation)
    requires
        w1 <= w2,
        h1 <= h2,
    ensures
        widget_size_of(w1 as int, h1 as int, o).0 <= widget_size_of(w2 as int, h2 as int, o).0,
        widget_size_of(w1 as int, h1 as int, o).1 <= widget_size_of(w2 as int, h2 as int, o).1,
{
    assert(w1 / 10 <= w2 / 10) by (nonlinear_arith)
        requires
            w1 <= w2,
    ;
    assert(h1 / 15 <= h2 / 15) by (nonlinear_arith)
        requires
            h1 <= h2,
    ;
    assert(w1 / 24 <= w2 / 24) by (nonlinear_arith)
        requires
            w1 <= w2,
    ;
    assert((2 * h1) / 11 <= (2 * h2) / 11) by (nonlinear_arith)
        requires
            h1 <= h2,
    ;
}

/// A window moves along an axis only to come onto the monitor or onto an
/// edge within `SNAP_DISTANCE`: on the monitor and farther than that from
/// both edges it stays; it goes to the low edge only from within the snap
/// distance of it, and to the high edge only from within the snap
/// distance of it or when the range is no wider than the snap distance.
pub proof fn lemma_snap_moves_only_near_edges(p: int, lo: int, hi: int)
    requires
        lo <= hi,
    ensures
        lo <= p <= hi && p - lo > SNAP_DISTANCE && hi - p > SNAP_DISTANCE ==> snap_axis(p, lo, hi)
            == p,
        ({
            let c = if p < lo {
                lo
            } else if p > hi {
                hi
            } else {
                p
            };
            &&& lo <= snap_axis(p, lo, hi) <= hi
            &&& snap_axis(p, lo, hi) == hi ==> (hi - c <= SNAP_DISTANCE || hi - lo
                <= SNAP_DISTANCE)
            &&& snap_axis(p, lo, hi) == lo && lo != hi ==> (c - lo <= SNAP_DISTANCE && hi - lo
                > SNAP_DISTANCE)
            &&& snap_axis(p, lo, hi) != lo && snap_axis(p, lo, hi) != hi ==> snap_axis(p, lo, hi)
                == c
        }),
{
}

// ── Debounce ───────────────────────────────────────────────────────

/// Counts the moves of the window, so that only the snap scheduled by the
/// last move runs.
pub struct SnapDebounce {
    moves: u64,
}

impl SnapDebounce {
    /// The number of moves seen, modulo 2^64.
    pub closed spec fn count(&self) -> u64 {
        self.moves
    }

    pub fn new() -> (d: SnapDebounce)
        ensures
            d.count() == 0,
    {
        SnapDebounce { moves: 0 }
    }

    /// Records a move; the result is the ticket of the snap it schedules.
    pub fn on_move(&mut self) -> (ticket: u64)
        ensures
            final(self).count() == vstd::wrapping::u64_specs::wrapping_add(old(self).count(), 1),
            ticket == final(self).count(),
    {
        self.moves = self.moves.wrapping_add(1);
        self.moves
    }

    /// Whether the snap with this ticket is still the latest one.
    pub fn is_latest(&self, ticket: u64) -> (b: bool)
        ensures
            b == (ticket == self.count()),
    {
        self.moves == ticket
    }
}

/// The snap scheduled by a move runs when no other move came after it,
/// and not when one did.
pub proof fn lemma_only_latest_snap_runs(count: u64)
    ensures
        ({
            let t = vstd::wrapping::u64_specs::wrapping_add(count, 1);
            let later = vstd::wrapping::u64_specs::wrapping_add(t, 1);
            t != later
        }),
{
}

} // verus!
