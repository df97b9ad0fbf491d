use vstd::prelude::*;
use vstd::arithmetic::div_mod::{
    lemma_div_is_ordered_by_denominator,
    lemma_fundamental_div_mod,
    lemma_fundamental_div_mod_converse,
    lemma_mod_bound,
};

use crate::push_constants::Size;

verus! {

/// Fixed-point one: zoom and pan are counted in millionths.
pub const ONE: u64 = 1_000_000;

/// The largest zoom, 100 times.
pub const MAX_ZOOM: u64 = 100_000_000;

/// `1 / zoom` in millionths, rounded down.
pub open spec fn inv_zoom(zoom: int) -> int {
    (ONE * ONE) as int / zoom
}

/// The largest pan on either axis at `zoom`: `1 - 1 / zoom`, so that the
/// visible part of the grid never leaves it.
pub open spec fn max_pan(zoom: int) -> int {
    ONE - inv_zoom(zoom)
}

/// `v` clamped to `[lo, hi]`.
pub open spec fn clamp(v: int, lo: int, hi: int) -> int {
    if v < lo {
        lo
    } else if v > hi {
        hi
    } else {
        v
    }
}

/// The zoom after a scroll of `delta` millionths: multiplied by
/// `1 + delta`, clamped to `[1, 100]`.
pub open spec fn zoomed(zoom: int, delta: int) -> int {
    let factor = ONE + delta;
    let raw = if factor <= 0 {
        0
    } else {
        zoom * factor / (ONE as int)
    };
    clamp(raw, ONE as int, MAX_ZOOM as int)
}

/// `dif * c / s`, rounded towards zero; nothing on an axis of no extent.
pub open spec fn pan_shift(dif: int, c: int, s: int) -> int {
    if s == 0 {
        0
    } else if dif >= 0 {
        dif * c / s
    } else {
        -((-dif) * c / s)
    }
}

/// The normalized grid coordinate, in millionths, under screen coordinate
/// `c` of an axis of extent `s`, seen with pan `t` at `zoom`.
pub open spec fn grid_coord(t: int, c: int, s: int, zoom: int) -> int {
    t + c * inv_zoom(zoom) / s
}

/// The view of the grid: a zoom factor and a pan offset, in millionths.
#[derive(Clone, Copy, Debug, PartialEq, Eq, Structural)]
pub struct Camera {
    pub zoom: u64,
    pub translate_x: u64,
    pub translate_y: u64,
}

/// The pan on one axis after a scroll that took the zoom from `prev` to
/// `next`: moved so that the point under the cursor stays put, then clamped.
pub open spec fn scrolled_pan(t: int, prev: int, next: int, c: int, s: int) -> int {
    clamp(t + pan_shift(inv_zoom(prev) - inv_zoom(next), c, s), 0, max_pan(next))
}

/// The camera after a scroll of `delta` millionths with the cursor at
/// `(cx, cy)` on a viewport of `size`.
pub open spec fn scrolled(cam: Camera, delta: int, cx: int, cy: int, size: Size) -> Camera {
    let next = zoomed(cam.zoom as int, delta);
    Camera {
        zoom: next as u64,
        translate_x: scrolled_pan(cam.translate_x as int, cam.zoom as int, next, cx, size.width as int) as u64,
        translate_y: scrolled_pan(cam.translate_y as int, cam.zoom as int, next, cy, size.height as int) as u64,
    }
}

impl Camera {
    /// Zoom 1, no pan.
    pub open spec fn new_spec() -> Camera {
        Camera { zoom: ONE, translate_x: 0, translate_y: 0 }
    }

    /// Zoom within `[1, 100]`, pan within `[0, 1 - 1/zoom]` on both axes.
    pub open spec fn wf(&self) -> bool {
        ONE <= self.zoom <= MAX_ZOOM && self.translate_x <= max_pan(self.zoom as int)
            && self.translate_y <= max_pan(self.zoom as int)
    }
}

proof fn lemma_inv_zoom_bounds(zoom: int)
    requires
        ONE <= zoom <= MAX_ZOOM,
    ensures
        ONE / 100 <= inv_zoom(zoom) <= ONE,
        0 <= max_pan(zoom) < ONE,
{
    lemma_div_is_ordered_by_denominator((ONE * ONE) as int, ONE as int, zoom);
    lemma_div_is_ordered_by_denominator((ONE * ONE) as int, zoom, MAX_ZOOM as int);
}

/// `1 / zoom` in millionths.
pub(crate) fn inverse(zoom: u64) -> (r: u64)
    requires
        ONE <= zoom <= MAX_ZOOM,
    ensures
        r == inv_zoom(zoom as int),
        ONE / 100 <= r <= ONE,
{
    proof {
        lemma_inv_zoom_bounds(zoom as int);
    }
    1_000_000_000_000 / zoom
}

proof fn lemma_scaled_share(dif: int, c: int, s: int)
    requires
        0 <= dif <= ONE,
        0 <= c <= u32::MAX,
        s >= 1,
    ensures
        0 <= dif * c <= ONE * u32::MAX,
        0 <= dif * c / s <= dif * c,
{
    assert(0 <= dif * c <= ONE * u32::MAX) by (nonlinear_arith)
        requires
            0 <= dif <= ONE,
            0 <= c <= u32::MAX,
    ;
    assert(dif * c / s <= dif * c) by (nonlinear_arith)
        requires
            s >= 1,
            dif * c >= 0,
    ;
    assert(0 <= dif * c / s) by (nonlinear_arith)
        requires
            s >= 1,
            dif * c >= 0,
    ;
}

/// The pan on one axis after a scroll; see `scrolled_pan`.
fn pan_after(t: u64, inv_prev: u64, inv_next: u64, c: u32, s: u32, limit: u64) -> (r: u64)
    requires
        inv_prev <= ONE,
        inv_next <= ONE,
        t <= ONE,
    ensures
        r == clamp(t + pan_shift(inv_prev - inv_next, c as int, s as int), 0, limit as int),
{
    let moved: u64 = if s == 0 {
        t
    } else if inv_prev >= inv_next {
        let dif = inv_prev - inv_next;
        proof {
            lemma_scaled_share(dif as int, c as int, s as int);
        }
        let d = dif as u128 * c as u128 / s as u128;
        t + d as u64
    } else {
        let dif = inv_next - inv_prev;
        proof {
            lemma_scaled_share(dif as int, c as int, s as int);
        }
        let d = dif as u128 * c as u128 / s as u128;
        if d > t as u128 {
            0
        } else {
            t - d as u64
        }
    };
    if moved > limit {
        limit
    } else {
        moved
    }
}

/// The camera after each scroll in turn: a scroll is its delta, the cursor
/// and the viewport size.
pub open spec fn scrolled_all(cam: Camera, events: Seq<(i64, u32, u32, Size)>) -> Camera
    decreases events.len(),
{
    if events.len() == 0 {
        cam
    } else {
        let e = events[0];
        scrolled_all(scrolled(cam, e.0 as int, e.1 as int, e.2 as int, e.3), events.drop_first())
    }
}

/// A scroll keeps the zoom within `[1, 100]` and the pan within
/// `[0, 1 - 1/zoom]`.
pub proof fn lemma_scroll_keeps_bounds(cam: Camera, delta: int, cx: int, cy: int, size: Size)
    requires
        cam.wf(),
    ensures
        scrolled(cam, delta, cx, cy, size).wf(),
{
    let next = zoomed(cam.zoom as int, delta);
    lemma_inv_zoom_bounds(next);
}

/// Whatever sequence of scrolls is applied, the zoom stays within `[1, 100]`
/// and the pan within `[0, 1 - 1/zoom]` on both axes.
pub proof fn lemma_pan_clamp(cam: Camera, events: Seq<(i64, u32, u32, Size)>)
    requires
        cam.wf(),
    ensures
        scrolled_all(cam, events).wf(),
    decreases events.len(),
{
    if events.len() > 0 {
        let e = events[0];
        lemma_scroll_keeps_bounds(cam, e.0 as int, e.1 as int, e.2 as int, e.3);
        lemma_pan_clamp(scrolled(cam, e.0 as int, e.1 as int, e.2 as int, e.3), events.drop_first());
    }
}

/// Rounding down a sum loses at most one against rounding down each part.
proof fn lemma_floor_of_sum(a: int, b: int, s: int)
    requires
        0 <= a,
        0 <= b,
        0 < s,
    ensures
        a / s + b / s <= (a + b) / s <= a / s + b / s + 1,
{
    lemma_fundamental_div_mod(a, s);
    lemma_fundamental_div_mod(b, s);
    lemma_mod_bound(a, s);
    lemma_mod_bound(b, s);
    let qa = a / s;
    let qb = b / s;
    let r = a % s + b % s;
    assert(a + b == (qa + qb) * s + r) by (nonlinear_arith)
        requires
            a == s * qa + a % s,
            b == s * qb + b % s,
            r == a % s + b % s,
    ;
    if r < s {
        lemma_fundamental_div_mod_converse(a + b, s, qa + qb, r);
    } else {
        assert(a + b == (qa + qb + 1) * s + (r - s)) by (nonlinear_arith)
            requires
                a + b == (qa + qb) * s + r,
        ;
        lemma_fundamental_div_mod_converse(a + b, s, qa + qb + 1, r - s);
    }
}

/// On one axis: when the pan is not clamped, the grid coordinate under the
/// cursor moves by at most one millionth.
proof fn lemma_axis_holds_cursor(t: int, prev: int, next: int, c: int, s: int)
    requires
        ONE <= prev <= MAX_ZOOM,
        ONE <= next <= MAX_ZOOM,
        0 <= c,
        0 < s,
    ensures
        ({
            let moved = t + pan_shift(inv_zoom(prev) - inv_zoom(next), c, s);
            let before = grid_coord(t, c, s, prev);
            let after = grid_coord(moved, c, s, next);
            -1 <= after - before <= 1
        }),
{
    lemma_inv_zoom_bounds(prev);
    lemma_inv_zoom_bounds(next);
    let ip = inv_zoom(prev);
    let inx = inv_zoom(next);
    if ip >= inx {
        let d = ip - inx;
        assert(c * ip == d * c + c * inx) by (nonlinear_arith)
            requires
                d == ip - inx,
        ;
        assert(0 <= d * c && 0 <= c * inx) by (nonlinear_arith)
            requires
                0 <= d,
                0 <= c,
                0 <= inx,
        ;
        lemma_floor_of_sum(d * c, c * inx, s);
    } else {
        let d = inx - ip;
        assert(c * inx == c * ip + d * c) by (nonlinear_arith)
            requires
                d == inx - ip,
        ;
        assert(0 <= d * c && 0 <= c * ip) by (nonlinear_arith)
            requires
                0 <= d,
                0 <= c,
                0 <= ip,
        ;
        assert(-(inx - ip) == ip - inx);
        lemma_floor_of_sum(c * ip, d * c, s);
    }
}

/// Zooming holds the point under the cursor: on each axis whose pan was not
/// clamped (and whose viewport has an extent), the normalized grid
/// coordinate under the cursor after a scroll differs from the one before
/// by at most one millionth, the rounding of fixed-point arithmetic.
pub proof fn lemma_zoom_to_cursor(cam: Camera, delta: int, cx: int, cy: int, size: Size)
    requires
        cam.wf(),
        0 <= cx,
        0 <= cy,
    ensures
        ({
            let next = scrolled(cam, delta, cx, cy, size);
            let dif = inv_zoom(cam.zoom as int) - inv_zoom(next.zoom as int);
            let mx = cam.translate_x + pan_shift(dif, cx, size.width as int);
            let my = cam.translate_y + pan_shift(dif, cy, size.height as int);
            &&& (size.width > 0 && 0 <= mx <= max_pan(next.zoom as int)) ==> {
                let before = grid_coord(cam.translate_x as int, cx, size.width as int, cam.zoom as int);
                let after = grid_coord(next.translate_x as int, cx, size.width as int, next.zoom as int);
                -1 <= after - before <= 1
            }
            &&& (size.height > 0 && 0 <= my <= max_pan(next.zoom as int)) ==> {
                let before = grid_coord(cam.translate_y as int, cy, size.height as int, cam.zoom as int);
                let after = grid_coord(next.translate_y as int, cy, size.height as int, next.zoom as int);
                -1 <= after - before <= 1
            }
        }),
{
    let next = zoomed(cam.zoom as int, delta);
    lemma_inv_zoom_bounds(next);
    if size.width > 0 {
        lemma_axis_holds_cursor(cam.translate_x as int, cam.zoom as int, next, cx, size.width as int);
    }
    if size.height > 0 {
        lemma_axis_holds_cursor(cam.translate_y as int, cam.zoom as int, next, cy, size.height as int);
    }
}

impl Camera {
    /// Zoom 1, no pan.
    pub fn new() -> (r: Camera)
        ensures
            r.wf(),
            r == Camera::new_spec(),
    {
        proof {
            lemma_inv_zoom_bounds(ONE as int);
        }
        Camera { zoom: ONE, translate_x: 0, translate_y: 0 }
    }

    /// Zooms by `1 + delta` (in millionths) towards the cursor at `(cx, cy)`
    /// on a viewport of `size`, then clamps the pan into the grid.
    pub fn scroll(&mut self, delta: i64, cx: u32, cy: u32, size: Size)
        requires
            old(self).wf(),
        ensures
            final(self).wf(),
            *final(self) == scrolled(*old(self), delta as int, cx as int, cy as int, size),
    {
        let prev = self.zoom;
        let factor: i128 = 1_000_000i128 + delta as i128;
        let raw: u128 = if factor <= 0 {
            0
        } else {
            proof {
                assert(prev * factor <= MAX_ZOOM * (ONE + i64::MAX)) by (nonlinear_arith)
                    requires
                        prev <= MAX_ZOOM,
                        0 < factor <= ONE + i64::MAX,
                ;
            }
            prev as u128 * factor as u128 / 1_000_000u128
        };
        let next: u64 = if raw < 1_000_000 {
            ONE
        } else if raw > 100_000_000 {
            MAX_ZOOM
        } else {
            raw as u64
        };
        let inv_prev = inverse(prev);
        let inv_next = inverse(next);
        proof {
            lemma_inv_zoom_bounds(prev as int);
            lemma_inv_zoom_bounds(next as int);
        }
        let limit = ONE - inv_next;
        self.zoom = next;
        self.translate_x = pan_after(self.translate_x, inv_prev, inv_next, cx, size.width, limit);
        self.translate_y = pan_after(self.translate_y, inv_prev, inv_next, cy, size.height, limit);
    }
}

impl Default for Camera {
    fn default() -> (r: Camera)
        ensures
            r.wf(),
            r == Camera::new_spec(),
    {
        Camera::new()
    }
}

} // verus!
