//! Per-frame animation parameters: zoom and pan interpolation, and the view
//! window derived from them.
//!
//! For frame `i` of `n` the progress is `t = i / n` (fixed point). The zoom
//! factor is `1 + (target_zoom - 1) * t`, the pan offset is `target * t`,
//! and the window is the square of half-extent `2 / zoom` around the panned
//! centre. At frame 0 the zoom is exactly 1 and the window is the base
//! window `[-2, 2] x [-2, 2]`; at `i == n` the zoom equals the target zoom
//! and the pan equals the target pan exactly.

use vstd::prelude::*;
use crate::SCALE;
use crate::fixed::{
    tdiv,
    tdiv_i128,
    tdiv_scale_i128,
    lemma_tdiv_bound,
    lemma_tdiv_exact,
    lemma_tdiv_sign,
    lemma_tdiv_zero,
};
use crate::render::ViewWindow;

verus! {

/// Largest raw zoom factor a caller may request (a zoom of two million).
pub const ZOOM_LIMIT: i64 = 2_000_000_000_000;

/// Largest raw pan magnitude a caller may request (one million plane units).
pub const PAN_LIMIT: i64 = 1_000_000_000_000;

/// Interpolation progress of frame `i` of `n`: `i / n` in raw fixed point,
/// 0 at frame 0 and `SCALE` (that is, 1) at `i == n`.
pub open spec fn progress_of(i: int, n: int) -> int
    recommends
        0 < n,
{
    tdiv(i * SCALE, n)
}

/// Zoom factor at frame `i` of `n`: `1 + (target_zoom - 1) * (i / n)` in
/// raw fixed point.
pub open spec fn zoom_at(target_zoom: int, i: int, n: int) -> int
    recommends
        0 < n,
{
    SCALE + tdiv((target_zoom - SCALE) * progress_of(i, n), SCALE as int)
}

/// Pan offset at frame `i` of `n`: `target * (i / n)` in raw fixed point.
pub open spec fn pan_at(target: int, i: int, n: int) -> int
    recommends
        0 < n,
{
    tdiv(target * progress_of(i, n), SCALE as int)
}

/// Half-extent of the view window at a zoom factor: `2 / zoom` in raw fixed
/// point.
pub open spec fn half_extent_of(zoom: int) -> int
    recommends
        0 < zoom,
{
    tdiv(2 * (SCALE as int) * (SCALE as int), zoom)
}

/// Zoom interpolation endpoints: at frame 0 the zoom is exactly 1, the pan
/// offsets are exactly 0, and the window half-extent is exactly 2 (so the
/// frame-0 window is the untransformed base window around the origin); at
/// `i == n` the zoom equals the requested target zoom and the pan offsets
/// equal the requested targets, exactly.
pub proof fn lemma_zoom_interpolation(target_zoom: int, dx: int, dy: int, n: int)
    requires
        0 < n,
    ensures
        zoom_at(target_zoom, 0, n) == SCALE,
        pan_at(dx, 0, n) == 0,
        pan_at(dy, 0, n) == 0,
        half_extent_of(SCALE as int) == 2 * SCALE,
        zoom_at(target_zoom, n, n) == target_zoom,
        pan_at(dx, n, n) == dx,
        pan_at(dy, n, n) == dy,
{
    lemma_tdiv_zero(n);
    lemma_tdiv_zero(SCALE as int);
    assert(progress_of(0, n) == 0);
    assert((target_zoom - SCALE) * progress_of(0, n) == 0) by (nonlinear_arith)
        requires
            progress_of(0, n) == 0,
    ;
    assert(dx * progress_of(0, n) == 0) by (nonlinear_arith)
        requires
            progress_of(0, n) == 0,
    ;
    assert(dy * progress_of(0, n) == 0) by (nonlinear_arith)
        requires
            progress_of(0, n) == 0,
    ;
    lemma_tdiv_exact(2 * SCALE, SCALE as int);
    assert((2 * SCALE) * (SCALE as int) == 2 * (SCALE as int) * (SCALE as int));
    lemma_tdiv_exact(SCALE as int, n);
    assert(progress_of(n, n) == SCALE);
    lemma_tdiv_exact(target_zoom - SCALE, SCALE as int);
    lemma_tdiv_exact(dx, SCALE as int);
    lemma_tdiv_exact(dy, SCALE as int);
}

/// Interpolation progress of frame `i` of `n` in raw fixed point.
pub fn progress(i: u32, n: u32) -> (t: i64)
    requires
        0 < n,
        i <= n,
    ensures
        t as int == progress_of(i as int, n as int),
        0 <= t <= SCALE,
{
    let prod: i128 = (i as i128) * (SCALE as i128);
    let q: i128 = tdiv_i128(prod, n as i128);
    proof {
        assert((-(SCALE as int)) * (n as int) <= prod <= (SCALE as int) * (n as int))
            by (nonlinear_arith)
            requires
                prod == (i as int) * (SCALE as int),
                0 <= i <= n,
                SCALE == 1_000_000,
        ;
        lemma_tdiv_bound(prod as int, n as int, SCALE as int);
        lemma_tdiv_sign(prod as int, n as int);
    }
    q as i64
}

/// Zoom factor for frame `i` of `n`, toward `target_zoom`. Stays between 1
/// (raw) and the limit, so every frame's window is well formed.
pub fn frame_zoom(target_zoom: i64, i: u32, n: u32) -> (z: i64)
    requires
        0 < n,
        i <= n,
        1 <= target_zoom <= ZOOM_LIMIT,
    ensures
        z as int == zoom_at(target_zoom as int, i as int, n as int),
        1 <= z <= ZOOM_LIMIT,
{
    let t: i64 = progress(i, n);
    let diff: i64 = target_zoom - SCALE;
    proof {
        assert(-3_000_000_000_000_000_000int <= (diff as int) * (t as int)
            <= 3_000_000_000_000_000_000int) by (nonlinear_arith)
            requires
                -2_000_001_000_000int <= diff <= 2_000_001_000_000int,
                0 <= t <= 1_000_000int,
        ;
    }
    let prod: i128 = (diff as i128) * (t as i128);
    let q: i128 = tdiv_scale_i128(prod);
    proof {
        assert((-(diff as int)) * (SCALE as int) <= prod <= (diff as int) * (SCALE as int) || (
        diff as int) * (SCALE as int) <= prod <= (-(diff as int)) * (SCALE as int))
            by (nonlinear_arith)
            requires
                prod == (diff as int) * (t as int),
                0 <= t <= SCALE,
                SCALE == 1_000_000,
        ;
        if diff >= 0 {
            lemma_tdiv_bound(prod as int, SCALE as int, diff as int);
            assert(prod >= 0) by (nonlinear_arith)
                requires
                    prod == (diff as int) * (t as int),
                    diff >= 0,
                    t >= 0,
            ;
        } else {
            lemma_tdiv_bound(prod as int, SCALE as int, -(diff as int));
            assert(prod <= 0) by (nonlinear_arith)
                requires
                    prod == (diff as int) * (t as int),
                    diff < 0,
                    t >= 0,
            ;
        }
        lemma_tdiv_sign(prod as int, SCALE as int);
    }
    SCALE + (q as i64)
}

/// Pan offset for frame `i` of `n`, toward the target offset. Stays within
/// the pan limit.
pub fn frame_pan(target: i64, i: u32, n: u32) -> (p: i64)
    requires
        0 < n,
        i <= n,
        -PAN_LIMIT <= target <= PAN_LIMIT,
    ensures
        p as int == pan_at(target as int, i as int, n as int),
        -PAN_LIMIT <= p <= PAN_LIMIT,
{
    let t: i64 = progress(i, n);
    proof {
        assert(-3_000_000_000_000_000_000int <= (target as int) * (t as int)
            <= 3_000_000_000_000_000_000int) by (nonlinear_arith)
            requires
                -1_000_000_000_000int <= target <= 1_000_000_000_000int,
                0 <= t <= 1_000_000int,
        ;
    }
    let prod: i128 = (target as i128) * (t as i128);
    let q: i128 = tdiv_scale_i128(prod);
    proof {
        assert((-(PAN_LIMIT as int)) * (SCALE as int) <= prod <= (PAN_LIMIT as int) * (
        SCALE as int)) by (nonlinear_arith)
            requires
                prod == (target as int) * (t as int),
                -(PAN_LIMIT as int) <= target <= PAN_LIMIT as int,
                0 <= t <= SCALE,
                SCALE == 1_000_000,
        ;
        lemma_tdiv_bound(prod as int, SCALE as int, PAN_LIMIT as int);
    }
    q as i64
}

/// View window for one frame: the square of half-extent `2 / zoom` around
/// the panned centre `(px, py)`.
pub fn frame_window(zoom: i64, px: i64, py: i64) -> (w: ViewWindow)
    requires
        1 <= zoom <= ZOOM_LIMIT,
        -PAN_LIMIT <= px <= PAN_LIMIT,
        -PAN_LIMIT <= py <= PAN_LIMIT,
    ensures
        w.x_min as int == px - half_extent_of(zoom as int),
        w.x_max as int == px + half_extent_of(zoom as int),
        w.y_min as int == py - half_extent_of(zoom as int),
        w.y_max as int == py + half_extent_of(zoom as int),
        w.wf(),
{
    let two_s2: i128 = 2 * (SCALE as i128) * (SCALE as i128);
    let half_w: i128 = tdiv_i128(two_s2, zoom as i128);
    proof {
        lemma_tdiv_bound(two_s2 as int, zoom as int, two_s2 as int);
        assert(two_s2 as int / (zoom as int) >= 1) by (nonlinear_arith)
            requires
                1 <= zoom <= two_s2,
        ;
        assert(two_s2 as int / (zoom as int) <= two_s2) by (nonlinear_arith)
            requires
                1 <= zoom,
                two_s2 > 0,
        ;
    }
    let half: i64 = half_w as i64;
    ViewWindow { x_min: px - half, x_max: px + half, y_min: py - half, y_max: py + half }
}

} // verus!
