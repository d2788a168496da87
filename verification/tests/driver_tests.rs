use fractal::SCALE;
use fractal::driver::{frame_pan, frame_window, frame_zoom, progress};
use fractal::render::ViewWindow;

#[test]
fn progress_runs_from_zero_to_one() {
    assert_eq!(progress(0, 100), 0);
    assert_eq!(progress(50, 100), SCALE / 2);
    assert_eq!(progress(100, 100), SCALE);
}

#[test]
fn frame_zero_is_untransformed() {
    // At frame 0 the zoom is exactly 1, the pan is exactly 0, and the window
    // is the base window [-2, 2] x [-2, 2].
    let target_zoom = 5 * SCALE;
    assert_eq!(frame_zoom(target_zoom, 0, 100), SCALE);
    assert_eq!(frame_pan(3 * SCALE / 2, 0, 100), 0);
    assert_eq!(frame_pan(-SCALE / 4, 0, 100), 0);
    let w = frame_window(SCALE, 0, 0);
    let base = ViewWindow {
        x_min: -2 * SCALE,
        x_max: 2 * SCALE,
        y_min: -2 * SCALE,
        y_max: 2 * SCALE,
    };
    assert_eq!(w, base);
}

#[test]
fn final_frame_reaches_the_targets_exactly() {
    let target_zoom = 5 * SCALE;
    let dx = 3 * SCALE / 2;
    let dy = -SCALE / 4;
    assert_eq!(frame_zoom(target_zoom, 100, 100), target_zoom);
    assert_eq!(frame_pan(dx, 100, 100), dx);
    assert_eq!(frame_pan(dy, 100, 100), dy);
}

#[test]
fn zooming_out_reaches_a_fractional_target() {
    // A target zoom below 1 interpolates downward and lands exactly on it.
    let target_zoom = SCALE / 2;
    assert_eq!(frame_zoom(target_zoom, 0, 100), SCALE);
    assert_eq!(frame_zoom(target_zoom, 100, 100), target_zoom);
}

#[test]
fn window_halves_when_zoom_doubles() {
    let w = frame_window(2 * SCALE, 0, 0);
    assert_eq!(w.x_min, -SCALE);
    assert_eq!(w.x_max, SCALE);
    assert_eq!(w.y_min, -SCALE);
    assert_eq!(w.y_max, SCALE);
}

#[test]
fn window_is_centred_on_the_pan_offset() {
    let px = SCALE / 2;
    let py = -SCALE / 4;
    let w = frame_window(SCALE, px, py);
    assert_eq!(w.x_min, px - 2 * SCALE);
    assert_eq!(w.x_max, px + 2 * SCALE);
    assert_eq!(w.y_min, py - 2 * SCALE);
    assert_eq!(w.y_max, py + 2 * SCALE);
}
