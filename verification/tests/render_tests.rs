use fractal::SCALE;
use fractal::render::{calculate_matrix, map_coord, render, GridDimensions, ViewWindow};

fn standard_window() -> ViewWindow {
    ViewWindow { x_min: -2 * SCALE, x_max: 2 * SCALE, y_min: -SCALE, y_max: SCALE }
}

#[test]
fn frame_has_height_lines_of_width_bytes() {
    let w = standard_window();
    let d = GridDimensions { width: 4, height: 2 };
    let lines = render(&w, &d);
    assert_eq!(lines.len(), 2);
    for line in &lines {
        assert_eq!(line.len(), 4);
    }

    let d2 = GridDimensions { width: 10, height: 5 };
    let lines2 = render(&w, &d2);
    assert_eq!(lines2.len(), 5);
    for line in &lines2 {
        assert_eq!(line.len(), 10);
    }
}

#[test]
fn corner_cells_map_to_documented_plane_points() {
    // Window (-2, 2) x (-1, 1) on a 4x2 grid. Top-left cell maps exactly to
    // (-2, -1); the last cell of each axis maps to the last step before the
    // upper bound: x = 1, y = 0.
    let lo_x = -2 * SCALE;
    let hi_x = 2 * SCALE;
    let lo_y = -SCALE;
    let hi_y = SCALE;
    assert_eq!(map_coord(0, 4, lo_x, hi_x), -2 * SCALE);
    assert_eq!(map_coord(1, 4, lo_x, hi_x), -SCALE);
    assert_eq!(map_coord(3, 4, lo_x, hi_x), SCALE);
    assert_eq!(map_coord(0, 2, lo_y, hi_y), -SCALE);
    assert_eq!(map_coord(1, 2, lo_y, hi_y), 0);
}

#[test]
fn frame_bytes_belong_to_the_density_alphabet() {
    let w = ViewWindow { x_min: -2 * SCALE, x_max: 2 * SCALE, y_min: -SCALE, y_max: SCALE };
    let d = GridDimensions { width: 4, height: 2 };
    for line in render(&w, &d) {
        for byte in line {
            assert!(byte.is_ascii_digit());
        }
    }
}

#[test]
fn rendering_twice_is_byte_identical() {
    let w = ViewWindow {
        x_min: -2 * SCALE,
        x_max: 2 * SCALE,
        y_min: -2 * SCALE,
        y_max: 2 * SCALE,
    };
    let d = GridDimensions { width: 20, height: 10 };
    let first = render(&w, &d);
    let second = render(&w, &d);
    assert_eq!(first, second);
}

#[test]
fn matrix_matches_rendered_glyphs() {
    let w = standard_window();
    let d = GridDimensions { width: 8, height: 4 };
    let matrix = calculate_matrix(&w, &d);
    let lines = render(&w, &d);
    assert_eq!(matrix.len(), 4);
    for (row, line) in matrix.iter().zip(lines.iter()) {
        assert_eq!(row.len(), 8);
        for (count, byte) in row.iter().zip(line.iter()) {
            assert_eq!(fractal::glyph::glyph_for(*count), *byte);
        }
    }
}

#[test]
fn in_set_cells_render_densest_glyph() {
    // A window shrunk to the immediate surroundings of the origin lies
    // entirely inside the set: every cell reaches the cap and renders '1'.
    let w = ViewWindow { x_min: -1000, x_max: 1000, y_min: -1000, y_max: 1000 };
    let d = GridDimensions { width: 3, height: 3 };
    for line in render(&w, &d) {
        assert_eq!(line, vec![b'1', b'1', b'1']);
    }
}
