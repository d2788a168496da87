use fractal::glyph::{density_glyph_at, glyph_for, glyph_index_for};

#[test]
fn alphabet_is_the_fixed_density_string() {
    // "1234567890": index 0 is the densest glyph, index 9 the sparsest.
    let expected = b"1234567890";
    for i in 0..10u8 {
        assert_eq!(density_glyph_at(i), expected[i as usize]);
    }
}

#[test]
fn bucket_boundaries_map_to_documented_indices() {
    let cases: Vec<(u32, u8)> = vec![
        (1, 9),
        (2, 8),
        (5, 8),
        (6, 7),
        (10, 7),
        (11, 6),
        (20, 6),
        (21, 5),
        (40, 5),
        (41, 4),
        (60, 4),
        (61, 3),
        (100, 3),
        (101, 2),
        (200, 2),
        (201, 1),
        (400, 1),
        (401, 0),
        (1000, 0),
        (0, 0),
    ];
    for (iterations, index) in cases {
        assert_eq!(glyph_index_for(iterations), index);
        assert_eq!(glyph_for(iterations), density_glyph_at(index));
    }
}

#[test]
fn zero_iterations_is_bucketed_with_the_cap() {
    // A count of 0 falls to the densest glyph, same as a point that never
    // escapes: the fallback arm of the bucket table.
    assert_eq!(glyph_for(0), glyph_for(1000));
    assert_eq!(glyph_for(0), b'1');
}

#[test]
fn glyph_mapping_is_total() {
    // Any count, however large, maps to a glyph of the alphabet.
    for iterations in [0u32, 7, 399, 402, 123_456, u32::MAX] {
        let g = glyph_for(iterations);
        assert!(g.is_ascii_digit());
        assert!(glyph_index_for(iterations) < 10);
    }
}
