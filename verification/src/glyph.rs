//! Mapping of escape iteration counts to density glyphs.
//!
//! The density alphabet is the fixed 10-character string "1234567890":
//! index 0 (`'1'`) is the densest glyph, index 9 (`'0'`) the sparsest.
//! Buckets widen roughly geometrically; a count of 0, and every count of
//! 401 or more (including the cap), falls to the densest glyph.

use vstd::prelude::*;

verus! {

/// Number of glyphs in the density alphabet.
pub const DENSITY_LEN: u8 = 10;

/// Glyph at `index` of the density alphabet "1234567890": index 0 is `'1'`
/// (densest), index 8 is `'9'`, index 9 is `'0'` (sparsest).
pub open spec fn density_glyph(index: int) -> u8 {
    if 0 <= index < 9 {
        (49 + index) as u8
    } else {
        48u8
    }
}

/// Density-alphabet index of an iteration count: 9 (sparsest) for a count of
/// 1, down to 0 (densest) for 0 or anything above 400.
pub open spec fn glyph_index(iterations: int) -> int {
    if iterations == 1 {
        9
    } else if 2 <= iterations <= 5 {
        8
    } else if 6 <= iterations <= 10 {
        7
    } else if 11 <= iterations <= 20 {
        6
    } else if 21 <= iterations <= 40 {
        5
    } else if 41 <= iterations <= 60 {
        4
    } else if 61 <= iterations <= 100 {
        3
    } else if 101 <= iterations <= 200 {
        2
    } else if 201 <= iterations <= 400 {
        1
    } else {
        0
    }
}

/// Glyph byte for an iteration count: the density glyph at its bucket index.
pub open spec fn glyph_of(iterations: int) -> u8 {
    density_glyph(glyph_index(iterations))
}

/// The bucket index is always a valid index of the density alphabet, for
/// every iteration count: glyph mapping is total.
pub proof fn lemma_glyph_index_in_alphabet(iterations: int)
    ensures
        0 <= glyph_index(iterations) < DENSITY_LEN,
{
}

/// Every glyph the mapping can produce is an ASCII decimal digit.
pub proof fn lemma_glyph_is_digit(iterations: int)
    ensures
        48 <= glyph_of(iterations) <= 57,
{
}

/// Glyph byte of the density alphabet at `index`; `'0'` when `index` is 9 or
/// out of range.
pub fn density_glyph_at(index: u8) -> (g: u8)
    ensures
        g == density_glyph(index as int),
{
    if index < 9 {
        49 + index
    } else {
        48u8
    }
}

/// Bucket index of an iteration count in the density alphabet.
pub fn glyph_index_for(iterations: u32) -> (i: u8)
    ensures
        i as int == glyph_index(iterations as int),
        i < DENSITY_LEN,
{
    if iterations == 1 {
        9
    } else if 2 <= iterations && iterations <= 5 {
        8
    } else if 6 <= iterations && iterations <= 10 {
        7
    } else if 11 <= iterations && iterations <= 20 {
        6
    } else if 21 <= iterations && iterations <= 40 {
        5
    } else if 41 <= iterations && iterations <= 60 {
        4
    } else if 61 <= iterations && iterations <= 100 {
        3
    } else if 101 <= iterations && iterations <= 200 {
        2
    } else if 201 <= iterations && iterations <= 400 {
        1
    } else {
        0
    }
}

/// Glyph byte for an iteration count. Total on all counts.
pub fn glyph_for(iterations: u32) -> (g: u8)
    ensures
        g == glyph_of(iterations as int),
        48 <= g <= 57,
{
    let index = glyph_index_for(iterations);
    density_glyph_at(index)
}

} // verus!
