//! Frame renderer: maps every cell of a character grid to a plane point,
//! evaluates its escape count, and emits one line of density glyphs per row.
//!
//! Pixel-to-plane mapping is linear and row-major with no vertical flip:
//! column 0 maps to `x_min`, row 0 maps to `y_min`, and cell `(col, row)`
//! maps to `(col / width, row / height)` of the way across the window.

use vstd::prelude::*;
use crate::fixed::{tdiv, tdiv_i128, lemma_tdiv_bound};
use crate::escape::{escape_iterations, iterations_to_escape};
use crate::glyph::{glyph_of, glyph_for};

verus! {

/// Largest raw fixed-point magnitude a window bound may have. Keeps every
/// intermediate of the pixel-to-plane mapping inside the machine integers.
pub const COORD_LIMIT: i64 = 4_000_000_000_000;

/// The rectangle of the complex plane visible in one frame, in raw
/// fixed-point coordinates.
#[derive(Clone, Copy, Debug, PartialEq, Eq, Structural)]
pub struct ViewWindow {
    pub x_min: i64,
    pub x_max: i64,
    pub y_min: i64,
    pub y_max: i64,
}

impl ViewWindow {
    /// Well-formed window: each axis is a non-empty interval within the
    /// coordinate limit.
    pub open spec fn wf(self) -> bool {
        &&& -COORD_LIMIT <= self.x_min < self.x_max <= COORD_LIMIT
        &&& -COORD_LIMIT <= self.y_min < self.y_max <= COORD_LIMIT
    }
}

/// Size of the character grid: positive columns and rows.
#[derive(Clone, Copy, Debug, PartialEq, Eq, Structural)]
pub struct GridDimensions {
    pub width: usize,
    pub height: usize,
}

impl GridDimensions {
    /// Well-formed dimensions: both sides positive.
    pub open spec fn wf(self) -> bool {
        0 < self.width && 0 < self.height
    }
}

/// Plane coordinate of grid index `c` of `n` along the axis `[lo, hi)`:
/// `(c / n) * (hi - lo) + lo` in fixed point.
pub open spec fn map_coord_spec(c: int, n: int, lo: int, hi: int) -> int
    recommends
        0 < n,
{
    tdiv(c * (hi - lo), n) + lo
}

/// Escape count of the plane point under grid cell `(col, row)`.
pub open spec fn cell_iterations(w: ViewWindow, d: GridDimensions, row: int, col: int) -> nat {
    escape_iterations(
        map_coord_spec(col, d.width as int, w.x_min as int, w.x_max as int),
        map_coord_spec(row, d.height as int, w.y_min as int, w.y_max as int),
    )
}

/// Text line of a frame: the glyphs of row `row`, in column order.
pub open spec fn line_of(w: ViewWindow, d: GridDimensions, row: int) -> Seq<u8> {
    Seq::new(d.width as nat, |col: int| glyph_of(cell_iterations(w, d, row, col) as int))
}

/// The whole frame: one line per row, in row order.
pub open spec fn frame_of(w: ViewWindow, d: GridDimensions) -> Seq<Seq<u8>> {
    Seq::new(d.height as nat, |row: int| line_of(w, d, row))
}

/// A frame is a function of the window and dimensions alone: rendering the
/// same window and dimensions twice yields byte-identical output.
pub proof fn lemma_render_idempotent(
    w: ViewWindow,
    d: GridDimensions,
    first: Seq<Seq<u8>>,
    second: Seq<Seq<u8>>,
)
    requires
        first == frame_of(w, d),
        second == frame_of(w, d),
    ensures
        first == second,
{
}

/// Plane coordinate of grid index `c` of `n` along the axis `[lo, hi)`.
/// The result lies in `[lo, hi)`; index 0 maps to `lo` exactly.
pub fn map_coord(c: usize, n: usize, lo: i64, hi: i64) -> (r: i64)
    requires
        c < n,
        -COORD_LIMIT <= lo < hi,
        hi <= COORD_LIMIT,
    ensures
        r as int == map_coord_spec(c as int, n as int, lo as int, hi as int),
        lo <= r < hi,
        c == 0 ==> r == lo,
{
    let span: i64 = hi - lo;
    proof {
        assert(0 <= (c as int) * (span as int) <= (u64::MAX as int) * 8_000_000_000_000int)
            by (nonlinear_arith)
            requires
                0 <= c <= u64::MAX,
                1 <= span <= 8_000_000_000_000int,
        ;
    }
    let prod: i128 = (c as i128) * (span as i128);
    proof {
        assert(0 <= prod && prod < (n as int) * (span as int) && prod <= (span as int) * (
        n as int) && (-(span as int)) * (n as int) <= prod) by (nonlinear_arith)
            requires
                prod == (c as int) * (span as int),
                0 <= c < n,
                span >= 1,
        ;
    }
    let q: i128 = tdiv_i128(prod, n as i128);
    proof {
        lemma_tdiv_bound(prod as int, n as int, span as int);
        assert(q >= 0) by (nonlinear_arith)
            requires
                q == prod as int / n as int,
                prod >= 0,
                n > 0,
        ;
        assert(q < span) by (nonlinear_arith)
            requires
                q == prod as int / n as int,
                0 <= prod,
                prod < (n as int) * (span as int),
                n > 0,
        ;
        if c == 0 {
            assert(prod == 0);
            assert(q == 0) by (nonlinear_arith)
                requires
                    q == 0int / n as int,
                    n > 0,
            ;
        }
    }
    (q as i64) + lo
}

/// Grid of escape counts for one frame: `height` rows of `width` cells,
/// cell `(row, col)` holding the escape count of its plane point.
pub fn calculate_matrix(w: &ViewWindow, d: &GridDimensions) -> (m: Vec<Vec<u32>>)
    requires
        w.wf(),
        d.wf(),
    ensures
        m@.len() == d.height,
        forall|r: int| 0 <= r < d.height ==> (#[trigger] m@[r])@.len() == d.width,
        forall|r: int, c: int|
            0 <= r < d.height && 0 <= c < d.width ==> (#[trigger] m@[r]@[c]) as nat
                == cell_iterations(*w, *d, r, c),
{
    let mut m: Vec<Vec<u32>> = Vec::new();
    let mut row: usize = 0;
    while row < d.height
        invariant
            w.wf(),
            d.wf(),
            row <= d.height,
            m@.len() == row,
            forall|r: int| 0 <= r < row ==> (#[trigger] m@[r])@.len() == d.width,
            forall|r: int, c: int|
                0 <= r < row && 0 <= c < d.width ==> (#[trigger] m@[r]@[c]) as nat
                    == cell_iterations(*w, *d, r, c),
        decreases d.height - row,
    {
        let y: i64 = map_coord(row, d.height, w.y_min, w.y_max);
        let mut row_vec: Vec<u32> = Vec::new();
        let mut col: usize = 0;
        while col < d.width
            invariant
                w.wf(),
                d.wf(),
                row < d.height,
                col <= d.width,
                y as int == map_coord_spec(row as int, d.height as int, w.y_min as int, w.y_max as int),
                row_vec@.len() == col,
                forall|c: int|
                    0 <= c < col ==> (#[trigger] row_vec@[c]) as nat == cell_iterations(
                        *w,
                        *d,
                        row as int,
                        c,
                    ),
            decreases d.width - col,
        {
            let x: i64 = map_coord(col, d.width, w.x_min, w.x_max);
            let val: u32 = iterations_to_escape(x, y);
            row_vec.push(val);
            col = col + 1;
        }
        m.push(row_vec);
        row = row + 1;
    }
    m
}

/// Render one frame: one line of glyph bytes per grid row, each line exactly
/// `width` bytes, each byte the density glyph of its cell's escape count.
pub fn render(w: &ViewWindow, d: &GridDimensions) -> (lines: Vec<Vec<u8>>)
    requires
        w.wf(),
        d.wf(),
    ensures
        lines@.len() == d.height,
        forall|r: int| 0 <= r < d.height ==> (#[trigger] lines@[r])@.len() == d.width,
        forall|r: int| 0 <= r < d.height ==> (#[trigger] lines@[r])@ == line_of(*w, *d, r),
        lines@.map_values(|l: Vec<u8>| l@) == frame_of(*w, *d),
{
    let m: Vec<Vec<u32>> = calculate_matrix(w, d);
    let mut lines: Vec<Vec<u8>> = Vec::new();
    let mut row: usize = 0;
    while row < d.height
        invariant
            w.wf(),
            d.wf(),
            row <= d.height,
            m@.len() == d.height,
            forall|r: int| 0 <= r < d.height ==> (#[trigger] m@[r])@.len() == d.width,
            forall|r: int, c: int|
                0 <= r < d.height && 0 <= c < d.width ==> (#[trigger] m@[r]@[c]) as nat
                    == cell_iterations(*w, *d, r, c),
            lines@.len() == row,
            forall|r: int| 0 <= r < row ==> (#[trigger] lines@[r])@ == line_of(*w, *d, r),
        decreases d.height - row,
    {
        let mrow: &Vec<u32> = &m[row];
        let mut line: Vec<u8> = Vec::new();
        let mut col: usize = 0;
        while col < d.width
            invariant
                w.wf(),
                d.wf(),
                row < d.height,
                col <= d.width,
                mrow@.len() == d.width,
                forall|c: int|
                    0 <= c < d.width ==> (#[trigger] mrow@[c]) as nat == cell_iterations(
                        *w,
                        *d,
                        row as int,
                        c,
                    ),
                line@.len() == col,
                forall|c: int|
                    0 <= c < col ==> (#[trigger] line@[c]) == glyph_of(cell_iterations(
                        *w,
                        *d,
                        row as int,
                        c,
                    ) as int),
            decreases d.width - col,
        {
            let g: u8 = glyph_for(mrow[col]);
            line.push(g);
            col = col + 1;
        }
        proof {
            assert(line@ =~= line_of(*w, *d, row as int));
        }
        lines.push(line);
        row = row + 1;
    }
    proof {
        assert(lines@.map_values(|l: Vec<u8>| l@) =~= frame_of(*w, *d));
    }
    lines
}

} // verus!
