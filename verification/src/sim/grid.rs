//! The mathematical model of the RGBA material grid.
//!
//! The grid is a row-major sequence of cells of four 32-bit words each:
//! relative permittivity `eps_r`, conductivity `sigma`, source amplitude, and
//! a padding word. Every word is an f32 bit pattern.

use vstd::prelude::*;
use vstd::arithmetic::div_mod::{lemma_fundamental_div_mod, lemma_fundamental_div_mod_converse, lemma_mod_bound};
use crate::sim::params::{F32_ONE, F32_ZERO};

verus! {

/// The three leading words of a cell: `eps_r`, `sigma`, source.
pub type Fill = (u32, u32, u32);

/// Index of the first word of cell `(x, y)` in a grid `w` cells wide.
pub open spec fn cell_base(w: int, x: int, y: int) -> int {
    4 * (y * w + x)
}

/// Column of the cell that holds word `i` of a grid `w` cells wide.
pub open spec fn word_x(i: int, w: int) -> int {
    (i / 4) % w
}

/// Row of the cell that holds word `i` of a grid `w` cells wide.
pub open spec fn word_y(i: int, w: int) -> int {
    (i / 4) / w
}

/// Word `c` (0, 1 or 2) of a fill.
pub open spec fn fill_word(fill: Fill, c: int) -> u32 {
    if c == 0 {
        fill.0
    } else if c == 1 {
        fill.1
    } else {
        fill.2
    }
}

/// A grid of `cells` vacuum cells: `[1.0, 0.0, 0.0, 0.0]`.
pub open spec fn vacuum_grid(cells: nat) -> Seq<u32> {
    Seq::new(4 * cells, |i: int| if i % 4 == 0 { F32_ONE } else { F32_ZERO })
}

/// `data` with the three leading words of every cell in `region` replaced by
/// `fill`; padding words and the cells outside `region` are kept.
pub open spec fn paint(data: Seq<u32>, w: int, region: spec_fn(int, int) -> bool, fill: Fill) -> Seq<u32> {
    Seq::new(
        data.len(),
        |i: int|
            if i % 4 < 3 && region(word_x(i, w), word_y(i, w)) {
                fill_word(fill, i % 4)
            } else {
                data[i]
            },
    )
}

/// `data` with the source word of every cell where `level` gives a value
/// replaced by that value.
pub open spec fn paint_sources(data: Seq<u32>, w: int, level: spec_fn(int, int) -> Option<u32>) -> Seq<u32> {
    Seq::new(
        data.len(),
        |i: int|
            if i % 4 == 2 && level(word_x(i, w), word_y(i, w)) is Some {
                level(word_x(i, w), word_y(i, w))->0
            } else {
                data[i]
            },
    )
}

/// `data` after the three leading words of cell `(x, y)` are set to `fill`.
pub open spec fn write_cell(data: Seq<u32>, w: int, x: int, y: int, fill: Fill) -> Seq<u32> {
    let b = cell_base(w, x, y);
    data.update(b, fill.0).update(b + 1, fill.1).update(b + 2, fill.2)
}

/// `data` after the source word of cell `(x, y)` is set to `v`.
pub open spec fn write_source(data: Seq<u32>, w: int, x: int, y: int, v: u32) -> Seq<u32> {
    data.update(cell_base(w, x, y) + 2, v)
}

/// The words of cell `(x, y)` lie at `cell_base .. cell_base + 4`, inside a
/// grid of `w * h` cells, and map back to `(x, y)`.
pub proof fn lemma_cell_coords(w: int, h: int, x: int, y: int)
    requires
        0 <= x < w,
        0 <= y < h,
    ensures
        0 <= y * w + x < w * h,
        0 <= cell_base(w, x, y),
        cell_base(w, x, y) + 4 <= 4 * (w * h),
        word_x(cell_base(w, x, y), w) == x,
        word_y(cell_base(w, x, y), w) == y,
        word_x(cell_base(w, x, y) + 1, w) == x,
        word_y(cell_base(w, x, y) + 1, w) == y,
        word_x(cell_base(w, x, y) + 2, w) == x,
        word_y(cell_base(w, x, y) + 2, w) == y,
        word_x(cell_base(w, x, y) + 3, w) == x,
        word_y(cell_base(w, x, y) + 3, w) == y,
{
    let p = y * w + x;
    assert(0 <= y * w <= (h - 1) * w) by (nonlinear_arith)
        requires
            0 <= y < h,
            0 < w,
    ;
    assert((h - 1) * w + w == w * h) by (nonlinear_arith);
    lemma_fundamental_div_mod_converse(p, w, y, x);
    assert((4 * p) / 4 == p);
    assert((4 * p + 1) / 4 == p);
    assert((4 * p + 2) / 4 == p);
    assert((4 * p + 3) / 4 == p);
}

/// Word `i` of a grid of `w * h` cells belongs to an in-grid cell, at offset
/// `i % 4` from that cell's first word.
pub proof fn lemma_word_coords(w: int, h: int, i: int)
    requires
        0 < w,
        0 <= i < 4 * (w * h),
    ensures
        0 <= word_x(i, w) < w,
        0 <= word_y(i, w) < h,
        i == cell_base(w, word_x(i, w), word_y(i, w)) + i % 4,
{
    let p = i / 4;
    lemma_fundamental_div_mod(p, w);
    lemma_mod_bound(p, w);
    let q = p / w;
    let r = p % w;
    assert(p == w * q + r);
    assert(0 <= q) by (nonlinear_arith)
        requires
            p == w * q + r,
            0 <= r < w,
            0 <= p,
    ;
    assert(q < h) by (nonlinear_arith)
        requires
            p == w * q + r,
            0 <= r,
            p < w * h,
            0 < w,
    ;
    assert(q * w == w * q) by (nonlinear_arith);
}

/// Writing `fill` into an in-grid cell of a painted grid paints the region
/// grown by that cell; `grown` may be any region that agrees with
/// `region ∪ {(x, y)}` on the grid.
pub proof fn lemma_paint_write(
    data: Seq<u32>,
    w: int,
    h: int,
    region: spec_fn(int, int) -> bool,
    grown: spec_fn(int, int) -> bool,
    x: int,
    y: int,
    fill: Fill,
)
    requires
        0 < w,
        data.len() == 4 * (w * h),
        0 <= x < w,
        0 <= y < h,
        forall|a: int, b: int|
            0 <= a < w && 0 <= b < h ==> #[trigger] grown(a, b) == (region(a, b) || (a == x && b
                == y)),
    ensures
        paint(data, w, grown, fill) == write_cell(paint(data, w, region, fill), w, x, y, fill),
{
    lemma_cell_coords(w, h, x, y);
    let lhs = paint(data, w, grown, fill);
    let rhs = write_cell(paint(data, w, region, fill), w, x, y, fill);
    let base = cell_base(w, x, y);
    assert forall|i: int| 0 <= i < lhs.len() implies lhs[i] == rhs[i] by {
        lemma_word_coords(w, h, i);
        let a = word_x(i, w);
        let b = word_y(i, w);
        assert(grown(a, b) == (region(a, b) || (a == x && b == y)));
        if base <= i < base + 4 {
        } else {
            assert(!(a == x && b == y));
        }
    }
    assert(lhs =~= rhs);
}

/// Painting depends only on which in-grid cells the region holds.
pub proof fn lemma_paint_congruent(
    data: Seq<u32>,
    w: int,
    h: int,
    r1: spec_fn(int, int) -> bool,
    r2: spec_fn(int, int) -> bool,
    fill: Fill,
)
    requires
        0 < w,
        data.len() == 4 * (w * h),
        forall|a: int, b: int| 0 <= a < w && 0 <= b < h ==> #[trigger] r1(a, b) == r2(a, b),
    ensures
        paint(data, w, r1, fill) == paint(data, w, r2, fill),
{
    let lhs = paint(data, w, r1, fill);
    let rhs = paint(data, w, r2, fill);
    assert forall|i: int| 0 <= i < lhs.len() implies lhs[i] == rhs[i] by {
        lemma_word_coords(w, h, i);
        assert(r1(word_x(i, w), word_y(i, w)) == r2(word_x(i, w), word_y(i, w)));
    }
    assert(lhs =~= rhs);
}

/// Painting the empty region changes nothing.
pub proof fn lemma_paint_nothing(data: Seq<u32>, w: int, h: int, region: spec_fn(int, int) -> bool, fill: Fill)
    requires
        0 < w,
        data.len() == 4 * (w * h),
        forall|a: int, b: int| 0 <= a < w && 0 <= b < h ==> !#[trigger] region(a, b),
    ensures
        paint(data, w, region, fill) == data,
{
    let lhs = paint(data, w, region, fill);
    assert forall|i: int| 0 <= i < lhs.len() implies lhs[i] == data[i] by {
        lemma_word_coords(w, h, i);
        assert(!region(word_x(i, w), word_y(i, w)));
    }
    assert(lhs =~= data);
}

/// Writing a source value into an in-grid cell of a grid with sources grows
/// the source map by that cell; `grown` may be any map that agrees with the
/// grown one on the grid.
pub proof fn lemma_sources_write(
    data: Seq<u32>,
    w: int,
    h: int,
    level: spec_fn(int, int) -> Option<u32>,
    grown: spec_fn(int, int) -> Option<u32>,
    x: int,
    y: int,
    v: u32,
)
    requires
        0 < w,
        data.len() == 4 * (w * h),
        0 <= x < w,
        0 <= y < h,
        forall|a: int, b: int|
            0 <= a < w && 0 <= b < h ==> #[trigger] grown(a, b) == (if a == x && b == y {
                Some(v)
            } else {
                level(a, b)
            }),
    ensures
        paint_sources(data, w, grown) == write_source(paint_sources(data, w, level), w, x, y, v),
{
    lemma_cell_coords(w, h, x, y);
    let lhs = paint_sources(data, w, grown);
    let rhs = write_source(paint_sources(data, w, level), w, x, y, v);
    let base = cell_base(w, x, y);
    assert forall|i: int| 0 <= i < lhs.len() implies lhs[i] == rhs[i] by {
        lemma_word_coords(w, h, i);
        let a = word_x(i, w);
        let b = word_y(i, w);
        assert(grown(a, b) == (if a == x && b == y {
            Some(v)
        } else {
            level(a, b)
        }));
        if base <= i < base + 4 {
        } else {
            assert(!(a == x && b == y));
        }
    }
    assert(lhs =~= rhs);
}

/// Setting sources depends only on the source map's values on the grid.
pub proof fn lemma_sources_congruent(
    data: Seq<u32>,
    w: int,
    h: int,
    l1: spec_fn(int, int) -> Option<u32>,
    l2: spec_fn(int, int) -> Option<u32>,
)
    requires
        0 < w,
        data.len() == 4 * (w * h),
        forall|a: int, b: int| 0 <= a < w && 0 <= b < h ==> #[trigger] l1(a, b) == l2(a, b),
    ensures
        paint_sources(data, w, l1) == paint_sources(data, w, l2),
{
    let lhs = paint_sources(data, w, l1);
    let rhs = paint_sources(data, w, l2);
    assert forall|i: int| 0 <= i < lhs.len() implies lhs[i] == rhs[i] by {
        lemma_word_coords(w, h, i);
        assert(l1(word_x(i, w), word_y(i, w)) == l2(word_x(i, w), word_y(i, w)));
    }
    assert(lhs =~= rhs);
}

/// An empty source map changes nothing.
pub proof fn lemma_sources_nothing(data: Seq<u32>, w: int, h: int, level: spec_fn(int, int) -> Option<u32>)
    requires
        0 < w,
        data.len() == 4 * (w * h),
        forall|a: int, b: int| 0 <= a < w && 0 <= b < h ==> #[trigger] level(a, b) is None,
    ensures
        paint_sources(data, w, level) == data,
{
    let lhs = paint_sources(data, w, level);
    assert forall|i: int| 0 <= i < lhs.len() implies lhs[i] == data[i] by {
        lemma_word_coords(w, h, i);
        assert(level(word_x(i, w), word_y(i, w)) is None);
    }
    assert(lhs =~= data);
}

/// Painting two regions with the same fill, one after the other, paints
/// their union.
pub proof fn lemma_paint_union(
    data: Seq<u32>,
    w: int,
    r1: spec_fn(int, int) -> bool,
    r2: spec_fn(int, int) -> bool,
    fill: Fill,
)
    ensures
        paint(paint(data, w, r1, fill), w, r2, fill) == paint(
            data,
            w,
            |a: int, b: int| r1(a, b) || r2(a, b),
            fill,
        ),
{
    assert(paint(paint(data, w, r1, fill), w, r2, fill) =~= paint(
        data,
        w,
        |a: int, b: int| r1(a, b) || r2(a, b),
        fill,
    ));
}

} // verus!
