//! Optical scenes and painting tools that edit the material grid.

use vstd::prelude::*;
use crate::sim::params::{
    SimParams, F32_ONE, F32_ZERO, F32_TWO, F32_TWO_AND_QUARTER, F32_FOUR, F32_FREQ_DEFAULT,
    SOURCE_CW,
};
use crate::sim::grid::{
    Fill, cell_base, vacuum_grid, paint, paint_sources, write_cell, write_source, word_x, word_y,
    lemma_cell_coords, lemma_word_coords, lemma_paint_write, lemma_paint_congruent,
    lemma_paint_nothing, lemma_paint_union, lemma_sources_write, lemma_sources_congruent,
    lemma_sources_nothing,
};
use crate::sim::solver::{Solver, MAX_GRID_SIDE, request_clear};

verus! {

/// The ready-made optical scenes.
#[derive(Clone, Copy, Debug, PartialEq, Eq, Structural)]
pub enum Preset {
    Empty,
    SingleSlit,
    DoubleSlit,
    ConvexLens,
    Prism,
    DiffractionGrating,
    Waveguide,
}

/// What a brush paints.
#[derive(Clone, Copy, Debug, PartialEq, Eq, Structural)]
pub enum BrushType {
    /// Erases to vacuum.
    Vacuum,
    /// Perfect electrical conductor: a metal barrier.
    PEC,
    /// Dielectric with `eps_r = 2.25`.
    Glass,
    /// Wave source injection.
    Source,
}

/// The parts of the preset geometry that are computed in floating point,
/// each given as the cells (or values) that computation yields.
pub struct CurvedFeatures {
    /// Prism: the cells of the tilted line source, in drawing order.
    pub source_line: Vec<(u32, u32)>,
    /// Waveguide: for each column `x` in `width / 4 .. width / 2`, and in it
    /// for each offset `dy` in `-7 ..= 7`, the rows of the upper and the
    /// lower branch; entry `(x - width / 4) * 15 + dy + 7`.
    pub branch_rows: Vec<(u32, u32)>,
    /// Waveguide: the source amplitude (f32 bits) at offset `dy`, entry
    /// `dy + 7`.
    pub mode_profile: Vec<u32>,
}

// ---------------------------------------------------------------------------
// What each scene and brush paints
// ---------------------------------------------------------------------------

/// Fill of a perfect conductor: `[0.0, 0.0, 0.0]`.
pub open spec fn pec_fill() -> Fill {
    (F32_ZERO, F32_ZERO, F32_ZERO)
}

/// Fill of vacuum: `[1.0, 0.0, 0.0]`.
pub open spec fn vacuum_fill() -> Fill {
    (F32_ONE, F32_ZERO, F32_ZERO)
}

/// Fill of glass: `[2.25, 0.0, 0.0]`.
pub open spec fn glass_fill() -> Fill {
    (F32_TWO_AND_QUARTER, F32_ZERO, F32_ZERO)
}

/// Fill of the high-index waveguide core: `[4.0, 0.0, 0.0]`.
pub open spec fn guide_fill() -> Fill {
    (F32_FOUR, F32_ZERO, F32_ZERO)
}

/// Fill of a source cell in vacuum: `[1.0, 0.0, 1.0]`.
pub open spec fn source_fill() -> Fill {
    (F32_ONE, F32_ZERO, F32_ONE)
}

/// The fill a brush paints.
pub open spec fn brush_fill(brush: BrushType) -> Fill {
    match brush {
        BrushType::Vacuum => vacuum_fill(),
        BrushType::PEC => pec_fill(),
        BrushType::Glass => glass_fill(),
        BrushType::Source => source_fill(),
    }
}

/// The fill a preset's structures are made of.
pub open spec fn preset_fill(preset: Preset) -> Fill {
    match preset {
        Preset::ConvexLens | Preset::Prism => glass_fill(),
        Preset::Waveguide => guide_fill(),
        _ => pec_fill(),
    }
}

pub open spec fn abs(v: int) -> int {
    if v < 0 {
        -v
    } else {
        v
    }
}

/// Whether row `y` of the barrier column is metal: outside the 12-cell
/// slit (single slit), outside both 8-cell slits 24 cells apart (double
/// slit), or outside the 3-cell openings of period 8 (grating).
pub open spec fn barrier_row(preset: Preset, h: int, y: int) -> bool {
    match preset {
        Preset::SingleSlit => abs(y - h / 2) > 6,
        Preset::DoubleSlit => !(abs(y - (h / 2 - 12)) < 4) && !(abs(y - (h / 2 + 12)) < 4),
        Preset::DiffractionGrating => y % 8 >= 3,
        _ => false,
    }
}

/// Twice the signed area of the triangle `p1 p2 p3`.
pub open spec fn double_area(x1: int, y1: int, x2: int, y2: int, x3: int, y3: int) -> int {
    x1 * (y2 - y3) + x2 * (y3 - y1) + x3 * (y1 - y2)
}

/// Cell `(x, y)` lies in the convex lens: the intersection of two discs of
/// radius 240 centred 216 cells left and right of the grid centre.
pub open spec fn in_lens(w: int, h: int, x: int, y: int) -> bool {
    let cx1 = w / 2 - 216;
    let cx2 = w / 2 + 216;
    let cy = h / 2;
    &&& (x - cx1) * (x - cx1) + (y - cy) * (y - cy) <= 240 * 240
    &&& (x - cx2) * (x - cx2) + (y - cy) * (y - cy) <= 240 * 240
}

/// Cell `(x, y)` lies in the closed triangle `A = (X - 60, Y - 70)`,
/// `B = (X - 60, Y + 70)`, `C = (X + 60, Y)` around the grid centre
/// `(X, Y)`: the three sub-triangles it forms with the sides have the
/// triangle's area in sum.
pub open spec fn in_prism(w: int, h: int, x: int, y: int) -> bool {
    let ax = w / 2 - 60;
    let ay = h / 2 - 70;
    let bx = w / 2 - 60;
    let by = h / 2 + 70;
    let cx = w / 2 + 60;
    let cy = h / 2;
    abs(double_area(x, y, bx, by, cx, cy)) + abs(double_area(ax, ay, x, y, cx, cy)) + abs(
        double_area(ax, ay, bx, by, x, y),
    ) == abs(double_area(ax, ay, bx, by, cx, cy))
}

/// Offset `j` of column `x` of the curved branches lands on row `y`, by
/// the rows given for it.
pub open spec fn branch_row_hit(rows: Seq<(u32, u32)>, w: int, x: int, j: int, y: int) -> bool {
    rows[(x - w / 4) * 15 + j].0 == y || rows[(x - w / 4) * 15 + j].1 == y
}

/// The waveguide cells of column `x` among its first `k` cross-section
/// offsets: the straight stem (`x < w / 4`), the two curved branches read
/// from `rows` (`x < w / 2`), or the two straight branches 60 rows above and
/// below the centre.
pub open spec fn guide_column(w: int, h: int, rows: Seq<(u32, u32)>, x: int, k: int, y: int) -> bool {
    let yc = h / 2;
    if x < w / 4 {
        yc - 7 <= y < yc - 7 + k
    } else if x < w / 2 {
        exists|j: int| 0 <= j < k && #[trigger] branch_row_hit(rows, w, x, j, y)
    } else {
        (yc - 67 <= y < yc - 67 + k) || (yc + 53 <= y < yc + 53 + k)
    }
}

/// Whether a preset puts its structure (barrier, glass or waveguide core)
/// into cell `(x, y)`.
pub open spec fn preset_covers(preset: Preset, w: int, h: int, f: CurvedFeatures, x: int, y: int) -> bool {
    match preset {
        Preset::Empty => false,
        Preset::SingleSlit | Preset::DoubleSlit | Preset::DiffractionGrating => x == w / 3
            && barrier_row(preset, h, y),
        Preset::ConvexLens => in_lens(w, h, x, y),
        Preset::Prism => in_prism(w, h, x, y),
        Preset::Waveguide => guide_column(w, h, f.branch_rows@, x, 15, y),
    }
}

/// The source amplitude a preset puts into cell `(x, y)`, if any: a plane
/// source in column 24 between rows 32 and `h - 32`, the prism's tilted line,
/// or the mode profile across the waveguide stem in column 12.
pub open spec fn preset_source_at(preset: Preset, w: int, h: int, f: CurvedFeatures, x: int, y: int) -> Option<u32> {
    match preset {
        Preset::Empty => None,
        Preset::SingleSlit | Preset::DoubleSlit | Preset::ConvexLens | Preset::DiffractionGrating => {
            if x == 24 && 32 <= y < h - 32 {
                Some(F32_ONE)
            } else {
                None
            }
        },
        Preset::Prism => {
            if exists|j: int|
                0 <= j < f.source_line@.len() && #[trigger] f.source_line@[j].0 == x
                    && f.source_line@[j].1 == y {
                Some(F32_ONE)
            } else {
                None
            }
        },
        Preset::Waveguide => {
            if x == 12 && h / 2 - 7 <= y <= h / 2 + 7 {
                Some(f.mode_profile@[y - h / 2 + 7])
            } else {
                None
            }
        },
    }
}

/// The material grid of a preset on a `w` x `h` grid: vacuum, the preset's
/// structure painted over it, then its sources.
pub open spec fn preset_material(preset: Preset, w: int, h: int, f: CurvedFeatures) -> Seq<u32> {
    paint_sources(
        paint(
            vacuum_grid((w * h) as nat),
            w,
            |a: int, b: int| preset_covers(preset, w, h, f, a, b),
            preset_fill(preset),
        ),
        w,
        |a: int, b: int| preset_source_at(preset, w, h, f, a, b),
    )
}

/// The grid heights a preset can be drawn on: the source column needs at
/// least 32 rows, the waveguide's branches 60 rows each side of the centre.
pub open spec fn preset_fits(preset: Preset, h: int) -> bool {
    match preset {
        Preset::Empty | Preset::Prism => true,
        Preset::Waveguide => h >= 120,
        _ => h >= 32,
    }
}

impl CurvedFeatures {
    /// The features hold what the preset reads from them on a grid `w`
    /// cells wide.
    pub open spec fn fits(&self, preset: Preset, w: int) -> bool {
        preset == Preset::Waveguide ==> {
            &&& self.branch_rows@.len() == 15 * (w / 2 - w / 4)
            &&& self.mode_profile@.len() == 15
        }
    }
}

/// `new` differs from `old` at most in the material grid, which keeps its
/// size.
pub open spec fn only_material_changed(old: Solver, new: Solver) -> bool {
    &&& new.params == old.params
    &&& new.step_count == old.step_count
    &&& new.is_running == old.is_running
    &&& new.steps_per_frame == old.steps_per_frame
    &&& new.step_requested == old.step_requested
    &&& new.material_dirty == old.material_dirty
    &&& new.material_data@.len() == old.material_data@.len()
}

/// The parameters a preset leaves: a clear request and a continuous-wave
/// source of frequency 0.08 and amplitude 2.
pub open spec fn preset_params(params: SimParams) -> SimParams {
    SimParams {
        source_freq: F32_FREQ_DEFAULT,
        source_amp: F32_TWO,
        source_type: SOURCE_CW,
        ..request_clear(params)
    }
}

/// `new` is `old` after `apply_preset(old, preset, f)`.
pub open spec fn preset_applied(old: Solver, new: Solver, preset: Preset, f: CurvedFeatures) -> bool {
    &&& new.wf()
    &&& new.params == preset_params(old.params)
    &&& new.material_data@ == preset_material(preset, old.w(), old.h(), f)
    &&& new.material_dirty
    &&& new.step_count == old.step_count
    &&& new.is_running == old.is_running
    &&& new.steps_per_frame == old.steps_per_frame
    &&& new.step_requested == old.step_requested
}

/// The grid holds at most `MAX_GRID_SIDE ^ 2` cells.
proof fn lemma_grid_size(s: Solver)
    requires
        s.wf(),
    ensures
        s.w() * s.h() <= 67108864,
        s.material_data@.len() <= 268435456,
{
    assert(s.w() * s.h() <= 8192 * 8192) by (nonlinear_arith)
        requires
            s.w() <= 8192,
            s.h() <= 8192,
    ;
}

// ---------------------------------------------------------------------------
// Cell writers
// ---------------------------------------------------------------------------

/// Sets the three leading words of cell `(x, y)`; a cell outside the grid
/// is ignored.
fn set_material_pixel(solver: &mut Solver, x: u32, y: u32, eps_r: u32, sigma: u32, source: u32)
    requires
        old(solver).wf(),
    ensures
        final(solver).wf(),
        only_material_changed(*old(solver), *final(solver)),
        final(solver).material_data@ == (if x < old(solver).params.width && y
            < old(solver).params.height {
            write_cell(
                old(solver).material_data@,
                old(solver).w(),
                x as int,
                y as int,
                (eps_r, sigma, source),
            )
        } else {
            old(solver).material_data@
        }),
{
    let w = solver.params.width;
    let h = solver.params.height;
    if x >= w || y >= h {
        return ;
    }
    proof {
        lemma_cell_coords(w as int, h as int, x as int, y as int);
        lemma_grid_size(*solver);
    }
    let idx = ((y * w + x) * 4) as usize;
    solver.material_data[idx] = eps_r;
    solver.material_data[idx + 1] = sigma;
    solver.material_data[idx + 2] = source;
}

/// Sets the source word of cell `(x, y)`; a cell outside the grid is
/// ignored.
fn set_source_pixel(solver: &mut Solver, x: u32, y: u32, intensity: u32)
    requires
        old(solver).wf(),
    ensures
        final(solver).wf(),
        only_material_changed(*old(solver), *final(solver)),
        final(solver).material_data@ == (if x < old(solver).params.width && y
            < old(solver).params.height {
            write_source(old(solver).material_data@, old(solver).w(), x as int, y as int, intensity)
        } else {
            old(solver).material_data@
        }),
{
    let w = solver.params.width;
    let h = solver.params.height;
    if x >= w || y >= h {
        return ;
    }
    proof {
        lemma_cell_coords(w as int, h as int, x as int, y as int);
        lemma_grid_size(*solver);
    }
    let idx = ((y * w + x) * 4) as usize;
    solver.material_data[idx + 2] = intensity;
}

/// Resets every cell to vacuum `[1.0, 0.0, 0.0, 0.0]`: zeroes the grid,
/// then sets `eps_r` row by row.
fn fill_vacuum(solver: &mut Solver)
    requires
        old(solver).wf(),
    ensures
        final(solver).wf(),
        only_material_changed(*old(solver), *final(solver)),
        final(solver).material_data@ == vacuum_grid((old(solver).w() * old(solver).h()) as nat),
{
    let ghost before = *solver;
    let n = solver.material_data.len();
    let mut i: usize = 0;
    while i < n
        invariant
            solver.wf(),
            only_material_changed(before, *solver),
            n == solver.material_data@.len(),
            i <= n,
            forall|j: int| 0 <= j < i ==> solver.material_data@[j] == F32_ZERO,
        decreases n - i,
    {
        solver.material_data[i] = F32_ZERO;
        i = i + 1;
    }
    let w = solver.params.width;
    let h = solver.params.height;
    let ghost zeros = solver.material_data@;
    let ghost wi = w as int;
    let ghost hi = h as int;
    proof {
        lemma_grid_size(*solver);
        lemma_paint_nothing(zeros, wi, hi, |a: int, b: int| b < 0, vacuum_fill());
    }
    let mut y: u32 = 0;
    while y < h
        invariant
            solver.wf(),
            only_material_changed(before, *solver),
            w == solver.params.width,
            h == solver.params.height,
            wi == w,
            hi == h,
            zeros.len() == 4 * (wi * hi),
            forall|j: int| 0 <= j < zeros.len() ==> zeros[j] == F32_ZERO,
            y <= h,
            solver.material_data@ == paint(zeros, wi, |a: int, b: int| b < y, vacuum_fill()),
        decreases h - y,
    {
        proof {
            lemma_paint_congruent(
                zeros,
                wi,
                hi,
                |a: int, b: int| b < y,
                |a: int, b: int| b < y || (b == y && a < 0),
                vacuum_fill(),
            );
        }
        let mut x: u32 = 0;
        while x < w
            invariant
                solver.wf(),
                only_material_changed(before, *solver),
                w == solver.params.width,
                h == solver.params.height,
                wi == w,
                hi == h,
                zeros.len() == 4 * (wi * hi),
                forall|j: int| 0 <= j < zeros.len() ==> zeros[j] == F32_ZERO,
                y < h,
                x <= w,
                solver.material_data@ == paint(
                    zeros,
                    wi,
                    |a: int, b: int| b < y || (b == y && a < x),
                    vacuum_fill(),
                ),
            decreases w - x,
        {
            proof {
                lemma_cell_coords(wi, hi, x as int, y as int);
                lemma_grid_size(*solver);
            }
            let idx = ((y * w + x) * 4) as usize;
            proof {
                let data = solver.material_data@;
                let b = cell_base(wi, x as int, y as int);
                assert(word_x(b + 1, wi) == x && word_y(b + 1, wi) == y);
                assert(word_x(b + 2, wi) == x && word_y(b + 2, wi) == y);
                assert(data[b + 1] == F32_ZERO);
                assert(data[b + 2] == F32_ZERO);
                lemma_paint_write(
                    zeros,
                    wi,
                    hi,
                    |a: int, b: int| b < y || (b == y && a < x),
                    |a: int, b: int| b < y || (b == y && a < x + 1),
                    x as int,
                    y as int,
                    vacuum_fill(),
                );
                assert(data.update(b, F32_ONE) =~= write_cell(
                    data,
                    wi,
                    x as int,
                    y as int,
                    vacuum_fill(),
                ));
            }
            solver.material_data[idx] = F32_ONE;
            x = x + 1;
        }
        proof {
            lemma_paint_congruent(
                zeros,
                wi,
                hi,
                |a: int, b: int| b < y || (b == y && a < w),
                |a: int, b: int| b < y + 1,
                vacuum_fill(),
            );
        }
        y = y + 1;
    }
    proof {
        let data = solver.material_data@;
        let vac = vacuum_grid((wi * hi) as nat);
        assert forall|j: int| 0 <= j < data.len() implies data[j] == vac[j] by {
            lemma_word_coords(wi, hi, j);
        }
        assert(data =~= vac);
    }
}

/// Whether row `y` of the barrier column of `preset` is metal.
fn barrier_at(preset: Preset, h: u32, y: u32) -> (metal: bool)
    requires
        h <= MAX_GRID_SIDE,
        y < h,
        preset == Preset::DoubleSlit ==> h >= 24,
    ensures
        metal == barrier_row(preset, h as int, y as int),
{
    match preset {
        Preset::SingleSlit => {
            let slit_y = h / 2;
            let slit_width: i32 = 12;
            let d = y as i32 - slit_y as i32;
            let ad = if d < 0 {
                -d
            } else {
                d
            };
            ad > slit_width / 2
        },
        Preset::DoubleSlit => {
            let slit_y = h / 2;
            let slit_width: i32 = 8;
            let slit_spacing: u32 = 24;
            let slit1_y = slit_y - slit_spacing / 2;
            let slit2_y = slit_y + slit_spacing / 2;
            let d1 = y as i32 - slit1_y as i32;
            let d2 = y as i32 - slit2_y as i32;
            let ad1 = if d1 < 0 {
                -d1
            } else {
                d1
            };
            let ad2 = if d2 < 0 {
                -d2
            } else {
                d2
            };
            let inside_slit1 = ad1 < slit_width / 2;
            let inside_slit2 = ad2 < slit_width / 2;
            !inside_slit1 && !inside_slit2
        },
        Preset::DiffractionGrating => {
            let period: u32 = 8;
            let slit_width: u32 = 3;
            y % period >= slit_width
        },
        _ => false,
    }
}

/// Paints the metal rows of the barrier column `w / 3`.
fn draw_barrier(solver: &mut Solver, preset: Preset)
    requires
        old(solver).wf(),
        preset == Preset::DoubleSlit ==> old(solver).params.height >= 24,
    ensures
        final(solver).wf(),
        only_material_changed(*old(solver), *final(solver)),
        final(solver).material_data@ == paint(
            old(solver).material_data@,
            old(solver).w(),
            |a: int, b: int| a == old(solver).w() / 3 && barrier_row(preset, old(solver).h(), b),
            pec_fill(),
        ),
{
    let ghost before = *solver;
    let w = solver.params.width;
    let h = solver.params.height;
    let ghost wi = w as int;
    let ghost hi = h as int;
    let ghost base = solver.material_data@;
    let barrier_x = w / 3;
    proof {
        lemma_paint_nothing(base, wi, hi, |a: int, b: int| a == barrier_x && b < 0 && barrier_row(preset, hi, b), pec_fill());
    }
    let mut y: u32 = 0;
    while y < h
        invariant
            solver.wf(),
            only_material_changed(before, *solver),
            w == solver.params.width,
            h == solver.params.height,
            wi == w,
            hi == h,
            barrier_x == w / 3,
            preset == Preset::DoubleSlit ==> h >= 24,
            base.len() == 4 * (wi * hi),
            y <= h,
            solver.material_data@ == paint(
                base,
                wi,
                |a: int, b: int| a == barrier_x && b < y && barrier_row(preset, hi, b),
                pec_fill(),
            ),
        decreases h - y,
    {
        if barrier_at(preset, h, y) {
            proof {
                lemma_paint_write(
                    base,
                    wi,
                    hi,
                    |a: int, b: int| a == barrier_x && b < y && barrier_row(preset, hi, b),
                    |a: int, b: int| a == barrier_x && b < y + 1 && barrier_row(preset, hi, b),
                    barrier_x as int,
                    y as int,
                    pec_fill(),
                );
            }
            set_material_pixel(solver, barrier_x, y, F32_ZERO, F32_ZERO, F32_ZERO);
        } else {
            proof {
                lemma_paint_congruent(
                    base,
                    wi,
                    hi,
                    |a: int, b: int| a == barrier_x && b < y && barrier_row(preset, hi, b),
                    |a: int, b: int| a == barrier_x && b < y + 1 && barrier_row(preset, hi, b),
                    pec_fill(),
                );
            }
        }
        y = y + 1;
    }
    proof {
        lemma_paint_congruent(
            base,
            wi,
            hi,
            |a: int, b: int| a == barrier_x && b < h && barrier_row(preset, hi, b),
            |a: int, b: int| a == wi / 3 && barrier_row(preset, hi, b),
            pec_fill(),
        );
    }
}

/// Puts a unit source into column 24, rows `32 .. h - 32`.
fn draw_source_column(solver: &mut Solver)
    requires
        old(solver).wf(),
        old(solver).params.height >= 32,
    ensures
        final(solver).wf(),
        only_material_changed(*old(solver), *final(solver)),
        final(solver).material_data@ == paint_sources(
            old(solver).material_data@,
            old(solver).w(),
            |a: int, b: int|
                if a == 24 && 32 <= b < old(solver).h() - 32 {
                    Some(F32_ONE)
                } else {
                    None
                },
        ),
{
    let ghost before = *solver;
    let w = solver.params.width;
    let h = solver.params.height;
    let ghost wi = w as int;
    let ghost hi = h as int;
    let ghost base = solver.material_data@;
    let src_x: u32 = 24;
    let mut y: u32 = 32;
    proof {
        lemma_sources_nothing(
            base,
            wi,
            hi,
            |a: int, b: int|
                if a == 24 && 32 <= b < y {
                    Some(F32_ONE)
                } else {
                    None
                },
        );
    }
    while y < h - 32
        invariant
            solver.wf(),
            only_material_changed(before, *solver),
            w == solver.params.width,
            h == solver.params.height,
            wi == w,
            hi == h,
            h >= 32,
            src_x == 24,
            base.len() == 4 * (wi * hi),
            32 <= y,
            y <= h - 32 || y == 32,
            solver.material_data@ == paint_sources(
                base,
                wi,
                |a: int, b: int|
                    if a == 24 && 32 <= b < y {
                        Some(F32_ONE)
                    } else {
                        None
                    },
            ),
        decreases h - y,
    {
        proof {
            if src_x < w {
                lemma_sources_write(
                    base,
                    wi,
                    hi,
                    |a: int, b: int|
                        if a == 24 && 32 <= b < y {
                            Some(F32_ONE)
                        } else {
                            None
                        },
                    |a: int, b: int|
                        if a == 24 && 32 <= b < y + 1 {
                            Some(F32_ONE)
                        } else {
                            None
                        },
                    24,
                    y as int,
                    F32_ONE,
                );
            } else {
                lemma_sources_congruent(
                    base,
                    wi,
                    hi,
                    |a: int, b: int|
                        if a == 24 && 32 <= b < y {
                            Some(F32_ONE)
                        } else {
                            None
                        },
                    |a: int, b: int|
                        if a == 24 && 32 <= b < y + 1 {
                            Some(F32_ONE)
                        } else {
                            None
                        },
                );
            }
        }
        set_source_pixel(solver, src_x, y, F32_ONE);
        y = y + 1;
    }
    proof {
        lemma_sources_congruent(
            base,
            wi,
            hi,
            |a: int, b: int|
                if a == 24 && 32 <= b < y {
                    Some(F32_ONE)
                } else {
                    None
                },
            |a: int, b: int|
                if a == 24 && 32 <= b < hi - 32 {
                    Some(F32_ONE)
                } else {
                    None
                },
        );
    }
}

/// The glass region of a lens or prism preset.
pub open spec fn glass_region(preset: Preset, w: int, h: int, x: int, y: int) -> bool {
    match preset {
        Preset::ConvexLens => in_lens(w, h, x, y),
        Preset::Prism => in_prism(w, h, x, y),
        _ => false,
    }
}

/// Twice the signed area of a triangle with coordinates of magnitude at
/// most 20000.
fn double_area_of(x1: i64, y1: i64, x2: i64, y2: i64, x3: i64, y3: i64) -> (d: i64)
    requires
        -20000 <= x1 <= 20000,
        -20000 <= y1 <= 20000,
        -20000 <= x2 <= 20000,
        -20000 <= y2 <= 20000,
        -20000 <= x3 <= 20000,
        -20000 <= y3 <= 20000,
    ensures
        d == double_area(x1 as int, y1 as int, x2 as int, y2 as int, x3 as int, y3 as int),
        -3_000_000_000 <= d <= 3_000_000_000,
{
    assert(-800_000_000 <= x1 * (y2 - y3) <= 800_000_000) by (nonlinear_arith)
        requires
            -20000 <= x1 <= 20000,
            -40000 <= y2 - y3 <= 40000,
    ;
    assert(-800_000_000 <= x2 * (y3 - y1) <= 800_000_000) by (nonlinear_arith)
        requires
            -20000 <= x2 <= 20000,
            -40000 <= y3 - y1 <= 40000,
    ;
    assert(-800_000_000 <= x3 * (y1 - y2) <= 800_000_000) by (nonlinear_arith)
        requires
            -20000 <= x3 <= 20000,
            -40000 <= y1 - y2 <= 40000,
    ;
    x1 * (y2 - y3) + x2 * (y3 - y1) + x3 * (y1 - y2)
}

/// Whether cell `(x, y)` is glass in a lens or prism preset.
fn glass_at(preset: Preset, w: u32, h: u32, x: u32, y: u32) -> (glass: bool)
    requires
        w <= MAX_GRID_SIDE,
        h <= MAX_GRID_SIDE,
        x < w,
        y < h,
    ensures
        glass == glass_region(preset, w as int, h as int, x as int, y as int),
{
    match preset {
        Preset::ConvexLens => {
            let r: i64 = 240;
            let offset: i64 = 216;
            let cx1 = (w / 2) as i64 - offset;
            let cx2 = (w / 2) as i64 + offset;
            let cy = (h / 2) as i64;
            let dx1 = x as i64 - cx1;
            let dx2 = x as i64 - cx2;
            let dy = y as i64 - cy;
            assert(0 <= dx1 * dx1 <= 100_000_000 && 0 <= dx2 * dx2 <= 100_000_000 && 0 <= dy
                * dy <= 100_000_000) by (nonlinear_arith)
                requires
                    -10000 <= dx1 <= 10000,
                    -10000 <= dx2 <= 10000,
                    -10000 <= dy <= 10000,
            ;
            let inside_c1 = dx1 * dx1 + dy * dy <= r * r;
            let inside_c2 = dx2 * dx2 + dy * dy <= r * r;
            inside_c1 && inside_c2
        },
        Preset::Prism => {
            let ax = (w / 2) as i64 - 60;
            let ay = (h / 2) as i64 - 70;
            let bx = (w / 2) as i64 - 60;
            let by = (h / 2) as i64 + 70;
            let cx = (w / 2) as i64 + 60;
            let cy = (h / 2) as i64;
            let px = x as i64;
            let py = y as i64;
            let tri = double_area_of(ax, ay, bx, by, cx, cy);
            let a1 = double_area_of(px, py, bx, by, cx, cy);
            let a2 = double_area_of(ax, ay, px, py, cx, cy);
            let a3 = double_area_of(ax, ay, bx, by, px, py);
            let abs1 = if a1 < 0 {
                -a1
            } else {
                a1
            };
            let abs2 = if a2 < 0 {
                -a2
            } else {
                a2
            };
            let abs3 = if a3 < 0 {
                -a3
            } else {
                a3
            };
            let abs_tri = if tri < 0 {
                -tri
            } else {
                tri
            };
            abs1 + abs2 + abs3 == abs_tri
        },
        _ => false,
    }
}

/// Paints glass over the lens or prism region, row by row.
fn draw_glass(solver: &mut Solver, preset: Preset)
    requires
        old(solver).wf(),
    ensures
        final(solver).wf(),
        only_material_changed(*old(solver), *final(solver)),
        final(solver).material_data@ == paint(
            old(solver).material_data@,
            old(solver).w(),
            |a: int, b: int| glass_region(preset, old(solver).w(), old(solver).h(), a, b),
            glass_fill(),
        ),
{
    let ghost before = *solver;
    let w = solver.params.width;
    let h = solver.params.height;
    let ghost wi = w as int;
    let ghost hi = h as int;
    let ghost base = solver.material_data@;
    proof {
        lemma_paint_nothing(
            base,
            wi,
            hi,
            |a: int, b: int| glass_region(preset, wi, hi, a, b) && b < 0,
            glass_fill(),
        );
    }
    let mut y: u32 = 0;
    while y < h
        invariant
            solver.wf(),
            only_material_changed(before, *solver),
            w == solver.params.width,
            h == solver.params.height,
            wi == w,
            hi == h,
            base.len() == 4 * (wi * hi),
            y <= h,
            solver.material_data@ == paint(
                base,
                wi,
                |a: int, b: int| glass_region(preset, wi, hi, a, b) && b < y,
                glass_fill(),
            ),
        decreases h - y,
    {
        proof {
            lemma_paint_congruent(
                base,
                wi,
                hi,
                |a: int, b: int| glass_region(preset, wi, hi, a, b) && b < y,
                |a: int, b: int| glass_region(preset, wi, hi, a, b) && (b < y || (b == y && a < 0)),
                glass_fill(),
            );
        }
        let mut x: u32 = 0;
        while x < w
            invariant
                solver.wf(),
                only_material_changed(before, *solver),
                w == solver.params.width,
                h == solver.params.height,
                wi == w,
                hi == h,
                base.len() == 4 * (wi * hi),
                y < h,
                x <= w,
                solver.material_data@ == paint(
                    base,
                    wi,
                    |a: int, b: int|
                        glass_region(preset, wi, hi, a, b) && (b < y || (b == y && a < x)),
                    glass_fill(),
                ),
            decreases w - x,
        {
            if glass_at(preset, w, h, x, y) {
                proof {
                    lemma_paint_write(
                        base,
                        wi,
                        hi,
                        |a: int, b: int|
                            glass_region(preset, wi, hi, a, b) && (b < y || (b == y && a < x)),
                        |a: int, b: int|
                            glass_region(preset, wi, hi, a, b) && (b < y || (b == y && a < x + 1)),
                        x as int,
                        y as int,
                        glass_fill(),
                    );
                }
                set_material_pixel(solver, x, y, F32_TWO_AND_QUARTER, F32_ZERO, F32_ZERO);
            } else {
                proof {
                    lemma_paint_congruent(
                        base,
                        wi,
                        hi,
                        |a: int, b: int|
                            glass_region(preset, wi, hi, a, b) && (b < y || (b == y && a < x)),
                        |a: int, b: int|
                            glass_region(preset, wi, hi, a, b) && (b < y || (b == y && a < x + 1)),
                        glass_fill(),
                    );
                }
            }
            x = x + 1;
        }
        proof {
            lemma_paint_congruent(
                base,
                wi,
                hi,
                |a: int, b: int| glass_region(preset, wi, hi, a, b) && (b < y || (b == y && a < w)),
                |a: int, b: int| glass_region(preset, wi, hi, a, b) && b < y + 1,
                glass_fill(),
            );
        }
        y = y + 1;
    }
    proof {
        lemma_paint_congruent(
            base,
            wi,
            hi,
            |a: int, b: int| glass_region(preset, wi, hi, a, b) && b < h,
            |a: int, b: int| glass_region(preset, wi, hi, a, b),
            glass_fill(),
        );
    }
}

/// The sources among the first `k` points of a line.
pub open spec fn line_sources(points: Seq<(u32, u32)>, k: int, x: int, y: int) -> Option<u32> {
    if exists|j: int| 0 <= j < k && #[trigger] points[j].0 == x && points[j].1 == y {
        Some(F32_ONE)
    } else {
        None
    }
}

/// Puts a unit source into every in-grid point of the line.
fn draw_source_line(solver: &mut Solver, points: &Vec<(u32, u32)>)
    requires
        old(solver).wf(),
    ensures
        final(solver).wf(),
        only_material_changed(*old(solver), *final(solver)),
        final(solver).material_data@ == paint_sources(
            old(solver).material_data@,
            old(solver).w(),
            |a: int, b: int| line_sources(points@, points@.len() as int, a, b),
        ),
{
    let ghost before = *solver;
    let ghost wi = solver.params.width as int;
    let ghost hi = solver.params.height as int;
    let ghost base = solver.material_data@;
    proof {
        lemma_sources_nothing(base, wi, hi, |a: int, b: int| line_sources(points@, 0, a, b));
    }
    let n = points.len();
    let mut k: usize = 0;
    while k < n
        invariant
            solver.wf(),
            only_material_changed(before, *solver),
            wi == solver.params.width,
            hi == solver.params.height,
            base.len() == 4 * (wi * hi),
            n == points@.len(),
            k <= n,
            solver.material_data@ == paint_sources(
                base,
                wi,
                |a: int, b: int| line_sources(points@, k as int, a, b),
            ),
        decreases n - k,
    {
        let (px, py) = points[k];
        proof {
            if px < wi && py < hi {
                lemma_sources_write(
                    base,
                    wi,
                    hi,
                    |a: int, b: int| line_sources(points@, k as int, a, b),
                    |a: int, b: int| line_sources(points@, k + 1, a, b),
                    px as int,
                    py as int,
                    F32_ONE,
                );
            } else {
                lemma_sources_congruent(
                    base,
                    wi,
                    hi,
                    |a: int, b: int| line_sources(points@, k as int, a, b),
                    |a: int, b: int| line_sources(points@, k + 1, a, b),
                );
            }
        }
        set_source_pixel(solver, px, py, F32_ONE);
        k = k + 1;
    }
}

/// The waveguide cells in columns before `x`, and in column `x` among its
/// first `k` offsets.
pub open spec fn guide_progress(w: int, h: int, rows: Seq<(u32, u32)>, x: int, k: int, a: int, b: int) -> bool {
    (a < x && guide_column(w, h, rows, a, 15, b)) || (a == x && guide_column(w, h, rows, x, k, b))
}

/// Paints the Y-splitter waveguide core: the stem, the curved branches at
/// the rows given, and the two straight branches.
fn draw_waveguide(solver: &mut Solver, rows: &Vec<(u32, u32)>)
    requires
        old(solver).wf(),
        old(solver).params.height >= 120,
        rows@.len() == 15 * (old(solver).w() / 2 - old(solver).w() / 4),
    ensures
        final(solver).wf(),
        only_material_changed(*old(solver), *final(solver)),
        final(solver).material_data@ == paint(
            old(solver).material_data@,
            old(solver).w(),
            |a: int, b: int| guide_column(old(solver).w(), old(solver).h(), rows@, a, 15, b),
            guide_fill(),
        ),
{
    let ghost before = *solver;
    let w = solver.params.width;
    let h = solver.params.height;
    let ghost wi = w as int;
    let ghost hi = h as int;
    let ghost rs = rows@;
    let ghost base = solver.material_data@;
    let y_center = h / 2;
    let half: i32 = 7;
    proof {
        lemma_paint_nothing(
            base,
            wi,
            hi,
            |a: int, b: int| a < 0 && guide_column(wi, hi, rs, a, 15, b),
            guide_fill(),
        );
    }
    let mut x: u32 = 0;
    while x < w
        invariant
            solver.wf(),
            only_material_changed(before, *solver),
            w == solver.params.width,
            h == solver.params.height,
            wi == w,
            hi == h,
            h >= 120,
            y_center == h / 2,
            half == 7,
            rs == rows@,
            rs.len() == 15 * (wi / 2 - wi / 4),
            base.len() == 4 * (wi * hi),
            x <= w,
            solver.material_data@ == paint(
                base,
                wi,
                |a: int, b: int| a < x && guide_column(wi, hi, rs, a, 15, b),
                guide_fill(),
            ),
        decreases w - x,
    {
        proof {
            lemma_paint_congruent(
                base,
                wi,
                hi,
                |a: int, b: int| a < x && guide_column(wi, hi, rs, a, 15, b),
                |a: int, b: int| guide_progress(wi, hi, rs, x as int, 0, a, b),
                guide_fill(),
            );
        }
        let mut dy: i32 = -half;
        while dy <= half
            invariant
                solver.wf(),
                only_material_changed(before, *solver),
                w == solver.params.width,
                h == solver.params.height,
                wi == w,
                hi == h,
                h >= 120,
                y_center == h / 2,
                half == 7,
                rs == rows@,
                rs.len() == 15 * (wi / 2 - wi / 4),
                base.len() == 4 * (wi * hi),
                x < w,
                -7 <= dy <= 8,
                solver.material_data@ == paint(
                    base,
                    wi,
                    |a: int, b: int| guide_progress(wi, hi, rs, x as int, dy + 7, a, b),
                    guide_fill(),
                ),
            decreases 8 - dy,
        {
            let ghost k = dy + 7;
            if x < w / 4 {
                // straight stem
                let py = y_center as i32 + dy;
                proof {
                    if py < h {
                        lemma_paint_write(
                            base,
                            wi,
                            hi,
                            |a: int, b: int| guide_progress(wi, hi, rs, x as int, k, a, b),
                            |a: int, b: int| guide_progress(wi, hi, rs, x as int, k + 1, a, b),
                            x as int,
                            py as int,
                            guide_fill(),
                        );
                    } else {
                        lemma_paint_congruent(
                            base,
                            wi,
                            hi,
                            |a: int, b: int| guide_progress(wi, hi, rs, x as int, k, a, b),
                            |a: int, b: int| guide_progress(wi, hi, rs, x as int, k + 1, a, b),
                            guide_fill(),
                        );
                    }
                }
                set_material_pixel(solver, x, py as u32, F32_FOUR, F32_ZERO, F32_ZERO);
            } else if x < w / 2 {
                // curved branches, rows computed by the caller
                let idx = ((x - w / 4) * 15) as usize + (dy + half) as usize;
                let (py_top, py_bottom) = rows[idx];
                let ghost mid = |a: int, b: int|
                    guide_progress(wi, hi, rs, x as int, k, a, b) || (a == x && b == py_top);
                proof {
                    if py_top < h {
                        lemma_paint_write(
                            base,
                            wi,
                            hi,
                            |a: int, b: int| guide_progress(wi, hi, rs, x as int, k, a, b),
                            mid,
                            x as int,
                            py_top as int,
                            guide_fill(),
                        );
                    } else {
                        lemma_paint_congruent(
                            base,
                            wi,
                            hi,
                            |a: int, b: int| guide_progress(wi, hi, rs, x as int, k, a, b),
                            mid,
                            guide_fill(),
                        );
                    }
                }
                set_material_pixel(solver, x, py_top, F32_FOUR, F32_ZERO, F32_ZERO);
                proof {
                    assert forall|a: int, b: int| 0 <= a < wi && 0 <= b < hi implies #[trigger] guide_progress(wi, hi, rs, x as int, k + 1, a, b) == (mid(a, b) || (a == x && b == py_bottom)) by {
                        if a == x {
                            assert(branch_row_hit(rs, wi, x as int, k, b) == (b == py_top || b == py_bottom));
                            if guide_column(wi, hi, rs, x as int, k + 1, b) && !guide_column(wi, hi, rs, x as int, k, b) {
                                let j = choose|j: int| 0 <= j < k + 1 && #[trigger] branch_row_hit(rs, wi, x as int, j, b);
                                assert(j == k);
                            }
                        }
                    }
                    if py_bottom < h {
                        lemma_paint_write(
                            base,
                            wi,
                            hi,
                            mid,
                            |a: int, b: int| guide_progress(wi, hi, rs, x as int, k + 1, a, b),
                            x as int,
                            py_bottom as int,
                            guide_fill(),
                        );
                    } else {
                        lemma_paint_congruent(
                            base,
                            wi,
                            hi,
                            mid,
                            |a: int, b: int| guide_progress(wi, hi, rs, x as int, k + 1, a, b),
                            guide_fill(),
                        );
                    }
                }
                set_material_pixel(solver, x, py_bottom, F32_FOUR, F32_ZERO, F32_ZERO);
            } else {
                // two straight branches
                let y_top = y_center - 60;
                let y_bottom = y_center + 60;
                let py_top = y_top as i32 + dy;
                let py_bottom = y_bottom as i32 + dy;
                let ghost mid = |a: int, b: int|
                    guide_progress(wi, hi, rs, x as int, k, a, b) || (a == x && b == py_top);
                if py_top >= 0 {
                    proof {
                        if py_top < h {
                            lemma_paint_write(
                                base,
                                wi,
                                hi,
                                |a: int, b: int| guide_progress(wi, hi, rs, x as int, k, a, b),
                                mid,
                                x as int,
                                py_top as int,
                                guide_fill(),
                            );
                        } else {
                            lemma_paint_congruent(
                                base,
                                wi,
                                hi,
                                |a: int, b: int| guide_progress(wi, hi, rs, x as int, k, a, b),
                                mid,
                                guide_fill(),
                            );
                        }
                    }
                    set_material_pixel(solver, x, py_top as u32, F32_FOUR, F32_ZERO, F32_ZERO);
                } else {
                    proof {
                        lemma_paint_congruent(
                            base,
                            wi,
                            hi,
                            |a: int, b: int| guide_progress(wi, hi, rs, x as int, k, a, b),
                            mid,
                            guide_fill(),
                        );
                    }
                }
                proof {
                    if py_bottom < h {
                        lemma_paint_write(
                            base,
                            wi,
                            hi,
                            mid,
                            |a: int, b: int| guide_progress(wi, hi, rs, x as int, k + 1, a, b),
                            x as int,
                            py_bottom as int,
                            guide_fill(),
                        );
                    } else {
                        lemma_paint_congruent(
                            base,
                            wi,
                            hi,
                            mid,
                            |a: int, b: int| guide_progress(wi, hi, rs, x as int, k + 1, a, b),
                            guide_fill(),
                        );
                    }
                }
                set_material_pixel(solver, x, py_bottom as u32, F32_FOUR, F32_ZERO, F32_ZERO);
            }
            dy = dy + 1;
        }
        proof {
            lemma_paint_congruent(
                base,
                wi,
                hi,
                |a: int, b: int| guide_progress(wi, hi, rs, x as int, 15, a, b),
                |a: int, b: int| a < x + 1 && guide_column(wi, hi, rs, a, 15, b),
                guide_fill(),
            );
        }
        x = x + 1;
    }
    proof {
        lemma_paint_congruent(
            base,
            wi,
            hi,
            |a: int, b: int| a < w && guide_column(wi, hi, rs, a, 15, b),
            |a: int, b: int| guide_column(wi, hi, rs, a, 15, b),
            guide_fill(),
        );
    }
}

/// The mode-profile sources among the first `k` offsets of column 12.
pub open spec fn profile_sources(h: int, profile: Seq<u32>, k: int, x: int, y: int) -> Option<u32> {
    if x == 12 && h / 2 - 7 <= y < h / 2 - 7 + k {
        Some(profile[y - h / 2 + 7])
    } else {
        None
    }
}

/// Launches the waveguide's fundamental mode: the profile's amplitudes
/// across the stem in column 12.
fn draw_mode_source(solver: &mut Solver, profile: &Vec<u32>)
    requires
        old(solver).wf(),
        old(solver).params.height >= 120,
        profile@.len() == 15,
    ensures
        final(solver).wf(),
        only_material_changed(*old(solver), *final(solver)),
        final(solver).material_data@ == paint_sources(
            old(solver).material_data@,
            old(solver).w(),
            |a: int, b: int| profile_sources(old(solver).h(), profile@, 15, a, b),
        ),
{
    let ghost before = *solver;
    let w = solver.params.width;
    let h = solver.params.height;
    let ghost wi = w as int;
    let ghost hi = h as int;
    let ghost base = solver.material_data@;
    let y_center = h / 2;
    let half: i32 = 7;
    let src_x: u32 = 12;
    proof {
        lemma_sources_nothing(base, wi, hi, |a: int, b: int| profile_sources(hi, profile@, 0, a, b));
    }
    let mut dy: i32 = -half;
    while dy <= half
        invariant
            solver.wf(),
            only_material_changed(before, *solver),
            w == solver.params.width,
            h == solver.params.height,
            wi == w,
            hi == h,
            h >= 120,
            y_center == h / 2,
            half == 7,
            src_x == 12,
            profile@.len() == 15,
            base.len() == 4 * (wi * hi),
            -7 <= dy <= 8,
            solver.material_data@ == paint_sources(
                base,
                wi,
                |a: int, b: int| profile_sources(hi, profile@, dy + 7, a, b),
            ),
        decreases 8 - dy,
    {
        let py = (y_center as i32 + dy) as u32;
        let amp = profile[(dy + half) as usize];
        proof {
            if src_x < w {
                lemma_sources_write(
                    base,
                    wi,
                    hi,
                    |a: int, b: int| profile_sources(hi, profile@, dy + 7, a, b),
                    |a: int, b: int| profile_sources(hi, profile@, dy + 8, a, b),
                    12,
                    py as int,
                    amp,
                );
            } else {
                lemma_sources_congruent(
                    base,
                    wi,
                    hi,
                    |a: int, b: int| profile_sources(hi, profile@, dy + 7, a, b),
                    |a: int, b: int| profile_sources(hi, profile@, dy + 8, a, b),
                );
            }
        }
        set_source_pixel(solver, src_x, py, amp);
        dy = dy + 1;
    }
}

/// Applies a preset scene to the solver: requests a clear of the fields,
/// resets the grid to vacuum, sets a continuous-wave source of frequency
/// 0.08 and amplitude 2, draws the preset's structure and sources, and marks
/// the grid for upload. `features` holds the parts of the geometry that are
/// computed in floating point.
pub fn apply_preset(solver: &mut Solver, preset: Preset, features: &CurvedFeatures)
    requires
        old(solver).wf(),
        preset_fits(preset, old(solver).h()),
        features.fits(preset, old(solver).w()),
    ensures
        preset_applied(*old(solver), *final(solver), preset, *features),
{
    let ghost wi = solver.w();
    let ghost hi = solver.h();
    let ghost f = *features;

    // Reset simulation time and clear the field textures.
    solver.clear();

    // Vacuum everywhere: [eps_r = 1.0, sigma = 0.0, source = 0.0, pad = 0.0].
    fill_vacuum(solver);

    // Default source settings for scenes.
    solver.params.source_freq = F32_FREQ_DEFAULT;
    solver.params.source_amp = F32_TWO;
    solver.params.source_type = SOURCE_CW;

    let ghost vac = solver.material_data@;
    let ghost covers = |a: int, b: int| preset_covers(preset, wi, hi, f, a, b);
    let ghost sources = |a: int, b: int| preset_source_at(preset, wi, hi, f, a, b);
    proof {
        lemma_grid_size(*solver);
    }
    match preset {
        Preset::Empty => {
            proof {
                lemma_paint_nothing(vac, wi, hi, covers, preset_fill(preset));
                lemma_sources_nothing(vac, wi, hi, sources);
            }
        },
        Preset::SingleSlit | Preset::DoubleSlit | Preset::DiffractionGrating => {
            draw_barrier(solver, preset);
            proof {
                lemma_paint_congruent(
                    vac,
                    wi,
                    hi,
                    |a: int, b: int| a == wi / 3 && barrier_row(preset, hi, b),
                    covers,
                    preset_fill(preset),
                );
            }
            let ghost painted = solver.material_data@;
            draw_source_column(solver);
            proof {
                lemma_sources_congruent(
                    painted,
                    wi,
                    hi,
                    |a: int, b: int|
                        if a == 24 && 32 <= b < hi - 32 {
                            Some(F32_ONE)
                        } else {
                            None
                        },
                    sources,
                );
            }
        },
        Preset::ConvexLens => {
            draw_glass(solver, preset);
            proof {
                lemma_paint_congruent(
                    vac,
                    wi,
                    hi,
                    |a: int, b: int| glass_region(preset, wi, hi, a, b),
                    covers,
                    preset_fill(preset),
                );
            }
            let ghost painted = solver.material_data@;
            draw_source_column(solver);
            proof {
                lemma_sources_congruent(
                    painted,
                    wi,
                    hi,
                    |a: int, b: int|
                        if a == 24 && 32 <= b < hi - 32 {
                            Some(F32_ONE)
                        } else {
                            None
                        },
                    sources,
                );
            }
        },
        Preset::Prism => {
            draw_glass(solver, preset);
            proof {
                lemma_paint_congruent(
                    vac,
                    wi,
                    hi,
                    |a: int, b: int| glass_region(preset, wi, hi, a, b),
                    covers,
                    preset_fill(preset),
                );
            }
            let ghost painted = solver.material_data@;
            draw_source_line(solver, &features.source_line);
            proof {
                lemma_sources_congruent(
                    painted,
                    wi,
                    hi,
                    |a: int, b: int| line_sources(f.source_line@, f.source_line@.len() as int, a, b),
                    sources,
                );
            }
        },
        Preset::Waveguide => {
            draw_waveguide(solver, &features.branch_rows);
            proof {
                lemma_paint_congruent(
                    vac,
                    wi,
                    hi,
                    |a: int, b: int| guide_column(wi, hi, f.branch_rows@, a, 15, b),
                    covers,
                    preset_fill(preset),
                );
            }
            let ghost painted = solver.material_data@;
            draw_mode_source(solver, &features.mode_profile);
            proof {
                lemma_sources_congruent(
                    painted,
                    wi,
                    hi,
                    |a: int, b: int| profile_sources(hi, f.mode_profile@, 15, a, b),
                    sources,
                );
            }
        },
    }
    solver.material_dirty = true;
}

// ---------------------------------------------------------------------------
// Brushes
// ---------------------------------------------------------------------------

/// Squared distance from `(cx, cy)` to `(x, y)`.
pub open spec fn sq_dist(cx: int, cy: int, x: int, y: int) -> int {
    (x - cx) * (x - cx) + (y - cy) * (y - cy)
}

/// Cell `(x, y)` lies in the disc of radius `r` (a negative radius gives
/// the empty disc).
pub open spec fn in_circle(cx: int, cy: int, r: int, x: int, y: int) -> bool {
    r >= 0 && sq_dist(cx, cy, x, y) <= r * r
}

pub open spec fn in_i32(v: int) -> bool {
    i32::MIN <= v <= i32::MAX
}

/// `max(0, c - r)`: first row or column of a brush's bounding box.
pub open spec fn box_lo(c: int, r: int) -> int {
    if 0 > c - r {
        0
    } else {
        c - r
    }
}

/// `min(n - 1, c + r)`: last row or column of a brush's bounding box.
pub open spec fn box_hi(c: int, r: int, n: int) -> int {
    if n - 1 < c + r {
        n - 1
    } else {
        c + r
    }
}

/// The 32-bit arithmetic of stamping a disc of radius `r` at `(cx, cy)` on
/// a `w` x `h` grid does not overflow: the box corners, the squared radius,
/// and the squared distance of every cell of the clipped box.
pub open spec fn circle_fits(w: int, h: int, cx: int, cy: int, r: int) -> bool {
    &&& in_i32(cx - r)
    &&& in_i32(cx + r)
    &&& in_i32(cy - r)
    &&& in_i32(cy + r)
    &&& in_i32(r * r)
    &&& forall|x: int, y: int|
        box_lo(cx, r) <= x <= box_hi(cx, r, w) && box_lo(cy, r) <= y <= box_hi(cy, r, h)
            ==> #[trigger] sq_dist(cx, cy, x, y) <= i32::MAX
}

/// A cell of a disc lies within the disc's bounding box.
proof fn lemma_circle_bounds(cx: int, cy: int, r: int, x: int, y: int)
    requires
        in_circle(cx, cy, r, x, y),
    ensures
        cx - r <= x <= cx + r,
        cy - r <= y <= cy + r,
{
    let dx = x - cx;
    let dy = y - cy;
    assert(dx * dx <= r * r && dy * dy <= r * r) by (nonlinear_arith)
        requires
            dx * dx + dy * dy <= r * r,
    ;
    assert(-r <= dx <= r) by (nonlinear_arith)
        requires
            dx * dx <= r * r,
            r >= 0,
    ;
    assert(-r <= dy <= r) by (nonlinear_arith)
        requires
            dy * dy <= r * r,
            r >= 0,
    ;
}

/// On an interval, a square distance is largest at an end.
proof fn lemma_sq_at_ends(lo: int, hi: int, c: int, v: int)
    requires
        lo <= v <= hi,
    ensures
        (v - c) * (v - c) <= (lo - c) * (lo - c) || (v - c) * (v - c) <= (hi - c) * (hi - c),
{
    if v >= c {
        assert((v - c) * (v - c) <= (hi - c) * (hi - c)) by (nonlinear_arith)
            requires
                0 <= v - c <= hi - c,
        ;
    } else {
        assert((v - c) * (v - c) <= (lo - c) * (lo - c)) by (nonlinear_arith)
            requires
                0 < c - v <= c - lo,
        ;
    }
}

/// Whether a disc of radius `radius` at `(cx, cy)` can be stamped on a
/// `width` x `height` grid without 32-bit overflow.
pub fn circle_fits_grid(width: u32, height: u32, cx: i32, cy: i32, radius: i32) -> (ok: bool)
    requires
        width <= MAX_GRID_SIDE,
        height <= MAX_GRID_SIDE,
    ensures
        ok == circle_fits(width as int, height as int, cx as int, cy as int, radius as int),
{
    let c_x = cx as i64;
    let c_y = cy as i64;
    let r = radius as i64;
    let lo: i64 = i32::MIN as i64;
    let hi: i64 = i32::MAX as i64;
    if c_x - r < lo || c_x - r > hi || c_x + r < lo || c_x + r > hi {
        return false;
    }
    if c_y - r < lo || c_y - r > hi || c_y + r < lo || c_y + r > hi {
        return false;
    }
    assert(0 <= r * r <= 4611686018427387904) by (nonlinear_arith)
        requires
            -2147483648 <= r <= 2147483647,
    ;
    if r * r > hi {
        return false;
    }
    let x_start = if 0 > c_x - r {
        0
    } else {
        c_x - r
    };
    let x_end = if width as i64 - 1 < c_x + r {
        width as i64 - 1
    } else {
        c_x + r
    };
    let y_start = if 0 > c_y - r {
        0
    } else {
        c_y - r
    };
    let y_end = if height as i64 - 1 < c_y + r {
        height as i64 - 1
    } else {
        c_y + r
    };
    let ghost (wi, hi_, cxi, cyi, ri) = (width as int, height as int, cx as int, cy as int, radius as int);
    if x_start > x_end || y_start > y_end {
        assert forall|x: int, y: int|
            box_lo(cxi, ri) <= x <= box_hi(cxi, ri, wi) && box_lo(cyi, ri) <= y <= box_hi(
                cyi,
                ri,
                hi_,
            ) implies #[trigger] sq_dist(cxi, cyi, x, y) <= i32::MAX by {}
        return true;
    }
    assert(r * r <= 2147483647);
    assert(-46341 <= r <= 46341) by (nonlinear_arith)
        requires
            r * r <= 2147483647,
    ;
    let ax = x_start - c_x;
    let bx = x_end - c_x;
    let ay = y_start - c_y;
    let by = y_end - c_y;
    assert(0 <= ax * ax <= 2147483647 && 0 <= bx * bx <= 2147483647 && 0 <= ay * ay
        <= 2147483647 && 0 <= by * by <= 2147483647) by (nonlinear_arith)
        requires
            -46341 <= r <= 46341,
            r * r <= 2147483647,
            -r <= ax <= r,
            -r <= bx <= r,
            -r <= ay <= r,
            -r <= by <= r,
    ;
    let far_x = if ax * ax > bx * bx {
        ax * ax
    } else {
        bx * bx
    };
    let far_y = if ay * ay > by * by {
        ay * ay
    } else {
        by * by
    };
    let ok = far_x + far_y <= hi;
    proof {
        let xs = x_start as int;
        let xe = x_end as int;
        let ys = y_start as int;
        let ye = y_end as int;
        if ok {
            assert forall|x: int, y: int|
                box_lo(cxi, ri) <= x <= box_hi(cxi, ri, wi) && box_lo(cyi, ri) <= y <= box_hi(
                    cyi,
                    ri,
                    hi_,
                ) implies #[trigger] sq_dist(cxi, cyi, x, y) <= i32::MAX by {
                lemma_sq_at_ends(xs, xe, cxi, x);
                lemma_sq_at_ends(ys, ye, cyi, y);
            }
        } else {
            let x = if ax * ax > bx * bx {
                xs
            } else {
                xe
            };
            let y = if ay * ay > by * by {
                ys
            } else {
                ye
            };
            assert(sq_dist(cxi, cyi, x, y) > i32::MAX);
        }
    }
    ok
}

/// Stamps a disc of the brush's material, clipped to the grid, and marks
/// the grid for upload.
pub fn draw_brush_circle(solver: &mut Solver, cx: i32, cy: i32, radius: i32, brush: BrushType)
    requires
        old(solver).wf(),
        circle_fits(old(solver).w(), old(solver).h(), cx as int, cy as int, radius as int),
    ensures
        final(solver).wf(),
        final(solver).params == old(solver).params,
        final(solver).step_count == old(solver).step_count,
        final(solver).is_running == old(solver).is_running,
        final(solver).steps_per_frame == old(solver).steps_per_frame,
        final(solver).step_requested == old(solver).step_requested,
        final(solver).material_dirty,
        final(solver).material_data@ == paint(
            old(solver).material_data@,
            old(solver).w(),
            |a: int, b: int| in_circle(cx as int, cy as int, radius as int, a, b),
            brush_fill(brush),
        ),
{
    let ghost before = *solver;
    let ghost base = solver.material_data@;
    let ghost wi = solver.w();
    let ghost hi = solver.h();
    let ghost fill = brush_fill(brush);
    let ghost (cxi, cyi, ri) = (cx as int, cy as int, radius as int);
    proof {
        lemma_grid_size(*solver);
    }
    let w = solver.params.width as i32;
    let h = solver.params.height as i32;

    let x_start = if 0 > cx - radius {
        0
    } else {
        cx - radius
    };
    let x_end = if w - 1 < cx + radius {
        w - 1
    } else {
        cx + radius
    };
    let y_start = if 0 > cy - radius {
        0
    } else {
        cy - radius
    };
    let y_end = if h - 1 < cy + radius {
        h - 1
    } else {
        cy + radius
    };

    let r2 = radius * radius;

    proof {
        assert forall|a: int, b: int| 0 <= a < wi && 0 <= b < hi && #[trigger] in_circle(cxi, cyi, ri, a, b) implies x_start <= a <= x_end && y_start <= b <= y_end by {
            lemma_circle_bounds(cxi, cyi, ri, a, b);
        }
        lemma_paint_nothing(base, wi, hi, |a: int, b: int| in_circle(cxi, cyi, ri, a, b) && b < y_start, fill);
    }
    let mut y = y_start;
    while y <= y_end
        invariant
            solver.wf(),
            only_material_changed(before, *solver),
            wi == w,
            hi == h,
            wi == solver.w(),
            hi == solver.h(),
            1 <= w <= 8192,
            1 <= h <= 8192,
            base.len() == 4 * (wi * hi),
            fill == brush_fill(brush),
            cxi == cx,
            cyi == cy,
            ri == radius,
            wi * hi <= 67108864,
            circle_fits(wi, hi, cxi, cyi, ri),
            x_start == box_lo(cxi, ri),
            x_end == box_hi(cxi, ri, wi),
            y_start == box_lo(cyi, ri),
            y_end == box_hi(cyi, ri, hi),
            r2 == ri * ri,
            forall|a: int, b: int| 0 <= a < wi && 0 <= b < hi && #[trigger] in_circle(cxi, cyi, ri, a, b) ==> x_start <= a <= x_end && y_start <= b <= y_end,
            y_start <= y,
            y <= y_end + 1 || y == y_start,
            solver.material_data@ == paint(
                base,
                wi,
                |a: int, b: int| in_circle(cxi, cyi, ri, a, b) && b < y,
                fill,
            ),
        decreases y_end + 1 - y,
    {
        proof {
            lemma_paint_congruent(
                base,
                wi,
                hi,
                |a: int, b: int| in_circle(cxi, cyi, ri, a, b) && b < y,
                |a: int, b: int| in_circle(cxi, cyi, ri, a, b) && (b < y || (b == y && a < x_start)),
                fill,
            );
        }
        let mut x = x_start;
        while x <= x_end
            invariant
                solver.wf(),
                only_material_changed(before, *solver),
                wi == w,
                hi == h,
                wi == solver.w(),
                hi == solver.h(),
                1 <= w <= 8192,
                1 <= h <= 8192,
                base.len() == 4 * (wi * hi),
                fill == brush_fill(brush),
                cxi == cx,
                cyi == cy,
                ri == radius,
                wi * hi <= 67108864,
                circle_fits(wi, hi, cxi, cyi, ri),
                x_start == box_lo(cxi, ri),
                x_end == box_hi(cxi, ri, wi),
                y_start == box_lo(cyi, ri),
                y_end == box_hi(cyi, ri, hi),
                r2 == ri * ri,
                forall|a: int, b: int| 0 <= a < wi && 0 <= b < hi && #[trigger] in_circle(cxi, cyi, ri, a, b) ==> x_start <= a <= x_end && y_start <= b <= y_end,
                y_start <= y <= y_end,
                x_start <= x,
                x <= x_end + 1 || x == x_start,
                solver.material_data@ == paint(
                    base,
                    wi,
                    |a: int, b: int| in_circle(cxi, cyi, ri, a, b) && (b < y || (b == y && a < x)),
                    fill,
                ),
            decreases x_end + 1 - x,
        {
            proof {
                assert(ri >= 0);
                assert(cxi - ri <= x <= cxi + ri);
                assert(cyi - ri <= y <= cyi + ri);
            }
            let dx = x - cx;
            let dy = y - cy;
            proof {
                assert(sq_dist(cxi, cyi, x as int, y as int) <= i32::MAX);
                assert(ri >= 0);
                assert(-ri <= dx <= ri && -ri <= dy <= ri);
                assert(0 <= dx * dx <= ri * ri && 0 <= dy * dy <= ri * ri) by (nonlinear_arith)
                    requires
                        -ri <= dx <= ri,
                        -ri <= dy <= ri,
                ;
                assert(dx * dx + dy * dy == sq_dist(cxi, cyi, x as int, y as int));
            }
            if dx * dx + dy * dy <= r2 {
                proof {
                    lemma_cell_coords(wi, hi, x as int, y as int);
                    lemma_paint_write(
                        base,
                        wi,
                        hi,
                        |a: int, b: int| in_circle(cxi, cyi, ri, a, b) && (b < y || (b == y && a < x)),
                        |a: int, b: int| in_circle(cxi, cyi, ri, a, b) && (b < y || (b == y && a < x + 1)),
                        x as int,
                        y as int,
                        fill,
                    );
                }
                let idx = ((y * w + x) * 4) as usize;
                match brush {
                    BrushType::Vacuum => {
                        // Reset to vacuum [eps_r = 1.0, sigma = 0.0, source = 0.0].
                        solver.material_data[idx] = F32_ONE;
                        solver.material_data[idx + 1] = F32_ZERO;
                        solver.material_data[idx + 2] = F32_ZERO;
                    },
                    BrushType::PEC => {
                        // Obstacle [eps_r = 0.0, sigma = 0.0, source = 0.0].
                        solver.material_data[idx] = F32_ZERO;
                        solver.material_data[idx + 1] = F32_ZERO;
                        solver.material_data[idx + 2] = F32_ZERO;
                    },
                    BrushType::Glass => {
                        // Glass dielectric [eps_r = 2.25, sigma = 0.0, source = 0.0].
                        solver.material_data[idx] = F32_TWO_AND_QUARTER;
                        solver.material_data[idx + 1] = F32_ZERO;
                        solver.material_data[idx + 2] = F32_ZERO;
                    },
                    BrushType::Source => {
                        // Source: blue channel 1.0, eps_r kept at 1.0 for propagation.
                        solver.material_data[idx] = F32_ONE;
                        solver.material_data[idx + 1] = F32_ZERO;
                        solver.material_data[idx + 2] = F32_ONE;
                    },
                }
            } else {
                proof {
                    lemma_paint_congruent(
                        base,
                        wi,
                        hi,
                        |a: int, b: int| in_circle(cxi, cyi, ri, a, b) && (b < y || (b == y && a < x)),
                        |a: int, b: int| in_circle(cxi, cyi, ri, a, b) && (b < y || (b == y && a < x + 1)),
                        fill,
                    );
                }
            }
            x = x + 1;
        }
        proof {
            lemma_paint_congruent(
                base,
                wi,
                hi,
                |a: int, b: int| in_circle(cxi, cyi, ri, a, b) && (b < y || (b == y && a < x)),
                |a: int, b: int| in_circle(cxi, cyi, ri, a, b) && b < y + 1,
                fill,
            );
        }
        y = y + 1;
    }
    proof {
        lemma_paint_congruent(
            base,
            wi,
            hi,
            |a: int, b: int| in_circle(cxi, cyi, ri, a, b) && b < y,
            |a: int, b: int| in_circle(cxi, cyi, ri, a, b),
            fill,
        );
    }
    solver.material_dirty = true;
}

/// Samples a stroke takes along its segment, less one: the larger of its
/// horizontal and vertical extents.
pub open spec fn stroke_steps(x0: int, y0: int, x1: int, y1: int) -> int {
    let dx = abs(x1 - x0);
    let dy = abs(y1 - y0);
    if dx > dy {
        dx
    } else {
        dy
    }
}

/// Where a stroke stamps its discs: the start point for a stroke of no
/// length, else the sample points given for it.
pub open spec fn stroke_centers(x0: i32, y0: i32, x1: i32, y1: i32, samples: Seq<(i32, i32)>) -> Seq<(i32, i32)> {
    if stroke_steps(x0 as int, y0 as int, x1 as int, y1 as int) == 0 {
        seq![(x0, y0)]
    } else {
        samples
    }
}

/// Disc `k` of the centres covers cell `(x, y)`.
pub open spec fn circle_hit(centers: Seq<(i32, i32)>, k: int, r: int, x: int, y: int) -> bool {
    in_circle(centers[k].0 as int, centers[k].1 as int, r, x, y)
}

/// Some disc of the centres covers cell `(x, y)`.
pub open spec fn stroke_covers(centers: Seq<(i32, i32)>, r: int, x: int, y: int) -> bool {
    exists|k: int| 0 <= k < centers.len() && #[trigger] circle_hit(centers, k, r, x, y)
}

/// Consecutive samples `k` and `k + 1` lie in the same or neighbouring
/// cells: each coordinate moves by at most one.
pub open spec fn adjacent_samples(samples: Seq<(i32, i32)>, k: int) -> bool {
    &&& abs(samples[k + 1].0 - samples[k].0) <= 1
    &&& abs(samples[k + 1].1 - samples[k].1) <= 1
}

/// The samples trace the segment from `(x0, y0)` to `(x1, y1)` smoothly:
/// one per step and one more, starting and ending at the end points, each
/// in the same or a neighbouring cell of the one before.
pub open spec fn smooth_samples(x0: i32, y0: i32, x1: i32, y1: i32, samples: Seq<(i32, i32)>) -> bool {
    let steps = stroke_steps(x0 as int, y0 as int, x1 as int, y1 as int);
    &&& samples.len() == steps + 1
    &&& samples[0] == (x0, y0)
    &&& samples[steps] == (x1, y1)
    &&& forall|k: int| 0 <= k < steps ==> #[trigger] adjacent_samples(samples, k)
}

/// A stroke's 32-bit arithmetic does not overflow, and a stroke of
/// positive length comes with samples that trace it smoothly.
pub open spec fn stroke_fits(
    w: int,
    h: int,
    x0: i32,
    y0: i32,
    x1: i32,
    y1: i32,
    r: int,
    samples: Seq<(i32, i32)>,
) -> bool {
    let centers = stroke_centers(x0, y0, x1, y1, samples);
    &&& in_i32(x1 - x0)
    &&& in_i32(y1 - y0)
    &&& in_i32(abs(x1 - x0))
    &&& in_i32(abs(y1 - y0))
    &&& stroke_steps(x0 as int, y0 as int, x1 as int, y1 as int) != 0 ==> smooth_samples(
        x0,
        y0,
        x1,
        y1,
        samples,
    )
    &&& forall|k: int|
        0 <= k < centers.len() ==> #[trigger] circle_fits(
            w,
            h,
            centers[k].0 as int,
            centers[k].1 as int,
            r,
        )
}

/// Draws a smooth stroke from `(x0, y0)` to `(x1, y1)`: a disc of the brush
/// at each sample point along the segment, or at the start point alone when
/// the two points coincide. `samples` are the points the segment is sampled
/// at, computed by the caller in floating point (step `i` of `steps` at
/// `round(start + i / steps * (end - start))`); they must run from one end
/// point to the other through neighbouring cells.
pub fn draw_brush_stroke(
    solver: &mut Solver,
    x0: i32,
    y0: i32,
    x1: i32,
    y1: i32,
    radius: i32,
    brush: BrushType,
    samples: &Vec<(i32, i32)>,
)
    requires
        old(solver).wf(),
        stroke_fits(old(solver).w(), old(solver).h(), x0, y0, x1, y1, radius as int, samples@),
    ensures
        final(solver).wf(),
        final(solver).params == old(solver).params,
        final(solver).step_count == old(solver).step_count,
        final(solver).is_running == old(solver).is_running,
        final(solver).steps_per_frame == old(solver).steps_per_frame,
        final(solver).step_requested == old(solver).step_requested,
        final(solver).material_dirty,
        final(solver).material_data@ == paint(
            old(solver).material_data@,
            old(solver).w(),
            |a: int, b: int|
                stroke_covers(stroke_centers(x0, y0, x1, y1, samples@), radius as int, a, b),
            brush_fill(brush),
        ),
{
    let ghost before = *solver;
    let ghost base = solver.material_data@;
    let ghost wi = solver.w();
    let ghost hi = solver.h();
    let ghost ri = radius as int;
    let ghost fill = brush_fill(brush);
    let ghost centers = stroke_centers(x0, y0, x1, y1, samples@);

    // Distance between the points.
    let ddx = x1 - x0;
    let ddy = y1 - y0;
    let dx = if ddx < 0 {
        -ddx
    } else {
        ddx
    };
    let dy = if ddy < 0 {
        -ddy
    } else {
        ddy
    };
    let steps = if dx > dy {
        dx
    } else {
        dy
    };

    if steps == 0 {
        proof {
            assert(centers[0] == (x0, y0));
            assert(circle_fits(wi, hi, centers[0].0 as int, centers[0].1 as int, ri));
        }
        draw_brush_circle(solver, x0, y0, radius, brush);
        proof {
            assert forall|a: int, b: int| 0 <= a < wi && 0 <= b < hi implies #[trigger] in_circle(x0 as int, y0 as int, ri, a, b) == stroke_covers(centers, ri, a, b) by {
                assert(circle_hit(centers, 0, ri, a, b) == in_circle(x0 as int, y0 as int, ri, a, b));
            }
            lemma_paint_congruent(
                base,
                wi,
                hi,
                |a: int, b: int| in_circle(x0 as int, y0 as int, ri, a, b),
                |a: int, b: int| stroke_covers(centers, ri, a, b),
                fill,
            );
        }
        return ;
    }
    // Stamp a disc at each sample point along the segment.
    let n = samples.len();
    proof {
        assert(centers == samples@);
        lemma_paint_nothing(
            base,
            wi,
            hi,
            |a: int, b: int| exists|j: int| 0 <= j < 0 && #[trigger] circle_hit(centers, j, ri, a, b),
            fill,
        );
    }
    let mut i: usize = 0;
    while i < n
        invariant
            solver.wf(),
            solver.params == before.params,
            solver.step_count == before.step_count,
            solver.is_running == before.is_running,
            solver.steps_per_frame == before.steps_per_frame,
            solver.step_requested == before.step_requested,
            i > 0 ==> solver.material_dirty,
            wi == solver.w(),
            hi == solver.h(),
            base.len() == 4 * (wi * hi),
            ri == radius,
            fill == brush_fill(brush),
            centers == samples@,
            n == samples@.len(),
            n >= 1,
            i <= n,
            forall|k: int|
                0 <= k < centers.len() ==> #[trigger] circle_fits(
                    wi,
                    hi,
                    centers[k].0 as int,
                    centers[k].1 as int,
                    ri,
                ),
            solver.material_data@ == paint(
                base,
                wi,
                |a: int, b: int| exists|j: int| 0 <= j < i && #[trigger] circle_hit(centers, j, ri, a, b),
                fill,
            ),
        decreases n - i,
    {
        let (x, y) = samples[i];
        proof {
            assert(circle_fits(wi, hi, centers[i as int].0 as int, centers[i as int].1 as int, ri));
        }
        let ghost painted = solver.material_data@;
        draw_brush_circle(solver, x, y, radius, brush);
        proof {
            lemma_paint_union(
                base,
                wi,
                |a: int, b: int| exists|j: int| 0 <= j < i && #[trigger] circle_hit(centers, j, ri, a, b),
                |a: int, b: int| in_circle(x as int, y as int, ri, a, b),
                fill,
            );
            assert forall|a: int, b: int| 0 <= a < wi && 0 <= b < hi implies (exists|j: int| 0 <= j < i + 1 && #[trigger] circle_hit(centers, j, ri, a, b)) == ((exists|j: int| 0 <= j < i && #[trigger] circle_hit(centers, j, ri, a, b)) || in_circle(x as int, y as int, ri, a, b)) by {
                assert(circle_hit(centers, i as int, ri, a, b) == in_circle(x as int, y as int, ri, a, b));
            }
            lemma_paint_congruent(
                base,
                wi,
                hi,
                |a: int, b: int|
                    (exists|j: int| 0 <= j < i && #[trigger] circle_hit(centers, j, ri, a, b))
                        || in_circle(x as int, y as int, ri, a, b),
                |a: int, b: int| exists|j: int| 0 <= j < i + 1 && #[trigger] circle_hit(centers, j, ri, a, b),
                fill,
            );
        }
        i = i + 1;
    }
    proof {
        lemma_paint_congruent(
            base,
            wi,
            hi,
            |a: int, b: int| exists|j: int| 0 <= j < n && #[trigger] circle_hit(centers, j, ri, a, b),
            |a: int, b: int| stroke_covers(centers, ri, a, b),
            fill,
        );
    }
}

/// Whether a preset can be drawn on a grid `height` rows high.
pub fn preset_fits_height(preset: Preset, height: u32) -> (ok: bool)
    ensures
        ok == preset_fits(preset, height as int),
{
    match preset {
        Preset::Empty | Preset::Prism => true,
        Preset::Waveguide => height >= 120,
        _ => height >= 32,
    }
}

/// Whether a stroke with these end points and samples can be drawn on a
/// `width` x `height` grid without 32-bit overflow.
pub fn stroke_fits_grid(
    width: u32,
    height: u32,
    x0: i32,
    y0: i32,
    x1: i32,
    y1: i32,
    radius: i32,
    samples: &Vec<(i32, i32)>,
) -> (ok: bool)
    requires
        width <= MAX_GRID_SIDE,
        height <= MAX_GRID_SIDE,
    ensures
        ok == stroke_fits(width as int, height as int, x0, y0, x1, y1, radius as int, samples@),
{
    let ddx = x1 as i64 - x0 as i64;
    let ddy = y1 as i64 - y0 as i64;
    let lo: i64 = i32::MIN as i64;
    let hi: i64 = i32::MAX as i64;
    if ddx < lo || ddx > hi || ddy < lo || ddy > hi {
        return false;
    }
    let dx = if ddx < 0 {
        -ddx
    } else {
        ddx
    };
    let dy = if ddy < 0 {
        -ddy
    } else {
        ddy
    };
    if dx > hi || dy > hi {
        return false;
    }
    let steps = if dx > dy {
        dx
    } else {
        dy
    };
    let ghost centers = stroke_centers(x0, y0, x1, y1, samples@);
    if steps == 0 {
        let ok = circle_fits_grid(width, height, x0, y0, radius);
        proof {
            assert(stroke_steps(x0 as int, y0 as int, x1 as int, y1 as int) == 0);
            assert(centers[0] == (x0, y0));
            assert(circle_fits(
                width as int,
                height as int,
                centers[0].0 as int,
                centers[0].1 as int,
                radius as int,
            ) == ok);
        }
        return ok;
    }
    proof {
        assert(stroke_steps(x0 as int, y0 as int, x1 as int, y1 as int) == steps);
    }
    if samples.len() != (steps + 1) as usize {
        return false;
    }
    let last = samples.len() - 1;
    let (fx, fy) = samples[0];
    let (lx, ly) = samples[last];
    if fx != x0 || fy != y0 || lx != x1 || ly != y1 {
        return false;
    }
    let mut k: usize = 0;
    while k < last
        invariant
            last + 1 == samples@.len(),
            last == steps,
            stroke_steps(x0 as int, y0 as int, x1 as int, y1 as int) == last,
            k <= last,
            forall|j: int| 0 <= j < k ==> #[trigger] adjacent_samples(samples@, j),
        decreases last - k,
    {
        let (ax, ay) = samples[k];
        let (bx, by) = samples[k + 1];
        let ddx = bx as i64 - ax as i64;
        let ddy = by as i64 - ay as i64;
        if ddx < -1 || ddx > 1 || ddy < -1 || ddy > 1 {
            proof {
                assert(!adjacent_samples(samples@, k as int));
            }
            return false;
        }
        k = k + 1;
    }
    proof {
        assert(smooth_samples(x0, y0, x1, y1, samples@));
    }
    let n = samples.len();
    let mut i: usize = 0;
    while i < n
        invariant
            n == samples@.len(),
            centers == samples@,
            centers == stroke_centers(x0, y0, x1, y1, samples@),
            i <= n,
            width <= MAX_GRID_SIDE,
            height <= MAX_GRID_SIDE,
            forall|k: int|
                0 <= k < i ==> #[trigger] circle_fits(
                    width as int,
                    height as int,
                    centers[k].0 as int,
                    centers[k].1 as int,
                    radius as int,
                ),
        decreases n - i,
    {
        let (cx, cy) = samples[i];
        if !circle_fits_grid(width, height, cx, cy, radius) {
            proof {
                assert(!circle_fits(
                    width as int,
                    height as int,
                    centers[i as int].0 as int,
                    centers[i as int].1 as int,
                    radius as int,
                ));
            }
            return false;
        }
        i = i + 1;
    }
    true
}

} // verus!
