//! Properties that hold across the solver's operations.

use vstd::prelude::*;
use crate::sim::params::{SimParams, F32_ONE, F32_ZERO};
use crate::sim::grid::{cell_base, fill_word, paint, vacuum_grid, lemma_cell_coords};
use crate::sim::solver::{
    Solver, StepPlan, MaterialUpload, texture_updated, stepped, microstep_pass, clearing_pass,
    MAX_GRID_SIDE,
};
use crate::sim::params::is_native_encoding;
use crate::sim::passes::{
    Pass, PassKind, Texture, Binding, ez, pass_reads, pass_writes, lemma_pass_reads,
    spec_pass_bindings,
};
use crate::sim::solver::frame_microsteps;
use crate::sim::scene::{
    Preset, BrushType, CurvedFeatures, preset_applied, preset_material, preset_params,
    brush_fill, in_circle, circle_fits, sq_dist, box_lo, box_hi, stroke_steps, stroke_centers,
    stroke_covers, circle_hit, stroke_fits, adjacent_samples, in_prism, double_area,
    preset_covers, preset_source_at, preset_fill, guide_column,
};

verus! {

/// A preset replaces whatever was drawn before: on grids of one size, the
/// same preset with the same features yields the same material grid.
pub proof fn law_preset_ignores_previous_grid(
    s1: Solver,
    t1: Solver,
    s2: Solver,
    t2: Solver,
    preset: Preset,
    f: CurvedFeatures,
)
    requires
        preset_applied(s1, t1, preset, f),
        preset_applied(s2, t2, preset, f),
        s1.params.width == s2.params.width,
        s1.params.height == s2.params.height,
    ensures
        t1.material_data@ == t2.material_data@,
{
}

/// Applying a preset twice leaves what applying it once does.
pub proof fn law_preset_idempotent(s: Solver, t: Solver, u: Solver, preset: Preset, f: CurvedFeatures)
    requires
        preset_applied(s, t, preset, f),
        preset_applied(t, u, preset, f),
    ensures
        u.material_data@ == t.material_data@,
        u.params == t.params,
        u.material_dirty,
{
    assert(preset_params(t.params) == t.params);
}

/// The empty preset clears the canvas to vacuum.
pub proof fn law_empty_preset_is_vacuum(w: int, h: int, f: CurvedFeatures)
    requires
        1 <= w,
        1 <= h,
    ensures
        preset_material(Preset::Empty, w, h, f) == vacuum_grid((w * h) as nat),
{
    assert(w * h >= 1) by (nonlinear_arith)
        requires
            1 <= w,
            1 <= h,
    ;
    assert(preset_material(Preset::Empty, w, h, f) =~= vacuum_grid((w * h) as nat));
}

/// A preset asks for the fields to be cleared: the next frame runs the
/// clearing passes, restarts the clock and step counter, and renders from
/// side `A`.
pub proof fn law_preset_then_step_resets(s: Solver, t: Solver, u: Solver, plan: StepPlan, preset: Preset, f: CurvedFeatures)
    requires
        preset_applied(s, t, preset, f),
        stepped(t, u, plan),
    ensures
        plan.reset_params is Some,
        u.step_count == 0,
        u.params.time == F32_ZERO,
        u.params.clear_sim == 0,
        plan.passes@.last() == (Pass { kind: PassKind::Render, side_a: true }),
        plan.material is Some,
{
}

/// A clear request is honoured by the next frame, and only then: the frame
/// after it runs no clearing passes of its own.
pub proof fn law_clear_once(s: Solver, u: Solver, v: Solver, p1: StepPlan, p2: StepPlan)
    requires
        s.params.clear_sim == 1,
        stepped(s, u, p1),
        stepped(u, v, p2),
    ensures
        p1.reset_params is Some,
        u.step_count == 0,
        u.params.time == F32_ZERO,
        p2.reset_params is None,
        p2.passes@.len() == 2 * p2.microsteps + 1,
{
}

/// A clear resets every field: its clearing passes write `H B`, `Ez B`,
/// `H A` and `Ez A`, in that order, all under the clear request.
pub proof fn law_clear_writes_every_field(s: Solver, t: Solver, plan: StepPlan)
    requires
        s.params.clear_sim == 1,
        stepped(s, t, plan),
    ensures
        ({
            let n = 2 * plan.microsteps as int;
            &&& pass_writes(plan.passes@[n]) == Texture::HB
            &&& pass_writes(plan.passes@[n + 1]) == Texture::EzB
            &&& pass_writes(plan.passes@[n + 2]) == Texture::HA
            &&& pass_writes(plan.passes@[n + 3]) == Texture::EzA
        }),
        is_native_encoding(plan.params_bytes@, s.params.words()),
        s.params.words()[16] == 1,
{
    let n = 2 * plan.microsteps as int;
    assert(plan.passes@[n] == clearing_pass(0));
    assert(plan.passes@[n + 1] == clearing_pass(1));
    assert(plan.passes@[n + 2] == clearing_pass(2));
    assert(plan.passes@[n + 3] == clearing_pass(3));
}

/// The grid is uploaded once per change: right after an upload, the next
/// update finds nothing to send.
pub proof fn law_upload_once(
    s: Solver,
    t: Solver,
    u: Solver,
    a: Option<MaterialUpload>,
    b: Option<MaterialUpload>,
)
    requires
        texture_updated(s, t, a),
        texture_updated(t, u, b),
    ensures
        b is None,
        u.material_data@ == s.material_data@,
{
}

/// Every E pass reads the `H` texture its microstep's H pass has just
/// written.
pub proof fn law_e_reads_fresh_h(s: Solver, t: Solver, plan: StepPlan, i: int)
    requires
        stepped(s, t, plan),
        0 <= i < plan.microsteps,
    ensures
        plan.passes@[2 * i].kind == PassKind::UpdateH,
        plan.passes@[2 * i + 1].kind == PassKind::UpdateE,
        pass_reads(plan.passes@[2 * i + 1], pass_writes(plan.passes@[2 * i])),
{
    assert(plan.passes@[2 * i] == microstep_pass(s.step_count as int, 2 * i));
    assert(plan.passes@[2 * i + 1] == microstep_pass(s.step_count as int, 2 * i + 1));
    assert((2 * i) / 2 == i && (2 * i + 1) / 2 == i);
    lemma_pass_reads(plan.passes@[2 * i + 1], pass_writes(plan.passes@[2 * i]));
}

/// Every microstep after the first reads the `Ez` and `H` textures the
/// microstep before it has just written, so consecutive microsteps
/// alternate sides.
pub proof fn law_microsteps_chain(s: Solver, t: Solver, plan: StepPlan, i: int)
    requires
        stepped(s, t, plan),
        0 < i < plan.microsteps,
    ensures
        pass_reads(plan.passes@[2 * i], pass_writes(plan.passes@[2 * i - 1])),
        pass_reads(plan.passes@[2 * i], pass_writes(plan.passes@[2 * i - 2])),
        plan.passes@[2 * i].side_a == !plan.passes@[2 * i - 2].side_a,
{
    assert(plan.passes@[2 * i] == microstep_pass(s.step_count as int, 2 * i));
    assert(plan.passes@[2 * i - 1] == microstep_pass(s.step_count as int, 2 * i - 1));
    assert(plan.passes@[2 * i - 2] == microstep_pass(s.step_count as int, 2 * i - 2));
    assert((2 * i) / 2 == i && (2 * i - 1) / 2 == i - 1 && (2 * i - 2) / 2 == i - 1);
    lemma_pass_reads(plan.passes@[2 * i], pass_writes(plan.passes@[2 * i - 1]));
    lemma_pass_reads(plan.passes@[2 * i], pass_writes(plan.passes@[2 * i - 2]));
}

/// The render pass shows the newest field: whenever the frame ran an E
/// pass, the pass just before the render pass is an E pass, and the render
/// pass reads the `Ez` texture it wrote.
pub proof fn law_render_reads_newest_field(s: Solver, t: Solver, plan: StepPlan)
    requires
        stepped(s, t, plan),
        plan.microsteps > 0 || s.params.clear_sim == 1,
    ensures
        plan.passes@.len() >= 3,
        plan.passes@[plan.passes@.len() - 2].kind == PassKind::UpdateE,
        plan.passes@.last().kind == PassKind::Render,
        pass_reads(plan.passes@.last(), pass_writes(plan.passes@[plan.passes@.len() - 2])),
{
    let len = plan.passes@.len();
    let n = 2 * plan.microsteps as int;
    if s.params.clear_sim == 1 {
        assert(plan.passes@[len - 2] == clearing_pass(3));
    } else {
        let m = plan.microsteps as int;
        assert(plan.passes@[len - 2] == microstep_pass(s.step_count as int, 2 * m - 1));
        assert((2 * m - 1) / 2 == m - 1);
        assert(t.step_count == s.step_count + m);
    }
    lemma_pass_reads(plan.passes@.last(), pass_writes(plan.passes@[len - 2]));
}

/// Successive frames keep the ping-pong going: the next frame's first
/// microstep reads the `Ez` texture this frame rendered.
pub proof fn law_frames_chain(s: Solver, t: Solver, u: Solver, p1: StepPlan, p2: StepPlan)
    requires
        stepped(s, t, p1),
        stepped(t, u, p2),
        p2.microsteps > 0,
    ensures
        p2.passes@[0].kind == PassKind::UpdateH,
        p2.passes@[0].side_a == p1.passes@.last().side_a,
        pass_reads(p1.passes@.last(), ez(p2.passes@[0].side_a)),
        pass_reads(p2.passes@[0], ez(p1.passes@.last().side_a)),
{
    assert(t.params.clear_sim != 1);
    assert(p2.passes@[0] == microstep_pass(t.step_count as int, 0));
    lemma_pass_reads(p1.passes@.last(), ez(p2.passes@[0].side_a));
    lemma_pass_reads(p2.passes@[0], ez(p1.passes@.last().side_a));
}

/// A paused frame with no single step asked for runs only the render pass
/// and keeps its step counter (unless it clears).
pub proof fn law_paused_frame(s: Solver, t: Solver, plan: StepPlan)
    requires
        stepped(s, t, plan),
        !s.is_running,
        !s.step_requested,
        s.params.clear_sim != 1,
    ensures
        plan.microsteps == 0,
        plan.passes@.len() == 1,
        t.step_count == s.step_count,
        t.params == s.params,
{
}

/// A single step asked for while paused runs exactly one microstep in the
/// next frame, and the frame after it runs none.
pub proof fn law_single_step(s: Solver, t: Solver, u: Solver, p1: StepPlan, p2: StepPlan)
    requires
        stepped(s, t, p1),
        stepped(t, u, p2),
        !s.is_running,
        s.step_requested,
        s.params.clear_sim != 1,
    ensures
        p1.microsteps == 1,
        t.step_count == s.step_count + 1,
        p2.microsteps == 0,
        u.step_count == t.step_count,
{
}

/// A brush changes exactly the three leading words of the cells of its
/// disc, to its fill; every other word keeps its value.
pub proof fn law_brush_touches_only_disc(
    data: Seq<u32>,
    w: int,
    h: int,
    cx: int,
    cy: int,
    r: int,
    brush: BrushType,
    x: int,
    y: int,
    c: int,
)
    requires
        1 <= w,
        data.len() == 4 * (w * h),
        0 <= x < w,
        0 <= y < h,
        0 <= c < 4,
    ensures
        ({
            let out = paint(data, w, |a: int, b: int| in_circle(cx, cy, r, a, b), brush_fill(brush));
            let i = cell_base(w, x, y) + c;
            &&& out.len() == data.len()
            &&& (in_circle(cx, cy, r, x, y) && c < 3) ==> out[i] == fill_word(brush_fill(brush), c)
            &&& !(in_circle(cx, cy, r, x, y) && c < 3) ==> out[i] == data[i]
        }),
{
    lemma_cell_coords(w, h, x, y);
}

/// Stamping the same disc twice leaves what stamping it once does.
pub proof fn law_brush_idempotent(data: Seq<u32>, w: int, cx: int, cy: int, r: int, brush: BrushType)
    ensures
        ({
            let region = |a: int, b: int| in_circle(cx, cy, r, a, b);
            let once = paint(data, w, region, brush_fill(brush));
            paint(once, w, region, brush_fill(brush)) == once
        }),
{
    let region = |a: int, b: int| in_circle(cx, cy, r, a, b);
    let once = paint(data, w, region, brush_fill(brush));
    assert(paint(once, w, region, brush_fill(brush)) =~= once);
}

/// The eraser restores vacuum: every cell of its disc ends up `[1.0, 0.0,
/// 0.0]` in its leading words, sources included.
pub proof fn law_eraser_restores_vacuum(data: Seq<u32>, w: int, h: int, cx: int, cy: int, r: int, x: int, y: int)
    requires
        1 <= w,
        data.len() == 4 * (w * h),
        0 <= x < w,
        0 <= y < h,
        in_circle(cx, cy, r, x, y),
    ensures
        ({
            let out = paint(data, w, |a: int, b: int| in_circle(cx, cy, r, a, b), brush_fill(BrushType::Vacuum));
            &&& out[cell_base(w, x, y)] == F32_ONE
            &&& out[cell_base(w, x, y) + 1] == F32_ZERO
            &&& out[cell_base(w, x, y) + 2] == F32_ZERO
        }),
{
    lemma_cell_coords(w, h, x, y);
}

/// A stroke whose ends coincide stamps one disc at that point.
pub proof fn law_point_stroke_is_disc(x0: i32, y0: i32, r: int, samples: Seq<(i32, i32)>, a: int, b: int)
    ensures
        stroke_covers(stroke_centers(x0, y0, x0, y0, samples), r, a, b) == in_circle(x0 as int, y0 as int, r, a, b),
{
    let centers = stroke_centers(x0, y0, x0, y0, samples);
    assert(stroke_steps(x0 as int, y0 as int, x0 as int, y0 as int) == 0);
    assert(circle_hit(centers, 0, r, a, b) == in_circle(x0 as int, y0 as int, r, a, b));
}

/// A stroke covers each of its sample discs, so its last sample's disc,
/// where the pointer now is, is always painted.
pub proof fn law_stroke_reaches_end(x0: i32, y0: i32, x1: i32, y1: i32, r: int, samples: Seq<(i32, i32)>, a: int, b: int)
    requires
        stroke_steps(x0 as int, y0 as int, x1 as int, y1 as int) != 0,
        samples.len() > 0,
        in_circle(samples.last().0 as int, samples.last().1 as int, r, a, b),
    ensures
        stroke_covers(stroke_centers(x0, y0, x1, y1, samples), r, a, b),
{
    let centers = stroke_centers(x0, y0, x1, y1, samples);
    assert(circle_hit(centers, samples.len() - 1, r, a, b));
}

/// The panel's brushes never overflow: a disc of radius at most 32 centred
/// on a grid cell fits the 32-bit arithmetic.
pub proof fn law_panel_brush_fits(w: int, h: int, cx: int, cy: int, r: int)
    requires
        1 <= w <= MAX_GRID_SIDE,
        1 <= h <= MAX_GRID_SIDE,
        0 <= cx < w,
        0 <= cy < h,
        0 <= r <= 32,
    ensures
        circle_fits(w, h, cx, cy, r),
{
    assert(r * r <= 1024) by (nonlinear_arith)
        requires
            0 <= r <= 32,
    ;
    assert(r * r >= 0) by (nonlinear_arith);
    assert forall|x: int, y: int|
        box_lo(cx, r) <= x <= box_hi(cx, r, w) && box_lo(cy, r) <= y <= box_hi(cy, r, h)
            implies #[trigger] sq_dist(cx, cy, x, y) <= i32::MAX by {
        assert(sq_dist(cx, cy, x, y) <= 2048) by (nonlinear_arith)
            requires
                -32 <= x - cx <= 32,
                -32 <= y - cy <= 32,
                sq_dist(cx, cy, x, y) == (x - cx) * (x - cx) + (y - cy) * (y - cy),
        ;
    }
}

/// Every stroke traces its segment smoothly: its discs are centred on a
/// chain of neighbouring cells from `(x0, y0)` to `(x1, y1)`.
pub proof fn law_stroke_is_smooth(
    w: int,
    h: int,
    x0: i32,
    y0: i32,
    x1: i32,
    y1: i32,
    r: int,
    samples: Seq<(i32, i32)>,
)
    requires
        stroke_fits(w, h, x0, y0, x1, y1, r, samples),
    ensures
        ({
            let c = stroke_centers(x0, y0, x1, y1, samples);
            &&& c.len() >= 1
            &&& c[0] == (x0, y0)
            &&& c.last() == (x1, y1)
            &&& forall|k: int| 0 <= k < c.len() - 1 ==> #[trigger] adjacent_samples(c, k)
        }),
{
    let steps = stroke_steps(x0 as int, y0 as int, x1 as int, y1 as int);
    if steps == 0 {
        assert(x1 == x0 && y1 == y0);
    }
}

/// The closed triangle `(X - 60, Y - 70)`, `(X - 60, Y + 70)`,
/// `(X + 60, Y)` around the grid centre `(X, Y)`, by its three sides: right
/// of the vertical side, and on the inner side of the two slanted ones.
pub open spec fn in_triangle(w: int, h: int, x: int, y: int) -> bool {
    let u = x - w / 2;
    let v = y - h / 2;
    &&& u >= -60
    &&& 7 * u + 12 * v <= 420
    &&& 7 * u - 12 * v <= 420
}

/// The prism's area test picks exactly the cells of the closed triangle.
pub proof fn law_prism_is_triangle(w: int, h: int, x: int, y: int)
    ensures
        in_prism(w, h, x, y) == in_triangle(w, h, x, y),
{
    let cx = w / 2;
    let cy = h / 2;
    let u = x - cx;
    let v = y - cy;
    let d1 = double_area(x, y, cx - 60, cy + 70, cx + 60, cy);
    let d2 = double_area(cx - 60, cy - 70, x, y, cx + 60, cy);
    let d3 = double_area(cx - 60, cy - 70, cx - 60, cy + 70, x, y);
    let t = double_area(cx - 60, cy - 70, cx - 60, cy + 70, cx + 60, cy);
    assert(d1 == 70 * u + 120 * v - 4200) by (nonlinear_arith)
        requires
            d1 == x * ((cy + 70) - cy) + (cx - 60) * (cy - y) + (cx + 60) * (y - (cy + 70)),
            u == x - cx,
            v == y - cy,
    ;
    assert(d2 == 70 * u - 120 * v - 4200) by (nonlinear_arith)
        requires
            d2 == (cx - 60) * (y - cy) + x * (cy - (cy - 70)) + (cx + 60) * ((cy - 70) - y),
            u == x - cx,
            v == y - cy,
    ;
    assert(d3 == -140 * u - 8400) by (nonlinear_arith)
        requires
            d3 == (cx - 60) * ((cy + 70) - y) + (cx - 60) * (y - (cy - 70)) + x * ((cy - 70) - (
            cy + 70)),
            u == x - cx,
    ;
    assert(t == -16800) by (nonlinear_arith)
        requires
            t == (cx - 60) * ((cy + 70) - cy) + (cx - 60) * (cy - (cy - 70)) + (cx + 60) * ((cy
                - 70) - (cy + 70)),
    ;
}

// ---------------------------------------------------------------------------
// What each preset leaves in a cell, in closed form
// ---------------------------------------------------------------------------

/// The four words a preset leaves in an in-grid cell: its structure's
/// permittivity where it covers the cell (else vacuum's 1.0), no
/// conductivity, the source amplitude where it has a source (else 0), and
/// no padding.
proof fn lemma_preset_cell(s: Solver, t: Solver, preset: Preset, f: CurvedFeatures, x: int, y: int)
    requires
        preset_applied(s, t, preset, f),
        0 <= x < s.w(),
        0 <= y < s.h(),
    ensures
        ({
            let b = 4 * (y * s.w() + x);
            &&& 0 <= b
            &&& b + 3 < t.material_data@.len()
            &&& t.material_data@[b] == (if preset_covers(preset, s.w(), s.h(), f, x, y) {
                preset_fill(preset).0
            } else {
                F32_ONE
            })
            &&& t.material_data@[b + 1] == F32_ZERO
            &&& t.material_data@[b + 2] == (match preset_source_at(preset, s.w(), s.h(), f, x, y) {
                Some(v) => v,
                None => F32_ZERO,
            })
            &&& t.material_data@[b + 3] == F32_ZERO
        }),
{
    let w = s.w();
    let h = s.h();
    assert(t.params.width == s.params.width && t.params.height == s.params.height);
    lemma_cell_coords(w, h, x, y);
    let b = cell_base(w, x, y);
    assert(b % 4 == 0 && (b + 1) % 4 == 1 && (b + 2) % 4 == 2 && (b + 3) % 4 == 3);
}

/// The convex lens is the intersection of two discs of radius 240 centred
/// 216 cells left and right of the grid centre: a cell is glass (2.25)
/// exactly when it lies in both, and vacuum (1.0) otherwise; the plane
/// source fills column 24 from row 32 to row `h - 33`.
pub proof fn law_lens_cells(s: Solver, t: Solver, f: CurvedFeatures, x: int, y: int)
    requires
        preset_applied(s, t, Preset::ConvexLens, f),
        0 <= x < s.w(),
        0 <= y < s.h(),
    ensures
        ({
            let w = s.w();
            let h = s.h();
            let b = 4 * (y * w + x);
            let left = (x - (w / 2 - 216)) * (x - (w / 2 - 216)) + (y - h / 2) * (y - h / 2);
            let right = (x - (w / 2 + 216)) * (x - (w / 2 + 216)) + (y - h / 2) * (y - h / 2);
            &&& t.material_data@[b] == (if left <= 57600 && right <= 57600 {
                0x4010_0000u32
            } else {
                0x3F80_0000u32
            })
            &&& t.material_data@[b + 1] == 0
            &&& t.material_data@[b + 2] == (if x == 24 && 32 <= y < h - 32 {
                0x3F80_0000u32
            } else {
                0u32
            })
            &&& t.material_data@[b + 3] == 0
        }),
{
    lemma_preset_cell(s, t, Preset::ConvexLens, f, x, y);
}

/// The lens is mirror-symmetric about the central column of a grid of even
/// width: cells `x` and `w - x` of a row hold the same permittivity.
pub proof fn law_lens_symmetric(s: Solver, t: Solver, f: CurvedFeatures, x: int, y: int)
    requires
        preset_applied(s, t, Preset::ConvexLens, f),
        s.w() % 2 == 0,
        0 < x < s.w(),
        0 <= y < s.h(),
    ensures
        t.material_data@[4 * (y * s.w() + x)] == t.material_data@[4 * (y * s.w() + (s.w() - x))],
{
    let w = s.w();
    let h = s.h();
    law_lens_cells(s, t, f, x, y);
    law_lens_cells(s, t, f, w - x, y);
    assert(w - x - (w / 2 - 216) == -(x - (w / 2 + 216)));
    assert(w - x - (w / 2 + 216) == -(x - (w / 2 - 216)));
    let a = x - (w / 2 + 216);
    let c = x - (w / 2 - 216);
    assert((-a) * (-a) == a * a) by (nonlinear_arith);
    assert((-c) * (-c) == c * c) by (nonlinear_arith);
}

/// The single slit: the column `w / 3` is metal (0.0) except the 13 rows
/// within 6 of the centre row, every other cell vacuum; plane source in
/// column 24.
pub proof fn law_single_slit_cells(s: Solver, t: Solver, f: CurvedFeatures, x: int, y: int)
    requires
        preset_applied(s, t, Preset::SingleSlit, f),
        0 <= x < s.w(),
        0 <= y < s.h(),
    ensures
        ({
            let w = s.w();
            let h = s.h();
            let b = 4 * (y * w + x);
            &&& t.material_data@[b] == (if x == w / 3 && (y < h / 2 - 6 || y > h / 2 + 6) {
                0u32
            } else {
                0x3F80_0000u32
            })
            &&& t.material_data@[b + 2] == (if x == 24 && 32 <= y < h - 32 {
                0x3F80_0000u32
            } else {
                0u32
            })
        }),
{
    lemma_preset_cell(s, t, Preset::SingleSlit, f, x, y);
}

/// The double slit: the column `w / 3` is metal except two 7-row slits
/// centred 12 rows above and below the centre row.
pub proof fn law_double_slit_cells(s: Solver, t: Solver, f: CurvedFeatures, x: int, y: int)
    requires
        preset_applied(s, t, Preset::DoubleSlit, f),
        0 <= x < s.w(),
        0 <= y < s.h(),
    ensures
        ({
            let w = s.w();
            let h = s.h();
            let b = 4 * (y * w + x);
            let in_slit1 = h / 2 - 15 <= y <= h / 2 - 9;
            let in_slit2 = h / 2 + 9 <= y <= h / 2 + 15;
            &&& t.material_data@[b] == (if x == w / 3 && !in_slit1 && !in_slit2 {
                0u32
            } else {
                0x3F80_0000u32
            })
            &&& t.material_data@[b + 2] == (if x == 24 && 32 <= y < h - 32 {
                0x3F80_0000u32
            } else {
                0u32
            })
        }),
{
    lemma_preset_cell(s, t, Preset::DoubleSlit, f, x, y);
}

/// The grating: the column `w / 3` is open in the first 3 rows of every 8
/// and metal in the other 5.
pub proof fn law_grating_cells(s: Solver, t: Solver, f: CurvedFeatures, x: int, y: int)
    requires
        preset_applied(s, t, Preset::DiffractionGrating, f),
        0 <= x < s.w(),
        0 <= y < s.h(),
    ensures
        t.material_data@[4 * (y * s.w() + x)] == (if x == s.w() / 3 && y % 8 >= 3 {
            0u32
        } else {
            0x3F80_0000u32
        }),
        t.material_data@[4 * (y * s.w() + x) + 2] == (if x == 24 && 32 <= y < s.h() - 32 {
            0x3F80_0000u32
        } else {
            0u32
        }),
{
    lemma_preset_cell(s, t, Preset::DiffractionGrating, f, x, y);
}

/// The prism is glass exactly on the closed triangle with vertices
/// `(X - 60, Y - 70)`, `(X - 60, Y + 70)` and `(X + 60, Y)` around the
/// grid centre `(X, Y)`.
pub proof fn law_prism_cells(s: Solver, t: Solver, f: CurvedFeatures, x: int, y: int)
    requires
        preset_applied(s, t, Preset::Prism, f),
        0 <= x < s.w(),
        0 <= y < s.h(),
    ensures
        ({
            let u = x - s.w() / 2;
            let v = y - s.h() / 2;
            t.material_data@[4 * (y * s.w() + x)] == (if u >= -60 && 7 * u + 12 * v <= 420 && 7
                * u - 12 * v <= 420 {
                0x4010_0000u32
            } else {
                0x3F80_0000u32
            })
        }),
{
    lemma_preset_cell(s, t, Preset::Prism, f, x, y);
    law_prism_is_triangle(s.w(), s.h(), x, y);
}

/// The waveguide's straight parts: left of `w / 4` the stem covers the 15
/// rows around the centre, from `w / 2` on the two branches cover the 15
/// rows around 60 above and 60 below it (core 4.0, else vacuum); the mode
/// source sits across the stem in column 12.
pub proof fn law_waveguide_straight_cells(s: Solver, t: Solver, f: CurvedFeatures, x: int, y: int)
    requires
        preset_applied(s, t, Preset::Waveguide, f),
        0 <= x < s.w(),
        0 <= y < s.h(),
        x < s.w() / 4 || x >= s.w() / 2,
    ensures
        ({
            let w = s.w();
            let yc = s.h() / 2;
            let b = 4 * (y * w + x);
            let core = if x < w / 4 {
                yc - 7 <= y <= yc + 7
            } else {
                (yc - 67 <= y <= yc - 53) || (yc + 53 <= y <= yc + 67)
            };
            &&& t.material_data@[b] == (if core {
                0x4080_0000u32
            } else {
                0x3F80_0000u32
            })
            &&& (x == 12 && yc - 7 <= y <= yc + 7) ==> t.material_data@[b + 2]
                == f.mode_profile@[y - yc + 7]
            &&& !(x == 12 && yc - 7 <= y <= yc + 7) ==> t.material_data@[b + 2] == 0
        }),
{
    lemma_preset_cell(s, t, Preset::Waveguide, f, x, y);
}

/// The empty preset leaves every cell vacuum `[1.0, 0.0, 0.0, 0.0]`.
pub proof fn law_empty_cells(s: Solver, t: Solver, f: CurvedFeatures, x: int, y: int)
    requires
        preset_applied(s, t, Preset::Empty, f),
        0 <= x < s.w(),
        0 <= y < s.h(),
    ensures
        ({
            let b = 4 * (y * s.w() + x);
            &&& t.material_data@[b] == 0x3F80_0000u32
            &&& t.material_data@[b + 1] == 0
            &&& t.material_data@[b + 2] == 0
            &&& t.material_data@[b + 3] == 0
        }),
{
    lemma_preset_cell(s, t, Preset::Empty, f, x, y);
}

// ---------------------------------------------------------------------------
// How many microsteps a frame runs
// ---------------------------------------------------------------------------

/// A running frame runs exactly `steps_per_frame` microsteps, an H and an
/// E pass each, and (without a clear) advances the counter by as many.
pub proof fn law_running_frame_runs_configured_steps(s: Solver, t: Solver, plan: StepPlan)
    requires
        stepped(s, t, plan),
        s.is_running,
    ensures
        plan.microsteps == s.steps_per_frame,
        s.params.clear_sim != 1 ==> t.step_count == s.step_count + s.steps_per_frame,
        s.params.clear_sim != 1 ==> plan.passes@.len() == 2 * s.steps_per_frame + 1,
        s.params.clear_sim == 1 ==> plan.passes@.len() == 2 * s.steps_per_frame + 5,
{
}

/// A paused frame runs one microstep when a single step was asked for,
/// and none otherwise.
pub proof fn law_paused_frame_steps(s: Solver, t: Solver, plan: StepPlan)
    requires
        stepped(s, t, plan),
        !s.is_running,
    ensures
        plan.microsteps == (if s.step_requested {
            1u32
        } else {
            0u32
        }),
{
}

// ---------------------------------------------------------------------------
// The shaders' binding slots
// ---------------------------------------------------------------------------

/// Each pass binds the slots of its shader, in order, with the texture the
/// shader expects at each: the H shader slots 0 (Ez read), 1 (H read) and 2
/// (H written); the E shader slots 3 (Ez read), 4 (Ez written), 5 (H read)
/// and 6 (material); the render shader slots 7 (Ez read), 8 (material) and
/// 9 (display written). Side `A` reads the `A` textures and writes the `B`
/// ones; side `B` the reverse.
pub proof fn law_binding_slots(kind: PassKind, side_a: bool)
    ensures
        ({
            let b = spec_pass_bindings(kind, side_a);
            let ez_this = if side_a { Texture::EzA } else { Texture::EzB };
            let ez_other = if side_a { Texture::EzB } else { Texture::EzA };
            let h_this = if side_a { Texture::HA } else { Texture::HB };
            let h_other = if side_a { Texture::HB } else { Texture::HA };
            match kind {
                PassKind::UpdateH => {
                    &&& b.len() == 3
                    &&& b[0] == Binding { slot: 0, texture: ez_this, writes: false }
                    &&& b[1] == Binding { slot: 1, texture: h_this, writes: false }
                    &&& b[2] == Binding { slot: 2, texture: h_other, writes: true }
                },
                PassKind::UpdateE => {
                    &&& b.len() == 4
                    &&& b[0] == Binding { slot: 3, texture: ez_this, writes: false }
                    &&& b[1] == Binding { slot: 4, texture: ez_other, writes: true }
                    &&& b[2] == Binding { slot: 5, texture: h_other, writes: false }
                    &&& b[3] == Binding { slot: 6, texture: Texture::Material, writes: false }
                },
                PassKind::Render => {
                    &&& b.len() == 3
                    &&& b[0] == Binding { slot: 7, texture: ez_this, writes: false }
                    &&& b[1] == Binding { slot: 8, texture: Texture::Material, writes: false }
                    &&& b[2] == Binding { slot: 9, texture: Texture::Display, writes: true }
                },
            }
        }),
{
}

/// The three shaders' slots do not overlap, and within a pass no slot is
/// bound twice: slot `k` of the shader of kind `kind` sits at entry
/// `k - first` of the group, where `first` is 0, 3 or 7.
pub proof fn law_binding_slots_distinct(kind: PassKind, side_a: bool, i: int, j: int)
    requires
        0 <= i < spec_pass_bindings(kind, side_a).len(),
        0 <= j < spec_pass_bindings(kind, side_a).len(),
    ensures
        ({
            let b = spec_pass_bindings(kind, side_a);
            let first: int = match kind {
                PassKind::UpdateH => 0,
                PassKind::UpdateE => 3,
                PassKind::Render => 7,
            };
            &&& b[i].slot == first + i
            &&& (i != j ==> b[i].slot != b[j].slot)
        }),
{
    law_binding_slots(kind, side_a);
}

// ---------------------------------------------------------------------------
// The uniform block's layout
// ---------------------------------------------------------------------------

/// The uniform block holds the fields in declared order, one word each.
pub proof fn law_params_layout(p: SimParams)
    ensures
        p.words().len() == 20,
        p.words()[0] == p.dt,
        p.words()[1] == p.dx,
        p.words()[2] == p.dy,
        p.words()[3] == p.time,
        p.words()[4] == p.width,
        p.words()[5] == p.height,
        p.words()[6] == p.source_type,
        p.words()[7] == p.source_freq,
        p.words()[8] == p.source_amp,
        p.words()[9] == p.source_phase,
        p.words()[10] == p.source_angle,
        p.words()[11] == p.source_width,
        p.words()[12] == p.pulse_width,
        p.words()[13] == p.pulse_delay,
        p.words()[14] == p.render_mode,
        p.words()[15] == p.display_contrast,
        p.words()[16] == p.clear_sim,
        p.words()[17] == p.pad1,
        p.words()[18] == p.pad2,
        p.words()[19] == p.pad3,
{
}

/// Field `k` of the uniform block occupies bytes `4k .. 4k + 4` of its
/// encoding: changing only the source amplitude changes only bytes
/// 32 .. 36.
pub proof fn law_params_bytes_per_field(p: SimParams, q: SimParams, bp: Seq<u8>, bq: Seq<u8>, little: bool, i: int)
    requires
        q == (SimParams { source_amp: q.source_amp, ..p }),
        bp == crate::sim::params::encode_words(p.words(), little),
        bq == crate::sim::params::encode_words(q.words(), little),
        0 <= i < 80,
        !(32 <= i < 36),
    ensures
        bp.len() == 80,
        bp[i] == bq[i],
{
    law_params_layout(p);
    law_params_layout(q);
    assert(i / 4 != 8);
}

// ---------------------------------------------------------------------------
// Brushes and fresh grids, cell by cell
// ---------------------------------------------------------------------------

/// A brush stroke's disc: radius at least 0, squared distance at most the
/// squared radius.
pub open spec fn within_radius(cx: int, cy: int, r: int, x: int, y: int) -> bool {
    r >= 0 && (x - cx) * (x - cx) + (y - cy) * (y - cy) <= r * r
}

/// The permittivity word a brush paints: vacuum and source 1.0, metal 0.0,
/// glass 2.25.
pub open spec fn brush_eps_bits(brush: BrushType) -> u32 {
    match brush {
        BrushType::Vacuum => 0x3F80_0000u32,
        BrushType::PEC => 0u32,
        BrushType::Glass => 0x4010_0000u32,
        BrushType::Source => 0x3F80_0000u32,
    }
}

/// The source word a brush paints: 1.0 for the source brush, else 0.
pub open spec fn brush_source_bits(brush: BrushType) -> u32 {
    match brush {
        BrushType::Source => 0x3F80_0000u32,
        _ => 0u32,
    }
}

/// What a disc of the brush does to an in-grid cell: within the radius its
/// permittivity, conductivity and source words become the brush's (the
/// conductivity 0), outside it every word is kept; the padding word is
/// always kept.
pub proof fn law_brush_circle_cells(
    old_data: Seq<u32>,
    new_data: Seq<u32>,
    w: int,
    h: int,
    cx: int,
    cy: int,
    r: int,
    brush: BrushType,
    x: int,
    y: int,
)
    requires
        1 <= w,
        old_data.len() == 4 * (w * h),
        new_data == paint(old_data, w, |a: int, b: int| in_circle(cx, cy, r, a, b), brush_fill(brush)),
        0 <= x < w,
        0 <= y < h,
    ensures
        ({
            let b = 4 * (y * w + x);
            let inside = within_radius(cx, cy, r, x, y);
            &&& new_data.len() == old_data.len()
            &&& new_data[b] == (if inside { brush_eps_bits(brush) } else { old_data[b] })
            &&& new_data[b + 1] == (if inside { 0u32 } else { old_data[b + 1] })
            &&& new_data[b + 2] == (if inside { brush_source_bits(brush) } else { old_data[b + 2] })
            &&& new_data[b + 3] == old_data[b + 3]
        }),
{
    lemma_cell_coords(w, h, x, y);
    let b = cell_base(w, x, y);
    assert(b % 4 == 0 && (b + 1) % 4 == 1 && (b + 2) % 4 == 2 && (b + 3) % 4 == 3);
}

/// What a stroke does to an in-grid cell: it takes the brush's words when
/// it lies within the radius of some disc centre, and keeps them otherwise.
pub proof fn law_stroke_cells(
    old_data: Seq<u32>,
    new_data: Seq<u32>,
    w: int,
    h: int,
    centers: Seq<(i32, i32)>,
    r: int,
    brush: BrushType,
    x: int,
    y: int,
)
    requires
        1 <= w,
        old_data.len() == 4 * (w * h),
        new_data == paint(old_data, w, |a: int, b: int| stroke_covers(centers, r, a, b), brush_fill(brush)),
        0 <= x < w,
        0 <= y < h,
    ensures
        ({
            let b = 4 * (y * w + x);
            let inside = exists|k: int|
                0 <= k < centers.len() && #[trigger] within_radius(
                    centers[k].0 as int,
                    centers[k].1 as int,
                    r,
                    x,
                    y,
                );
            &&& new_data[b] == (if inside { brush_eps_bits(brush) } else { old_data[b] })
            &&& new_data[b + 1] == (if inside { 0u32 } else { old_data[b + 1] })
            &&& new_data[b + 2] == (if inside { brush_source_bits(brush) } else { old_data[b + 2] })
            &&& new_data[b + 3] == old_data[b + 3]
        }),
{
    lemma_cell_coords(w, h, x, y);
    let b = cell_base(w, x, y);
    assert(b % 4 == 0 && (b + 1) % 4 == 1 && (b + 2) % 4 == 2 && (b + 3) % 4 == 3);
    let inside = exists|k: int|
        0 <= k < centers.len() && #[trigger] within_radius(
            centers[k].0 as int,
            centers[k].1 as int,
            r,
            x,
            y,
        );
    if stroke_covers(centers, r, x, y) {
        let k = choose|k: int| 0 <= k < centers.len() && #[trigger] circle_hit(centers, k, r, x, y);
        assert(within_radius(centers[k].0 as int, centers[k].1 as int, r, x, y));
    }
    if inside {
        let k = choose|k: int|
            0 <= k < centers.len() && #[trigger] within_radius(
                centers[k].0 as int,
                centers[k].1 as int,
                r,
                x,
                y,
            );
        assert(circle_hit(centers, k, r, x, y));
    }
}

/// A fresh grid of `n` cells is vacuum throughout: each cell holds
/// `[1.0, 0.0, 0.0, 0.0]`.
pub proof fn law_vacuum_cells(n: nat, k: int)
    requires
        0 <= k < n,
    ensures
        vacuum_grid(n).len() == 4 * n,
        vacuum_grid(n)[4 * k] == 0x3F80_0000u32,
        vacuum_grid(n)[4 * k + 1] == 0,
        vacuum_grid(n)[4 * k + 2] == 0,
        vacuum_grid(n)[4 * k + 3] == 0,
{
    assert((4 * k) % 4 == 0 && (4 * k + 1) % 4 == 1 && (4 * k + 2) % 4 == 2 && (4 * k + 3) % 4
        == 3);
}

/// The passes are dispatched over just enough 16 x 16 workgroups to cover
/// the grid.
pub proof fn law_workgroups_cover_grid(s: Solver, t: Solver, plan: StepPlan)
    requires
        stepped(s, t, plan),
    ensures
        16 * plan.workgroups_x >= s.params.width,
        16 * (plan.workgroups_x - 1) < s.params.width,
        16 * plan.workgroups_y >= s.params.height,
        16 * (plan.workgroups_y - 1) < s.params.height,
{
}

} // verus!
