//! The CPU side of the solver: parameters, the material grid mirror, and the
//! schedule of shader passes that one frame runs.

use vstd::prelude::*;
use crate::sim::params::{SimParams, F32_ONE, F32_ZERO, default_params, is_native_encoding, words_as_bytes};
use crate::sim::grid::vacuum_grid;
use crate::sim::passes::{Pass, PassKind};

verus! {

/// Largest grid side the GPU textures accept: the 2-D texture limit of a
/// device created with the default limits.
pub const MAX_GRID_SIDE: u32 = 8192;

/// Microsteps a fresh solver runs per frame.
pub const DEFAULT_STEPS_PER_FRAME: u32 = 4;

/// Side of the square workgroups the compute shaders are dispatched in.
pub const WORKGROUP_SIDE: u32 = 16;

/// The solver state that the CPU owns.
///
/// `material_data` mirrors the material texture: four words per cell
/// (`eps_r`, `sigma`, source, padding), row-major, as f32 bit patterns.
pub struct Solver {
    pub params: SimParams,
    pub step_count: u32,
    pub is_running: bool,
    pub steps_per_frame: u32,
    /// A single microstep was asked for while paused; the next frame runs it.
    pub step_requested: bool,
    pub material_data: Vec<u32>,
    pub material_dirty: bool,
}

/// A copy of the material grid into the material texture.
pub struct MaterialUpload {
    /// The grid's words in the machine's byte order.
    pub bytes: Vec<u8>,
    /// 16 bytes per cell.
    pub bytes_per_row: u32,
    pub rows_per_image: u32,
    pub width: u32,
    pub height: u32,
}

/// The GPU work of one frame, in order: the material upload (if any), the
/// uniform write, the compute passes, submission, and (after a clear) a
/// second uniform write that takes effect from the next frame on.
pub struct StepPlan {
    pub material: Option<MaterialUpload>,
    /// The uniform block as it stands when the frame starts.
    pub params_bytes: Vec<u8>,
    /// The compute passes in order: an H and an E pass per microstep, the
    /// four clearing passes if a clear was requested, and the render pass.
    pub passes: Vec<Pass>,
    /// Microsteps among the passes: the clock advances by `dt` for each.
    pub microsteps: u32,
    /// Present after a clear: the uniform block (clear request dropped,
    /// clock at zero) to write once the passes have been submitted.
    pub reset_params: Option<Vec<u8>>,
    pub workgroups_x: u32,
    pub workgroups_y: u32,
}

/// Pass `j` of the microsteps of a frame whose step counter starts at
/// `start`: microstep `j / 2` runs its H pass, then its E pass, on the side
/// the counter's parity selects.
pub open spec fn microstep_pass(start: int, j: int) -> Pass {
    Pass {
        kind: if j % 2 == 0 {
            PassKind::UpdateH
        } else {
            PassKind::UpdateE
        },
        side_a: (start + j / 2) % 2 == 0,
    }
}

/// Pass `j` of the clearing sequence: H and E on side `A`, then on side
/// `B`, so that every field texture is written under the clear request.
pub open spec fn clearing_pass(j: int) -> Pass {
    Pass {
        kind: if j % 2 == 0 {
            PassKind::UpdateH
        } else {
            PassKind::UpdateE
        },
        side_a: j < 2,
    }
}

/// `params` with the clear request dropped and the clock at zero.
pub open spec fn reset_clock(params: SimParams) -> SimParams {
    SimParams { clear_sim: 0, time: F32_ZERO, ..params }
}

/// `params` with a clear request.
pub open spec fn request_clear(params: SimParams) -> SimParams {
    SimParams { clear_sim: 1, ..params }
}

/// Workgroups needed to cover `n` cells with groups of `WORKGROUP_SIDE`.
pub open spec fn workgroups(n: u32) -> int {
    (n + 15) / 16
}

/// `new` is `old` after `update_material_texture` returned `upload`: the
/// grid is clean, and an upload of it was returned exactly when it was dirty.
pub open spec fn texture_updated(old: Solver, new: Solver, upload: Option<MaterialUpload>) -> bool {
    &&& new.wf()
    &&& !new.material_dirty
    &&& new.params == old.params
    &&& new.step_count == old.step_count
    &&& new.is_running == old.is_running
    &&& new.steps_per_frame == old.steps_per_frame
    &&& new.step_requested == old.step_requested
    &&& new.material_data@ == old.material_data@
    &&& (old.material_dirty <==> upload is Some)
    &&& (upload matches Some(u) ==> old.describes_upload(u))
}

/// Microsteps a frame of `s` runs: `steps_per_frame` while running, one
/// when a single step was asked for while paused, none otherwise.
pub open spec fn frame_microsteps(s: Solver) -> int {
    if s.is_running {
        s.steps_per_frame as int
    } else if s.step_requested {
        1
    } else {
        0
    }
}

/// `new` is `old` after `step` returned `plan`.
pub open spec fn stepped(old: Solver, new: Solver, plan: StepPlan) -> bool {
    &&& new.wf()
    &&& !new.material_dirty
    &&& new.material_data@ == old.material_data@
    &&& new.is_running == old.is_running
    &&& new.steps_per_frame == old.steps_per_frame
    &&& (old.material_dirty <==> plan.material is Some)
    &&& (plan.material matches Some(u) ==> old.describes_upload(u))
    &&& !new.step_requested
    &&& is_native_encoding(plan.params_bytes@, old.params.words())
    &&& plan.microsteps == frame_microsteps(old)
    &&& plan.passes@.len() == 2 * frame_microsteps(old) + (if old.params.clear_sim == 1 {
        4int
    } else {
        0
    }) + 1
    &&& (forall|j: int|
        0 <= j < 2 * frame_microsteps(old) ==> #[trigger] plan.passes@[j] == microstep_pass(
            old.step_count as int,
            j,
        ))
    &&& (old.params.clear_sim == 1 ==> forall|j: int|
        2 * frame_microsteps(old) <= j < 2 * frame_microsteps(old) + 4 ==> #[trigger] plan.passes@[j]
            == clearing_pass(j - 2 * frame_microsteps(old)))
    &&& plan.passes@.last() == (Pass { kind: PassKind::Render, side_a: new.step_count % 2 == 0 })
    &&& (old.params.clear_sim == 1 ==> {
        &&& new.params == reset_clock(old.params)
        &&& new.step_count == 0
        &&& plan.reset_params matches Some(b) && is_native_encoding(b@, new.params.words())
    })
    &&& (old.params.clear_sim != 1 ==> {
        &&& new.params == old.params
        &&& new.step_count == old.step_count + frame_microsteps(old)
        &&& plan.reset_params is None
    })
    &&& plan.workgroups_x == workgroups(old.params.width)
    &&& plan.workgroups_y == workgroups(old.params.height)
}

impl Solver {
    /// The grid fits the textures and the mirror holds four words per cell.
    pub open spec fn wf(&self) -> bool {
        &&& 1 <= self.params.width <= MAX_GRID_SIDE
        &&& 1 <= self.params.height <= MAX_GRID_SIDE
        &&& self.material_data@.len() == 4 * (self.params.width * self.params.height)
    }

    /// Grid width as an integer.
    pub open spec fn w(&self) -> int {
        self.params.width as int
    }

    /// Grid height as an integer.
    pub open spec fn h(&self) -> int {
        self.params.height as int
    }

    /// `upload` copies this solver's grid into the material texture.
    pub open spec fn describes_upload(&self, upload: MaterialUpload) -> bool {
        &&& is_native_encoding(upload.bytes@, self.material_data@)
        &&& upload.bytes_per_row == 16 * self.params.width
        &&& upload.rows_per_image == self.params.height
        &&& upload.width == self.params.width
        &&& upload.height == self.params.height
    }

    /// A solver for a `width` x `height` grid: default parameters, a vacuum
    /// grid to be uploaded, running at four microsteps per frame.
    pub fn new(width: u32, height: u32) -> (s: Solver)
        requires
            1 <= width <= MAX_GRID_SIDE,
            1 <= height <= MAX_GRID_SIDE,
        ensures
            s.wf(),
            s.params == (SimParams { width, height, ..default_params() }),
            s.material_data@ == vacuum_grid((width * height) as nat),
            s.step_count == 0,
            s.is_running,
            s.steps_per_frame == DEFAULT_STEPS_PER_FRAME,
            !s.step_requested,
            s.material_dirty,
    {
        let params = SimParams { width, height, ..SimParams::default() };
        assert(width * height <= 8192 * 8192) by (nonlinear_arith)
            requires
                width <= 8192,
                height <= 8192,
        ;
        let cells = width * height;
        let mut material_data: Vec<u32> = Vec::with_capacity((cells * 4) as usize);
        let mut i: u32 = 0;
        while i < cells
            invariant
                i <= cells,
                cells == width * height,
                cells <= 8192 * 8192,
                material_data@ =~= vacuum_grid(i as nat),
            decreases cells - i,
        {
            material_data.push(F32_ONE);
            material_data.push(F32_ZERO);
            material_data.push(F32_ZERO);
            material_data.push(F32_ZERO);
            i = i + 1;
        }
        Solver {
            params,
            step_count: 0,
            is_running: true,
            steps_per_frame: DEFAULT_STEPS_PER_FRAME,
            step_requested: false,
            material_data,
            material_dirty: true,
        }
    }

    /// Requests that the next step reset all field textures, the step
    /// counter and the clock.
    pub fn clear(&mut self)
        ensures
            final(self).params == request_clear(old(self).params),
            final(self).step_count == old(self).step_count,
            final(self).is_running == old(self).is_running,
            final(self).steps_per_frame == old(self).steps_per_frame,
            final(self).step_requested == old(self).step_requested,
            final(self).material_data@ == old(self).material_data@,
            final(self).material_dirty == old(self).material_dirty,
    {
        self.params.clear_sim = 1;
    }

    /// Asks for one microstep in the next frame; a paused solver runs it,
    /// a running one runs its usual microsteps.
    pub fn request_single_step(&mut self)
        ensures
            final(self).step_requested,
            final(self).params == old(self).params,
            final(self).step_count == old(self).step_count,
            final(self).is_running == old(self).is_running,
            final(self).steps_per_frame == old(self).steps_per_frame,
            final(self).material_data@ == old(self).material_data@,
            final(self).material_dirty == old(self).material_dirty,
    {
        self.step_requested = true;
    }

    /// When the grid has changed since the last upload, returns the upload
    /// that brings the texture up to date and marks the grid clean.
    pub fn update_material_texture(&mut self) -> (upload: Option<MaterialUpload>)
        requires
            old(self).wf(),
        ensures
            texture_updated(*old(self), *final(self), upload),
    {
        if self.material_dirty {
            let bytes = words_as_bytes(self.material_data.as_slice());
            self.material_dirty = false;
            Some(
                MaterialUpload {
                    bytes,
                    bytes_per_row: self.params.width * 16,
                    rows_per_image: self.params.height,
                    width: self.params.width,
                    height: self.params.height,
                },
            )
        } else {
            None
        }
    }

    /// Plans one frame and advances the step counter.
    ///
    /// The frame runs `frame_microsteps` microsteps, each an H pass and an
    /// E pass on the side (`A` or `B`) the step counter's parity selects. A
    /// pending clear then runs the clearing passes on both sides and resets
    /// the counter and clock. The render pass reads the side the counter's
    /// parity then points at, which holds the newest `Ez`. The clock's
    /// advance by `dt` per microstep is left to the caller.
    pub fn step(&mut self) -> (plan: StepPlan)
        requires
            old(self).wf(),
            old(self).step_count + frame_microsteps(*old(self)) <= u32::MAX,
        ensures
            stepped(*old(self), *final(self), plan),
    {
        let material = self.update_material_texture();
        let params_bytes = self.params.to_bytes();
        let steps: u32 = if self.is_running {
            self.steps_per_frame
        } else if self.step_requested {
            1
        } else {
            0
        };
        self.step_requested = false;
        let ghost start = self.step_count as int;
        let ghost before = *self;
        let mut passes: Vec<Pass> = Vec::new();
        let mut k: u32 = 0;
        while k < steps
            invariant
                k <= steps,
                start + steps <= u32::MAX,
                self.step_count == start + k,
                self.wf(),
                self.params == before.params,
                self.material_data@ == before.material_data@,
                self.material_dirty == before.material_dirty,
                self.is_running == before.is_running,
                self.steps_per_frame == before.steps_per_frame,
                !self.step_requested,
                passes@.len() == 2 * k,
                forall|j: int| 0 <= j < 2 * k ==> #[trigger] passes@[j] == microstep_pass(start, j),
            decreases steps - k,
        {
            let use_step_a = self.step_count % 2 == 0;
            proof {
                assert((2 * k) / 2 == k && (2 * k + 1) / 2 == k);
                assert((2 * k) % 2 == 0 && (2 * k + 1) % 2 == 1);
            }
            passes.push(Pass { kind: PassKind::UpdateH, side_a: use_step_a });
            passes.push(Pass { kind: PassKind::UpdateE, side_a: use_step_a });
            self.step_count = self.step_count + 1;
            k = k + 1;
        }
        let ghost n = 2 * steps as int;
        let reset_params = if self.params.clear_sim == 1 {
            passes.push(Pass { kind: PassKind::UpdateH, side_a: true });
            passes.push(Pass { kind: PassKind::UpdateE, side_a: true });
            passes.push(Pass { kind: PassKind::UpdateH, side_a: false });
            passes.push(Pass { kind: PassKind::UpdateE, side_a: false });
            proof {
                assert forall|j: int| n <= j < n + 4 implies #[trigger] passes@[j] == clearing_pass(j - n) by {
                    assert(j - n == 0 || j - n == 1 || j - n == 2 || j - n == 3);
                }
            }
            self.params.clear_sim = 0;
            self.params.time = F32_ZERO;
            self.step_count = 0;
            Some(self.params.to_bytes())
        } else {
            None
        };
        let render_from_a = self.step_count % 2 == 0;
        passes.push(Pass { kind: PassKind::Render, side_a: render_from_a });
        StepPlan {
            material,
            params_bytes,
            passes,
            microsteps: steps,
            reset_params,
            workgroups_x: (self.params.width + (WORKGROUP_SIDE - 1)) / WORKGROUP_SIDE,
            workgroups_y: (self.params.height + (WORKGROUP_SIDE - 1)) / WORKGROUP_SIDE,
        }
    }
}

} // verus!
