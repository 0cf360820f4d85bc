//! State of the control panel and the decisions it takes on pointer input
//! and preset selection. Drawing the widgets is left to the caller.

use vstd::prelude::*;
use crate::sim::solver::Solver;
use crate::sim::scene::{Preset, BrushType, CurvedFeatures, apply_preset, preset_applied, preset_fits};

verus! {

/// The tabs of the control panel.
#[derive(Clone, Copy, Debug, PartialEq, Eq, Structural)]
pub enum GuiTab {
    Simulation,
    Waves,
    Brush,
    Presets,
}

/// Brush radius a fresh panel starts with.
pub const DEFAULT_BRUSH_RADIUS: i32 = 6;

/// The control panel's state.
pub struct Gui {
    pub active_tab: GuiTab,
    pub selected_preset: Preset,
    pub selected_brush: BrushType,
    pub brush_radius: i32,
    /// Grid cell under the pointer at the previous painting frame, while a
    /// drag is in progress.
    pub last_mouse_pos: Option<(i32, i32)>,
}

/// A stroke of the brush from `(x0, y0)` to `(x1, y1)`.
pub struct BrushStroke {
    pub x0: i32,
    pub y0: i32,
    pub x1: i32,
    pub y1: i32,
    pub radius: i32,
    pub brush: BrushType,
}

impl Gui {
    /// The panel opens on the simulation tab, with the double slit selected
    /// and a metal brush of radius 6.
    pub fn new() -> (g: Gui)
        ensures
            g.active_tab == GuiTab::Simulation,
            g.selected_preset == Preset::DoubleSlit,
            g.selected_brush == BrushType::PEC,
            g.brush_radius == DEFAULT_BRUSH_RADIUS,
            g.last_mouse_pos is None,
    {
        Gui {
            active_tab: GuiTab::Simulation,
            selected_preset: Preset::DoubleSlit,
            selected_brush: BrushType::PEC,
            brush_radius: DEFAULT_BRUSH_RADIUS,
            last_mouse_pos: None,
        }
    }

    /// Decides what the pointer paints in one frame.
    ///
    /// `interacting` tells whether the viewport is being dragged or
    /// clicked; `grid_pos` is the grid cell under the pointer, if the
    /// pointer is over the viewport. While interacting over a cell of the
    /// `width` x `height` grid, the brush strokes from the previous cell
    /// (or the cell itself, at the start of a drag) to this cell, which
    /// becomes the previous cell. When not interacting the drag ends.
    pub fn pointer_stroke(
        &mut self,
        interacting: bool,
        grid_pos: Option<(i32, i32)>,
        width: u32,
        height: u32,
    ) -> (stroke: Option<BrushStroke>)
        ensures
            final(self).active_tab == old(self).active_tab,
            final(self).selected_preset == old(self).selected_preset,
            final(self).selected_brush == old(self).selected_brush,
            final(self).brush_radius == old(self).brush_radius,
            !interacting ==> stroke is None && final(self).last_mouse_pos is None,
            interacting && grid_pos is None ==> stroke is None && final(self).last_mouse_pos
                == old(self).last_mouse_pos,
            interacting && grid_pos is Some ==> {
                let (gx, gy) = grid_pos->0;
                let inside = 0 <= gx < (width as i32) && 0 <= gy < (height as i32);
                let prev = match old(self).last_mouse_pos {
                    Some(p) => p,
                    None => (gx, gy),
                };
                &&& inside ==> stroke == Some(
                    BrushStroke {
                        x0: prev.0,
                        y0: prev.1,
                        x1: gx,
                        y1: gy,
                        radius: old(self).brush_radius,
                        brush: old(self).selected_brush,
                    },
                ) && final(self).last_mouse_pos == Some((gx, gy))
                &&& !inside ==> stroke is None && final(self).last_mouse_pos
                    == old(self).last_mouse_pos
            },
    {
        if interacting {
            match grid_pos {
                Some((gx, gy)) => {
                    let w = width as i32;
                    let h = height as i32;
                    if gx >= 0 && gx < w && gy >= 0 && gy < h {
                        let prev_pos = match self.last_mouse_pos {
                            Some(p) => p,
                            None => (gx, gy),
                        };
                        self.last_mouse_pos = Some((gx, gy));
                        Some(
                            BrushStroke {
                                x0: prev_pos.0,
                                y0: prev_pos.1,
                                x1: gx,
                                y1: gy,
                                radius: self.brush_radius,
                                brush: self.selected_brush,
                            },
                        )
                    } else {
                        None
                    }
                },
                None => None,
            }
        } else {
            self.last_mouse_pos = None;
            None
        }
    }

    /// Selects a preset and applies it to the solver.
    pub fn select_preset(&mut self, solver: &mut Solver, preset: Preset, features: &CurvedFeatures)
        requires
            old(solver).wf(),
            preset_fits(preset, old(solver).h()),
            features.fits(preset, old(solver).w()),
        ensures
            final(self).selected_preset == preset,
            final(self).active_tab == old(self).active_tab,
            final(self).selected_brush == old(self).selected_brush,
            final(self).brush_radius == old(self).brush_radius,
            final(self).last_mouse_pos == old(self).last_mouse_pos,
            preset_applied(*old(solver), *final(solver), preset, *features),
    {
        self.selected_preset = preset;
        apply_preset(solver, preset, features);
    }
}

} // verus!
