use maxwell_fdtd::gui::{Gui, GuiTab};
use maxwell_fdtd::sim::scene::{BrushType, CurvedFeatures, Preset};
use maxwell_fdtd::sim::solver::Solver;

#[test]
fn new_panel_defaults() {
    let g = Gui::new();
    assert_eq!(g.active_tab, GuiTab::Simulation);
    assert_eq!(g.selected_preset, Preset::DoubleSlit);
    assert_eq!(g.selected_brush, BrushType::PEC);
    assert_eq!(g.brush_radius, 6);
    assert_eq!(g.last_mouse_pos, None);
}

#[test]
fn drag_strokes_from_previous_cell() {
    let mut g = Gui::new();
    let first = g.pointer_stroke(true, Some((10, 20)), 64, 64).expect("inside the grid");
    assert_eq!((first.x0, first.y0, first.x1, first.y1), (10, 20, 10, 20));
    assert_eq!(first.radius, 6);
    assert_eq!(first.brush, BrushType::PEC);
    let second = g.pointer_stroke(true, Some((15, 22)), 64, 64).expect("inside the grid");
    assert_eq!((second.x0, second.y0, second.x1, second.y1), (10, 20, 15, 22));
    assert_eq!(g.last_mouse_pos, Some((15, 22)));
}

#[test]
fn pointer_outside_grid_or_released() {
    let mut g = Gui::new();
    g.pointer_stroke(true, Some((3, 3)), 8, 8);
    assert!(g.pointer_stroke(true, Some((8, 3)), 8, 8).is_none());
    assert_eq!(g.last_mouse_pos, Some((3, 3)));
    assert!(g.pointer_stroke(true, None, 8, 8).is_none());
    assert_eq!(g.last_mouse_pos, Some((3, 3)));
    assert!(g.pointer_stroke(false, Some((4, 4)), 8, 8).is_none());
    assert_eq!(g.last_mouse_pos, None);
}

#[test]
fn selecting_a_preset_applies_it() {
    let mut g = Gui::new();
    let mut s = Solver::new(64, 64);
    let f = CurvedFeatures { source_line: Vec::new(), branch_rows: Vec::new(), mode_profile: Vec::new() };
    g.select_preset(&mut s, Preset::DiffractionGrating, &f);
    assert_eq!(g.selected_preset, Preset::DiffractionGrating);
    assert_eq!(s.params.clear_sim, 1);
    let i = ((3 * 64 + 21) * 4) as usize;
    assert_eq!(s.material_data[i], 0);
}
