use maxwell_fdtd::sim::scene::{
    apply_preset, circle_fits_grid, draw_brush_circle, draw_brush_stroke, preset_fits_height,
    stroke_fits_grid, BrushType, CurvedFeatures, Preset,
};
use maxwell_fdtd::sim::solver::Solver;

/// The floating-point parts of the presets, computed as the scenes define them.
fn features(w: u32, h: u32) -> CurvedFeatures {
    let mut source_line = Vec::new();
    let angle_rad = 20.0f32.to_radians();
    for i in 0..380 {
        let px = 24.0 + i as f32 * angle_rad.sin();
        let py = 64.0 + i as f32 * angle_rad.cos();
        if px >= 0.0 && px < w as f32 && py >= 0.0 && py < h as f32 {
            source_line.push((px as u32, py as u32));
        }
    }
    let mut branch_rows = Vec::new();
    let y_center = h / 2;
    for x in (w / 4)..(w / 2) {
        let t = (x as f32 - (w / 4) as f32) / ((w / 2) as f32 - (w / 4) as f32);
        let offset_y = 60.0 * (t * 3.14159265 / 2.0).sin();
        let y_top = y_center as f32 - offset_y;
        let y_bottom = y_center as f32 + offset_y;
        for dy in -7i32..=7 {
            branch_rows.push(((y_top + dy as f32) as u32, (y_bottom + dy as f32) as u32));
        }
    }
    let mut mode_profile = Vec::new();
    for dy in -7i32..=7 {
        let dist_norm = dy as f32 / (14.0 / 2.0);
        mode_profile.push((-dist_norm * dist_norm * 2.0).exp().to_bits());
    }
    CurvedFeatures { source_line, branch_rows, mode_profile }
}

fn cell(s: &Solver, x: u32, y: u32) -> [f32; 4] {
    let i = ((y * s.params.width + x) * 4) as usize;
    [
        f32::from_bits(s.material_data[i]),
        f32::from_bits(s.material_data[i + 1]),
        f32::from_bits(s.material_data[i + 2]),
        f32::from_bits(s.material_data[i + 3]),
    ]
}

const VACUUM: [f32; 4] = [1.0, 0.0, 0.0, 0.0];
const METAL: [f32; 4] = [0.0, 0.0, 0.0, 0.0];
const GLASS: [f32; 4] = [2.25, 0.0, 0.0, 0.0];

fn preset_solver(preset: Preset) -> Solver {
    let mut s = Solver::new(512, 512);
    s.material_dirty = false;
    let f = features(512, 512);
    apply_preset(&mut s, preset, &f);
    s
}

#[test]
fn preset_sets_source_defaults_clear_and_dirty() {
    let mut s = Solver::new(512, 512);
    s.params.source_type = 1;
    s.params.source_amp = 7.0f32.to_bits();
    s.material_dirty = false;
    apply_preset(&mut s, Preset::Empty, &features(512, 512));
    assert_eq!(s.params.clear_sim, 1);
    assert_eq!(s.params.source_type, 0);
    assert_eq!(f32::from_bits(s.params.source_amp), 2.0);
    assert_eq!(f32::from_bits(s.params.source_freq), 0.08);
    assert!(s.material_dirty);
}

#[test]
fn empty_preset_clears_drawing() {
    let mut s = Solver::new(64, 64);
    assert!(circle_fits_grid(64, 64, 10, 10, 5));
    draw_brush_circle(&mut s, 10, 10, 5, BrushType::PEC);
    assert_eq!(cell(&s, 10, 10), METAL);
    apply_preset(&mut s, Preset::Empty, &features(64, 64));
    for y in 0..64 {
        for x in 0..64 {
            assert_eq!(cell(&s, x, y), VACUUM);
        }
    }
}

#[test]
fn single_slit_geometry() {
    let s = preset_solver(Preset::SingleSlit);
    assert_eq!(cell(&s, 170, 0), METAL);
    assert_eq!(cell(&s, 170, 249), METAL);
    assert_eq!(cell(&s, 170, 250), VACUUM);
    assert_eq!(cell(&s, 170, 256), VACUUM);
    assert_eq!(cell(&s, 170, 262), VACUUM);
    assert_eq!(cell(&s, 170, 263), METAL);
    assert_eq!(cell(&s, 169, 0), VACUUM);
    assert_eq!(cell(&s, 24, 32), [1.0, 0.0, 1.0, 0.0]);
    assert_eq!(cell(&s, 24, 479), [1.0, 0.0, 1.0, 0.0]);
    assert_eq!(cell(&s, 24, 31), VACUUM);
    assert_eq!(cell(&s, 24, 480), VACUUM);
}

#[test]
fn double_slit_geometry() {
    let s = preset_solver(Preset::DoubleSlit);
    assert_eq!(cell(&s, 170, 244), VACUUM);
    assert_eq!(cell(&s, 170, 241), VACUUM);
    assert_eq!(cell(&s, 170, 240), METAL);
    assert_eq!(cell(&s, 170, 256), METAL);
    assert_eq!(cell(&s, 170, 268), VACUUM);
    assert_eq!(cell(&s, 170, 272), METAL);
    assert_eq!(cell(&s, 24, 100), [1.0, 0.0, 1.0, 0.0]);
}

#[test]
fn grating_geometry() {
    let s = preset_solver(Preset::DiffractionGrating);
    assert_eq!(cell(&s, 170, 0), VACUUM);
    assert_eq!(cell(&s, 170, 2), VACUUM);
    assert_eq!(cell(&s, 170, 3), METAL);
    assert_eq!(cell(&s, 170, 7), METAL);
    assert_eq!(cell(&s, 170, 8), VACUUM);
}

#[test]
fn lens_geometry() {
    let s = preset_solver(Preset::ConvexLens);
    assert_eq!(cell(&s, 256, 256), GLASS);
    // The lens is 48 cells thick on the axis: 232 ..= 280.
    assert_eq!(cell(&s, 232, 256), GLASS);
    assert_eq!(cell(&s, 231, 256), VACUUM);
    assert_eq!(cell(&s, 280, 256), GLASS);
    assert_eq!(cell(&s, 281, 256), VACUUM);
    assert_eq!(cell(&s, 256, 100), VACUUM);
    assert_eq!(cell(&s, 24, 200), [1.0, 0.0, 1.0, 0.0]);
}

#[test]
fn prism_geometry() {
    let s = preset_solver(Preset::Prism);
    assert_eq!(cell(&s, 256, 256), GLASS);
    assert_eq!(cell(&s, 196, 186), GLASS);
    assert_eq!(cell(&s, 196, 326), GLASS);
    assert_eq!(cell(&s, 316, 256), GLASS);
    assert_eq!(cell(&s, 195, 256), VACUUM);
    assert_eq!(cell(&s, 317, 256), VACUUM);
    assert_eq!(cell(&s, 24, 64)[2], 1.0);
    assert_eq!(cell(&s, 24, 200)[2], 0.0);
}

#[test]
fn waveguide_geometry() {
    let s = preset_solver(Preset::Waveguide);
    let core = [4.0, 0.0, 0.0, 0.0];
    assert_eq!(cell(&s, 50, 249), core);
    assert_eq!(cell(&s, 50, 263), core);
    assert_eq!(cell(&s, 50, 248), VACUUM);
    assert_eq!(cell(&s, 50, 264), VACUUM);
    assert_eq!(cell(&s, 128, 256), core);
    assert_eq!(cell(&s, 400, 196), core);
    assert_eq!(cell(&s, 400, 316), core);
    assert_eq!(cell(&s, 400, 256), VACUUM);
    assert_eq!(cell(&s, 12, 256), [4.0, 0.0, 1.0, 0.0]);
    let edge = cell(&s, 12, 249);
    assert_eq!(edge[0], 4.0);
    assert_eq!(edge[2], (-2.0f32).exp());
    assert_eq!(cell(&s, 12, 248), VACUUM);
}

#[test]
fn brush_paints_disc_only() {
    let mut s = Solver::new(32, 32);
    s.material_data[((12 * 32 + 10) * 4 + 3) as usize] = 5;
    s.material_dirty = false;
    draw_brush_circle(&mut s, 10, 10, 2, BrushType::PEC);
    assert!(s.material_dirty);
    assert_eq!(cell(&s, 10, 10), METAL);
    assert_eq!(cell(&s, 10, 12)[0..3], METAL[0..3]);
    assert_eq!(s.material_data[((12 * 32 + 10) * 4 + 3) as usize], 5);
    assert_eq!(cell(&s, 12, 12), VACUUM);
    assert_eq!(cell(&s, 11, 11), METAL);
    assert_eq!(cell(&s, 13, 10), VACUUM);
}

#[test]
fn brush_materials() {
    let mut s = Solver::new(16, 16);
    draw_brush_circle(&mut s, 3, 3, 0, BrushType::Glass);
    assert_eq!(cell(&s, 3, 3), GLASS);
    assert_eq!(cell(&s, 4, 3), VACUUM);
    draw_brush_circle(&mut s, 8, 8, 1, BrushType::Source);
    assert_eq!(cell(&s, 8, 9), [1.0, 0.0, 1.0, 0.0]);
    draw_brush_circle(&mut s, 8, 8, 1, BrushType::Vacuum);
    assert_eq!(cell(&s, 8, 9), VACUUM);
}

#[test]
fn brush_clips_to_grid_and_ignores_negative_radius() {
    let mut s = Solver::new(8, 8);
    draw_brush_circle(&mut s, -1, -1, 3, BrushType::PEC);
    assert_eq!(cell(&s, 0, 0), METAL);
    assert_eq!(cell(&s, 1, 1), METAL);
    assert_eq!(cell(&s, 2, 2), VACUUM);
    let before = s.material_data.clone();
    draw_brush_circle(&mut s, 5, 5, -2, BrushType::PEC);
    assert_eq!(s.material_data, before);
}

#[test]
fn circle_fits_detects_overflow() {
    assert!(circle_fits_grid(512, 512, 100, 100, 32));
    assert!(circle_fits_grid(512, 512, -40000, 10, 30000));
    assert!(!circle_fits_grid(512, 512, 0, 0, 50000));
    assert!(!circle_fits_grid(512, 512, i32::MAX, 0, 1));
    assert!(!circle_fits_grid(512, 512, -40000, -40000, 45000));
}

#[test]
fn point_stroke_is_one_disc() {
    let mut a = Solver::new(20, 20);
    let mut b = Solver::new(20, 20);
    draw_brush_stroke(&mut a, 5, 6, 5, 6, 2, BrushType::Glass, &Vec::new());
    draw_brush_circle(&mut b, 5, 6, 2, BrushType::Glass);
    assert_eq!(a.material_data, b.material_data);
}

/// The samples of a stroke, as the panel computes them in f32.
fn stroke_samples(x0: i32, y0: i32, x1: i32, y1: i32) -> Vec<(i32, i32)> {
    let steps = std::cmp::max((x1 - x0).abs(), (y1 - y0).abs());
    if steps == 0 {
        return Vec::new();
    }
    (0..=steps)
        .map(|i| {
            let t = i as f32 / steps as f32;
            (
                (x0 as f32 + t * (x1 - x0) as f32).round() as i32,
                (y0 as f32 + t * (y1 - y0) as f32).round() as i32,
            )
        })
        .collect()
}

#[test]
fn stroke_stamps_every_sample() {
    let mut s = Solver::new(20, 20);
    let samples = stroke_samples(2, 10, 14, 13);
    assert!(stroke_fits_grid(20, 20, 2, 10, 14, 13, 0, &samples));
    draw_brush_stroke(&mut s, 2, 10, 14, 13, 0, BrushType::PEC, &samples);
    for &(x, y) in &samples {
        assert_eq!(cell(&s, x as u32, y as u32), METAL);
    }
    assert_eq!(cell(&s, 2, 10), METAL);
    assert_eq!(cell(&s, 14, 13), METAL);
    assert_eq!(cell(&s, 2, 13), VACUUM);
    assert_eq!(cell(&s, 14, 10), VACUUM);
}

#[test]
fn panel_strokes_are_smooth() {
    for &(x0, y0, x1, y1) in &[(0, 0, 511, 511), (500, 3, 7, 400), (256, 256, 255, 100), (10, 10, 11, 10)] {
        let samples = stroke_samples(x0, y0, x1, y1);
        assert!(stroke_fits_grid(512, 512, x0, y0, x1, y1, 32, &samples));
    }
}

#[test]
fn preset_twice_is_preset_once() {
    let f = features(256, 256);
    let mut s = Solver::new(256, 256);
    apply_preset(&mut s, Preset::Waveguide, &f);
    let once = s.material_data.clone();
    let params_once = s.params;
    apply_preset(&mut s, Preset::Waveguide, &f);
    assert_eq!(s.material_data, once);
    assert_eq!(s.params.to_bytes(), params_once.to_bytes());
}

#[test]
fn preset_then_step_resets_fields() {
    let mut s = Solver::new(128, 128);
    s.step_count = 3;
    s.params.time = 9.0f32.to_bits();
    apply_preset(&mut s, Preset::ConvexLens, &features(128, 128));
    let plan = s.step();
    assert!(plan.material.is_some());
    assert!(plan.reset_params.is_some());
    assert_eq!(s.step_count, 0);
    assert_eq!(f32::from_bits(s.params.time), 0.0);
    assert!(plan.passes.last().expect("render pass").side_a);
}

#[test]
fn brush_twice_is_brush_once() {
    let mut s = Solver::new(24, 24);
    draw_brush_circle(&mut s, 7, 9, 4, BrushType::Source);
    let once = s.material_data.clone();
    draw_brush_circle(&mut s, 7, 9, 4, BrushType::Source);
    assert_eq!(s.material_data, once);
}

#[test]
fn small_grid_presets_skip_cells_outside() {
    let f = features(20, 120);
    let mut s = Solver::new(20, 120);
    apply_preset(&mut s, Preset::Waveguide, &f);
    assert_eq!(cell(&s, 12, 60), [1.0, 0.0, 1.0, 0.0]);
    assert_eq!(cell(&s, 19, 0)[0], 4.0);
    let mut p = Solver::new(30, 40);
    apply_preset(&mut p, Preset::SingleSlit, &features(30, 40));
    assert_eq!(cell(&p, 24, 32), VACUUM);
    assert_eq!(cell(&p, 10, 0), METAL);
}

#[test]
fn preset_heights() {
    assert!(preset_fits_height(Preset::Empty, 1));
    assert!(preset_fits_height(Preset::Prism, 1));
    assert!(!preset_fits_height(Preset::SingleSlit, 31));
    assert!(preset_fits_height(Preset::SingleSlit, 32));
    assert!(!preset_fits_height(Preset::Waveguide, 119));
    assert!(preset_fits_height(Preset::Waveguide, 120));
}

#[test]
fn stroke_fits_checks_samples_and_overflow() {
    let samples: Vec<(i32, i32)> = vec![(0, 0), (1, 1), (2, 2)];
    assert!(stroke_fits_grid(64, 64, 0, 0, 2, 2, 3, &samples));
    assert!(!stroke_fits_grid(64, 64, 0, 0, 3, 2, 3, &samples));
    let jumpy: Vec<(i32, i32)> = vec![(0, 0), (2, 2), (2, 2)];
    assert!(!stroke_fits_grid(64, 64, 0, 0, 2, 2, 3, &jumpy));
    let off_end: Vec<(i32, i32)> = vec![(0, 0), (1, 1), (2, 1)];
    assert!(!stroke_fits_grid(64, 64, 0, 0, 2, 2, 3, &off_end));
    assert!(stroke_fits_grid(64, 64, 5, 5, 5, 5, 3, &Vec::new()));
    assert!(!stroke_fits_grid(64, 64, i32::MIN, 0, 1, 0, 3, &Vec::new()));
    assert!(!stroke_fits_grid(64, 64, 0, 0, 2, 2, 60000, &samples));
}
