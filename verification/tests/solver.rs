use maxwell_fdtd::sim::params::SimParams;
use maxwell_fdtd::sim::passes::{pass_bindings, Binding, Pass, PassKind, Texture};
use maxwell_fdtd::sim::solver::{Solver, StepPlan, MAX_GRID_SIDE};

fn f32_at(bits: u32) -> f32 {
    f32::from_bits(bits)
}

#[test]
fn default_params_are_the_documented_settings() {
    let p = SimParams::default();
    assert_eq!(f32_at(p.dt), 0.5);
    assert_eq!(f32_at(p.dx), 1.0);
    assert_eq!(f32_at(p.dy), 1.0);
    assert_eq!(f32_at(p.time), 0.0);
    assert_eq!(p.width, 512);
    assert_eq!(p.height, 512);
    assert_eq!(p.source_type, 0);
    assert_eq!(f32_at(p.source_freq), 0.08);
    assert_eq!(f32_at(p.source_amp), 2.0);
    assert_eq!(f32_at(p.source_phase), 0.0);
    assert_eq!(f32_at(p.source_angle), 0.0);
    assert_eq!(f32_at(p.source_width), 50.0);
    assert_eq!(f32_at(p.pulse_width), 20.0);
    assert_eq!(f32_at(p.pulse_delay), 60.0);
    assert_eq!(p.render_mode, 0);
    assert_eq!(f32_at(p.display_contrast), 0.5);
    assert_eq!(p.clear_sim, 0);
    assert_eq!((p.pad1, p.pad2, p.pad3), (0, 0, 0));
}

#[test]
fn params_bytes_are_the_fields_in_order_in_native_byte_order() {
    let mut p = SimParams::default();
    p.width = 300;
    let bytes = p.to_bytes();
    assert_eq!(bytes.len(), 80);
    assert_eq!(&bytes[0..4], &0.5f32.to_ne_bytes());
    assert_eq!(&bytes[16..20], &300u32.to_ne_bytes());
    assert_eq!(&bytes[28..32], &0.08f32.to_ne_bytes());
    assert_eq!(&bytes[76..80], &0u32.to_ne_bytes());
}

#[test]
fn new_solver_is_vacuum_and_dirty() {
    let s = Solver::new(7, 5);
    assert_eq!(s.params.width, 7);
    assert_eq!(s.params.height, 5);
    assert_eq!(s.params.dt, SimParams::default().dt);
    assert_eq!(s.material_data.len(), 7 * 5 * 4);
    for (i, w) in s.material_data.iter().enumerate() {
        let expected = if i % 4 == 0 { 1.0f32 } else { 0.0 };
        assert_eq!(f32::from_bits(*w), expected);
    }
    assert_eq!(s.step_count, 0);
    assert!(s.is_running);
    assert_eq!(s.steps_per_frame, 4);
    assert!(s.material_dirty);
}

#[test]
fn largest_grid_is_accepted() {
    let s = Solver::new(MAX_GRID_SIDE, 1);
    assert_eq!(s.material_data.len(), MAX_GRID_SIDE as usize * 4);
}

#[test]
fn clear_sets_the_request_only() {
    let mut s = Solver::new(4, 4);
    s.step_count = 9;
    s.clear();
    assert_eq!(s.params.clear_sim, 1);
    assert_eq!(s.step_count, 9);
    assert!(s.material_dirty);
}

#[test]
fn material_is_uploaded_once_per_change() {
    let mut s = Solver::new(3, 2);
    let up = s.update_material_texture().expect("a fresh grid is dirty");
    assert_eq!(up.bytes_per_row, 48);
    assert_eq!(up.rows_per_image, 2);
    assert_eq!((up.width, up.height), (3, 2));
    assert_eq!(up.bytes.len(), 3 * 2 * 16);
    assert_eq!(&up.bytes[0..4], &1.0f32.to_ne_bytes());
    assert_eq!(&up.bytes[4..8], &0.0f32.to_ne_bytes());
    assert!(!s.material_dirty);
    assert!(s.update_material_texture().is_none());
}

/// The sides of the microsteps' H and E passes, and of the render pass.
fn sides(plan: &StepPlan) -> (Vec<bool>, bool) {
    let n = plan.passes.len();
    let render = plan.passes[n - 1];
    assert_eq!(render.kind, PassKind::Render);
    let mut micro = Vec::new();
    for k in 0..plan.microsteps as usize {
        let h = plan.passes[2 * k];
        let e = plan.passes[2 * k + 1];
        assert_eq!(h.kind, PassKind::UpdateH);
        assert_eq!(e.kind, PassKind::UpdateE);
        assert_eq!(h.side_a, e.side_a);
        micro.push(h.side_a);
    }
    (micro, render.side_a)
}

#[test]
fn running_frame_alternates_textures() {
    let mut s = Solver::new(512, 512);
    let plan = s.step();
    assert!(plan.material.is_some());
    assert_eq!(plan.params_bytes.len(), 80);
    assert_eq!(plan.microsteps, 4);
    assert_eq!(plan.passes.len(), 9);
    assert_eq!(sides(&plan), (vec![true, false, true, false], true));
    assert!(plan.reset_params.is_none());
    assert_eq!(s.step_count, 4);
    assert_eq!((plan.workgroups_x, plan.workgroups_y), (32, 32));
    assert!(!s.material_dirty);

    s.steps_per_frame = 3;
    let plan = s.step();
    assert!(plan.material.is_none());
    assert_eq!(sides(&plan), (vec![true, false, true], false));
    assert_eq!(s.step_count, 7);

    let plan = s.step();
    assert_eq!(sides(&plan), (vec![false, true, false], true));
    assert_eq!(s.step_count, 10);
}

#[test]
fn paused_frame_only_renders() {
    let mut s = Solver::new(17, 33);
    s.is_running = false;
    s.step_count = 5;
    let plan = s.step();
    assert_eq!(plan.microsteps, 0);
    assert_eq!(plan.passes, vec![Pass { kind: PassKind::Render, side_a: false }]);
    assert_eq!(s.step_count, 5);
    assert_eq!((plan.workgroups_x, plan.workgroups_y), (2, 3));
}

#[test]
fn single_step_runs_one_microstep_while_paused() {
    let mut s = Solver::new(8, 8);
    s.is_running = false;
    s.step_count = 2;
    s.request_single_step();
    assert!(s.step_requested);
    let plan = s.step();
    assert_eq!(plan.microsteps, 1);
    assert_eq!(sides(&plan), (vec![true], false));
    assert_eq!(s.step_count, 3);
    assert!(!s.step_requested);
    let plan = s.step();
    assert_eq!(plan.microsteps, 0);
    assert_eq!(s.step_count, 3);
}

#[test]
fn clear_resets_clock_counter_and_every_field() {
    let mut s = Solver::new(16, 16);
    s.step_count = 11;
    s.params.time = 12.5f32.to_bits();
    s.clear();
    let plan = s.step();
    assert_eq!(plan.microsteps, 4);
    let n = plan.passes.len();
    assert_eq!(n, 8 + 4 + 1);
    assert_eq!(
        plan.passes[8..12].to_vec(),
        vec![
            Pass { kind: PassKind::UpdateH, side_a: true },
            Pass { kind: PassKind::UpdateE, side_a: true },
            Pass { kind: PassKind::UpdateH, side_a: false },
            Pass { kind: PassKind::UpdateE, side_a: false },
        ]
    );
    assert_eq!(plan.passes[12], Pass { kind: PassKind::Render, side_a: true });
    assert_eq!(s.step_count, 0);
    assert_eq!(s.params.clear_sim, 0);
    assert_eq!(f32::from_bits(s.params.time), 0.0);
    let reset = plan.reset_params.expect("clear passes run");
    assert_eq!(&reset[12..16], &0.0f32.to_ne_bytes());
    assert_eq!(&reset[64..68], &0u32.to_ne_bytes());
    assert_eq!(&plan.params_bytes[12..16], &12.5f32.to_ne_bytes());
    assert_eq!(&plan.params_bytes[64..68], &1u32.to_ne_bytes());

    let plan = s.step();
    assert!(plan.reset_params.is_none());
    assert_eq!(s.step_count, 4);
}

#[test]
fn bind_groups_follow_the_ping_pong() {
    let h_a = pass_bindings(PassKind::UpdateH, true);
    assert_eq!(
        h_a,
        vec![
            Binding { slot: 0, texture: Texture::EzA, writes: false },
            Binding { slot: 1, texture: Texture::HA, writes: false },
            Binding { slot: 2, texture: Texture::HB, writes: true },
        ]
    );
    let e_b = pass_bindings(PassKind::UpdateE, false);
    assert_eq!(
        e_b,
        vec![
            Binding { slot: 3, texture: Texture::EzB, writes: false },
            Binding { slot: 4, texture: Texture::EzA, writes: true },
            Binding { slot: 5, texture: Texture::HA, writes: false },
            Binding { slot: 6, texture: Texture::Material, writes: false },
        ]
    );
    let r_b = pass_bindings(PassKind::Render, false);
    assert_eq!(r_b[0], Binding { slot: 7, texture: Texture::EzB, writes: false });
    assert_eq!(r_b[2], Binding { slot: 9, texture: Texture::Display, writes: true });
}
