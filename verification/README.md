# maxwell_fdtd

A two-dimensional FDTD Maxwell solver whose GPU shaders are driven by a
verified CPU-side library.

- `src/` — the library, verified with Verus:
  - `sim/params.rs`: the shader uniform block (`SimParams`) and its byte encoding;
  - `sim/grid.rs`: the mathematical model of the RGBA material grid and its painting lemmas;
  - `sim/passes.rs`: the field textures and how each compute pass is wired to them;
  - `sim/solver.rs`: the solver state, the material upload and the per-frame pass schedule;
  - `sim/scene.rs`: the optical presets and the brushes;
  - `sim/laws.rs`: properties that hold across operations;
  - `gui.rs`: the control panel's state and its pointer and preset decisions.
- `tests/` — tests of the library on concrete grids.
- `app/` — the program: window, GPU resources, egui panel, and the
  floating-point geometry (curved features and stroke sampling) that the
  library takes as input.

Building `app/` needs two crates that `Cargo.toml` does not name: `winit`
0.29 and `egui-winit` 0.27 (with `wgpu` 0.19 they took the dependency
sources over the size this build environment allows). Add them to
`[dependencies]` to build the program.

The compute shaders are not part of this repository: `app/` reads them at
run time from `shaders/simulation.wgsl`, relative to the working directory.
