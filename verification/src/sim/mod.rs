//! The simulation: parameters, solver state, material grid and scenes.

pub mod params;
pub mod grid;
pub mod passes;
pub mod solver;
pub mod scene;
pub mod laws;
