//! CPU-side model of a two-dimensional FDTD (finite-difference time-domain)
//! Maxwell solver: the simulation parameters that are handed to the GPU, the
//! RGBA material grid that the painting tools and optical presets edit, the
//! ping-pong stepping schedule, and the control-panel state.
//!
//! Every floating-point quantity is held as its IEEE-754 single-precision bit
//! pattern (`u32`), so that the values reach the GPU exactly as written.

pub mod sim;
pub mod gui;
