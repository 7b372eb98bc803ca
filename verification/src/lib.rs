//! Core of a triple-pendulum fractal visualizer.
//!
//! The library holds the discrete side of each frame: angle wraparound, the
//! color model (hue pair resolution, per-level hue interpolation and the
//! hue/saturation/luminance to RGB conversion) and the fractal generator
//! that expands the pendulum's instantaneous state and link-length ratios
//! into a depth-bounded tree of drawable primitives with decaying visual
//! attributes. The floating-point dynamics -- the adaptive integrator and
//! the trigonometry feeding it -- belong to the embedding program, which
//! hands the library plain fixed-point values.
//!
//! All quantities here are fixed-point numbers: an `i64` counts units of
//! `1 / fx::SCALE`, and angles count scaled degrees, so that a full turn
//! (`angle::TURN`) is exactly representable and angle wraparound is exact
//! integer arithmetic.

pub mod fx;
pub mod angle;
pub mod state;
pub mod color;
pub mod fractal;
