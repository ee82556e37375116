//! An interactive 3D triangle-mesh viewer core: fixed-point scalar math,
//! vector/matrix utilities, a text model-format parser, the interaction
//! state record, and the face-picking engine.
//!
//! All scalar quantities are signed 64-bit fixed-point numbers with 32
//! fractional bits (see the `fx` module), so every computation here is
//! exact integer arithmetic with fully specified rounding.

pub mod fx;
pub mod math;
pub mod model;
pub mod picking;
pub mod state;
