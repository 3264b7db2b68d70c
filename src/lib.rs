//! Safe values across the boundary between a host program and an embedded
//! mruby interpreter: tagged values, the interpreter heap they point into,
//! and the bridge that shares host objects with the interpreter.

pub mod bridge;
pub mod laws;
pub mod state;
pub mod value;
