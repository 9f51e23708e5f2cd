//! Parameter automation for hardware synthesizers: time-varying field tables,
//! the engine that evaluates them, and the two system-exclusive frame encoders
//! the values are packed into.

pub mod d110;
pub mod korg;
pub mod laws;
pub mod midi;
pub mod modulation;
pub mod note;
pub mod notesink;
pub mod outputstage;
pub mod rng;
pub mod session;
pub mod utils;
pub mod wave;
