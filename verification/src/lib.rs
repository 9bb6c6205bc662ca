//! A discrete model of run-and-tumble chemotaxis.
//!
//! A transmitter emits information molecules that walk a grid towards a
//! receiver. The receiver holds a bounded pool of receptors and seeds a field
//! of chemotactic molecules whose local density biases the walk. Everything
//! here works on integers: a caller that derives headings from angles hands
//! them in as grid displacements.

pub mod geometry;
pub mod chemotactic;
pub mod information;
pub mod stimulus;
pub mod receiver;
pub mod transmitter;
pub mod tick;
pub mod conservation;
pub mod simulation;
pub mod laws;
