//! A verified solver core for the snake-cube folding puzzle: a chain of
//! straight and hinged corner segments that must fold into a compact cuboid.
//!
//! The library models the chain, computes each segment's lattice position and
//! direction from the hinge states (forward kinematics), detects self-overlap,
//! measures the bounding cuboid, and drives an exhaustive base-4 enumeration
//! of the hinge configurations.  Rendering and input handling are left to the
//! caller, which observes the chain's public read state.

pub mod cube;
pub mod vecs;
