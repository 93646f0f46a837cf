//! A 2D game-engine core: a typed component graph and a deterministic
//! fixed-point physics pipeline (colliders, narrow-phase contact generation,
//! ray and point queries, rigid bodies and force fields).
//!
//! All simulation arithmetic is fixed-point (`SCALE` raw steps per world
//! unit), which keeps every result exactly specifiable and bit-identical
//! across runs.

pub mod body;
pub mod collider;
pub mod fixed;
pub mod forcefield;
pub mod graph;
pub mod query;
pub mod rotor;
pub mod shape_shape;
pub mod solver;
pub mod vec2;
