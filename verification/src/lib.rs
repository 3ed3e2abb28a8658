//! A force-directed graph layout engine with a verified core.
//!
//! The library positions the nodes of an arbitrary graph in 2D space by
//! simulating repulsive and attractive forces in the style of
//! Fruchterman and Reingold, cooling the simulation over a fixed number
//! of iterations, and exposing the evolving layout to an interactive
//! viewer through a camera controller (pan, zoom, drag) and a per-frame
//! layout session.
//!
//! All simulation arithmetic is fixed-point: a world coordinate is an
//! `i64` counted in thousandths of a world unit (see [`num::FIXED_ONE`]).
//! This keeps every quantity an integer, which makes the whole pipeline
//! deterministic and lets each step be specified and proved exactly,
//! with saturation bounds taking the place of floating-point infinities.

pub mod num;
pub mod geom;
pub mod graph;
pub mod engine;
pub mod camera;
pub mod session;
pub mod stats;
pub mod bindings;
