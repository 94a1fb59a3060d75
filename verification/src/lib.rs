//! Simulation core of a sphere-rolling restoration game: a planet is a
//! triangulated sphere whose vertices carry a pollution state; a player ball
//! rolls over the surface restoring tiles while factories seed and spread
//! contamination along the mesh adjacency graph.
//!
//! All scalar quantities are fixed-point integers in thousandths of a world
//! unit ("milli" units), the same resolution the adjacency builder uses to
//! merge duplicated mesh vertices.

pub mod adjacency;
pub mod contagion;
pub mod enemies;
pub mod leaderboard;
pub mod movement;
pub mod rng;
pub mod score;
pub mod session;
pub mod settings;
pub mod tiles;
pub mod vecmath;
