//! Float-free core of an isometric "cube skyline" scene: which grid cells
//! carry a cube, which entry goes to which cell, in what order cubes are
//! painted, how the rotation animation counts down, and which entry is in
//! focus. Coordinates and heights are left to the caller.

pub mod grid;
pub mod magnitude;
pub mod outline;
pub mod ranking;
pub mod animation;
pub mod focus;
pub mod stack;
pub mod scene;
pub mod state;
