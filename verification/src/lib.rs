//! A first-person raycasting engine core over a 2D grid maze.
//!
//! All world coordinates and distances are fixed-point integers with
//! `fixed::FP_ONE` units per maze cell. The renderer marches a ray per
//! screen column, projects the first wall hit into a vertical slice, and
//! samples the wall's texture into an owned framebuffer.

pub mod fixed;
pub mod maze;
pub mod color;
pub mod framebuffer;
pub mod textures;
pub mod player;
pub mod raycast;
pub mod state;
