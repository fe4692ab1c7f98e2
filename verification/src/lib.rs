//! Game-state logic of a physics toy in which balls rain into a vibrating hole.

pub mod pattern;
pub mod physics;
pub mod sweep;
pub mod world;
pub mod input;
pub mod layout;
pub mod frame;
pub mod mesh;
