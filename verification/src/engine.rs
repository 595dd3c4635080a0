//! Rendering engine data: meshes and their layouts.
pub mod model;
