//! A verified kernel for the classic "tunnel" effect: a procedural texture,
//! a per-pixel (distance, angle) projection table, and a renderer that maps
//! each output pixel through the table into the scrolling texture.

pub mod texture;
pub mod projection;
pub mod render;
