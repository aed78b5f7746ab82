//! A software 3D rendering pipeline over fixed-point arithmetic.
//!
//! The library transforms model-space vertices through model, view,
//! projection and viewport matrices, assembles triangles, rasterizes them
//! into depth-interpolated fragments, shades each fragment with a point
//! light, and writes pixels through a depth-tested framebuffer.
//!
//! All coordinates, matrix entries and depths are signed 16.16 fixed-point
//! values (`fx::FX_ONE` is 1.0); colors are 8-bit RGBA channels.

pub mod fx;
pub mod geom;
pub mod framebuffer;
pub mod matrix;
pub mod vertex;
pub mod light;
pub mod fragment;
pub mod shaders;
pub mod triangle;
pub mod render;
