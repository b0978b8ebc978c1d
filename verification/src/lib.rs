//! A CPU-side triangle rasterizer over Q16.16 fixed-point arithmetic: a
//! programmable camera, a model/view/projection transform chain, and a
//! rasterizer with a depth buffer, backface culling and flat shading. Every
//! contract is stated exactly over the integers, so the whole pipeline - from
//! a world-space triangle to the bytes of the frame - is pinned down.

pub mod camera;
pub mod colour;
pub mod drawable;
pub mod error;
pub mod fixed;
pub mod laws;
pub mod mat4;
pub mod mesh;
pub mod raster;
pub mod renderer;
pub mod renderer_config;
pub mod transformable;
pub mod triangle;
pub mod trig;
pub mod utilities;
pub mod vec3;
pub mod vertex;
