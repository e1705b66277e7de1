//! Core of a visibility-buffer deferred renderer.
//!
//! Geometry is rasterized once into a compact per-pixel identifier; all
//! shading happens in a later pass that decodes the identifier and rebuilds
//! the triangle it names. The modules here cover the packed-identifier
//! codec, the bindless descriptor-reference ownership model with its
//! dynamic buffer tagging, the GPU-resident scene graph, and the
//! rasterize-then-shade dispatch protocol.

pub mod accum;
pub mod barycentric;
pub mod descriptor;
pub mod dispatch;
pub mod dyn_buffer;
pub mod id;
pub mod image;
pub mod material;
pub mod model;
pub mod raster;
pub mod renderer;
pub mod scene;
pub mod view_range;
pub mod visibility_debug;
