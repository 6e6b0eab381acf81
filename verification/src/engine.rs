//! The renderer's components, one module each, leaf-first: voxel assets,
//! the geometry store, the BLAS manager, the binding path, the frame
//! scheduler, the denoiser configuration and the Vulkan version encoding.

pub mod blas;
pub mod denoiser;
pub mod geometry;
pub mod node;
pub mod render;
pub mod voxel;
pub mod vulkan;
