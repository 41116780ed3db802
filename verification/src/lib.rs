//! Procedural voxel terrain pipeline: chunk lifecycle management around a
//! moving observer, deterministic height-field generation over an integer
//! lattice, and triangle-mesh construction with seam stitching between
//! independently generated chunks.
//!
//! World positions and sizes are integer fixed-point values: the caller picks
//! a resolution (for example a thousand units per metre) and hands every
//! position in those units. Column heights are quantized to whole voxel
//! layers, which is what makes mesh seams align on voxel boundaries.

pub mod bindings;
pub mod coords;
pub mod lifecycle;
pub mod mesh;
pub mod noise_field;
pub mod settings;
pub mod voxel;
