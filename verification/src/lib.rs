//! A cycle-stepped, fixed-point model of a triangle rasteriser that walks a
//! bounding box in 2x2 quads and emits coverage and barycentric weights.

pub mod arith;
pub mod laws;
pub mod q12p4;
pub mod q16p16;
pub mod q24p4;
pub mod raster;
pub mod step;
pub mod walk;
