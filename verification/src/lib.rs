//! Geometric normalization of a square 21x21-module matrix code inside a
//! grayscale raster image: bounding-box localization by shrinkwrapping,
//! skew-triangle measurement, cropping, and orientation detection against a
//! fixed identifier pattern.

pub mod bbox;
pub mod errors;
pub mod img;
pub mod orient;
pub mod pipeline;
pub mod transform;
