//! Geometry and color-compositing primitives for a 2D rendering core.
//!
//! All quantities are exact: coordinates and color channels are fixed-point
//! numbers with 16 fractional bits, slopes are rational values, and every
//! operation is specified by the integer formula it computes.

pub mod common_geometry;
pub mod compositor;
pub mod fixed;
pub mod types;
