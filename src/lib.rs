//! Plane shapes and a region algebra over them.
//!
//! The types are generic over the coordinate scalar `C`. The library fixes
//! the data model, the order in which a polygon's boundary is walked, and the
//! boolean structure of region containment; the numeric kernels that decide a
//! single shape at a single point are supplied by the caller for the scalar
//! it uses.

pub mod algebra;
pub mod geometry;
pub mod regions;
pub mod shapes;
