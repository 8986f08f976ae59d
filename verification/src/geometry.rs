//! Geometric helpers for consumers of the contour engines.

pub mod orthopolygon;
