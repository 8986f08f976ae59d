//! Contour extraction for binary raster images.
//!
//! The raster is scanned once, top to bottom.  Adjacent row pairs are merged
//! into a stream of change events, a six-state automaton classifies each event
//! as a contour feature, and the features are stitched into closed polygon
//! rings together with a parent/child hierarchy of contours.
//!
//! Contour points lie on pixel corners: the upper-left corner of the pixel at
//! (x, y) has coordinates (x, y), its lower-right corner (x + 1, y + 1).
//! Outer contours are 8-connected and clockwise; holes are 4-connected and
//! anti-clockwise.

pub mod image_contour_collection;
pub mod image_contours;
pub mod geometry;
pub mod book;
pub mod more_itertools;
pub mod test_images;
