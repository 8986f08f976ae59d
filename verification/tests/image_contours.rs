//! Tests of the run-based variant of the engine.

use contour_collection::image_contour_collection::ContourError;
use contour_collection::image_contours::ImageContours;
use contour_collection::image_contours::contours::Contour as TableContour;
use contour_collection::image_contours::types::{ContourPoint, Relation};

#[test]
fn table_single_pixel() {
    let contours = ImageContours::new(&[1], 1, 1).unwrap();
    assert_eq!(contours.dimensions(), (1, 1));
    assert_eq!(contours.table.len(), 3);
    assert_eq!(contours.table[0].relation, Relation::Child(1));
    assert_eq!((contours.table[1].x, contours.table[1].y), (0, 0));
    assert_eq!((contours.table[2].x, contours.table[2].y), (1, 1));

    let mut outermost = contours.outermost_contours();
    let contour = outermost.next().unwrap();
    let mut points = contour.control_points();
    assert_eq!(points.next(), Some((0, 0)));
    assert_eq!(points.next(), Some((1, 1)));
    assert_eq!(points.next(), None);
    assert!(outermost.next().is_none());
}

#[test]
fn table_blob_with_separate_pixel() {
    let contours = ImageContours::new(&[1, 1, 1, 1, 0, 1, 1, 0, 0, 0, 0, 1], 3, 4).unwrap();
    let mut outermost = contours.outermost_contours();

    let blob = outermost.next().unwrap();
    let mut ring = Vec::new();
    let mut points = blob.control_points();
    while let Some(point) = points.next() {
        ring.push(point);
    }
    assert_eq!(ring, vec![(0, 0), (3, 2), (2, 1), (1, 3)]);
    assert!(outermost.next().is_none());

    // This variant of the engine records the separate pixel under the blob:
    // the enclosing-contour tracker is not refreshed at a closing foot.
    assert_eq!(contours.table[1].relation, Relation::Child(5));
    let pixel = TableContour::new(&contours.table, false, 5);
    let mut points = pixel.control_points();
    assert_eq!(points.next(), Some((2, 3)));
    assert_eq!(points.next(), Some((3, 4)));
    assert_eq!(points.next(), None);
}

#[test]
fn table_empty_image() {
    let contours = ImageContours::new(&[0, 0, 0, 0], 2, 2).unwrap();
    assert_eq!(contours.dimensions(), (2, 2));
    assert_eq!(contours.table.len(), 1);
    let mut outermost = contours.outermost_contours();
    assert!(outermost.next().is_none());
}

#[test]
fn table_input_errors() {
    assert_eq!(
        ImageContours::new(&[0, 0, 0], 2, 2).unwrap_err(),
        ContourError::InputSizeMismatch,
    );
    assert_eq!(
        ImageContours::new(&[], u32::MAX, 1).unwrap_err(),
        ContourError::InputOverflow,
    );
}

#[test]
fn contour_point_constructors() {
    assert_eq!(
        ContourPoint::new(3, 4),
        ContourPoint { x: 3, y: 4, next: 0, relation: Relation::Nothing },
    );
    assert_eq!(
        ContourPoint::with_next(3, 4, 7),
        ContourPoint { x: 3, y: 4, next: 7, relation: Relation::Nothing },
    );
}
