//! Tests of the orthopolygon helpers and the circular pairing.

use contour_collection::book::GlypDistribution;
use contour_collection::geometry::orthopolygon::{Orthopolygon, PointPosition};
use contour_collection::more_itertools::CircularPairIter;
use contour_collection::test_images::{is_in_whitelist, is_not_in_blacklist};

#[test]
fn interleaved_vertices() {
    let square = Orthopolygon::from(vec![(0, 0), (2, 2)]);
    assert_eq!(square.vertices(), vec![(0, 0), (2, 0), (2, 2), (0, 2)]);

    let zigzag = Orthopolygon::from(vec![(0, 0), (3, 2), (2, 1), (1, 3)]);
    assert_eq!(
        zigzag.vertices(),
        vec![(0, 0), (3, 0), (3, 2), (2, 2), (2, 1), (1, 1), (1, 3), (0, 3)],
    );

    let empty = Orthopolygon::from(vec![]);
    assert_eq!(empty.vertices(), vec![]);
}

#[test]
fn point_positions() {
    let square = Orthopolygon::from(vec![(0, 0), (3, 3)]);
    assert!(matches!(square.get_point_position(1, 1), PointPosition::Inside));
    assert!(matches!(square.get_point_position(2, 2), PointPosition::Inside));
    assert!(matches!(square.get_point_position(4, 1), PointPosition::Outside));
    assert!(matches!(square.get_point_position(1, -1), PointPosition::Outside));
    assert!(matches!(square.get_point_position(1, 0), PointPosition::Edge));
    assert!(matches!(square.get_point_position(3, 1), PointPosition::Edge));
    assert!(matches!(square.get_point_position(0, 0), PointPosition::Vertex));
    assert!(matches!(square.get_point_position(3, 3), PointPosition::Vertex));
    assert!(matches!(square.get_point_position(0, 3), PointPosition::Vertex));
}

#[test]
fn circular_pairs() {
    let mut empty = CircularPairIter::new(Vec::<i32>::new());
    assert_eq!(empty.next(), None);

    let mut single = CircularPairIter::new(vec![0]);
    assert_eq!(single.next(), Some((0, 0)));
    assert_eq!(single.next(), None);

    let mut two = CircularPairIter::new(vec![0, 1]);
    assert_eq!(two.next(), Some((0, 1)));
    assert_eq!(two.next(), Some((1, 0)));
    assert_eq!(two.next(), None);

    let mut five = CircularPairIter::new(vec![3, 2, 1, 3, 0]);
    let mut pairs = Vec::new();
    while let Some(pair) = five.next() {
        pairs.push(pair);
    }
    assert_eq!(pairs, vec![(3, 2), (2, 1), (1, 3), (3, 0), (0, 3)]);
}

#[test]
fn name_filters() {
    assert!(is_in_whitelist("+keep"));
    assert!(!is_in_whitelist("keep"));
    assert!(!is_in_whitelist(""));
    assert!(is_not_in_blacklist("keep"));
    assert!(!is_not_in_blacklist("-skip"));
    assert!(is_not_in_blacklist(""));
}

#[test]
fn glyph_distribution_counts() {
    let mut distribution = GlypDistribution::new();
    distribution.add(2);
    distribution.add(2);
    distribution.add(5);
    assert_eq!(distribution.count, 3);
    assert_eq!(distribution.pages.len(), 2);
    assert!(distribution.pages.contains(&2));
    assert!(distribution.pages.contains(&5));
    assert!(!distribution.pages.contains(&3));
}
