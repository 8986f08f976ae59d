//! End-to-end tests of the row-pair contour engine.

use contour_collection::image_contour_collection::hierarchy_builder::HierarchyItem;
use contour_collection::image_contour_collection::point_list_builder::PointListItem;
use contour_collection::image_contour_collection::{ContourError, ImageContourCollection};
use contour_collection::geometry::orthopolygon::{Orthopolygon, PointPosition};

fn root(first_child: Option<usize>) -> HierarchyItem {
    HierarchyItem { head_point_index: 0, parent: 0, next_sibling: None, first_child }
}

fn hier(
    head_point: usize,
    parent: usize,
    next_sibling: Option<usize>,
    first_child: Option<usize>,
) -> HierarchyItem {
    HierarchyItem { head_point_index: head_point, parent, next_sibling, first_child }
}

fn point(x: i32, y: i32, next: usize) -> PointListItem {
    PointListItem { x, y, next }
}

fn build(width: u32, height: u32, pixels: &[u8], inverted: bool) -> ImageContourCollection {
    ImageContourCollection::new(pixels, width, height, inverted).unwrap()
}

/// The inline images all the whole-collection tests run over.
fn test_images() -> Vec<(&'static str, u32, u32, Vec<u8>)> {
    vec![
        ("1x1 background", 1, 1, vec![0]),
        ("1x1 foreground", 1, 1, vec![1]),
        ("3x4 blob with island", 3, 4, vec![1, 1, 1, 1, 0, 1, 1, 0, 0, 0, 0, 1]),
        ("5x4 frame with island", 5, 4, vec![
            1, 1, 1, 1, 1,
            1, 0, 0, 0, 1,
            1, 0, 1, 0, 1,
            1, 0, 0, 0, 1,
        ]),
        ("7x5 nested frames", 7, 5, vec![
            1, 1, 1, 1, 1, 1, 1,
            1, 0, 0, 0, 0, 0, 1,
            1, 0, 1, 1, 1, 0, 1,
            1, 0, 1, 0, 1, 0, 1,
            1, 0, 1, 1, 1, 0, 1,
        ]),
        ("4x4 checkerboard", 4, 4, vec![
            1, 0, 1, 0,
            0, 1, 0, 1,
            1, 0, 1, 0,
            0, 1, 0, 1,
        ]),
        ("6x3 two blobs", 6, 3, vec![
            1, 1, 0, 0, 1, 0,
            0, 1, 1, 0, 1, 1,
            1, 0, 1, 0, 0, 1,
        ]),
        ("5x5 diagonal", 5, 5, vec![
            1, 0, 0, 0, 0,
            0, 1, 0, 0, 0,
            0, 0, 1, 0, 0,
            0, 0, 0, 1, 0,
            0, 0, 0, 0, 1,
        ]),
    ]
}

fn test_all_images(test: impl Fn(String, u32, u32, &[u8], bool, ImageContourCollection)) {
    for (name, width, height, pixels) in test_images() {
        for &inverted in [false, true].iter() {
            let collection = build(width, height, &pixels, inverted);
            let testcase = if inverted {
                format!("Image: '{name}', inverted")
            } else {
                format!("Image: '{name}'")
            };
            test(testcase, width, height, &pixels, inverted, collection);
        }
    }
}

#[test]
fn empty_image() {
    let actual = build(1, 1, &[0], false);
    assert_eq!(actual.dimensions(), (1, 1));
    assert_eq!(actual.point_list, vec![]);
    assert_eq!(actual.hierarchy, vec![root(None)]);
}

#[test]
fn single_pixel() {
    let actual = build(1, 1, &[1], false);
    assert_eq!(actual.point_list, vec![point(0, 0, 1), point(1, 1, 0)]);
    assert_eq!(actual.hierarchy, vec![root(Some(1)), hier(0, 0, None, None)]);
}

#[test]
fn blob_with_separate_pixel() {
    let actual = build(3, 4, &[1, 1, 1, 1, 0, 1, 1, 0, 0, 0, 0, 1], false);
    assert_eq!(actual.point_list, vec![
        point(0, 0, 2),
        point(2, 1, 3),
        point(3, 2, 1),
        point(1, 3, 0),
        point(2, 3, 5),
        point(3, 4, 4),
    ]);
    assert_eq!(actual.hierarchy, vec![
        root(Some(1)),
        hier(0, 0, Some(2), None),
        hier(4, 0, None, None),
    ]);
}

#[test]
fn frame_with_island() {
    let actual = build(5, 4, &[
        1, 1, 1, 1, 1,
        1, 0, 0, 0, 1,
        1, 0, 1, 0, 1,
        1, 0, 0, 0, 1,
    ], false);
    assert_eq!(actual.point_list, vec![
        point(0, 0, 5),
        point(4, 1, 4),
        point(2, 2, 3),
        point(3, 3, 2),
        point(1, 4, 0),
        point(5, 4, 1),
    ]);
    assert_eq!(actual.hierarchy, vec![
        root(Some(1)),
        hier(0, 0, Some(2), None),
        hier(2, 0, None, None),
    ]);
}

#[test]
fn nested_frames() {
    let actual = build(7, 5, &[
        1, 1, 1, 1, 1, 1, 1,
        1, 0, 0, 0, 0, 0, 1,
        1, 0, 1, 1, 1, 0, 1,
        1, 0, 1, 0, 1, 0, 1,
        1, 0, 1, 1, 1, 0, 1,
    ], false);
    assert_eq!(actual.point_list, vec![
        point(0, 0, 7),
        point(6, 1, 5),
        point(2, 2, 6),
        point(4, 3, 4),
        point(3, 4, 3),
        point(1, 5, 0),
        point(5, 5, 2),
        point(7, 5, 1),
    ]);
    assert_eq!(actual.hierarchy, vec![
        root(Some(1)),
        hier(0, 0, Some(2), None),
        hier(2, 0, None, Some(3)),
        hier(3, 2, None, None),
    ]);
}

#[test]
fn checkerboard_merges_diagonally() {
    // Outer contours are 8-connected, so the diagonally touching cells of a
    // checkerboard form one contour, with the two fully enclosed background
    // cells as its holes.
    let actual = build(4, 4, &[
        1, 0, 1, 0,
        0, 1, 0, 1,
        1, 0, 1, 0,
        0, 1, 0, 1,
    ], false);
    assert_eq!(actual.hierarchy.len(), 4);
    let mut iter = actual.all_contours();
    let blob = iter.next().unwrap();
    assert!(blob.is_outer());
    assert!(blob.parent().is_none());
    let hole_a = iter.next().unwrap();
    assert!(!hole_a.is_outer());
    let hole_b = iter.next().unwrap();
    assert!(!hole_b.is_outer());
    assert!(iter.next().is_none());
}

#[test]
fn zero_sized_image() {
    let actual = build(0, 0, &[], false);
    assert_eq!(actual.dimensions(), (0, 0));
    assert_eq!(actual.point_list, vec![]);
    assert_eq!(actual.hierarchy, vec![root(None)]);
}

#[test]
fn full_rectangle() {
    let actual = build(3, 2, &[1, 1, 1, 1, 1, 1], false);
    assert_eq!(actual.point_list, vec![point(0, 0, 1), point(3, 2, 0)]);
    assert_eq!(actual.hierarchy, vec![root(Some(1)), hier(0, 0, None, None)]);
}

#[test]
fn input_errors() {
    assert_eq!(
        ImageContourCollection::new(&[0, 0, 0, 0, 0], 3, 2, false).unwrap_err(),
        ContourError::InputSizeMismatch,
    );
    assert_eq!(
        ImageContourCollection::new(&[], u32::MAX, 2, false).unwrap_err(),
        ContourError::InputOverflow,
    );
    assert_eq!(
        ImageContourCollection::new(&[], 2, u32::MAX, false).unwrap_err(),
        ContourError::InputOverflow,
    );
}

#[test]
fn ring_closure() {
    test_all_images(|testcase, _, _, _, _, contour_collection| {
        let points = &contour_collection.point_list;
        let mut visited = vec![false; points.len()];
        for item in contour_collection.hierarchy.iter().skip(1) {
            let head = item.head_point_index;
            let mut index = head;
            let mut steps = 0;
            loop {
                assert!(!visited[index],
                    "{testcase}: point {index} belongs to two contours");
                visited[index] = true;
                index = points[index].next;
                steps += 1;
                assert!(steps <= points.len(), "{testcase}: a contour ring does not close");
                if index == head {
                    break;
                }
            }
            assert!(steps >= 2, "{testcase}: a contour ring has fewer than two points");
        }
        assert!(visited.iter().all(|&v| v), "{testcase}: a point belongs to no contour");
    })
}

#[test]
fn hierarchy_consistency() {
    test_all_images(|testcase, _, _, _, _, contour_collection| {
        let h = contour_collection.hierarchy;
        let mut is_visited = vec![false; h.len()];

        let mut stack = vec![0];
        while let Some(index) = stack.pop() {
            is_visited[index] = true;
            let current = &h[index];

            if let Some(child) = current.first_child {
                assert!(!is_visited[child],
                    "{testcase}: cycle in hierarchy tree (item {child})");
                assert_eq!(h[child].parent, index,
                    "{testcase}: hierarchy item {child} has incorrect parent");
                stack.push(child);
            }
            if let Some(sibling) = current.next_sibling {
                assert!(!is_visited[sibling],
                    "{testcase}: cycle in hierarchy tree (item {sibling})");
                assert_eq!(h[sibling].parent, current.parent,
                    "{testcase}: hierarchy item {sibling} has incorrect parent");
                stack.push(sibling);
            }
        }

        assert!(is_visited.iter().all(|&v| v),
            "{testcase}: not all hierarchy items accessible");
    })
}

fn even_vertices_of(
    contour: &contour_collection::image_contour_collection::contours::Contour,
) -> Vec<(i32, i32)> {
    let mut vertices = Vec::new();
    let mut iter = contour.even_vertices();
    while let Some(vertex) = iter.next() {
        vertices.push(vertex);
    }
    vertices
}

#[test]
fn contour_folding() {
    test_all_images(|testcase, _, _, _, _, contour_collection| {
        let mut contours = Vec::new();
        let mut iter = contour_collection.all_contours();
        while let Some(contour) = iter.next() {
            contours.push(contour);
        }
        for contour in &contours {
            let Some(parent) = contour.parent() else { continue };
            let polygon = Orthopolygon::from(even_vertices_of(contour));
            let parent_polygon = Orthopolygon::from(even_vertices_of(&parent));
            for &(x, y) in polygon.vertices().iter() {
                let is_ok = match parent_polygon.get_point_position(x, y) {
                    PointPosition::Inside => true,
                    PointPosition::Vertex => parent.is_outer(),
                    PointPosition::Outside | PointPosition::Edge => false,
                };
                assert!(is_ok, "{testcase}: a contour point is outside its parent contour");
            }
        }
    })
}

/// Fills every contour of the collection by the even-odd rule: a pixel is
/// set when an odd number of vertical contour edges lie at or left of it on
/// its row.
fn rasterize(collection: &ImageContourCollection) -> Vec<u8> {
    let (width, height) = collection.dimensions();
    let (width, height) = (width as usize, height as usize);
    let mut canvas = vec![0u8; width * height];
    let mut contours = Vec::new();
    let mut iter = collection.all_contours();
    while let Some(contour) = iter.next() {
        contours.push(even_vertices_of(&contour));
    }
    for py in 0..height {
        for px in 0..width {
            let mut parity = false;
            for vertices in &contours {
                for k in 0..vertices.len() {
                    let (_, y0) = vertices[k];
                    let (x1, y1) = vertices[(k + 1) % vertices.len()];
                    let (lo, hi) = if y0 < y1 { (y0, y1) } else { (y1, y0) };
                    if lo <= py as i32 && (py as i32) < hi && x1 <= px as i32 {
                        parity = !parity;
                    }
                }
            }
            if parity {
                canvas[py * width + px] = 1;
            }
        }
    }
    canvas
}

#[test]
fn rasterization_round_trip() {
    test_all_images(|testcase, width, _, pixels, inverted, contour_collection| {
        let canvas = rasterize(&contour_collection);
        for (k, &value) in canvas.iter().enumerate() {
            let expected = (pixels[k] != 0) != inverted;
            assert_eq!(value != 0, expected,
                "{testcase}: rasterized contours differ from the original image \
                 at ({}, {})", k as u32 % width, k as u32 / width);
        }
    })
}

#[test]
fn idempotent_rerun() {
    test_all_images(|_, width, height, pixels, inverted, contour_collection| {
        let again = build(width, height, pixels, inverted);
        assert_eq!(contour_collection.point_list, again.point_list);
        assert_eq!(contour_collection.hierarchy, again.hierarchy);
    })
}

#[test]
fn inverting_bytes_matches_inverted_flag() {
    for (_, width, height, pixels) in test_images() {
        let complemented: Vec<u8> =
            pixels.iter().map(|&b| if b == 0 { 1 } else { 0 }).collect();
        let flagged = build(width, height, &pixels, true);
        let rewritten = build(width, height, &complemented, false);
        assert_eq!(flagged.point_list, rewritten.point_list);
        assert_eq!(flagged.hierarchy, rewritten.hierarchy);
    }
}

#[test]
fn inversion_swaps_roles() {
    // A filled frame: normally one outer ring around one hole around one
    // outer island.  Inverted, the background becomes a single foreground
    // blob with a hole where the island was.
    let pixels = [
        1, 1, 1, 1, 1,
        1, 0, 0, 0, 1,
        1, 0, 1, 0, 1,
        1, 0, 0, 0, 1,
    ];
    let normal = build(5, 4, &pixels, false);
    let mut outer = 0;
    let mut inner = 0;
    let mut iter = normal.all_contours();
    while let Some(contour) = iter.next() {
        if contour.is_outer() {
            outer += 1;
        } else {
            inner += 1;
        }
    }
    assert_eq!((outer, inner), (2, 0));

    let inverted = build(5, 4, &pixels, true);
    let mut outer = 0;
    let mut inner = 0;
    let mut iter = inverted.all_contours();
    while let Some(contour) = iter.next() {
        if contour.is_outer() {
            outer += 1;
        } else {
            inner += 1;
        }
    }
    assert_eq!((outer, inner), (1, 1));
}

#[test]
fn navigation_single_island() {
    let collection = build(5, 4, &[
        1, 1, 1, 1, 1,
        1, 0, 0, 0, 1,
        1, 0, 1, 0, 1,
        1, 0, 0, 0, 1,
    ], false);

    let mut outermost = collection.outermost_contours();
    let frame = outermost.next().unwrap();
    assert!(frame.is_outer());
    assert!(frame.parent().is_none());
    assert_eq!(even_vertices_of(&frame), vec![(0, 0), (5, 4), (4, 1), (1, 4)]);
    let island = outermost.next().unwrap();
    assert!(outermost.next().is_none());
    assert_eq!(even_vertices_of(&island), vec![(2, 2), (3, 3)]);

    let mut outers = collection.outer_contours();
    assert_eq!(even_vertices_of(&outers.next().unwrap()), vec![(0, 0), (5, 4), (4, 1), (1, 4)]);
    assert_eq!(even_vertices_of(&outers.next().unwrap()), vec![(2, 2), (3, 3)]);
    assert!(outers.next().is_none());
}

#[test]
fn navigation_nested() {
    let collection = build(7, 5, &[
        1, 1, 1, 1, 1, 1, 1,
        1, 0, 0, 0, 0, 0, 1,
        1, 0, 1, 1, 1, 0, 1,
        1, 0, 1, 0, 1, 0, 1,
        1, 0, 1, 1, 1, 0, 1,
    ], false);

    let mut all = collection.all_contours();
    let outer = all.next().unwrap();
    assert!(outer.is_outer());
    let ring = all.next().unwrap();
    assert!(ring.is_outer());
    let hole = all.next().unwrap();
    assert!(!hole.is_outer());
    assert!(all.next().is_none());

    assert!(hole.parent().unwrap().is_outer());
    let mut children = ring.children();
    let child = children.next().unwrap();
    assert!(!child.is_outer());
    assert!(children.next().is_none());

    let mut descendants = ring.all_descendants();
    assert!(!descendants.next().unwrap().is_outer());
    assert!(descendants.next().is_none());
}
