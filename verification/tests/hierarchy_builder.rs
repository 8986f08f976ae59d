//! Tests of the union-find hierarchy builder on hand-driven scans.

use contour_collection::image_contour_collection::hierarchy_builder::{
    Head, HierarchyBuilder, HierarchyItem,
};

fn head(point_index: usize, is_alias: bool, parent: usize) -> Head {
    Head { point_index, is_alias, parent }
}

fn root(first_child: Option<usize>) -> HierarchyItem {
    HierarchyItem { head_point_index: 0, parent: 0, next_sibling: None, first_child }
}

fn hier(
    head_point: usize,
    parent: usize,
    next_sibling: Option<usize>,
    first_child: Option<usize>,
) -> HierarchyItem {
    HierarchyItem { head_point_index: head_point, parent, next_sibling, first_child }
}

#[test]
fn hierarchy_builder_empty() {
    let builder = HierarchyBuilder::new();

    let expected_heads = vec![head(0, false, 0)];
    assert_eq!(builder.heads(), &expected_heads);

    let expected_hierarchy = vec![root(None)];
    assert_eq!(builder.into(), expected_hierarchy);
}

/// Drives the builder through the scan of this picture (`+n` marks the head
/// of ring n, `a→b` a head aliased into an earlier ring):
///
/// ```text
/// 0 ┌+1─┐0  ┌+2─────────┐0  ┌+3─────────┐0
///   │   │   │           │   │           │
/// 0 │1  └2→1┘1  ┌+4─┐1  │0  │3  ┌+5─┐1  │0
///   │           │   │   │   │   │   │   │
/// 0 │1  ┌+6─┐1  │4  │1  │0  │3  └───┘3  │0
///   │   │   │   │   │   │   │           │
/// 0 │1  │6  └6→4┘4  │1  └3→1┘1      ┌───┘0
///   │   │           │               │
/// 0 │1  └───────────┘1  ┌+7─────┐1  │0
///   │                   │       │   │
/// 0 │1      ┌+8─────┐1  └───────┘1  │0
///   │       │       │               │
/// 0 └──8→0──┘0      └───────────────┘0
/// ```
#[test]
fn contour_depicted_above() {
    let expected_heads = vec![
        head(0, false, 0),
        head(0, false, 0),
        head(1, true, 1),
        head(2, true, 1),
        head(4, false, 1),
        head(5, false, 3),
        head(6, true, 4),
        head(12, false, 1),
        head(13, true, 0),
    ];
    let expected_hierarchy = vec![
        root(Some(1)),
        hier(0, 0, None, Some(2)),
        hier(4, 1, Some(3), None),
        hier(5, 1, Some(4), None),
        hier(12, 1, None, None),
    ];

    let mut builder = HierarchyBuilder::new();

    assert_eq!(builder.add_contour(0), (1, 0));
    assert_eq!(builder.add_contour(1), (2, 0));
    assert_eq!(builder.add_contour(2), (3, 0));

    builder.cross_contour(1);
    builder.merge_contours(2);
    assert_eq!(builder.add_contour(4), (4, 1));
    builder.cross_contour(0);
    builder.cross_contour(3);
    assert_eq!(builder.add_contour(5), (5, 3));
    builder.cross_contour(0);

    builder.cross_contour(1);
    assert_eq!(builder.add_contour(6), (6, 1));
    builder.cross_contour(4);
    builder.cross_contour(1);
    builder.cross_contour(0);
    builder.cross_contour(3);
    builder.merge_contours(3);
    builder.cross_contour(0);

    builder.cross_contour(1);
    builder.cross_contour(6);
    builder.merge_contours(4);
    builder.cross_contour(1);
    builder.merge_contours(3);
    builder.cross_contour(0);

    builder.cross_contour(1);
    builder.merge_contours(1);
    assert_eq!(builder.add_contour(12), (7, 1));
    builder.cross_contour(0);

    builder.cross_contour(1);
    assert_eq!(builder.add_contour(13), (8, 1));
    builder.merge_contours(1);
    builder.cross_contour(0);

    builder.merge_contours(8);
    builder.merge_contours(0);

    assert_eq!(builder.heads(), &expected_heads);
    assert_eq!(builder.into(), expected_hierarchy);
}
