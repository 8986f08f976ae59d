//! Tests of the row change producer and the two change mergers.

use contour_collection::image_contour_collection::row_changes::{
    fill_padding_changes, fill_row_changes, END,
};
use contour_collection::image_contour_collection::row_pair_changes::{
    RowPairChange, RowPairChangeIter, RowPairChangeKind,
};
use contour_collection::image_contours::run_changes::{RunChange, RunChangeIter, RunChangeKind};

fn row_changes(pixels: &[u8], inverted: bool) -> Vec<u32> {
    let mut changes = Vec::new();
    fill_row_changes(pixels, inverted, &mut changes);
    changes
}

#[test]
fn row_changes_empty() {
    let mut actual = Vec::new();
    fill_padding_changes(&mut actual);
    assert_eq!(actual, vec![END]);
}

#[test]
fn pixel_row() {
    assert_eq!(row_changes(&[1], false), vec![0, 1, END]);
    assert_eq!(row_changes(&[1], true), vec![END]);
    assert_eq!(row_changes(&[0, 0], false), vec![END]);
    assert_eq!(row_changes(&[0, 0], true), vec![0, 2, END]);
    assert_eq!(row_changes(&[1, 1], false), vec![0, 2, END]);
    assert_eq!(row_changes(&[1, 1], true), vec![END]);
    assert_eq!(row_changes(&[0, 1, 0], false), vec![1, 2, END]);
    assert_eq!(row_changes(&[0, 1, 0], true), vec![0, 1, 2, 3, END]);
    assert_eq!(row_changes(&[1, 1, 0, 0, 0, 1, 0, 1], false), vec![0, 2, 5, 6, 7, 8, END]);
    assert_eq!(row_changes(&[1, 1, 0, 0, 0, 1, 0, 1], true), vec![2, 5, 6, 7, END]);
}

#[test]
fn empty_row_has_no_changes() {
    assert_eq!(row_changes(&[], false), vec![END]);
    assert_eq!(row_changes(&[], true), vec![END]);
}

fn merged_pairs(top: &[u32], bottom: &[u32]) -> Vec<RowPairChange> {
    let mut iter = RowPairChangeIter::new(top, bottom);
    let mut result = Vec::new();
    while let Some(change) = iter.next() {
        result.push(change);
    }
    result
}

fn pair(kind: RowPairChangeKind, x: i32) -> RowPairChange {
    RowPairChange { kind, x }
}

#[test]
fn row_pair_merge() {
    assert_eq!(merged_pairs(&[END], &[END]), vec![]);
    assert_eq!(merged_pairs(&[0, END], &[END]), vec![pair(RowPairChangeKind::Top, 0)]);
    assert_eq!(merged_pairs(&[END], &[0, END]), vec![pair(RowPairChangeKind::Bottom, 0)]);
    assert_eq!(merged_pairs(&[0, END], &[0, END]), vec![pair(RowPairChangeKind::Both, 0)]);
    assert_eq!(
        merged_pairs(&[1, 38, 39, 41, END], &[1, 2, 39, 42, END]),
        vec![
            pair(RowPairChangeKind::Both, 1),
            pair(RowPairChangeKind::Bottom, 2),
            pair(RowPairChangeKind::Top, 38),
            pair(RowPairChangeKind::Both, 39),
            pair(RowPairChangeKind::Top, 41),
            pair(RowPairChangeKind::Bottom, 42),
        ]
    );
}

fn merged_runs(top: &[u32], bottom: &[u32]) -> Vec<RunChange> {
    let mut iter = RunChangeIter::new(top, bottom);
    let mut result = Vec::new();
    while let Some(change) = iter.next() {
        result.push(change);
    }
    result
}

fn run(kind: RunChangeKind, x: u32) -> RunChange {
    RunChange { kind, x }
}

#[test]
fn run_merge() {
    assert_eq!(merged_runs(&[END], &[END]), vec![]);
    assert_eq!(merged_runs(&[0, END], &[END]), vec![run(RunChangeKind::Top, 0)]);
    assert_eq!(merged_runs(&[END], &[0, END]), vec![run(RunChangeKind::Bottom, 0)]);
    assert_eq!(merged_runs(&[0, END], &[0, END]), vec![run(RunChangeKind::Both, 0)]);
    assert_eq!(
        merged_runs(&[1, 38, 39, 41, END], &[1, 2, 39, 42, END]),
        vec![
            run(RunChangeKind::Both, 1),
            run(RunChangeKind::Bottom, 2),
            run(RunChangeKind::Top, 38),
            run(RunChangeKind::Both, 39),
            run(RunChangeKind::Top, 41),
            run(RunChangeKind::Bottom, 42),
        ]
    );
}
