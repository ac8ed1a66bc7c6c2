use iced_aksel::tick::{skip_overlapping, LabelDecision};

use LabelDecision::{Render, Skip};

/// Pairwise collisions of labels laid out as `(start, end)` along an axis,
/// with a minimum gap, each against the labels before it.
fn conflicts(bounds: &[(f32, f32)], min_gap: f32) -> Vec<Vec<bool>> {
    (0..bounds.len())
        .map(|i| {
            (0..i)
                .map(|j| {
                    let (a, b) = (bounds[i], bounds[j]);
                    a.0 < b.1 + min_gap && b.0 < a.1 + min_gap
                })
                .collect()
        })
        .collect()
}

#[test]
fn no_labels() {
    assert!(skip_overlapping(&vec![]).is_empty());
}

#[test]
fn separate_labels_all_render() {
    let c = conflicts(&[(0.0, 10.0), (20.0, 30.0), (40.0, 50.0)], 5.0);
    assert_eq!(skip_overlapping(&c), vec![Render, Render, Render]);
}

#[test]
fn overlapping_label_is_skipped() {
    // The doc example: 10..50 and 45..85 overlap.
    let c = conflicts(&[(10.0, 50.0), (45.0, 85.0)], 5.0);
    assert_eq!(skip_overlapping(&c), vec![Render, Skip]);
}

#[test]
fn gap_counts_as_overlap() {
    let c = conflicts(&[(0.0, 10.0), (12.0, 20.0)], 5.0);
    assert_eq!(skip_overlapping(&c), vec![Render, Skip]);
    let c = conflicts(&[(0.0, 10.0), (12.0, 20.0)], 1.0);
    assert_eq!(skip_overlapping(&c), vec![Render, Render]);
}

#[test]
fn skipped_labels_do_not_block_later_ones() {
    // 1 collides with 0 and is skipped; 2 collides only with 1, so it renders.
    let c = vec![vec![], vec![true], vec![false, true]];
    assert_eq!(skip_overlapping(&c), vec![Render, Skip, Render]);
}

#[test]
fn missing_entries_are_no_collision() {
    let c = vec![vec![], vec![], vec![true]];
    assert_eq!(skip_overlapping(&c), vec![Render, Render, Skip]);
}
