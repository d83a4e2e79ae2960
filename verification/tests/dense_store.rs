use sketches_rust::dense::{
    plan_adjust_highest, plan_adjust_lowest, AdjustAction, DenseCounts,
};
use sketches_rust::frame::{mapping_headers_match, IndexMappingLayout};

fn weight_of(counts: &DenseCounts, bucket: i32) -> f64 {
    f64::from_bits(counts.get_bucket(bucket))
}

fn put_weight(counts: &mut DenseCounts, bucket: i32, weight: f64) {
    counts.set_bucket(bucket, f64::to_bits(weight));
}

fn seeded(offset: i32, min_index: i32, max_index: i32, length: i32) -> DenseCounts {
    let mut counts = DenseCounts::new();
    counts.ensure_length(length);
    counts.rebase(offset);
    counts.set_window_bounds(min_index, max_index);
    counts
}

#[test]
fn test_dense_counts_new_is_empty() {
    let counts = DenseCounts::new();
    assert!(counts.is_empty());
    assert_eq!(counts.get_length(), 0);
    assert_eq!(counts.get_offset(), 0);
    assert_eq!(counts.get_min_index(), i32::MAX);
    assert_eq!(counts.get_max_index(), i32::MIN);
    assert_eq!(counts.get_bucket(7), 0);
}

#[test]
fn test_dense_counts_set_and_get() {
    let mut counts = seeded(10, 12, 20, 64);
    put_weight(&mut counts, 12, 1.5);
    put_weight(&mut counts, 20, 3.0);
    assert_eq!(weight_of(&counts, 12), 1.5);
    assert_eq!(weight_of(&counts, 20), 3.0);
    assert_eq!(counts.get_bucket(13), 0);
    // Outside the array, a bucket weighs nothing.
    assert_eq!(counts.get_bucket(-1000), 0);
}

#[test]
fn test_dense_counts_shift_preserves_buckets() {
    let mut counts = seeded(0, 2, 5, 64);
    put_weight(&mut counts, 2, 1.0);
    put_weight(&mut counts, 5, 4.0);
    counts.shift_counts(10);
    assert_eq!(counts.get_offset(), -10);
    assert_eq!(counts.get_min_index(), 2);
    assert_eq!(counts.get_max_index(), 5);
    assert_eq!(weight_of(&counts, 2), 1.0);
    assert_eq!(weight_of(&counts, 5), 4.0);
    assert_eq!(counts.get_bucket(3), 0);

    counts.shift_counts(-7);
    assert_eq!(counts.get_offset(), -3);
    assert_eq!(weight_of(&counts, 2), 1.0);
    assert_eq!(weight_of(&counts, 5), 4.0);
}

#[test]
fn test_dense_counts_center_preserves_buckets() {
    let mut counts = seeded(0, 30, 33, 64);
    put_weight(&mut counts, 30, 2.0);
    put_weight(&mut counts, 33, 5.0);
    counts.center_counts(28, 40);
    // The middle formula of the array discipline: the first slot names
    // bucket middle - length / 2.
    assert_eq!(counts.get_offset(), 28 + (40 - 28 + 1) / 2 - 64 / 2);
    assert_eq!(counts.get_min_index(), 28);
    assert_eq!(counts.get_max_index(), 40);
    assert_eq!(weight_of(&counts, 30), 2.0);
    assert_eq!(weight_of(&counts, 33), 5.0);
    assert_eq!(counts.get_bucket(29), 0);
}

#[test]
fn test_dense_counts_reset_and_clear() {
    let mut counts = seeded(0, 0, 9, 64);
    for b in 0..10 {
        put_weight(&mut counts, b, 1.0);
    }
    counts.reset_counts(0, 4);
    assert_eq!(counts.get_bucket(4), 0);
    assert_eq!(weight_of(&counts, 5), 1.0);
    // An inverted range touches nothing.
    counts.reset_counts(9, 5);
    assert_eq!(weight_of(&counts, 9), 1.0);

    counts.clear();
    assert!(counts.is_empty());
    assert_eq!(counts.get_length(), 64);
    assert_eq!(counts.get_bucket(7), 0);
}

#[test]
fn test_dense_counts_nonzero_bins() {
    let mut counts = seeded(-2, -2, 6, 64);
    put_weight(&mut counts, -2, 1.0);
    put_weight(&mut counts, 0, 2.0);
    put_weight(&mut counts, 6, 3.0);
    let ascending = counts.nonzero_bins_ascending();
    assert_eq!(
        ascending,
        vec![(-2, 1.0f64.to_bits()), (0, 2.0f64.to_bits()), (6, 3.0f64.to_bits())]
    );
    let descending = counts.nonzero_bins_descending();
    assert_eq!(
        descending,
        vec![(6, 3.0f64.to_bits()), (0, 2.0f64.to_bits()), (-2, 1.0f64.to_bits())]
    );

    let empty = DenseCounts::new();
    assert!(empty.nonzero_bins_ascending().is_empty());
}

#[test]
fn test_plan_adjust_lowest() {
    // The window fits: recentre.
    assert_eq!(
        plan_adjust_lowest(64, 0, 10, 0, 20),
        (AdjustAction::Center, 0, false)
    );
    // Too wide, and the retained window starts at or past the old top:
    // everything folds into one bucket.
    assert_eq!(
        plan_adjust_lowest(10, 0, 5, 0, 99),
        (AdjustAction::FoldAllIntoOne, 90, true)
    );
    // Too wide with live buckets below the retained window: fold them up
    // to the boundary, then shift.
    assert_eq!(
        plan_adjust_lowest(10, 0, 12, 0, 12),
        (
            AdjustAction::Collapse { fold_boundary: 2, shift: -3 },
            3,
            true
        )
    );
    // Too wide but nothing lies below the retained window: shift only.
    assert_eq!(
        plan_adjust_lowest(10, 5, 4, 0, 12),
        (AdjustAction::ShiftOnly { shift: 2 }, 3, true)
    );
}

#[test]
fn test_plan_adjust_highest() {
    assert_eq!(
        plan_adjust_highest(64, 0, 10, 0, 20),
        (AdjustAction::Center, 20, false)
    );
    assert_eq!(
        plan_adjust_highest(10, 0, 95, 0, 99),
        (AdjustAction::FoldAllIntoOne, 9, true)
    );
    assert_eq!(
        plan_adjust_highest(10, 3, 0, -2, 12),
        (
            AdjustAction::Collapse { fold_boundary: 8, shift: 5 },
            7,
            true
        )
    );
    assert_eq!(
        plan_adjust_highest(10, -2, 0, -2, 12),
        (AdjustAction::ShiftOnly { shift: 0 }, 7, true)
    );
}

#[test]
fn test_mapping_headers_match() {
    let gamma = 1.041666666666667f64.to_bits();
    let offset = 0.0f64.to_bits();
    assert!(mapping_headers_match(
        IndexMappingLayout::LogCubic, gamma, offset,
        IndexMappingLayout::LogCubic, gamma, offset,
    ));
    assert!(!mapping_headers_match(
        IndexMappingLayout::LogCubic, gamma, offset,
        IndexMappingLayout::LOG, gamma, offset,
    ));
    assert!(!mapping_headers_match(
        IndexMappingLayout::LogCubic, gamma, offset,
        IndexMappingLayout::LogCubic, 1.02f64.to_bits(), offset,
    ));
}
