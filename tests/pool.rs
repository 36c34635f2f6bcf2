use nv_flip::{FlipHistogram, FlipImageFloat, FlipPool, SAMPLE_ONE};

/// 0.1, 0.3, 0.6 and 0.9, rounded down to samples.
const TENTHS: [i32; 4] = [1677721, 5033165, 10066329, 15099494];

fn four_bucket_pool() -> FlipPool {
    let mut pool = FlipPool::with_buckets(4);
    pool.update_with_image(&FlipImageFloat::with_data(2, 2, &TENTHS));
    pool
}

#[test]
fn zero_size_pool_ops() {
    let pool = FlipPool::new();
    assert_eq!(pool.min_value(), 0);
    assert_eq!(pool.max_value(), 0);
    assert_eq!(pool.mean(), 0);
    assert_eq!(pool.get_percentile(0, false), 0);
    assert_eq!(pool.get_percentile(0, true), 0);
    assert_eq!(pool.get_weighted_percentile(0), 0);
}

#[test]
fn folding_an_image_counts_every_pixel() {
    let samples: Vec<i32> = (0..12).map(|i| i * SAMPLE_ONE / 11 - 100).collect();
    let image = FlipImageFloat::with_data(4, 3, &samples);
    let pool = FlipPool::from_image(&image);
    let histogram = pool.histogram();
    let total: usize = (0..histogram.bucket_count())
        .map(|b| histogram.bucket_value_count(b))
        .sum();
    assert_eq!(total, 12);
    assert_eq!(histogram.bucket_count(), 100);
    assert_eq!(pool.min_value(), -100);
    assert_eq!(pool.max_value(), SAMPLE_ONE - 100);
}

#[test]
fn statistics_of_four_values() {
    let pool = four_bucket_pool();
    assert_eq!(pool.min_value(), 1677721);
    assert_eq!(pool.max_value(), 15099494);
    // 31876709 / 4 = 7969177.25, rounded down.
    assert_eq!(pool.mean(), 7969177);
    assert!(pool.min_value() <= pool.mean() && pool.mean() <= pool.max_value());
    let histogram = pool.histogram();
    for b in 0..4 {
        assert_eq!(histogram.bucket_value_count(b), 1);
    }
}

#[test]
fn mean_rounds_down_for_negative_sums() {
    let pool = FlipPool::from_image(&FlipImageFloat::with_data(2, 1, &[-3, 0]));
    assert_eq!(pool.mean(), -2);
    assert_eq!(pool.min_value(), -3);
    assert_eq!(pool.max_value(), 0);
}

#[test]
fn unweighted_percentiles_are_bucket_midpoints() {
    let pool = four_bucket_pool();
    // Midpoints of four buckets: 1/8, 3/8, 5/8, 7/8.
    assert_eq!(pool.get_percentile(0, false), SAMPLE_ONE / 8);
    assert_eq!(pool.get_percentile(SAMPLE_ONE / 2, false), 5 * SAMPLE_ONE / 8);
    assert_eq!(pool.get_percentile(SAMPLE_ONE, false), 7 * SAMPLE_ONE / 8);
    assert_eq!(pool.get_percentile(-10000, false), SAMPLE_ONE / 8);
    assert_eq!(pool.get_percentile(i32::MAX, false), 7 * SAMPLE_ONE / 8);
}

#[test]
fn weighted_percentiles_follow_midpoint_weights() {
    let pool = four_bucket_pool();
    // Weights 1, 3, 5, 7: half of 16 is reached in the third bucket.
    assert_eq!(pool.get_percentile(SAMPLE_ONE / 2, true), 5 * SAMPLE_ONE / 8);
    assert_eq!(pool.get_percentile(SAMPLE_ONE, true), 7 * SAMPLE_ONE / 8);
    assert_eq!(pool.get_percentile(0, true), SAMPLE_ONE / 8);
    assert_eq!(pool.get_percentile(-10000, true), SAMPLE_ONE / 8);
}

#[test]
fn weighted_percentile_interpolates_inside_the_bucket() {
    let pool = four_bucket_pool();
    // Half of the weight is 8: 4 below the third bucket, 4 of its 5 needed,
    // so (2 + 0.8) / 4 = 0.7.
    assert_eq!(pool.get_weighted_percentile(SAMPLE_ONE / 2), 11744051);
    assert_eq!(pool.get_weighted_percentile(0), 0);
    assert_eq!(pool.get_weighted_percentile(SAMPLE_ONE), SAMPLE_ONE);
    assert_eq!(pool.get_weighted_percentile(-10000), 0);
    assert_eq!(pool.get_weighted_percentile(i32::MAX), SAMPLE_ONE);
}

#[test]
fn clearing_empties_the_pool() {
    let mut pool = four_bucket_pool();
    pool.clear();
    assert_eq!(pool.mean(), 0);
    assert_eq!(pool.max_value(), 0);
    assert_eq!(pool.histogram().bucket_count(), 4);
    assert_eq!(pool.histogram().bucket_id_min(), None);
    let fresh = FlipPool::default();
    assert_eq!(fresh.histogram().bucket_count(), 100);
}

#[test]
fn pool_updates_accumulate() {
    let mut pool = FlipPool::new();
    pool.update_with_image(&FlipImageFloat::with_data(1, 1, &[SAMPLE_ONE / 4]));
    pool.update_with_image(&FlipImageFloat::with_data(1, 1, &[3 * SAMPLE_ONE / 4]));
    assert_eq!(pool.mean(), SAMPLE_ONE / 2);
    assert_eq!(pool.histogram().bucket_id_min(), Some(25));
    assert_eq!(pool.histogram().bucket_id_max(), 75);
}

#[test]
fn histogram_buckets_clamp_to_the_ends() {
    let histogram = FlipHistogram::new(100);
    assert_eq!(histogram.bucket_id(-5), 0);
    assert_eq!(histogram.bucket_id(0), 0);
    assert_eq!(histogram.bucket_id(SAMPLE_ONE / 2), 50);
    assert_eq!(histogram.bucket_id(SAMPLE_ONE - 1), 99);
    assert_eq!(histogram.bucket_id(SAMPLE_ONE), 99);
    assert_eq!(histogram.bucket_id(i32::MAX), 99);
    assert_eq!(histogram.bucket_size(), 167772);
    assert_eq!(histogram.minimum_allowed_value(), 0);
    assert_eq!(histogram.maximum_allowed_value(), SAMPLE_ONE);
}

#[test]
fn histogram_includes_values_and_images() {
    let mut histogram = FlipHistogram::new(10);
    assert_eq!(histogram.bucket_id_min(), None);
    assert_eq!(histogram.bucket_id_max(), 0);
    histogram.include_value(SAMPLE_ONE / 2, 3);
    histogram.include_value(SAMPLE_ONE / 4, 2);
    assert_eq!(histogram.bucket_value_count(5), 3);
    assert_eq!(histogram.bucket_value_count(2), 2);
    assert_eq!(histogram.bucket_id_min(), Some(2));
    assert_eq!(histogram.bucket_id_max(), 5);
    let image = FlipImageFloat::with_data(3, 1, &[0, SAMPLE_ONE, SAMPLE_ONE / 2]);
    histogram.include_image(&image);
    assert_eq!(histogram.bucket_value_count(0), 1);
    assert_eq!(histogram.bucket_value_count(9), 1);
    assert_eq!(histogram.bucket_value_count(5), 4);
    histogram.clear();
    assert_eq!(histogram.bucket_count(), 10);
    assert_eq!(histogram.bucket_id_min(), None);
    histogram.resize(3);
    assert_eq!(histogram.bucket_count(), 3);
    assert_eq!(histogram.bucket_value_count(2), 0);
}

#[test]
fn weighted_percentile_of_a_zero_target_is_the_first_bucket() {
    // One value: the percentile clamps to [0, 0], so the target weight is 0,
    // which bucket 0 already reaches.
    let pool = FlipPool::from_image(&FlipImageFloat::with_data(1, 1, &[SAMPLE_ONE / 2]));
    assert_eq!(pool.get_percentile(SAMPLE_ONE / 2, true), SAMPLE_ONE / 200);
    assert_eq!(pool.get_percentile(-10000, true), SAMPLE_ONE / 200);
    assert_eq!(pool.get_percentile(SAMPLE_ONE / 2, false), 8472494);
    // Read off inside the bucket that holds the value: 0.505.
    assert_eq!(pool.get_weighted_percentile(SAMPLE_ONE / 2), 8472494);
}

#[test]
fn weighted_percentile_skips_to_the_reaching_bucket() {
    // Values in buckets 0 and 3 of 4: weights 1 and 7; a target of 2 is
    // first reached at bucket 3 (buckets 1 and 2 reach only 1).
    let mut pool = FlipPool::with_buckets(4);
    pool.update_with_image(&FlipImageFloat::with_data(2, 1, &[1677721, 15099494]));
    assert_eq!(pool.get_percentile(SAMPLE_ONE / 4, true), 7 * SAMPLE_ONE / 8);
    assert_eq!(pool.get_percentile(0, true), SAMPLE_ONE / 8);
}
