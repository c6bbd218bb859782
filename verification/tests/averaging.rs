use system_dashboard::average::{update_averages, RunningMean};

fn mean_of(values: &[i128]) -> i128 {
    let mut mean = RunningMean::new();
    for value in values {
        mean = mean.updated_average(*value);
    }
    assert_eq!(mean.count(), values.len());
    mean.mean()
}

fn means(averages: &[RunningMean]) -> Vec<i128> {
    averages.iter().map(|average| average.mean()).collect()
}

#[test]
fn the_mean_of_nothing_is_zero() {
    let mean = RunningMean::new();
    assert_eq!(mean.mean(), 0);
    assert_eq!(mean.count(), 0);
    let zeros = RunningMean::zeros(5);
    assert_eq!(zeros.mean(), 0);
    assert_eq!(zeros.count(), 5);
}

#[test]
fn the_first_value_is_the_mean() {
    assert_eq!(mean_of(&[-123_456]), -123_456);
    assert_eq!(mean_of(&[42]), 42);
    assert_eq!(mean_of(&[0]), 0);
}

#[test]
fn the_mean_is_the_sum_over_the_count() {
    assert_eq!(mean_of(&[10_000, 20_000, 30_000]), 20_000);
    assert_eq!(mean_of(&[4, 5, 6]), 5);
    assert_eq!(mean_of(&[1_000, 2_000, 2_000]), 1_667);
    assert_eq!(mean_of(&[1_000, 1_000, 2_000]), 1_333);
    assert_eq!(mean_of(&[-10_000, -3_000]), -6_500);
    assert_eq!(mean_of(&[-5, 5, 3]), 1);
}

#[test]
fn the_mean_is_rounded_once_however_many_values_there_are() {
    assert_eq!(mean_of(&[0, 0, 1, 1]), 1);
    assert_eq!(mean_of(&[2, 2, 3, 3]), 3);
    assert_eq!(mean_of(&[100, 100, 101, 101]), 101);
    let mut counts = vec![0; 26];
    counts.extend(vec![1; 27]);
    assert_eq!(mean_of(&counts), 1);
    let mut counts = vec![0; 27];
    counts.extend(vec![1; 26]);
    assert_eq!(mean_of(&counts), 0);
    let thousand: Vec<i128> = (1..=1000).collect();
    assert_eq!(mean_of(&thousand), 501);
}

#[test]
fn a_half_goes_away_from_zero() {
    assert_eq!(mean_of(&[1, 2]), 2);
    assert_eq!(mean_of(&[-1, -2]), -2);
    assert_eq!(mean_of(&[0, 1]), 1);
    assert_eq!(mean_of(&[0, -1]), -1);
    assert_eq!(mean_of(&[1, 1, 2]), 1);
    assert_eq!(mean_of(&[1, 2, 2]), 2);
    assert_eq!(mean_of(&[-1, -1, -2]), -1);
    assert_eq!(mean_of(&[-1, -2, -2]), -2);
}

#[test]
fn running_mean_of_a_series() {
    let mut mean = RunningMean::new();
    for value in [4_000, 5_000, 6_000] {
        mean = mean.updated_average(value);
    }
    assert_eq!(mean.mean(), 5_000);
    assert_eq!(mean.count(), 3);
    let more = mean.updated_average(1_000);
    assert_eq!(more.mean(), 4_000);
    assert_eq!(mean.mean(), 5_000);
}

#[test]
fn means_of_the_largest_values_do_not_overflow() {
    let limit: i128 = 1 << 64;
    assert_eq!(mean_of(&[limit, limit, limit]), limit);
    assert_eq!(mean_of(&[-limit, -limit]), -limit);
    assert_eq!(mean_of(&[limit, -limit]), 0);
    assert_eq!(mean_of(&[limit, -limit, limit]), 6_148_914_691_236_517_205);
    assert_eq!(mean_of(&[u64::MAX as i128, u64::MAX as i128]), u64::MAX as i128);
    assert_eq!(mean_of(&[i64::MIN as i128, i64::MAX as i128]), -1);
}

#[test]
fn averages_are_updated_position_by_position() {
    let mut averages = Vec::new();
    update_averages(&mut averages, &[1_000, 2_000], 1);
    assert_eq!(means(&averages), vec![1_000, 2_000]);
    update_averages(&mut averages, &[3_000, 4_000], 2);
    assert_eq!(means(&averages), vec![2_000, 3_000]);
    update_averages(&mut averages, &[2_001, 2_999], 3);
    assert_eq!(means(&averages), vec![2_000, 3_000]);
}

#[test]
fn shorter_averages_are_padded_with_zeroes() {
    let mut averages = Vec::new();
    update_averages(&mut averages, &[1_000, 2_000], 1);
    update_averages(&mut averages, &[3_000, 4_000, 5_000], 2);
    assert_eq!(means(&averages), vec![2_000, 3_000, 2_500]);
    assert_eq!(averages[2].count(), 2);

    let mut fresh: Vec<RunningMean> = Vec::new();
    update_averages(&mut fresh, &[7, 8], 1);
    assert_eq!(means(&fresh), vec![7, 8]);
}

#[test]
fn averages_beyond_the_new_values_are_kept() {
    let mut averages = Vec::new();
    update_averages(&mut averages, &[1_000, 2_000, 3_000], 1);
    update_averages(&mut averages, &[3_000], 2);
    assert_eq!(means(&averages), vec![2_000, 2_000, 3_000]);
    update_averages(&mut averages, &[], 3);
    assert_eq!(means(&averages), vec![2_000, 2_000, 3_000]);
    // The lists that were too short count as having carried the mean.
    update_averages(&mut averages, &[2_000, 6_000, 7_000], 4);
    assert_eq!(means(&averages), vec![2_000, 3_000, 4_000]);
    for average in &averages {
        assert_eq!(average.count(), 4);
    }
}

#[test]
fn averages_of_extreme_values_stay_in_range() {
    let mut averages = Vec::new();
    update_averages(&mut averages, &[i64::MIN, i64::MAX], 1);
    assert_eq!(means(&averages), vec![i64::MIN as i128, i64::MAX as i128]);
    update_averages(&mut averages, &[i64::MAX, i64::MIN], 2);
    assert_eq!(means(&averages), vec![-1, -1]);
    update_averages(&mut averages, &[i64::MAX, i64::MAX], 3);
    assert_eq!(means(&averages), vec![3_074_457_345_618_258_602, 3_074_457_345_618_258_602]);
}
