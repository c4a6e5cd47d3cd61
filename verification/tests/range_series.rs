use weather_banner::chart::{block_max, block_mean, block_min, count_positive, sum};
use weather_banner::{Range, Series, Unit, ONE};

#[test]
fn unit_keeps_its_fraction() {
    assert_eq!(Unit::new(3, 4).value(), (3, 4));
    assert_eq!(Unit::zero().value(), (0, 1));
    assert_eq!(Unit::new(-7, 2).value(), (-7, 2));
}

#[test]
fn normalize_gives_the_position_in_the_range() {
    let range = Range::new(40 * ONE, 50 * ONE);
    assert_eq!(range.min(), 40 * ONE);
    assert_eq!(range.max(), 50 * ONE);
    assert_eq!(range.width(), 10 * ONE as i64);
    assert_eq!(range.normalize(40 * ONE).value(), (0, 10_000));
    assert_eq!(range.normalize(45 * ONE).value(), (5_000, 10_000));
    assert_eq!(range.normalize(50 * ONE).value(), (10_000, 10_000));
    assert_eq!(range.normalize(60 * ONE).value(), (20_000, 10_000));
    assert_eq!(range.normalize(30 * ONE).value(), (-10_000, 10_000));
}

#[test]
fn project_maps_positions_into_the_range() {
    let range = Range::new(100, 200);
    assert_eq!(range.project(Unit::zero()), 100);
    assert_eq!(range.project(Unit::new(1, 1)), 200);
    assert_eq!(range.project(Unit::new(1, 2)), 150);
    assert_eq!(range.project(Unit::new(1, 3)), 133);
    assert_eq!(range.project(Unit::new(-1, 3)), 66);
    assert_eq!(range.project(Unit::new(3, 2)), 250);
}

#[test]
fn project_undoes_normalize() {
    for (min, max) in [(40_000, 50_000), (-7, 3), (50_000, 40_000), (i32::MIN, i32::MAX), (0, 1)] {
        let range = Range::new(min, max);
        for v in [min, max, 0, 1, -1, 12_345, i32::MIN, i32::MAX, 45_000] {
            assert_eq!(range.project(range.normalize(v)), v as i128);
        }
    }
}

#[test]
fn larger_values_project_further_out() {
    let from = Range::new(-12_300, 98_700);
    let to = Range::new(96_000, 144_000);
    let mut last = to.project(from.normalize(-20_000));
    for v in (-20_000..120_000).step_by(137) {
        let r = to.project(from.normalize(v));
        assert!(r >= last);
        last = r;
    }
    assert_eq!(to.project(from.normalize(-12_300)), 96_000);
    assert_eq!(to.project(from.normalize(98_700)), 144_000);
}

#[test]
fn intersect_spans_both_ranges() {
    let a = Range::new(10, 20);
    let b = Range::new(15, 40);
    let both = Range::intersect(&a, &b);
    assert_eq!((both.min(), both.max()), (10, 40));
    let apart = Range::intersect(&Range::new(-5, -1), &Range::new(3, 9));
    assert_eq!((apart.min(), apart.max()), (-5, 9));
    let inverted = Range::intersect(&Range::new(i32::MAX, i32::MIN), &Range::new(3, 9));
    assert_eq!((inverted.min(), inverted.max()), (3, 9));
}

#[test]
fn missing_items_take_the_last_value() {
    let series = Series::from_iterator(vec![None, Some(5), None, None, Some(-2), None]);
    assert_eq!(series.values(), &[0, 5, 5, 5, -2, -2]);
}

#[test]
fn range_comes_from_present_values_only() {
    let series = Series::from_iterator(vec![None, Some(50), None, Some(70)]);
    assert_eq!(series.values(), &[0, 50, 50, 70]);
    assert_eq!((series.range().min(), series.range().max()), (50, 70));
    assert_eq!(series.min_index(), 1);
    assert_eq!(series.max_index(), 3);
    let dense = Series::from_iterator(vec![Some(50), Some(70)]);
    assert_eq!((dense.range().min(), dense.range().max()), (50, 70));
}

#[test]
fn first_of_equal_extremes_is_kept() {
    let series = Series::from_iterator(vec![Some(3), Some(9), Some(1), Some(9), Some(1)]);
    assert_eq!(series.max_index(), 1);
    assert_eq!(series.min_index(), 2);
}

#[test]
fn series_without_values_has_an_inverted_range() {
    let series = Series::from_iterator(vec![None, None, None]);
    assert_eq!(series.values(), &[0, 0, 0]);
    assert_eq!(series.range().min(), i32::MAX);
    assert_eq!(series.range().max(), i32::MIN);
    assert!(series.range().width() < 0);
    assert_eq!(series.min_index(), 0);
    assert_eq!(series.max_index(), 0);
    let empty = Series::from_iterator(Vec::new());
    assert_eq!(empty.values().len(), 0);
    assert_eq!(empty.range().min(), i32::MAX);
}

#[test]
fn get_wraps_around() {
    let series = Series::from_iterator(vec![Some(10), Some(20), Some(30), Some(40), Some(50)]);
    assert_eq!(series.get(0), 10);
    assert_eq!(series.get(4), 50);
    assert_eq!(series.get(5), 10);
    assert_eq!(series.get(-1), 50);
    assert_eq!(series.get(-5), 10);
    assert_eq!(series.get(-6), 50);
    assert_eq!(series.get(isize::MAX), series.get(isize::MAX % 5));
    assert_eq!(series.get(isize::MIN), series.get(((isize::MIN % 5) + 5) % 5));
    for i in -12isize..12 {
        for k in -3isize..4 {
            assert_eq!(series.get(i), series.get(i + k * 5));
        }
    }
}

#[test]
fn get_normalized_uses_the_range_of_the_series() {
    let series = Series::from_iterator(vec![Some(10), Some(20), Some(30)]);
    assert_eq!(series.get_normalized(1).value(), (10, 20));
    assert_eq!(series.get_normalized(-1).value(), (20, 20));
    let wide = series.with_range(&Range::new(0, 100));
    assert_eq!(wide.values(), &[10, 20, 30]);
    assert_eq!((wide.range().min(), wide.range().max()), (0, 100));
    assert_eq!(wide.min_index(), 0);
    assert_eq!(wide.max_index(), 2);
    assert_eq!(wide.get_normalized(1).value(), (20, 100));
    let units: Vec<(i64, i64)> = wide.normalize().iter().map(|u| u.value()).collect();
    assert_eq!(units, vec![(10, 100), (20, 100), (30, 100)]);
}

#[test]
fn downsample_drops_what_is_left_over() {
    let series = Series::from_iterator((1..=10).map(Some).collect());
    for k in 1usize..=12 {
        let thin = series.downsample_by(k, block_max);
        assert_eq!(thin.values().len(), 10 / k);
        assert_eq!(thin.min_index(), 0);
        assert_eq!(thin.max_index(), 9 / k as isize);
        assert_eq!((thin.range().min(), thin.range().max()), (1, 10));
    }
    assert_eq!(series.downsample_by(3, block_max).values(), &[3, 6, 9]);
    assert_eq!(series.downsample_by(3, block_min).values(), &[1, 4, 7]);
    assert_eq!(series.downsample_by(3, block_mean).values(), &[2, 5, 8]);
    assert_eq!(series.downsample_by(4, |b: &[i32]| b[0] - b[3]).values(), &[-3, -3]);
}

#[test]
fn aggregates_of_a_block() {
    assert_eq!(block_max(&[3, -7, 12, 0]), 12);
    assert_eq!(block_min(&[3, -7, 12, 0]), -7);
    assert_eq!(block_max(&[]), i32::MIN);
    assert_eq!(block_min(&[]), i32::MAX);
    assert_eq!(block_mean(&[1, 2]), 1);
    assert_eq!(block_mean(&[-1, -2]), -2);
    assert_eq!(block_mean(&[10, 20, 30]), 20);
    assert_eq!(sum(&[i32::MAX, i32::MAX, 1]), 2 * (i32::MAX as i128) + 1);
    assert_eq!(sum(&[]), 0);
    assert_eq!(count_positive(&[0, 10, -5, 1, 0]), 2);
}
