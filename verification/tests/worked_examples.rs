use weather_banner::gsod::{Day, DeterminedVia, Temperature, TemperatureExtremity};
use weather_banner::time::{Date, Year};
use weather_banner::{Range, Scale, Series, ONE};

fn day_with_max(year: i32, ordinal: u32, degrees: i32) -> Day {
    let mut day = Day::new(Date::from_yo_opt(year, ordinal).unwrap());
    day.max_temperature = Some(TemperatureExtremity::new(
        Temperature::from_fahrenheit(degrees * ONE),
        DeterminedVia::ExplicitReading,
    ));
    day
}

fn max_of(day: &Day) -> Option<i32> {
    day.max_temperature().map(|t| t.in_fahrenheit())
}

fn block_max(values: &[i32]) -> i32 {
    values.iter().fold(i32::MIN, |max, val| max.max(*val))
}

fn sparse_year() -> Series {
    let days = vec![day_with_max(2023, 1, 50), day_with_max(2023, 3, 40)];
    Series::for_each_day(Year::from_ordinal(2023), &days, max_of)
}

#[test]
fn sparse_year_is_filled_forward() {
    let series = sparse_year();
    let values = series.values();
    assert_eq!(values.len(), 365);
    assert_eq!(values[0], 50 * ONE);
    assert_eq!(values[1], 50 * ONE);
    assert_eq!(values[2], 40 * ONE);
    for i in 3..365 {
        assert_eq!(values[i], 40 * ONE);
    }
    assert_eq!(series.range().min(), 40 * ONE);
    assert_eq!(series.range().max(), 50 * ONE);
    assert_eq!(series.max_index(), 0);
    assert_eq!(series.min_index(), 2);
}

#[test]
fn downsample_by_two_takes_block_maxima() {
    let series = sparse_year().downsample_by(2, block_max);
    let values = series.values();
    assert_eq!(values.len(), 182);
    assert_eq!(values[0], 50 * ONE);
    for i in 1..182 {
        assert_eq!(values[i], 40 * ONE);
    }
    assert_eq!(series.min_index(), 1);
    assert_eq!(series.max_index(), 0);
    assert_eq!(series.range().min(), 40 * ONE);
    assert_eq!(series.range().max(), 50 * ONE);
}

#[test]
fn scale_of_forty_to_fifty_steps_by_three() {
    let range = Range::new(40 * ONE, 50 * ONE);
    let scale = Scale::from_range(&range, 5).unwrap();
    assert_eq!(scale.step(), 3 * ONE as i64);
    assert_eq!(scale.resolution(), ONE as i64);
    assert_eq!(
        scale.steps(),
        &[42 * ONE as i64, 45 * ONE as i64, 48 * ONE as i64]
    );
    assert_eq!(scale.label_for(0), "42");
    assert_eq!(scale.label_for(2), "48");
}
