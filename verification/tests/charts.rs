use weather_banner::caption::shorten_station_name;
use weather_banner::chart::{
    layout, precipitation_series, render_precipitation, render_temperature, render_wind,
    temperature_series, wind_series,
};
use weather_banner::gsod::{
    Day, DeterminedVia, MeanTemperature, MeanWindSpeed, Precipitation, Temperature,
    TemperatureExtremity, WindSpeed,
};
use weather_banner::render::{
    render_months, render_radial_range, render_radial_series, render_radial_spokes,
    render_scales, MonthWedge, PathOp, PolarPoint,
};
use weather_banner::time::{Date, Year};
use weather_banner::{ChartError, Color, Direction, Options, Range, Scale, ScaleError, Series, ONE};

fn at(radius: i128, slot: isize) -> PolarPoint {
    PolarPoint { radius, slot }
}

fn three() -> Series {
    Series::from_iterator(vec![Some(10), Some(20), Some(30)])
}

fn day(ordinal: u32, min: i32, max: i32, mean: i32, wind: i32, gust: i32, rain: Option<i32>) -> Day {
    let mut day = Day::new(Date::from_yo_opt(2023, ordinal).unwrap());
    day.min_temperature = Some(TemperatureExtremity::new(
        Temperature::from_fahrenheit(min),
        DeterminedVia::ExplicitReading,
    ));
    day.max_temperature = Some(TemperatureExtremity::new(
        Temperature::from_fahrenheit(max),
        DeterminedVia::DerivedFromHourly,
    ));
    day.mean_temperature = Some(MeanTemperature::new(Temperature::from_fahrenheit(mean), 24));
    day.mean_wind = Some(MeanWindSpeed::new(WindSpeed::from_knots(wind), 24));
    day.max_sustained_wind = Some(WindSpeed::from_knots(gust));
    day.precipitation = rain.map(|p| Precipitation { p, attr: None });
    day
}

fn days() -> Vec<Day> {
    vec![
        day(1, 54_000, 72_000, 61_400, 6_400, 15_900, Some(130)),
        day(2, 40_100, 60_200, 50_000, 3_000, 9_900, None),
        day(4, 30_000, 45_000, 38_600, 10_000, 30_000, Some(1_250)),
    ]
}

#[test]
fn curve_runs_once_around_the_circle() {
    let path = render_radial_series(&three(), &Range::new(100, 200), false);
    assert_eq!(
        path,
        vec![
            PathOp::MoveTo(at(100, 0)),
            PathOp::LineTo(at(150, 1)),
            PathOp::LineTo(at(200, 2)),
            PathOp::LineTo(at(100, 3)),
        ]
    );
    let path = render_radial_series(&three(), &Range::new(100, 200), true);
    assert_eq!(
        path,
        vec![
            PathOp::MoveTo(at(100, 0)),
            PathOp::CurveTo { from: at(100, 0), to: at(150, 1), clockwise: true },
            PathOp::CurveTo { from: at(150, 1), to: at(200, 2), clockwise: true },
            PathOp::CurveTo { from: at(200, 2), to: at(100, 3), clockwise: true },
        ]
    );
}

#[test]
fn band_runs_around_and_back() {
    let low = three().with_range(&Range::new(10, 50));
    let high = Series::from_iterator(vec![Some(30), Some(40), Some(50)]).with_range(&Range::new(10, 50));
    let path = render_radial_range(&low, &high, &Range::new(0, 400), false);
    assert_eq!(
        path,
        vec![
            PathOp::MoveTo(at(200, 0)),
            PathOp::LineTo(at(300, 1)),
            PathOp::LineTo(at(400, 2)),
            PathOp::LineTo(at(200, 3)),
            PathOp::MoveTo(at(200, 2)),
            PathOp::LineTo(at(100, 1)),
            PathOp::LineTo(at(0, 0)),
            PathOp::LineTo(at(200, -1)),
        ]
    );
    let smooth = render_radial_range(&low, &high, &Range::new(0, 400), true);
    assert_eq!(smooth.len(), 8);
    assert_eq!(smooth[5], PathOp::CurveTo { from: at(200, 2), to: at(100, 1), clockwise: false });
    assert_eq!(smooth[7], PathOp::CurveTo { from: at(0, 0), to: at(200, -1), clockwise: false });
}

#[test]
fn spokes_start_at_the_inner_radius() {
    let path = render_radial_spokes(&three(), &Range::new(100, 200));
    assert_eq!(
        path,
        vec![
            PathOp::MoveTo(at(100, 0)),
            PathOp::LineTo(at(100, 0)),
            PathOp::MoveTo(at(100, 1)),
            PathOp::LineTo(at(150, 1)),
            PathOp::MoveTo(at(100, 2)),
            PathOp::LineTo(at(200, 2)),
        ]
    );
}

#[test]
fn months_cover_the_year() {
    let wedges = render_months(Year::from_ordinal(2023));
    assert_eq!(wedges.len(), 12);
    assert_eq!(wedges[0], MonthWedge { month: 1, start: 0, end: 31 });
    assert_eq!(wedges[1], MonthWedge { month: 2, start: 31, end: 59 });
    assert_eq!(wedges[11], MonthWedge { month: 12, start: 334, end: 365 });
    for pair in wedges.windows(2) {
        assert_eq!(pair[0].end, pair[1].start);
        assert_eq!(pair[0].month + 1, pair[1].month);
    }
    let leap = render_months(Year::from_ordinal(2024));
    assert_eq!(leap[1], MonthWedge { month: 2, start: 31, end: 60 });
    assert_eq!(leap[11].end, 366);
    let late = render_months(Year::from_start(Date::from_ymd_opt(2024, 2, 15).unwrap()));
    assert_eq!(late.len(), 11);
    assert_eq!(late[0], MonthWedge { month: 2, start: 0, end: 15 });
    assert_eq!(late[1], MonthWedge { month: 3, start: 15, end: 46 });
}

#[test]
fn rings_lie_where_their_values_would() {
    let range = Range::new(40 * ONE, 50 * ONE);
    let scale = Scale::from_range(&range, 5).unwrap();
    let rings = render_scales(&scale, &range, &Range::new(100, 200), "°F");
    let seen: Vec<(i128, &str)> = rings.iter().map(|r| (r.radius, r.label.as_str())).collect();
    assert_eq!(seen, vec![(120, "42°F"), (150, "45°F"), (180, "48°F")]);
    let narrow = Range::new(0, 5);
    let scale = Scale::from_range(&narrow, 5).unwrap();
    let rings = render_scales(&scale, &narrow, &Range::new(0, 1000), " in");
    let seen: Vec<(i128, &str)> = rings.iter().map(|r| (r.radius, r.label.as_str())).collect();
    assert_eq!(seen, vec![(400, "0.002 in"), (800, "0.004 in")]);
}

#[test]
fn temperature_series_share_one_range() {
    let ts = temperature_series(Year::from_ordinal(2023), &days());
    assert_eq!(ts.min().values().len(), 365);
    assert_eq!(&ts.min().values()[..5], &[54_000, 40_100, 40_100, 30_000, 30_000]);
    assert_eq!(&ts.max().values()[..5], &[72_000, 60_200, 60_200, 45_000, 45_000]);
    assert_eq!(&ts.mean().values()[..5], &[61_400, 50_000, 50_000, 38_600, 38_600]);
    for series in [ts.min(), ts.max(), ts.mean()] {
        assert_eq!((series.range().min(), series.range().max()), (30_000, 72_000));
    }
    assert_eq!(ts.min().min_index(), 3);
    assert_eq!(ts.max().max_index(), 0);
}

#[test]
fn temperature_chart_is_thinned_after_its_scale() {
    let year = Year::from_ordinal(2023);
    let opts = Options { debug: false, downsample_by: 2, smooth: true };
    let chart = render_temperature(year, temperature_series(year, &days()), &Range::new(96_000, 144_000), &opts)
        .unwrap();
    assert_eq!(chart.slots, 182);
    assert_eq!(chart.months.len(), 12);
    assert_eq!(chart.band.len(), 2 * 182 + 2);
    assert_eq!(chart.curve.len(), 182 + 1);
    let labels: Vec<&str> = chart.rings.iter().map(|r| r.label.as_str()).collect();
    assert_eq!(labels, vec!["40°F", "50°F", "60°F", "70°F"]);
    let radii: Vec<i128> = chart.rings.iter().map(|r| r.radius).collect();
    assert_eq!(radii, vec![107_428, 118_857, 130_285, 141_714]);
    assert_eq!(
        chart.summary,
        vec![
            ("MAX".to_string(), "72.0°F".to_string()),
            ("AVG".to_string(), "38.7°F".to_string()),
            ("MIN".to_string(), "30.0°F".to_string()),
        ]
    );
    assert_eq!(chart.band[0], PathOp::MoveTo(at(144_000, 0)));
    assert_eq!(
        chart.band[1],
        PathOp::CurveTo { from: at(144_000, 0), to: at(130_514, 1), clockwise: true }
    );
    assert_eq!(chart.curve[0], PathOp::MoveTo(at(125_371, 0)));
}

#[test]
fn every_day_is_drawn_without_thinning() {
    let year = Year::from_ordinal(2023);
    for factor in [0, 1] {
        let opts = Options { debug: true, downsample_by: factor, smooth: false };
        let chart =
            render_temperature(year, temperature_series(year, &days()), &Range::new(0, 1000), &opts).unwrap();
        assert_eq!(chart.slots, 365);
        assert_eq!(chart.curve.len(), 366);
    }
}

#[test]
fn chart_without_data_has_no_scale() {
    let year = Year::from_ordinal(2023);
    let opts = Options { debug: false, downsample_by: 2, smooth: true };
    let none: Vec<Day> = Vec::new();
    assert_eq!(
        render_temperature(year, temperature_series(year, &none), &Range::new(0, 1000), &opts).err(),
        Some(ChartError::Scale(ScaleError::EmptyRange))
    );
    assert_eq!(
        render_wind(year, wind_series(year, &none), &Range::new(0, 1000), &opts).err(),
        Some(ChartError::Scale(ScaleError::EmptyRange))
    );
    assert_eq!(
        render_precipitation(year, &precipitation_series(year, &none), &Range::new(0, 1000)).err(),
        Some(ChartError::Scale(ScaleError::EmptyRange))
    );
}

#[test]
fn chart_thinned_to_nothing_has_no_samples() {
    let year = Year::from_ordinal(2023);
    let opts = Options { debug: false, downsample_by: 366, smooth: true };
    assert_eq!(
        render_temperature(year, temperature_series(year, &days()), &Range::new(0, 1000), &opts).err(),
        Some(ChartError::NoSamples)
    );
    assert_eq!(
        render_wind(year, wind_series(year, &days()), &Range::new(0, 1000), &opts).err(),
        Some(ChartError::NoSamples)
    );
    let opts = Options { debug: false, downsample_by: 365, smooth: true };
    let chart = render_wind(year, wind_series(year, &days()), &Range::new(0, 1000), &opts).unwrap();
    assert_eq!(chart.slots, 1);
}

#[test]
fn wind_chart_has_a_band_only() {
    let year = Year::from_ordinal(2023);
    let ws = wind_series(year, &days());
    assert_eq!((ws.mean().range().min(), ws.mean().range().max()), (3_000, 30_000));
    assert_eq!((ws.max().range().min(), ws.max().range().max()), (3_000, 30_000));
    let opts = Options { debug: false, downsample_by: 5, smooth: false };
    let chart = render_wind(year, ws, &Range::new(0, 27_000), &opts).unwrap();
    assert_eq!(chart.slots, 73);
    assert_eq!(chart.band.len(), 2 * 73 + 2);
    assert!(chart.curve.is_empty());
    let labels: Vec<&str> = chart.rings.iter().map(|r| r.label.as_str()).collect();
    assert_eq!(labels, vec!["10 kts", "20 kts"]);
    assert_eq!(
        chart.summary,
        vec![
            ("MAX".to_string(), "30.0 kts".to_string()),
            ("AVG".to_string(), "10.0 kts".to_string()),
        ]
    );
    assert_eq!(chart.band[0], PathOp::MoveTo(at(27_000, 0)));
    assert_eq!(chart.band[1], PathOp::LineTo(at(27_000, 1)));
    assert_eq!(chart.band[74], PathOp::MoveTo(at(7_000, 72)));
    assert_eq!(chart.band[146], PathOp::LineTo(at(3_480, 0)));
    assert_eq!(chart.band[147], PathOp::LineTo(at(7_000, -1)));
}

#[test]
fn precipitation_chart_has_a_spoke_for_every_day() {
    let year = Year::from_ordinal(2023);
    let series = precipitation_series(year, &days());
    assert_eq!(&series.values()[..5], &[130, 0, 0, 1_250, 1_250]);
    assert_eq!((series.range().min(), series.range().max()), (0, 1_250));
    let chart = render_precipitation(year, &series, &Range::new(100, 225)).unwrap();
    assert_eq!(chart.slots, 365);
    assert!(chart.band.is_empty());
    assert_eq!(chart.curve.len(), 730);
    assert_eq!(chart.curve[0], PathOp::MoveTo(at(100, 0)));
    assert_eq!(chart.curve[1], PathOp::LineTo(at(113, 0)));
    assert_eq!(chart.curve[7], PathOp::LineTo(at(225, 3)));
    let labels: Vec<&str> = chart.rings.iter().map(|r| r.label.as_str()).collect();
    assert_eq!(labels, vec!["0.5 in", "1.0 in"]);
    assert_eq!(
        chart.summary,
        vec![
            ("DAYS".to_string(), "363".to_string()),
            ("TOTAL".to_string(), "452.6 in".to_string()),
        ]
    );
}

#[test]
fn charts_lie_side_by_side() {
    let l = layout(1_600_000, 600_000, 100_000);
    assert_eq!(l.left, (266_666, 350_000));
    assert_eq!(l.center, (800_000, 350_000));
    assert_eq!(l.right, (1_333_333, 350_000));
    assert_eq!((l.rrange.min(), l.rrange.max()), (150_000, 225_000));
    assert_eq!((l.months.min(), l.months.max()), (110_000, 145_000));
    assert_eq!(l.title_rise, 235_000);
    let narrow = layout(600_000, 1_000_000, 0);
    assert_eq!((narrow.rrange.min(), narrow.rrange.max()), (60_000, 90_000));
}

#[test]
fn colors_come_from_their_bytes() {
    assert_eq!(Color::from_rgb(1, 2, 3).components(), (1, 2, 3, 255));
    assert_eq!(Color::from_u32(0x3b3938).components(), (0x3b, 0x39, 0x38, 255));
    assert_eq!(Color::from_u32(0xff6eb078).components(), (0x6e, 0xb0, 0x78, 255));
    assert!(Color::from_u32(0x3b3938).is_opaque());
    assert_eq!(Color::from_u32_with_alpha(0xffffff, 200).components(), (255, 255, 255, 51));
    assert_eq!(Color::from_u32_with_alpha(0xffffff, 900).components().3, 229);
    assert_eq!(Color::from_u32_with_alpha(0xffffff, 1_000).components().3, 255);
    assert_eq!(Color::from_u32_with_alpha(0xffffff, 5_000).components().3, 255);
    assert_eq!(Color::from_u32_with_alpha(0xffffff, -5).components().3, 0);
    assert!(!Color::from_u32_with_alpha(0xffffff, 100).is_opaque());
    assert!(Color::from_u32_with_alpha(0xffffff, 1_000).is_opaque());
    assert!(matches!(Direction::Left, Direction::Left));
}

#[test]
fn long_word_in_station_names_is_shortened() {
    assert_eq!(shorten_station_name("RALEIGH INTERNATIONAL AIRPORT"), "RALEIGH INTL AIRPORT");
    assert_eq!(shorten_station_name("INTERNATIONALINTERNATIONAL"), "INTLINTL");
    assert_eq!(shorten_station_name("International"), "International");
    assert_eq!(shorten_station_name(""), "");
}
