use weather_banner::gsod::{
    url_for, Day, DeterminedVia, Distance, DmsError, Elevation, GsodError, Location,
    MeanDistance, MeanPressure, MeanTemperature, MeanWindSpeed, Precipitation, PrecipitationAttr,
    Pressure, SnowDepth, Station, Temperature, TemperatureExtremity, WindSpeed,
};
use weather_banner::station::describe_station_details;
use weather_banner::time::Date;

fn record(fields: &[&str]) -> Vec<String> {
    fields.iter().map(|f| f.to_string()).collect()
}

fn sample() -> Vec<String> {
    record(&[
        "72306013722",
        "2023-01-02",
        "35.892222",
        "-78.781944",
        "126.88",
        "RALEIGH AIRPORT, NC US",
        "  61.4",
        "24",
        "  56.3",
        "24",
        "1012.3",
        "24",
        " 996.7",
        "24",
        "  8.9",
        "24",
        "  6.4",
        "24",
        " 15.9",
        " 24.1",
        "  72.0",
        "*",
        "  54.0",
        " ",
        " 0.13",
        "G",
        "999.9",
        "010000",
    ])
}

#[test]
fn archive_address_holds_the_year() {
    assert_eq!(
        url_for(2023),
        "https://www.ncei.noaa.gov/data/global-summary-of-the-day/archive/2023.tar.gz"
    );
    assert_eq!(
        url_for(-5),
        "https://www.ncei.noaa.gov/data/global-summary-of-the-day/archive/-5.tar.gz"
    );
}

#[test]
fn precipitation_attr_is_a_letter() {
    assert_eq!(PrecipitationAttr::from_gsod(""), Ok(None));
    assert_eq!(PrecipitationAttr::from_gsod("   "), Ok(None));
    assert_eq!(PrecipitationAttr::from_gsod("A"), Ok(Some(PrecipitationAttr::SingleOf6HourAmount)));
    assert_eq!(
        PrecipitationAttr::from_gsod(" G "),
        Ok(Some(PrecipitationAttr::SingleReportOf24HourAmount))
    );
    assert_eq!(PrecipitationAttr::from_gsod("I"), Ok(Some(PrecipitationAttr::NoReport)));
    assert_eq!(
        PrecipitationAttr::from_gsod(" J "),
        Err(GsodError::InvalidPrecipitationAttr("J".to_string()))
    );
    assert_eq!(
        PrecipitationAttr::from_gsod("AB"),
        Err(GsodError::InvalidPrecipitationAttr("AB".to_string()))
    );
    assert_eq!(
        PrecipitationAttr::from_gsod("a"),
        Err(GsodError::InvalidPrecipitationAttr("a".to_string()))
    );
    let all = [
        PrecipitationAttr::SingleOf6HourAmount,
        PrecipitationAttr::SummationOf2ReportsOf6HourAmount,
        PrecipitationAttr::SummationOf3ReportsOf6HourAmount,
        PrecipitationAttr::SummationOf4ReportsOf6HourAmount,
        PrecipitationAttr::SingleReportOf12HourAmount,
        PrecipitationAttr::SummationOf2ReportsOf12HourAmount,
        PrecipitationAttr::SingleReportOf24HourAmount,
        PrecipitationAttr::ZeroDespiteHourlyObservations,
        PrecipitationAttr::NoReport,
    ];
    let letters: String = all.iter().map(|a| a.to_char()).collect();
    assert_eq!(letters, "ABCDEFGHI");
    for attr in all {
        assert_eq!(PrecipitationAttr::from_gsod(&attr.to_char().to_string()), Ok(Some(attr)));
    }
}

#[test]
fn determined_via_is_an_asterisk_or_nothing() {
    assert_eq!(DeterminedVia::from_gsod(""), Ok(DeterminedVia::ExplicitReading));
    assert_eq!(DeterminedVia::from_gsod("  "), Ok(DeterminedVia::ExplicitReading));
    assert_eq!(DeterminedVia::from_gsod("*"), Ok(DeterminedVia::DerivedFromHourly));
    assert_eq!(DeterminedVia::from_gsod(" * "), Ok(DeterminedVia::DerivedFromHourly));
    assert_eq!(
        DeterminedVia::from_gsod(" x "),
        Err(GsodError::InvalidDeterminedVia(" x ".to_string()))
    );
    assert_eq!(
        DeterminedVia::from_gsod("**"),
        Err(GsodError::InvalidDeterminedVia("**".to_string()))
    );
    assert_eq!(DeterminedVia::ExplicitReading.to_str(), "");
    assert_eq!(DeterminedVia::DerivedFromHourly.to_str(), "*");
}

#[test]
fn white_space_around_a_field_is_left_aside() {
    assert_eq!(Temperature::from_gsod("\t 61.4\u{a0}\n").unwrap().unwrap().in_fahrenheit(), 61_400);
    assert_eq!(Temperature::from_gsod("\u{2003}9999.9 ").unwrap().map(|t| t.in_fahrenheit()), None);
    assert_eq!(
        Temperature::from_gsod("61 .4").err(),
        Some(GsodError::InvalidNumber("61 .4".to_string()))
    );
    assert_eq!(
        Temperature::from_gsod("_61.4_").err(),
        Some(GsodError::InvalidNumber("_61.4_".to_string()))
    );
}

#[test]
fn quantities_are_read_in_thousandths() {
    assert_eq!(Temperature::from_gsod("  61.4").unwrap().unwrap().in_fahrenheit(), 61_400);
    assert_eq!(Temperature::from_gsod(" -12.4").unwrap().unwrap().in_fahrenheit(), -12_400);
    assert!(Temperature::from_gsod("9999.9").unwrap().is_none());
    assert!(Pressure::from_gsod("9999.9").unwrap().is_none());
    assert_eq!(Pressure::from_gsod("1012.3").unwrap().unwrap().in_millibars(), 1_012_300);
    assert!(Distance::from_gsod("999.9").unwrap().is_none());
    assert_eq!(Distance::from_gsod("  8.9").unwrap().unwrap().in_miles(), 8_900);
    assert!(WindSpeed::from_gsod("999.9").unwrap().is_none());
    assert_eq!(WindSpeed::from_gsod(" 15.9").unwrap().unwrap().in_knots(), 15_900);
    assert!(SnowDepth::from_gsod("999.9").unwrap().is_none());
    assert_eq!(SnowDepth::from_gsod("  1.2").unwrap().unwrap().in_inches(), 1_200);
    assert!(Elevation::from_gsod("").unwrap().is_none());
    assert!(Elevation::from_gsod("  ").unwrap().is_none());
    assert_eq!(Elevation::from_gsod("126.88").unwrap().unwrap().in_meters(), 126_880);
    assert_eq!(
        Temperature::from_gsod("warm").err(),
        Some(GsodError::InvalidNumber("warm".to_string()))
    );
    assert_eq!(
        Temperature::from_gsod("").err(),
        Some(GsodError::InvalidNumber(String::new()))
    );
    assert_eq!(
        Temperature::from_gsod("3000000.0").err(),
        Some(GsodError::InvalidNumber("3000000.0".to_string()))
    );
    assert_eq!(Temperature::from_gsod("2147483.647").unwrap().unwrap().in_fahrenheit(), i32::MAX);
}

#[test]
fn means_hold_the_number_of_observations() {
    let mean = MeanTemperature::from_gsod("  61.4", " 24").unwrap().unwrap();
    assert_eq!(mean.in_fahrenheit(), 61_400);
    assert_eq!(mean.samples(), 24);
    assert_eq!(mean.temperature().in_fahrenheit(), 61_400);
    assert!(MeanTemperature::from_gsod("9999.9", "nothing").unwrap().is_none());
    assert_eq!(
        MeanTemperature::from_gsod("  61.4", " many ").err(),
        Some(GsodError::InvalidNumber("many".to_string()))
    );
    assert_eq!(MeanWindSpeed::from_gsod("  6.4", "24").unwrap().unwrap().in_knots(), 6_400);
    assert!(MeanWindSpeed::from_gsod("999.9", "0").unwrap().is_none());
    assert_eq!(MeanPressure::from_gsod("1012.3", "24").unwrap().unwrap().p.in_millibars(), 1_012_300);
    assert_eq!(MeanDistance::from_gsod("  8.9", "24").unwrap().unwrap().d.in_miles(), 8_900);
    assert_eq!(MeanDistance::from_gsod("  8.9", "24").unwrap().unwrap().n, 24);
}

#[test]
fn extremes_hold_how_they_were_determined() {
    let max = TemperatureExtremity::from_gsod("  72.0", "*").unwrap().unwrap();
    assert_eq!(max.in_fahrenheit(), 72_000);
    assert_eq!(max.d, DeterminedVia::DerivedFromHourly);
    let min = TemperatureExtremity::from_gsod("  54.0", " ").unwrap().unwrap();
    assert_eq!(min.d, DeterminedVia::ExplicitReading);
    assert_eq!(min.temperature().in_fahrenheit(), 54_000);
    assert!(TemperatureExtremity::from_gsod("9999.9", "?").unwrap().is_none());
    assert_eq!(
        TemperatureExtremity::from_gsod("  54.0", "?").err(),
        Some(GsodError::InvalidDeterminedVia("?".to_string()))
    );
}

#[test]
fn precipitation_holds_its_attribute() {
    let p = Precipitation::from_gsod(" 0.13", "G").unwrap().unwrap();
    assert_eq!(p.in_inches(), 130);
    assert_eq!(p.attr(), Some(PrecipitationAttr::SingleReportOf24HourAmount));
    let p = Precipitation::from_gsod(" 0.00", "").unwrap().unwrap();
    assert_eq!(p.in_inches(), 0);
    assert_eq!(p.attr(), None);
    assert!(Precipitation::from_gsod("99.99", "Z").unwrap().is_none());
    assert_eq!(
        Precipitation::from_gsod(" 0.13", "Z").err(),
        Some(GsodError::InvalidPrecipitationAttr("Z".to_string()))
    );
}

#[test]
fn fahrenheit_becomes_celsius() {
    assert_eq!(Temperature::from_fahrenheit(32_000).in_celsius(), 0);
    assert_eq!(Temperature::from_fahrenheit(212_000).in_celsius(), 100_000);
    assert_eq!(Temperature::from_fahrenheit(-40_000).in_celsius(), -40_000);
    assert_eq!(Temperature::from_fahrenheit(61_400).in_celsius(), 16_333);
    assert_eq!(Temperature::from_fahrenheit(0).in_celsius(), -17_778);
    assert_eq!(Temperature::from_fahrenheit(33_000).in_celsius(), 556);
    let t = TemperatureExtremity::new(Temperature::from_fahrenheit(50_000), DeterminedVia::ExplicitReading);
    assert_eq!(t.in_celsius(), 10_000);
    assert_eq!(MeanTemperature::new(Temperature::from_fahrenheit(50_000), 3).in_celsius(), 10_000);
}

#[test]
fn record_becomes_the_summary_of_a_day() {
    let day = Day::from_record(&sample()).unwrap();
    assert_eq!(day.date(), Date::from_ymd_opt(2023, 1, 2).unwrap());
    assert_eq!(day.mean_temperature().unwrap().in_fahrenheit(), 61_400);
    assert_eq!(day.mean_temperature().unwrap().samples(), 24);
    assert_eq!(day.mean_dewpoint.unwrap().in_fahrenheit(), 56_300);
    assert_eq!(day.mean_sea_level_pressure.unwrap().p.in_millibars(), 1_012_300);
    assert_eq!(day.mean_station_pressure.unwrap().p.in_millibars(), 996_700);
    assert_eq!(day.mean_visibility.unwrap().d.in_miles(), 8_900);
    assert_eq!(day.mean_wind().unwrap().in_knots(), 6_400);
    assert_eq!(day.max_sustained_wind().unwrap().in_knots(), 15_900);
    assert_eq!(day.max_wind_gust.unwrap().in_knots(), 24_100);
    assert_eq!(day.max_temperature().unwrap().in_fahrenheit(), 72_000);
    assert_eq!(day.max_temperature().unwrap().d, DeterminedVia::DerivedFromHourly);
    assert_eq!(day.min_temperature().unwrap().in_fahrenheit(), 54_000);
    assert_eq!(day.precipitation().unwrap().in_inches(), 130);
    assert!(day.snow_depth.is_none());
}

#[test]
fn fields_after_the_date_are_read_for_a_given_day() {
    let when = Date::from_ymd_opt(1999, 12, 31).unwrap();
    let day = Day::from_fields(when, &sample()).unwrap();
    assert_eq!(day.date(), when);
    assert_eq!(day.max_temperature().unwrap().in_fahrenheit(), 72_000);
    let mut rec = sample();
    rec[20] = "9999.9".to_string();
    rec[17] = "x".to_string();
    assert_eq!(
        Day::from_fields(when, &rec).err(),
        Some(GsodError::InvalidNumber("x".to_string()))
    );
    rec[17] = "24".to_string();
    let day = Day::from_fields(when, &rec).unwrap();
    assert!(day.max_temperature().is_none());
}

#[test]
fn first_unreadable_field_is_reported() {
    let mut rec = sample();
    rec[1] = "2023-02-30".to_string();
    rec[6] = "warm".to_string();
    assert_eq!(
        Day::from_record(&rec).err(),
        Some(GsodError::InvalidDate("2023-02-30".to_string()))
    );
    rec[1] = "2023-02-28".to_string();
    rec[25] = "Z".to_string();
    assert_eq!(
        Day::from_record(&rec).err(),
        Some(GsodError::InvalidNumber("warm".to_string()))
    );
    rec[6] = "61.4".to_string();
    assert_eq!(
        Day::from_record(&rec).err(),
        Some(GsodError::InvalidPrecipitationAttr("Z".to_string()))
    );
}

#[test]
fn short_record_misses_a_field() {
    assert_eq!(Day::from_record(&record(&["id"])).err(), Some(GsodError::MissingField(1)));
    assert_eq!(
        Day::from_record(&record(&["id", "2023-01-01"])).err(),
        Some(GsodError::MissingField(6))
    );
    let mut rec = sample();
    rec.truncate(26);
    assert_eq!(Day::from_record(&rec).err(), Some(GsodError::MissingField(26)));
    rec.truncate(7);
    assert_eq!(Day::from_record(&rec).err(), Some(GsodError::MissingField(7)));
    let mut rec = sample();
    rec.truncate(27);
    assert!(Day::from_record(&rec).is_ok());
}

#[test]
fn records_become_a_station() {
    let mut second = sample();
    second[1] = "2023-01-03".to_string();
    second[0] = "ignored".to_string();
    second[20] = "9999.9".to_string();
    let station = Station::from_records(&[sample(), second]).unwrap();
    assert_eq!(station.id(), "72306013722");
    assert_eq!(station.name(), Some("RALEIGH AIRPORT, NC US"));
    assert_eq!(station.location(), Some(&Location::new(35_892_222, -78_781_944)));
    assert_eq!(station.elevation().unwrap().in_meters(), 126_880);
    assert_eq!(station.days().len(), 2);
    assert_eq!(station.days()[0].date(), Date::from_ymd_opt(2023, 1, 2).unwrap());
    assert_eq!(station.days()[1].date(), Date::from_ymd_opt(2023, 1, 3).unwrap());
    assert!(station.days()[1].max_temperature().is_none());
}

#[test]
fn station_without_name_or_place() {
    let mut rec = sample();
    rec[2] = String::new();
    rec[4] = " ".to_string();
    rec[5] = String::new();
    let station = Station::from_records(&[rec]).unwrap();
    assert_eq!(station.name(), None);
    assert_eq!(station.location(), None);
    assert!(station.elevation().is_none());
    assert_eq!(describe_station_details(&station), "72306013722");
}

#[test]
fn no_record_is_no_station() {
    assert_eq!(Station::from_records(&[]).err(), Some(GsodError::EmptyEntry));
    let mut bad = sample();
    bad[3] = "west".to_string();
    assert_eq!(
        Station::from_records(&[bad]).err(),
        Some(GsodError::InvalidNumber("west".to_string()))
    );
    let mut late = sample();
    late[1] = "today".to_string();
    assert_eq!(
        Station::from_records(&[sample(), late, record(&[])]).err(),
        Some(GsodError::InvalidDate("today".to_string()))
    );
    assert_eq!(
        Station::from_records(&[record(&[])]).err(),
        Some(GsodError::MissingField(0))
    );
    assert_eq!(
        Station::from_records(&[record(&["id", "2023-01-01", "1", "2", "5"])]).err(),
        Some(GsodError::MissingField(5))
    );
}

#[test]
fn errors_say_what_went_wrong() {
    assert_eq!(GsodError::MissingField(7).message(), "missing field 7");
    assert_eq!(GsodError::InvalidNumber("x".to_string()).message(), "invalid number: x");
    assert_eq!(GsodError::InvalidDate("x".to_string()).message(), "invalid date: x");
    assert_eq!(
        GsodError::InvalidPrecipitationAttr("J".to_string()).message(),
        "invalid precipitation attr: J"
    );
    assert_eq!(
        GsodError::InvalidDeterminedVia(" x".to_string()).message(),
        "invalid DeterminedVia:  x"
    );
    assert_eq!(GsodError::EmptyEntry.message(), "empty entry");
}

#[test]
fn location_is_written_in_degrees_minutes_and_seconds() {
    assert_eq!(Location::new(35_892_222, -78_781_944).to_string(), "35°53′32″N 078°46′55″W");
    assert_eq!(Location::new(0, 0).to_string(), "00°00′00″N 000°00′00″E");
    assert_eq!(Location::new(-1_500_000, 1_500_000).to_string(), "01°30′00″S 001°30′00″E");
    assert_eq!(Location::new(9_999_999, 179_999_999).to_string(), "10°00′00″N 180°00′00″E");
    assert_eq!(Location::new(9_999_861, 0).to_string(), "09°59′59″N 000°00′00″E");
    assert_eq!(Location::new(9_999_862, 0).to_string(), "10°00′00″N 000°00′00″E");
    assert_eq!(Location::new(-33_016_389, 0).to_string(), "33°00′59″S 000°00′00″E");
    assert_eq!(Location::new(1234_000_000, 0).to_string(), "1234°00′00″N 000°00′00″E");
    let there = Location::new(35_892_222, -78_781_944);
    assert_eq!(there.lat(), 35_892_222);
    assert_eq!(there.lng(), -78_781_944);
}

#[test]
fn location_is_read_from_degrees_minutes_and_seconds() {
    assert_eq!(Location::parse("35°53′32″N 078°46′55″W"), Ok(Location::new(35_892_222, -78_781_944)));
    assert_eq!(Location::parse("35°53'32\"n 078°46'55\"e"), Ok(Location::new(35_892_222, 78_781_944)));
    assert_eq!(Location::parse("at 01°30′00″S 001°30′00″E or so"), Ok(Location::new(-1_500_000, 1_500_000)));
    assert_eq!("00°00′01″N 000°00′02″W".parse::<Location>(), Ok(Location::new(278, -556)));
    assert_eq!(Location::parse("35°53′32″N"), Err(DmsError::NoMatch));
    assert_eq!(Location::parse("35°53′32″E 078°46′55″W"), Err(DmsError::NoMatch));
    assert_eq!(Location::parse(""), Err(DmsError::NoMatch));
    assert_eq!(
        Location::parse("99999999999°53′32″N 078°46′55″W"),
        Err(DmsError::Number("99999999999".to_string()))
    );
    assert_eq!(
        Location::parse("35°53′32″N 078°46′٣″W"),
        Err(DmsError::Number("٣".to_string()))
    );
    for there in [Location::new(35_892_222, -78_781_944), Location::new(-1_500_000, 1_500_000)] {
        let back = Location::parse(&there.to_string()).unwrap();
        assert!((back.lat() - there.lat()).abs() < 140);
        assert!((back.lng() - there.lng()).abs() < 140);
    }
}

#[test]
fn parts_of_two_angles_become_a_location() {
    let parts = |p: [&str; 8]| -> Vec<String> { p.iter().map(|s| s.to_string()).collect() };
    assert_eq!(
        Location::from_captures(&parts(["35", "53", "32", "N", "78", "46", "55", "W"])),
        Ok(Location::new(35_892_222, -78_781_944))
    );
    assert_eq!(
        Location::from_captures(&parts(["1", "0", "0", "s", "0", "1", "0", "e"])),
        Ok(Location::new(-1_000_000, 16_667))
    );
    assert_eq!(
        Location::from_captures(&parts(["1", "0", "0", "X", "0", "1", "0", "e"])),
        Err(DmsError::Latitude)
    );
    assert_eq!(
        Location::from_captures(&parts(["1", "0", "0", "N", "0", "1", "0", "N"])),
        Err(DmsError::Longitude)
    );
    assert_eq!(
        Location::from_captures(&parts(["1", "0", "", "X", "0", "1", "0", "?"])),
        Err(DmsError::Number(String::new()))
    );
    assert_eq!(
        Location::from_captures(&parts(["1", "0", "0", "N", "0", "1", "0", "E"])[..7]),
        Err(DmsError::MissingCapture)
    );
}

#[test]
fn groups_of_a_match_become_a_location() {
    let groups = |p: [Option<&str>; 9]| -> Vec<Option<String>> {
        p.iter().map(|s| s.map(|s| s.to_string())).collect()
    };
    let whole = Some("35°53′32″N 78°46′55″W");
    assert_eq!(
        Location::from_groups(&groups([
            whole,
            Some("35"),
            Some("53"),
            Some("32"),
            Some("N"),
            Some("78"),
            Some("46"),
            Some("55"),
            Some("W"),
        ])),
        Ok(Location::new(35_892_222, -78_781_944))
    );
    assert_eq!(
        Location::from_groups(&groups([
            None,
            Some("1"),
            Some("0"),
            Some("0"),
            Some("s"),
            Some("0"),
            Some("1"),
            Some("0"),
            Some("e"),
        ])),
        Ok(Location::new(-1_000_000, 16_667))
    );
    assert_eq!(
        Location::from_groups(&groups([
            whole,
            Some("1"),
            Some("0"),
            Some("0"),
            None,
            Some("0"),
            Some("1"),
            Some("0"),
            Some("e"),
        ])),
        Err(DmsError::MissingCapture)
    );
    assert_eq!(
        Location::from_groups(&groups([
            whole,
            Some("1"),
            Some("0"),
            Some("0"),
            Some("N"),
            Some("0"),
            Some("1"),
            Some("0"),
            Some("e"),
        ])[..8]),
        Err(DmsError::MissingCapture)
    );
    assert_eq!(
        Location::from_groups(&groups([
            whole,
            Some("1"),
            Some("99999999999"),
            Some("0"),
            Some("N"),
            Some("0"),
            Some("1"),
            Some("0"),
            Some("Q"),
        ])),
        Err(DmsError::Number("99999999999".to_string()))
    );
    assert_eq!(Location::from_groups(&[]), Err(DmsError::MissingCapture));
}

#[test]
fn pattern_of_two_angles_has_eight_groups() {
    let pattern = weather_banner::station::pattern();
    assert_eq!(pattern.matches('(').count(), 8);
    assert_eq!(pattern.matches(')').count(), 8);
    assert!(pattern.starts_with("(\\d+)°"));
    assert!(pattern.ends_with("([EWew])"));
}

#[test]
fn location_fields_are_decimal_degrees() {
    assert_eq!(
        Location::from_gsod("35.892222", "-78.781944"),
        Ok(Some(Location::new(35_892_222, -78_781_944)))
    );
    assert_eq!(Location::from_gsod("", "-78.781944"), Ok(None));
    assert_eq!(Location::from_gsod("35.892222", ""), Ok(None));
    assert_eq!(
        Location::from_gsod(" 35.9", "-78.8"),
        Err(GsodError::InvalidNumber(" 35.9".to_string()))
    );
    assert_eq!(
        Location::from_gsod("35.9", "west"),
        Err(GsodError::InvalidNumber("west".to_string()))
    );
}

#[test]
fn station_details_hold_identifier_and_place() {
    let station = Station::from_records(&[sample()]).unwrap();
    assert_eq!(describe_station_details(&station), "72306013722  35°53′32″N 078°46′55″W");
}
