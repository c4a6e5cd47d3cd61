use chrono::{Datelike, NaiveDate};
use weather_banner::caption::{describe_year, month_abbr};
use weather_banner::time::{Date, Day, Month, Year, MAX_YEAR, MIN_YEAR};

fn date(y: i32, m: u32, d: u32) -> Date {
    Date::from_ymd_opt(y, m, d).unwrap()
}

#[test]
fn dates_exist_only_on_the_calendar() {
    assert!(Date::from_ymd_opt(2015, 3, 14).is_some());
    assert!(Date::from_ymd_opt(2015, 0, 14).is_none());
    assert!(Date::from_ymd_opt(2015, 13, 1).is_none());
    assert!(Date::from_ymd_opt(2015, 2, 29).is_none());
    assert!(Date::from_ymd_opt(2016, 2, 29).is_some());
    assert!(Date::from_ymd_opt(1900, 2, 29).is_none());
    assert!(Date::from_ymd_opt(2000, 2, 29).is_some());
    assert!(Date::from_ymd_opt(-4, 2, 29).is_some());
    assert!(Date::from_ymd_opt(2023, 4, 31).is_none());
    assert!(Date::from_ymd_opt(MAX_YEAR, 12, 31).is_some());
    assert!(Date::from_ymd_opt(MAX_YEAR + 1, 1, 1).is_none());
    assert!(Date::from_ymd_opt(MIN_YEAR, 1, 1).is_some());
    assert!(Date::from_ymd_opt(MIN_YEAR - 1, 12, 31).is_none());
}

#[test]
fn day_of_year_gives_month_and_day() {
    let d = Date::from_yo_opt(2023, 60).unwrap();
    assert_eq!((d.year(), d.month(), d.day()), (2023, 3, 1));
    let d = Date::from_yo_opt(2024, 60).unwrap();
    assert_eq!((d.year(), d.month(), d.day()), (2024, 2, 29));
    assert!(Date::from_yo_opt(2023, 0).is_none());
    assert!(Date::from_yo_opt(2023, 366).is_none());
    assert!(Date::from_yo_opt(2024, 366).is_some());
    assert!(Date::from_yo_opt(2024, 367).is_none());
}

#[test]
fn ordinal_counts_leap_days() {
    assert_eq!(date(2023, 1, 1).ordinal(), 1);
    assert_eq!(date(2023, 3, 1).ordinal(), 60);
    assert_eq!(date(2024, 3, 1).ordinal(), 61);
    assert_eq!(date(2023, 12, 31).ordinal(), 365);
    assert_eq!(date(2024, 12, 31).ordinal(), 366);
    assert_eq!(Day::new(date(2024, 12, 31)).ordinal(), 366);
}

#[test]
fn next_and_previous_day_cross_months_and_years() {
    assert_eq!(date(2023, 1, 31).succ(), date(2023, 2, 1));
    assert_eq!(date(2023, 2, 28).succ(), date(2023, 3, 1));
    assert_eq!(date(2024, 2, 28).succ(), date(2024, 2, 29));
    assert_eq!(date(2023, 12, 31).succ(), date(2024, 1, 1));
    assert_eq!(date(2024, 1, 1).pred(), date(2023, 12, 31));
    assert_eq!(date(2024, 3, 1).pred(), date(2024, 2, 29));
    assert_eq!(Day::new(date(2023, 6, 30)).next().date(), date(2023, 7, 1));
    assert_eq!(Day::new(date(2023, 7, 1)).prev().date(), date(2023, 6, 30));
}

#[test]
fn days_since_counts_days() {
    assert_eq!(date(2014, 1, 1).days_since(&date(2014, 1, 1)), 0);
    assert_eq!(date(2014, 1, 1).days_since(&date(2013, 12, 31)), 1);
    assert_eq!(date(2014, 1, 1).days_since(&date(2014, 1, 2)), -1);
    assert_eq!(date(2014, 1, 1).days_since(&date(2013, 9, 23)), 100);
    assert_eq!(date(2014, 1, 1).days_since(&date(2010, 1, 1)), 365 * 4 + 1);
    assert_eq!(date(2014, 1, 1).days_since(&date(1614, 1, 1)), 365 * 400 + 97);
}

#[test]
fn dates_agree_with_chrono_over_many_years() {
    for year in [-401, -4, -1, 0, 1, 1600, 1899, 1900, 1999, 2000, 2023, 2024, 2100, 9999] {
        let mut day = Date::from_yo_opt(year, 1).unwrap();
        let mut naive = NaiveDate::from_yo_opt(year, 1).unwrap();
        loop {
            assert_eq!((day.year(), day.month(), day.day()), (naive.year(), naive.month(), naive.day()));
            assert_eq!(day.ordinal(), naive.ordinal());
            if day.month() == 12 && day.day() == 31 {
                break;
            }
            day = day.succ();
            naive = naive.succ_opt().unwrap();
        }
    }
}

#[test]
fn year_has_365_or_366_days() {
    assert_eq!(Year::from_ordinal(2023).duration(), 365);
    assert_eq!(Year::from_ordinal(2024).duration(), 366);
    assert_eq!(Year::from_ordinal(1900).duration(), 365);
    assert_eq!(Year::from_ordinal(2000).duration(), 366);
    assert_eq!(Year::from_ordinal(2023).ordinal(), 2023);
    assert_eq!(Year::from_ordinal(2023).start(), date(2023, 1, 1));
    assert_eq!(Year::from_ordinal(2023).end(), date(2024, 1, 1));
    assert_eq!(Year::from_ordinal(2023).next().ordinal(), 2024);
    assert_eq!(Year::from_start(date(2023, 12, 30)).duration(), 2);
}

#[test]
fn year_yields_its_days_in_order() {
    let mut days = Year::from_ordinal(2024).days();
    let mut count: u32 = 0;
    while let Some(day) = days.next() {
        count += 1;
        assert_eq!(day.ordinal(), count);
        assert_eq!(day.year().ordinal(), 2024);
    }
    assert_eq!(count, 366);
    assert!(days.next().is_none());
    let mut again = Year::from_ordinal(2024).days();
    assert_eq!(again.next().unwrap().date(), date(2024, 1, 1));
}

#[test]
fn year_yields_twelve_months() {
    let mut months = Year::from_ordinal(2023).months();
    let mut seen: Vec<(u32, i64)> = Vec::new();
    while let Some(month) = months.next() {
        assert_eq!(month.start().day(), 1);
        assert_eq!(month.year().ordinal(), 2023);
        seen.push((month.start().month(), month.duration()));
    }
    assert_eq!(
        seen,
        vec![
            (1, 31),
            (2, 28),
            (3, 31),
            (4, 30),
            (5, 31),
            (6, 30),
            (7, 31),
            (8, 31),
            (9, 30),
            (10, 31),
            (11, 30),
            (12, 31)
        ]
    );
}

#[test]
fn month_ends_where_the_next_starts() {
    assert_eq!(Month::from_start(date(2023, 1, 1)).end(), date(2023, 2, 1));
    assert_eq!(Month::from_start(date(2023, 12, 1)).end(), date(2024, 1, 1));
    assert_eq!(Month::from_start(date(2024, 2, 1)).duration(), 29);
    assert_eq!(Month::from_start(date(2023, 12, 1)).next().start(), date(2024, 1, 1));
    assert_eq!(Day::new(date(2023, 5, 17)).month().start(), date(2023, 5, 1));
    let mut days = Month::from_start(date(2024, 2, 1)).days();
    let mut count = 0;
    while let Some(day) = days.next() {
        count += 1;
        assert_eq!(day.date().day(), count);
    }
    assert_eq!(count, 29);
}

#[test]
fn dates_are_read_from_text() {
    assert_eq!(Date::parse("2023-01-31"), Some(date(2023, 1, 31)));
    assert_eq!(Date::parse("2024-02-29"), Some(date(2024, 2, 29)));
    assert_eq!(Date::parse("2023-02-29"), None);
    assert_eq!(Date::parse("yesterday"), None);
    assert_eq!(Date::parse(""), None);
}

#[test]
fn dates_are_written_as_text() {
    assert_eq!(date(2023, 1, 31).to_string(), "2023-01-31");
    assert_eq!(date(5, 12, 1).to_string(), "0005-12-01");
    assert_eq!(date(-5, 12, 1).to_string(), "-0005-12-01");
    assert_eq!(date(12345, 6, 7).to_string(), "+12345-06-07");
    assert_eq!(Day::new(date(2023, 1, 31)).to_string(), "2023-01-31");
    assert_eq!(Month::from_start(date(2023, 2, 1)).to_string(), "2023-02-01");
    assert_eq!(Year::from_ordinal(2023).to_string(), "2023");
    assert_eq!(Year::from_ordinal(-44).to_string(), "-44");
    for (y, m, d) in [(2023, 1, 31), (5, 12, 1), (-5, 12, 1), (12345, 6, 7), (0, 1, 1), (9999, 12, 31)] {
        let naive = NaiveDate::from_ymd_opt(y, m, d).unwrap();
        assert_eq!(date(y, m, d).to_string(), format!("{}", naive));
    }
}

#[test]
fn year_is_described_by_its_first_and_last_day() {
    assert_eq!(describe_year(Year::from_ordinal(2023)), "Jan 1, 2023 – Dec 31, 2023");
    assert_eq!(describe_year(Year::from_start(date(2024, 2, 29))), "Feb 29, 2024 – Dec 31, 2024");
    let names: Vec<&str> = (1..=12).map(month_abbr).collect();
    assert_eq!(
        names,
        vec!["Jan", "Feb", "Mar", "Apr", "May", "Jun", "Jul", "Aug", "Sep", "Oct", "Nov", "Dec"]
    );
    for m in 1..=12 {
        let naive = NaiveDate::from_ymd_opt(2023, m, 9).unwrap();
        assert_eq!(month_abbr(m), format!("{}", naive.format("%b")));
    }
}
