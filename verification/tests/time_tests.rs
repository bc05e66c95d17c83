use irox_sirf::bounds::GreaterThanEqualToValueError;
use irox_sirf::time::datetime::UTCDateTime;
use irox_sirf::time::gregorian::{is_leap_year, Date};
use irox_sirf::time::julian::{julian_epoch, reduced_julian_epoch, truncated_julian_epoch};
use irox_sirf::time::{Epoch, Time, Time128, Time32, Time64};

fn unix_epoch() -> Epoch {
    Epoch(Date { year: 1970, day_of_year: 0 })
}

#[test]
fn a_time_of_day_lies_within_the_day() {
    assert_eq!(Time::new(0).unwrap().as_seconds(), 0);
    assert_eq!(Time::new(86_399).unwrap().as_seconds(), 86_399);
    assert_eq!(Time::new(86_400).unwrap().as_seconds(), 86_400);
    assert_eq!(
        Time::new(86_401),
        Err(GreaterThanEqualToValueError { value: 86_401, valid_upper_bound: 86_401 })
    );
    assert_eq!(
        Time::new(u32::MAX),
        Err(GreaterThanEqualToValueError { value: u32::MAX, valid_upper_bound: 86_401 })
    );
}

#[test]
fn hours_minutes_and_seconds_of_a_time() {
    let t = Time::new(45_296).unwrap();
    assert_eq!(t.as_hours(), 12);
    assert_eq!(t.as_minutes(), 754);
    assert_eq!(t.as_hms(), (12, 34, 56));
    assert_eq!(t.as_duration().micros, 45_296_000_000);
    assert_eq!(Time::new(0).unwrap().as_hms(), (0, 0, 0));
    assert_eq!(Time::new(3_599).unwrap().as_hms(), (0, 59, 59));
    assert_eq!(Time::new(3_600).unwrap().as_hms(), (1, 0, 0));
    assert_eq!(Time::new(86_399).unwrap().as_hms(), (23, 59, 59));
    assert_eq!(Time::new(86_400).unwrap().as_hms(), (24, 0, 0));
    assert_eq!(Time::new(86_400).unwrap().as_hours(), 24);
    assert_eq!(Time::new(86_400).unwrap().as_minutes(), 1440);
}

#[test]
fn a_time_from_clock_values() {
    assert_eq!(Time::from_hms(12, 34, 56).unwrap().as_seconds(), 45_296);
    assert_eq!(Time::from_hms(0, 0, 0).unwrap().as_seconds(), 0);
    assert_eq!(Time::from_hms(23, 59, 59).unwrap().as_seconds(), 86_399);
    assert_eq!(
        Time::from_hms(24, 60, 60),
        Err(GreaterThanEqualToValueError { value: 24, valid_upper_bound: 24 })
    );
    assert_eq!(
        Time::from_hms(23, 60, 60),
        Err(GreaterThanEqualToValueError { value: 60, valid_upper_bound: 60 })
    );
    assert_eq!(
        Time::from_hms(23, 59, 61),
        Err(GreaterThanEqualToValueError { value: 61, valid_upper_bound: 60 })
    );
}

#[test]
fn fixed_precision_timestamps() {
    let t = Time32::new(unix_epoch(), 0x1234, 0xABCD);
    assert_eq!(t.as_u32(), 0x1234_ABCD);
    assert_eq!(Time32::new(unix_epoch(), 0xFFFF, 0xFFFF).as_u32(), u32::MAX);
    assert_eq!(Time32::new(unix_epoch(), 0, 1).as_u32(), 1);
    assert_eq!(Time32::new(unix_epoch(), 1, 0).as_u32(), 0x1_0000);
    let t = Time64::new(unix_epoch(), 0x1234_5678, 0x9ABC_DEF0);
    assert_eq!(t.as_u64(), 0x1234_5678_9ABC_DEF0);
    assert_eq!(t.get_epoch(), unix_epoch());
    assert_eq!(Time64::new(unix_epoch(), u32::MAX, u32::MAX).as_u64(), u64::MAX);
    let t = Time128::new(julian_epoch(), 0x0102_0304_0506_0708, 0x090A_0B0C_0D0E_0F10);
    assert_eq!(t.as_u128(), 0x0102_0304_0506_0708_090A_0B0C_0D0E_0F10);
    assert_eq!(t.get_epoch(), julian_epoch());
    assert_eq!(Time128::new(unix_epoch(), u64::MAX, u64::MAX).as_u128(), u128::MAX);
    assert_eq!(Time128::new(unix_epoch(), 1, 0).as_u128(), 1u128 << 64);
}

#[test]
fn the_julian_epochs() {
    assert_eq!(julian_epoch(), Epoch(Date { year: -4712, day_of_year: 0 }));
    assert_eq!(reduced_julian_epoch().get_gregorian_date(), Date { year: 1858, day_of_year: 320 });
    assert_eq!(truncated_julian_epoch().0, Date { year: 1968, day_of_year: 145 });
    assert_eq!(Date::try_from_values(1858, 11, 17), Ok(reduced_julian_epoch().0));
    assert_eq!(Date::try_from_values(1968, 5, 25), Ok(truncated_julian_epoch().0));
}

#[test]
fn leap_years() {
    for year in [2000, 2004, 2024, 1600, 0, -4, -400, -4712, 2_147_483_644, -2_147_483_600] {
        assert!(is_leap_year(year), "{}", year);
    }
    for year in [1900, 2100, 2023, 1, -1, -100, -2_147_483_500, i32::MIN + 49, i32::MAX] {
        assert!(!is_leap_year(year), "{}", year);
    }
    assert!(is_leap_year(i32::MIN));
    let first_of = |year: i32, month: u8| Date::try_from_values(year, month, 1).unwrap().day_of_year;
    assert_eq!(first_of(2023, 1), 0);
    assert_eq!(first_of(2023, 3), 59);
    assert_eq!(first_of(2024, 3), 60);
    assert_eq!(first_of(2023, 12), 334);
    assert_eq!(first_of(2024, 12), 335);
    let lengths_2023 = [31u8, 28, 31, 30, 31, 30, 31, 31, 30, 31, 30, 31];
    for (m, len) in lengths_2023.iter().enumerate() {
        let month = m as u8 + 1;
        assert!(Date::try_from_values(2023, month, *len).is_ok());
        assert!(Date::try_from_values(2023, month, *len + 1).is_err());
    }
    assert!(Date::try_from_values(2024, 2, 29).is_ok());
    assert!(Date::try_from_values(2024, 2, 30).is_err());
}

#[test]
fn a_date_from_calendar_values() {
    assert_eq!(Date::try_from_values(2023, 1, 1), Ok(Date { year: 2023, day_of_year: 0 }));
    assert_eq!(Date::try_from_values(2023, 12, 31), Ok(Date { year: 2023, day_of_year: 364 }));
    assert_eq!(Date::try_from_values(2024, 12, 31), Ok(Date { year: 2024, day_of_year: 365 }));
    assert_eq!(Date::try_from_values(2024, 2, 29), Ok(Date { year: 2024, day_of_year: 59 }));
    assert_eq!(
        Date::try_from_values(2023, 2, 29),
        Err(GreaterThanEqualToValueError { value: 29, valid_upper_bound: 29 })
    );
    assert_eq!(
        Date::try_from_values(2023, 13, 1),
        Err(GreaterThanEqualToValueError { value: 13, valid_upper_bound: 13 })
    );
    assert_eq!(
        Date::try_from_values(2023, 0, 0),
        Err(GreaterThanEqualToValueError { value: 0, valid_upper_bound: 13 })
    );
    assert_eq!(
        Date::try_from_values(2023, 4, 0),
        Err(GreaterThanEqualToValueError { value: 0, valid_upper_bound: 31 })
    );
    assert_eq!(
        Date::try_from_values(2023, 4, 31),
        Err(GreaterThanEqualToValueError { value: 31, valid_upper_bound: 31 })
    );
    assert_eq!(Date::new(2023, 364), Ok(Date { year: 2023, day_of_year: 364 }));
    assert_eq!(
        Date::new(2023, 365),
        Err(GreaterThanEqualToValueError { value: 365, valid_upper_bound: 365 })
    );
    assert_eq!(Date::new(2024, 365).map(|d| (d.year(), d.day_of_year())), Ok((2024, 365)));
    assert_eq!(
        Date::new(2024, 366),
        Err(GreaterThanEqualToValueError { value: 366, valid_upper_bound: 366 })
    );
}

#[test]
fn a_date_from_a_day_number() {
    assert_eq!(Date::from_unix_day(0), Date { year: 1970, day_of_year: 0 });
    assert_eq!(Date::from_unix_day(364), Date { year: 1970, day_of_year: 364 });
    assert_eq!(Date::from_unix_day(365), Date { year: 1971, day_of_year: 0 });
    assert_eq!(Date::from_unix_day(730), Date { year: 1972, day_of_year: 0 });
    assert_eq!(Date::from_unix_day(1095), Date { year: 1972, day_of_year: 365 });
    assert_eq!(Date::from_unix_day(1096), Date { year: 1973, day_of_year: 0 });
    assert_eq!(Date::from_unix_day(10_957), Date { year: 2000, day_of_year: 0 });
    assert_eq!(Date::from_unix_day(19_523), Date::try_from_values(2023, 6, 15).unwrap());
    assert_eq!(Date::from_unix_day(3_657), Date::try_from_values(1980, 1, 6).unwrap());
    for day in [0u32, 1, 58, 59, 365, 789, 10_956, 10_957, 11_016, 19_523, 47_482, 4_000_000] {
        assert_eq!(Date::from_unix_day(day).unix_day(), i64::from(day));
    }
}

#[test]
fn the_day_number_of_a_date() {
    assert_eq!(Date { year: 1970, day_of_year: 0 }.unix_day(), 0);
    assert_eq!(Date { year: 1969, day_of_year: 364 }.unix_day(), -1);
    assert_eq!(Date { year: 1968, day_of_year: 0 }.unix_day(), -731);
    assert_eq!(Date::try_from_values(2023, 6, 15).unwrap().unix_day(), 19_523);
    assert_eq!(Date::try_from_values(1900, 1, 1).unwrap().unix_day(), -25_567);
    assert_eq!(Date::try_from_values(1858, 11, 17).unwrap().unix_day(), -40_587);
    assert_eq!(Date::try_from_values(1, 1, 1).unwrap().unix_day(), -719_162);
    assert_eq!(Date::try_from_values(0, 12, 31).unwrap().unix_day(), -719_163);
    assert_eq!(Date::try_from_values(2000, 3, 1).unwrap().unix_day(), 11_017);
    assert_eq!(Date { year: i32::MAX, day_of_year: 364 }.unix_day(), 784_351_576_412 + 364);
    assert_eq!(Date { year: i32::MIN, day_of_year: 0 }.unix_day(), -784_353_015_833);
}

#[test]
fn a_date_and_time_from_values() {
    let dt = UTCDateTime::try_from_values(2023, 6, 15, 12, 34, 56).unwrap();
    assert_eq!(dt.get_date(), Date { year: 2023, day_of_year: 165 });
    assert_eq!(dt.get_time().as_hms(), (12, 34, 56));
    assert_eq!(dt, UTCDateTime::new(Date { year: 2023, day_of_year: 165 }, Time::new(45_296).unwrap()));
    assert_eq!(
        UTCDateTime::try_from_values(2023, 13, 32, 24, 60, 60),
        Err(GreaterThanEqualToValueError { value: 13, valid_upper_bound: 13 })
    );
    assert_eq!(
        UTCDateTime::try_from_values(2023, 6, 31, 24, 60, 60),
        Err(GreaterThanEqualToValueError { value: 31, valid_upper_bound: 31 })
    );
    assert_eq!(
        UTCDateTime::try_from_values(2023, 6, 30, 24, 60, 60),
        Err(GreaterThanEqualToValueError { value: 24, valid_upper_bound: 24 })
    );
    assert_eq!(
        UTCDateTime::try_from_values(2023, 6, 30, 23, 60, 60),
        Err(GreaterThanEqualToValueError { value: 60, valid_upper_bound: 60 })
    );
    assert_eq!(
        UTCDateTime::try_from_values(2023, 6, 30, 23, 59, 60),
        Err(GreaterThanEqualToValueError { value: 60, valid_upper_bound: 60 })
    );
}
