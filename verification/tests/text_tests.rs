use irox_sirf::text::{decimal_string, push_decimal, push_fixed_decimal};
use irox_sirf::time::datetime::UTCDateTime;
use irox_sirf::time::format::BasicOrdinalDateTime;
use irox_sirf::time::gregorian::Date;
use irox_sirf::time::Time;

#[test]
fn decimal_text_of_numbers() {
    assert_eq!(decimal_string(0), "0");
    assert_eq!(decimal_string(9), "9");
    assert_eq!(decimal_string(10), "10");
    assert_eq!(decimal_string(8086), "8086");
    assert_eq!(decimal_string(65_535), "65535");
    assert_eq!(decimal_string(u64::MAX), "18446744073709551615");
    for d in 0..10u64 {
        assert_eq!(decimal_string(d), d.to_string());
        assert_eq!(decimal_string(90 + d), (90 + d).to_string());
    }
    let mut text = String::from("n=");
    push_decimal(&mut text, 1_234_567_890);
    assert_eq!(text, "n=1234567890");
}

#[test]
fn fixed_width_decimal_text() {
    let fixed = |n: u64, width: u8| {
        let mut text = String::new();
        push_fixed_decimal(&mut text, n, width);
        text
    };
    assert_eq!(fixed(7, 2), "07");
    assert_eq!(fixed(0, 3), "000");
    assert_eq!(fixed(42, 4), "0042");
    assert_eq!(fixed(2023, 4), "2023");
    assert_eq!(fixed(12_345, 4), "2345");
    assert_eq!(fixed(5, 0), "");
}

#[test]
fn a_date_and_time_in_the_basic_ordinal_format() {
    let format = BasicOrdinalDateTime;
    let dt = UTCDateTime::try_from_values(2023, 6, 15, 12, 34, 56).unwrap();
    assert_eq!(dt.format(&format), "2023166T123456Z");
    let dt = UTCDateTime::try_from_values(2024, 12, 31, 23, 59, 59).unwrap();
    assert_eq!(dt.format(&format), "2024366T235959Z");
    let dt = UTCDateTime::try_from_values(5, 1, 1, 0, 0, 0).unwrap();
    assert_eq!(dt.format(&format), "0005001T000000Z");
    let dt = UTCDateTime::new(Date { year: -4712, day_of_year: 0 }, Time::new(43_200).unwrap());
    assert_eq!(dt.format(&format), "-4712001T120000Z");
    let dt = UTCDateTime::new(Date { year: 1998, day_of_year: 364 }, Time::new(86_400).unwrap());
    assert_eq!(dt.format(&format), "1998365T240000Z");
    let dt = UTCDateTime::new(Date { year: i32::MIN, day_of_year: 9 }, Time::new(1).unwrap());
    assert_eq!(dt.format(&format), "-3648010T000001Z");
}
