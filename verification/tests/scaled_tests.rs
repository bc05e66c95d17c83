use irox_sirf::bits::{ByteCursor, ByteSink, UnexpectedEnd};
use irox_sirf::input::util::{read_gpstow, write_gpstow, GPSTOW_SCALE, WEEK_MICROS};
use irox_sirf::scaled::{ScaleError, ScaledValue};

fn written(micros: u64) -> Vec<u8> {
    let mut sink = ByteSink::new();
    write_gpstow(&mut sink, micros).unwrap();
    sink.into_bytes()
}

#[test]
fn time_of_week_of_the_scenario_is_exact() {
    // 123456.78 s
    let bytes = written(123_456_780_000);
    assert_eq!(bytes, 12_345_678u32.to_be_bytes().to_vec());
    let mut cursor = ByteCursor::new(&bytes);
    assert_eq!(read_gpstow(&mut cursor), Ok(123_456_780_000));
    assert_eq!(ScaledValue { micros: 123_456_780_000, scale: GPSTOW_SCALE }.encode(), Ok(12_345_678));
    assert_eq!(
        ScaledValue::decode(12_345_678, GPSTOW_SCALE),
        Ok(ScaledValue { micros: 123_456_780_000, scale: 100 })
    );
}

#[test]
fn time_of_week_comes_back_within_half_a_step() {
    let samples = [
        0u64,
        1,
        4_999,
        5_000,
        5_001,
        9_999,
        10_000,
        123_456_784_999,
        123_456_785_000,
        302_400_000_000,
        WEEK_MICROS - 5_001,
        WEEK_MICROS - 5_000,
        WEEK_MICROS - 1,
    ];
    for t in samples {
        let bytes = written(t);
        let mut cursor = ByteCursor::new(&bytes);
        let back = read_gpstow(&mut cursor).unwrap();
        assert!(back.abs_diff(t) <= 5_000, "{} came back as {}", t, back);
        assert_eq!(back % 10_000, 0);
    }
}

#[test]
fn a_tie_is_rounded_away_from_zero() {
    assert_eq!(written(4_999), vec![0, 0, 0, 0]);
    assert_eq!(written(5_000), vec![0, 0, 0, 1]);
    assert_eq!(written(14_999), vec![0, 0, 0, 1]);
    assert_eq!(written(15_000), vec![0, 0, 0, 2]);
    assert_eq!(ScaledValue { micros: 5_000, scale: 100 }.encode(), Ok(1));
    assert_eq!(ScaledValue { micros: 4_999, scale: 100 }.encode(), Ok(0));
    assert_eq!(ScaledValue { micros: -4_999, scale: 100 }.encode(), Ok(0));
    assert_eq!(ScaledValue { micros: -5_000, scale: 100 }.encode(), Err(ScaleError::OutOfRange));
    assert_eq!(ScaledValue { micros: 500_000, scale: 1 }.encode(), Ok(1));
    assert_eq!(ScaledValue { micros: 499_999, scale: 1 }.encode(), Ok(0));
    assert_eq!(ScaledValue { micros: 1_100_000, scale: 5 }.encode(), Ok(6));
    assert_eq!(ScaledValue { micros: 1_099_999, scale: 5 }.encode(), Ok(5));
}

#[test]
fn a_quantity_too_large_for_the_wire_is_refused() {
    let last = u32::MAX as u64 * 10_000 + 4_999;
    assert_eq!(written(last), vec![0xFF, 0xFF, 0xFF, 0xFF]);
    let mut sink = ByteSink::new();
    sink.write_u8(7);
    assert_eq!(write_gpstow(&mut sink, last + 1), Err(ScaleError::OutOfRange));
    assert_eq!(write_gpstow(&mut sink, u64::MAX), Err(ScaleError::OutOfRange));
    assert_eq!(sink.into_bytes(), vec![7]);
    assert_eq!(
        ScaledValue { micros: last as i64 + 1, scale: 100 }.encode(),
        Err(ScaleError::OutOfRange)
    );
    assert_eq!(ScaledValue { micros: last as i64, scale: 100 }.encode(), Ok(u32::MAX));
    assert_eq!(ScaledValue { micros: i64::MAX, scale: 1_000_000 }.encode(), Err(ScaleError::OutOfRange));
    assert_eq!(ScaledValue { micros: i64::MIN, scale: 1_000_000 }.encode(), Err(ScaleError::OutOfRange));
}

#[test]
fn a_scale_of_zero_stands_for_nothing() {
    assert_eq!(ScaledValue::decode(1, 0), Err(ScaleError::InvalidScale));
    assert_eq!(ScaledValue::decode(0, 0), Err(ScaleError::InvalidScale));
    assert_eq!(ScaledValue { micros: 1_000_000, scale: 0 }.encode(), Ok(0));
    assert_eq!(ScaledValue { micros: i64::MIN, scale: 0 }.encode(), Ok(0));
}

#[test]
fn a_scale_that_does_not_divide_a_million_rounds_to_the_millionth() {
    assert_eq!(ScaledValue { micros: 1_000_000, scale: 3 }.encode(), Ok(3));
    assert_eq!(ScaledValue { micros: 333_333, scale: 3 }.encode(), Ok(1));
    assert_eq!(ScaledValue { micros: 166_667, scale: 3 }.encode(), Ok(1));
    assert_eq!(ScaledValue { micros: 166_666, scale: 3 }.encode(), Ok(0));
    assert_eq!(ScaledValue::decode(1, 3), Ok(ScaledValue { micros: 333_333, scale: 3 }));
    assert_eq!(ScaledValue::decode(2, 3), Ok(ScaledValue { micros: 666_667, scale: 3 }));
    assert_eq!(ScaledValue::decode(3, 3), Ok(ScaledValue { micros: 1_000_000, scale: 3 }));
    assert_eq!(ScaledValue::decode(1, 2_000_000), Ok(ScaledValue { micros: 1, scale: 2_000_000 }));
    assert_eq!(ScaledValue::decode(1, 2_000_001), Ok(ScaledValue { micros: 0, scale: 2_000_001 }));
    assert_eq!(ScaledValue::decode(7, u32::MAX), Ok(ScaledValue { micros: 0, scale: u32::MAX }));
    assert_eq!(ScaledValue { micros: 1, scale: u32::MAX }.encode(), Ok(4295));
    for scale in [1u32, 3, 7, 100, 999_999, 1_000_000] {
        for raw in [0u32, 1, 2, 1000, u32::MAX] {
            let value = ScaledValue::decode(raw, scale).unwrap();
            assert_eq!(value.encode(), Ok(raw), "{} steps at scale {}", raw, scale);
        }
    }
}

#[test]
fn decoding_multiplies_by_the_step() {
    assert_eq!(ScaledValue::decode(0, 100), Ok(ScaledValue { micros: 0, scale: 100 }));
    assert_eq!(ScaledValue::decode(7, 8), Ok(ScaledValue { micros: 875_000, scale: 8 }));
    assert_eq!(
        ScaledValue::decode(u32::MAX, 1),
        Ok(ScaledValue { micros: 4_294_967_295_000_000, scale: 1 })
    );
    for raw in [0u32, 1, 99, 12_345_678, u32::MAX] {
        for scale in [1u32, 5, 8, 100, 1_000_000] {
            let value = ScaledValue::decode(raw, scale).unwrap();
            assert_eq!(value.encode(), Ok(raw));
        }
    }
}

#[test]
fn a_short_time_of_week_is_not_read() {
    let data = [0, 0, 1];
    let mut cursor = ByteCursor::new(&data);
    assert_eq!(read_gpstow(&mut cursor), Err(UnexpectedEnd { offset: 0, needed: 4 }));
    assert_eq!(cursor.position(), 0);
}
