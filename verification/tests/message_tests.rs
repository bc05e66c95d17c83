use irox_sirf::bits::ByteCursor;
use irox_sirf::input::x02_mesnavdata::{MeasuredNavigationData, MeasuredNavigationDataBuilder};
use irox_sirf::input::x04_meastrackdata::{Channel, MeasuredTrackData, MeasuredTrackDataBuilder};
use irox_sirf::input::x07_clockstatus::{ClockStatus, ClockStatusBuilder};
use irox_sirf::input::x08_50bpsdata::{FiftyBpsData, FiftyBpsDataBuilder};
use irox_sirf::input::x1E_navsvstate::{NavLibSVState, NavLibSVStateBuilder};
use irox_sirf::input::x35_advpwrmgmt::{AdvancedPowerManagement, AdvancedPowerManagementBuilder};
use irox_sirf::input::xff_asciidata::{message_from, AsciiData, AsciiDataBuilder};
use irox_sirf::packet::{MessageError, Packet, PacketBuilder};

fn nav() -> MeasuredNavigationData {
    MeasuredNavigationData {
        x_position: -2_686_727,
        y_position: -4_304_282,
        z_position: 3_851_642,
        x_velocity: 0,
        y_velocity: -8,
        z_velocity: 1,
        mode1: 0x04,
        hdop: 0x0A,
        mode2: 0x00,
        gps_week: 0x036B,
        gps_tow: 123_456_780_000,
        sv_in_fix: 6,
        prns: [0x12, 0x19, 0x0E, 0x16, 0x0F, 0x04, 0, 0, 0, 0, 0, 0],
    }
}

fn channel(k: u8) -> Channel {
    Channel {
        sv_id: k + 1,
        azimuth: 10 * k,
        elevation: 3 * k,
        state: 0x00BF + k as u16 * 0x100,
        cn0: [k, k + 1, k + 2, k + 3, k + 4, k + 5, k + 6, k + 7, k + 8, k + 9],
    }
}

fn track(n: u8) -> MeasuredTrackData {
    MeasuredTrackData { gps_week: 1095, gps_tow: 604_799_990_000, channels: (0..n).map(channel).collect() }
}

#[test]
fn navigation_data_bytes_are_exact() {
    let bytes = nav().get_bytes().unwrap();
    assert_eq!(nav().get_type(), 0x02);
    assert_eq!(
        bytes,
        vec![
            0xFF, 0xD7, 0x00, 0xF9, // x
            0xFF, 0xBE, 0x52, 0x66, // y
            0x00, 0x3A, 0xC5, 0x7A, // z
            0x00, 0x00, 0xFF, 0xF8, 0x00, 0x01, // velocity
            0x04, 0x0A, 0x00, // mode1, hdop, mode2
            0x03, 0x6B, // week
            0x00, 0xBC, 0x61, 0x4E, // 12345678 steps of 10 ms
            0x06, // satellites in fix
            0x12, 0x19, 0x0E, 0x16, 0x0F, 0x04, 0, 0, 0, 0, 0, 0,
        ]
    );
}

#[test]
fn navigation_data_reads_back() {
    let bytes = nav().get_bytes().unwrap();
    let mut cursor = ByteCursor::new(&bytes);
    assert_eq!(MeasuredNavigationDataBuilder.build_from(&mut cursor), Ok(nav()));
    assert_eq!(cursor.position(), 40);
    let mut with_id = vec![0x02];
    with_id.extend(&bytes);
    with_id.extend([0xEE, 0xEE]);
    let mut cursor = ByteCursor::new(&with_id);
    cursor.skip(1).unwrap();
    assert_eq!(MeasuredNavigationDataBuilder.build_from(&mut cursor), Ok(nav()));
    assert_eq!(cursor.position(), 41);
}

#[test]
fn navigation_data_time_of_week_field_is_scaled() {
    let bytes = nav().get_bytes().unwrap();
    assert_eq!(u32::from_be_bytes([bytes[23], bytes[24], bytes[25], bytes[26]]), 12_345_678);
    let mut rounded = nav();
    rounded.gps_tow = 123_456_784_999;
    assert_eq!(rounded.get_bytes().unwrap(), bytes);
    rounded.gps_tow = 123_456_785_000;
    let up = rounded.get_bytes().unwrap();
    assert_eq!(u32::from_be_bytes([up[23], up[24], up[25], up[26]]), 12_345_679);
}

#[test]
fn a_short_navigation_data_payload_names_the_missing_field() {
    let bytes = nav().get_bytes().unwrap();
    let expect = |cut: usize, offset: usize, needed: usize| {
        let mut cursor = ByteCursor::new(&bytes[..cut]);
        assert_eq!(
            MeasuredNavigationDataBuilder.build_from(&mut cursor),
            Err(MessageError::UnexpectedEnd { offset, needed })
        );
        assert_eq!(cursor.position(), 0);
    };
    expect(0, 0, 4);
    expect(3, 0, 4);
    expect(4, 4, 4);
    expect(12, 12, 2);
    expect(18, 18, 1);
    expect(20, 20, 1);
    expect(22, 21, 2);
    expect(26, 23, 4);
    expect(27, 27, 1);
    expect(28, 28, 12);
    expect(39, 28, 12);
}

#[test]
fn more_satellites_in_fix_than_channels_is_a_violation() {
    let mut bytes = nav().get_bytes().unwrap();
    bytes[27] = 13;
    let mut cursor = ByteCursor::new(&bytes);
    assert_eq!(
        MeasuredNavigationDataBuilder.build_from(&mut cursor),
        Err(MessageError::DomainViolation { offset: 27 })
    );
    assert_eq!(cursor.position(), 0);
    bytes[27] = 12;
    assert!(MeasuredNavigationDataBuilder.build_from(&mut ByteCursor::new(&bytes)).is_ok());
    let mut m = nav();
    m.sv_in_fix = 13;
    assert_eq!(m.get_bytes(), Err(MessageError::DomainViolation { offset: 28 }));
    m.gps_tow = u64::MAX;
    assert_eq!(m.get_bytes(), Err(MessageError::DomainViolation { offset: 24 }));
}

#[test]
fn tracking_data_bytes_are_exact() {
    let bytes = track(2).get_bytes().unwrap();
    assert_eq!(track(2).get_type(), 0x04);
    assert_eq!(
        bytes,
        vec![
            0x04, 0x47, // week 1095
            0x03, 0x9A, 0xD9, 0xFF, // 60479999 steps
            0x02, // channels
            1, 0, 0, 0x00, 0xBF, 0, 1, 2, 3, 4, 5, 6, 7, 8, 9, //
            2, 10, 3, 0x01, 0xBF, 1, 2, 3, 4, 5, 6, 7, 8, 9, 10,
        ]
    );
}

#[test]
fn tracking_data_reads_back_for_every_channel_count() {
    for n in 0..=12u8 {
        let m = track(n);
        let bytes = m.get_bytes().unwrap();
        assert_eq!(bytes.len(), 7 + 15 * n as usize);
        let mut cursor = ByteCursor::new(&bytes);
        let back = MeasuredTrackDataBuilder.build_from(&mut cursor).unwrap();
        assert_eq!(back.gps_week, m.gps_week);
        assert_eq!(back.gps_tow, m.gps_tow);
        assert_eq!(back.channels, m.channels);
        assert_eq!(cursor.position(), bytes.len());
    }
}

#[test]
fn three_channels_announced_and_two_present_is_unexpected_end() {
    let mut bytes = track(2).get_bytes().unwrap();
    bytes[6] = 3;
    let mut cursor = ByteCursor::new(&bytes);
    let r = MeasuredTrackDataBuilder.build_from(&mut cursor);
    assert!(matches!(r, Err(MessageError::UnexpectedEnd { offset: 37, needed: 1 })));
    assert_eq!(cursor.position(), 0);
    // part of the third block is there
    bytes.extend([9, 9, 9, 9]);
    let r = MeasuredTrackDataBuilder.build_from(&mut ByteCursor::new(&bytes));
    assert!(matches!(r, Err(MessageError::UnexpectedEnd { offset: 40, needed: 2 })));
    bytes.extend([9, 9, 9, 9, 9, 9, 9, 9, 9, 9]);
    let r = MeasuredTrackDataBuilder.build_from(&mut ByteCursor::new(&bytes));
    assert!(matches!(r, Err(MessageError::UnexpectedEnd { offset: 42, needed: 10 })));
    bytes.push(9);
    let back = MeasuredTrackDataBuilder.build_from(&mut ByteCursor::new(&bytes)).unwrap();
    assert_eq!(back.channels.len(), 3);
}

#[test]
fn more_channels_than_the_receiver_has_is_a_violation() {
    let mut bytes = track(12).get_bytes().unwrap();
    bytes[6] = 13;
    bytes.extend([0u8; 15]);
    let r = MeasuredTrackDataBuilder.build_from(&mut ByteCursor::new(&bytes));
    assert!(matches!(r, Err(MessageError::DomainViolation { offset: 6 })));
    let m = MeasuredTrackData { gps_week: 0, gps_tow: 0, channels: (0..13).map(channel).collect() };
    assert_eq!(m.get_bytes(), Err(MessageError::DomainViolation { offset: 7 }));
    let m = MeasuredTrackData { gps_week: 0, gps_tow: u64::MAX, channels: vec![] };
    assert_eq!(m.get_bytes(), Err(MessageError::DomainViolation { offset: 3 }));
}

#[test]
fn a_short_tracking_header_names_the_missing_field() {
    let bytes = track(1).get_bytes().unwrap();
    let expect = |cut: usize, offset: usize, needed: usize| {
        let r = MeasuredTrackDataBuilder.build_from(&mut ByteCursor::new(&bytes[..cut]));
        assert!(matches!(r, Err(MessageError::UnexpectedEnd { offset: o, needed: n }) if o == offset && n == needed));
    };
    expect(1, 0, 2);
    expect(5, 2, 4);
    expect(6, 6, 1);
    expect(7, 7, 1);
    expect(8, 8, 1);
    expect(9, 9, 1);
    expect(11, 10, 2);
    expect(21, 12, 10);
}

#[test]
fn clock_status_round_trip_and_bytes() {
    let m = ClockStatus {
        extended_gps_week: 0x03BD,
        gps_tow: 349_493_990_000,
        svs: 8,
        clock_drift: 74_289,
        clock_bias: 128_743_715,
        estimated_gps_time: 349_493_483,
    };
    let bytes = m.get_bytes().unwrap();
    assert_eq!(m.get_type(), 0x07);
    assert_eq!(
        bytes,
        vec![
            0x03, 0xBD, 0x02, 0x15, 0x49, 0x17, 0x08, 0x00, 0x01, 0x22, 0x31, 0x07, 0xAC, 0x79,
            0x23, 0x14, 0xD4, 0xD8, 0xEB
        ]
    );
    let mut cursor = ByteCursor::new(&bytes);
    assert_eq!(ClockStatusBuilder.build_from(&mut cursor), Ok(m));
    assert_eq!(cursor.position(), 19);
    let r = ClockStatusBuilder.build_from(&mut ByteCursor::new(&bytes[..18]));
    assert_eq!(r, Err(MessageError::UnexpectedEnd { offset: 15, needed: 4 }));
}

#[test]
fn subframe_round_trip_and_bytes() {
    let m = FiftyBpsData {
        channel: 3,
        sv_id: 21,
        words: [0x1122_3344, 1, 2, 3, 4, 5, 6, 7, 8, 0xFFFF_FFFF],
    };
    let bytes = m.get_bytes().unwrap();
    assert_eq!(m.get_type(), 0x08);
    assert_eq!(bytes.len(), 42);
    assert_eq!(&bytes[..6], &[3, 21, 0x11, 0x22, 0x33, 0x44]);
    assert_eq!(&bytes[34..], &[0, 0, 0, 8, 0xFF, 0xFF, 0xFF, 0xFF]);
    assert_eq!(FiftyBpsDataBuilder.build_from(&mut ByteCursor::new(&bytes)), Ok(m));
    let r = FiftyBpsDataBuilder.build_from(&mut ByteCursor::new(&bytes[..41]));
    assert_eq!(r, Err(MessageError::UnexpectedEnd { offset: 38, needed: 4 }));
    let r = FiftyBpsDataBuilder.build_from(&mut ByteCursor::new(&bytes[..9]));
    assert_eq!(r, Err(MessageError::UnexpectedEnd { offset: 6, needed: 4 }));
}

#[test]
fn satellite_state_round_trip_and_bytes() {
    let m = NavLibSVState {
        sv_id: 7,
        gps_time: 123456.78f64.to_bits(),
        position_x: (-1.5e7f64).to_bits(),
        position_y: 2.0e7f64.to_bits(),
        position_z: 0.0f64.to_bits(),
        velocity_x: 1.0f64.to_bits(),
        velocity_y: (-1.0f64).to_bits(),
        velocity_z: 3000.5f64.to_bits(),
        clock_bias: 1.0e-4f64.to_bits(),
        clock_drift: 2.5f32.to_bits(),
        ephemeris_flag: 1,
        reserved1: 0,
        reserved2: 0,
        ionospheric_delay: 4.25f32.to_bits(),
    };
    let bytes = m.get_bytes().unwrap();
    assert_eq!(m.get_type(), 0x1E);
    assert_eq!(bytes.len(), 82);
    assert_eq!(bytes[0], 7);
    assert_eq!(&bytes[1..9], &123456.78f64.to_be_bytes());
    assert_eq!(&bytes[65..69], &2.5f32.to_be_bytes());
    assert_eq!(&bytes[78..], &4.25f32.to_be_bytes());
    let back = NavLibSVStateBuilder.build_from(&mut ByteCursor::new(&bytes)).unwrap();
    assert_eq!(back, m);
    assert_eq!(f64::from_bits(back.gps_time), 123456.78);
    let r = NavLibSVStateBuilder.build_from(&mut ByteCursor::new(&bytes[..70]));
    assert_eq!(r, Err(MessageError::UnexpectedEnd { offset: 70, needed: 4 }));
}

#[test]
fn power_management_round_trip_and_bytes() {
    let m = AdvancedPowerManagement {
        apm_enabled: 1,
        number_fixes: 0,
        time_between_fixes: 30,
        spare1: 0,
        max_horizontal_error: 2,
        max_vertical_error: 3,
        max_response_time: 60,
        time_acc_priority: 1,
        power_duty_cycle: 100,
        time_duty_cycle: 5,
        spare2: 0,
    };
    let bytes = m.get_bytes().unwrap();
    assert_eq!(m.get_type(), 0x35);
    assert_eq!(bytes, vec![1, 0, 30, 0, 2, 3, 60, 1, 100, 5, 0]);
    assert_eq!(AdvancedPowerManagementBuilder.build_from(&mut ByteCursor::new(&bytes)), Ok(m));
    let r = AdvancedPowerManagementBuilder.build_from(&mut ByteCursor::new(&bytes[..10]));
    assert_eq!(r, Err(MessageError::UnexpectedEnd { offset: 10, needed: 1 }));
}

#[test]
fn text_round_trip() {
    let m = AsciiData::new(String::from("GSW3.2.4 héllo ✓"));
    assert_eq!(m.get_type(), 0xFF);
    let bytes = m.get_bytes().unwrap();
    assert_eq!(bytes, "GSW3.2.4 héllo ✓".as_bytes().to_vec());
    let mut cursor = ByteCursor::new(&bytes);
    let back = AsciiDataBuilder.build_from(&mut cursor).unwrap();
    assert_eq!(back.message(), "GSW3.2.4 héllo ✓");
    assert_eq!(cursor.position(), bytes.len());
    assert_eq!(AsciiData::default().message(), "");
    assert_eq!(AsciiData::default().get_bytes(), Ok(vec![]));
}

#[test]
fn text_that_is_not_utf8_is_decoded_lossily() {
    let bytes = [0xFF, b'o', b'k', 0xC3, 0x28, 0xE2, 0x82, b'!'];
    let mut cursor = ByteCursor::new(&bytes);
    cursor.skip(1).unwrap();
    let back = AsciiDataBuilder.build_from(&mut cursor).unwrap();
    assert_eq!(back.message(), "ok\u{FFFD}(\u{FFFD}!");
    assert_ne!(back.message().as_bytes(), &bytes[1..]);
    let empty = AsciiDataBuilder.build_from(&mut cursor).unwrap();
    assert_eq!(empty.message(), "");
}

#[test]
fn a_failure_of_the_source_is_passed_on() {
    let failed = Err(irox_bits::Error::new(irox_bits::ErrorKind::UnexpectedEof, "end"));
    assert!(matches!(message_from(failed), Err(MessageError::Source)));
    let text = message_from(Ok(String::from("abc"))).unwrap();
    assert_eq!(text.message(), "abc");
}
