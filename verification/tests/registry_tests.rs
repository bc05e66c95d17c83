use irox_sirf::frame::{encode_frame, Frame, FrameError};
use irox_sirf::input::x07_clockstatus::ClockStatus;
use irox_sirf::input::x35_advpwrmgmt::AdvancedPowerManagement;
use irox_sirf::input::xff_asciidata::AsciiData;
use irox_sirf::message::{Decoder, Message};
use irox_sirf::packet::{MessageError, Packet};
use irox_sirf::registry::{
    encode_message, DispatchError, EncodeError, LinkError, Registry, RegistryError,
};

fn clock(k: u32) -> Message {
    Message::ClockStatus(ClockStatus {
        extended_gps_week: 2000,
        gps_tow: 10_000 * k as u64,
        svs: 9,
        clock_drift: k,
        clock_bias: 2 * k,
        estimated_gps_time: 3 * k,
    })
}

fn power() -> Message {
    Message::PowerMgmt(AdvancedPowerManagement {
        apm_enabled: 1,
        number_fixes: 2,
        time_between_fixes: 3,
        spare1: 4,
        max_horizontal_error: 5,
        max_vertical_error: 6,
        max_response_time: 7,
        time_acc_priority: 8,
        power_duty_cycle: 9,
        time_duty_cycle: 10,
        spare2: 11,
    })
}

fn same(a: &Message, b: &Message) -> bool {
    a.get_type() == b.get_type() && a.get_bytes() == b.get_bytes()
}

#[test]
fn an_id_is_registered_once() {
    let mut registry = Registry::new();
    assert_eq!(registry.lookup(0x07), None);
    assert_eq!(registry.register(0x07, Decoder::ClockStatus), Ok(()));
    assert_eq!(registry.lookup(0x07), Some(Decoder::ClockStatus));
    assert_eq!(
        registry.register(0x07, Decoder::Text),
        Err(RegistryError::Duplicate { message_id: 0x07 })
    );
    assert_eq!(
        registry.register(0x07, Decoder::ClockStatus),
        Err(RegistryError::Duplicate { message_id: 0x07 })
    );
    assert_eq!(registry.lookup(0x07), Some(Decoder::ClockStatus));
    assert_eq!(registry.register(0x00, Decoder::Text), Ok(()));
    assert_eq!(registry.register(0xFF, Decoder::Text), Ok(()));
    assert_eq!(registry.lookup(0x00), Some(Decoder::Text));
    assert_eq!(registry.lookup(0x01), None);
}

#[test]
fn the_standard_registry_holds_every_message_type() {
    let registry = Registry::standard();
    let expected = [
        (0x02, Decoder::NavData),
        (0x04, Decoder::TrackData),
        (0x07, Decoder::ClockStatus),
        (0x08, Decoder::Subframe),
        (0x1E, Decoder::SvState),
        (0x35, Decoder::PowerMgmt),
        (0xFF, Decoder::Text),
    ];
    for id in 0..=255u8 {
        let found = expected.iter().find(|(i, _)| *i == id).map(|(_, d)| *d);
        assert_eq!(registry.lookup(id), found);
        if let Some(decoder) = found {
            assert_eq!(decoder.standard_id(), id);
        }
    }
}

#[test]
fn an_unknown_message_id_keeps_its_payload() {
    let registry = Registry::standard();
    let payload = vec![0x29, 0xDE, 0xAD, 0xBE, 0xEF, 0x00, 0xFF];
    let frame = Frame::new(payload.clone()).unwrap();
    match registry.dispatch(&frame) {
        Err(DispatchError::UnknownMessageType { message_id, payload: kept }) => {
            assert_eq!(message_id, 0x29);
            assert_eq!(kept, payload);
        }
        _ => panic!("an unknown message id was dispatched"),
    }
    let empty = Registry::new();
    let frame = Frame::new(vec![0x07]).unwrap();
    assert!(matches!(
        empty.dispatch(&frame),
        Err(DispatchError::UnknownMessageType { message_id: 0x07, payload }) if payload == vec![0x07]
    ));
}

#[test]
fn a_payload_that_its_decoder_refuses_is_reported_with_its_id() {
    let registry = Registry::standard();
    let frame = Frame::new(vec![0x07, 1, 2, 3]).unwrap();
    assert!(matches!(
        registry.dispatch(&frame),
        Err(DispatchError::Decode {
            message_id: 0x07,
            error: MessageError::UnexpectedEnd { offset: 3, needed: 4 }
        })
    ));
}

#[test]
fn dispatch_goes_by_the_registration() {
    let mut registry = Registry::new();
    registry.register(0x44, Decoder::Text).unwrap();
    let frame = Frame::new(vec![0x44, b'h', b'i']).unwrap();
    match registry.dispatch(&frame) {
        Ok(Message::Text(text)) => assert_eq!(text.message(), "hi"),
        _ => panic!("the text decoder was not used"),
    }
}

#[test]
fn an_encoded_message_is_delivered_as_it_was() {
    let registry = Registry::standard();
    let text = Message::Text(AsciiData::new(String::from("Version 3.2")));
    for m in [clock(1), clock(60_479_999), power(), text] {
        let bytes = encode_message(&m).unwrap();
        let got = registry.decode_messages(&bytes);
        assert_eq!(got.len(), 1);
        assert!(same(got[0].as_ref().unwrap(), &m));
    }
}

#[test]
fn the_frame_of_a_message_is_exact() {
    let bytes = encode_message(&power()).unwrap();
    assert_eq!(
        bytes,
        vec![0xA0, 0xA2, 0x00, 0x0C, 0x35, 1, 2, 3, 4, 5, 6, 7, 8, 9, 10, 11, 0x00, 0x77, 0xB0, 0xB3]
    );
    let mut payload = vec![0x35];
    payload.extend(power().get_bytes().unwrap());
    assert_eq!(bytes, encode_frame(&payload).unwrap());
}

#[test]
fn a_message_that_cannot_be_framed_is_refused() {
    let mut m = ClockStatus {
        extended_gps_week: 0,
        gps_tow: u64::MAX,
        svs: 0,
        clock_drift: 0,
        clock_bias: 0,
        estimated_gps_time: 0,
    };
    assert_eq!(
        encode_message(&Message::ClockStatus(m)),
        Err(EncodeError::Message(MessageError::DomainViolation { offset: 3 }))
    );
    m.gps_tow = 0;
    assert!(encode_message(&Message::ClockStatus(m)).is_ok());
    let long = Message::Text(AsciiData::new("x".repeat(0x7FFF)));
    assert_eq!(
        encode_message(&long),
        Err(EncodeError::Frame(FrameError::InvalidLength { length: 0x8000 }))
    );
    let fits = Message::Text(AsciiData::new("x".repeat(0x7FFE)));
    assert_eq!(encode_message(&fits).unwrap().len(), 0x7FFF + 8);
}

#[test]
fn one_corrupt_frame_costs_no_message_behind_it() {
    let registry = Registry::standard();
    for n in 0..4u32 {
        let mut stream = encode_message(&clock(7)).unwrap();
        stream[9] = stream[9].wrapping_add(1);
        for k in 0..n {
            stream.extend(encode_message(&clock(k)).unwrap());
        }
        let got = registry.decode_messages(&stream);
        assert_eq!(got.len(), n as usize + 1);
        assert!(matches!(
            got[0],
            Err(LinkError::Frame(FrameError::ChecksumMismatch { expected, actual }))
                if actual == expected + 1
        ));
        for k in 0..n {
            assert!(same(got[k as usize + 1].as_ref().unwrap(), &clock(k)));
        }
        assert_eq!(got.iter().filter(|r| r.is_ok()).count(), n as usize);
    }
}

#[test]
fn unknown_and_refused_frames_are_reported_in_place() {
    let registry = Registry::standard();
    let mut stream = encode_frame(&[0x29, 1, 2]).unwrap();
    stream.extend(encode_message(&power()).unwrap());
    stream.extend(encode_frame(&[0x35, 1]).unwrap());
    stream.extend([0xA0, 0xA2, 0x00]);
    let got = registry.decode_messages(&stream);
    assert_eq!(got.len(), 4);
    assert!(matches!(
        &got[0],
        Err(LinkError::Dispatch(DispatchError::UnknownMessageType { message_id: 0x29, payload }))
            if payload == &vec![0x29, 1, 2]
    ));
    assert!(same(got[1].as_ref().unwrap(), &power()));
    assert!(matches!(
        got[2],
        Err(LinkError::Dispatch(DispatchError::Decode {
            message_id: 0x35,
            error: MessageError::UnexpectedEnd { offset: 2, needed: 1 }
        }))
    ));
    assert!(matches!(got[3], Err(LinkError::Frame(FrameError::UnexpectedEnd))));
}

#[test]
fn decoding_the_same_bytes_twice_gives_the_same_messages() {
    let registry = Registry::standard();
    let mut stream = encode_message(&clock(5)).unwrap();
    stream.extend(encode_message(&power()).unwrap());
    let first = registry.decode_messages(&stream);
    let second = registry.decode_messages(&stream);
    assert_eq!(first.len(), 2);
    for (a, b) in first.iter().zip(second.iter()) {
        assert!(same(a.as_ref().unwrap(), b.as_ref().unwrap()));
    }
}
