use irox_sirf::bits::ByteCursor;
use irox_sirf::frame::{
    checksum, decode_stream, encode_frame, read_frame, Frame, FrameError, MAX_PAYLOAD,
};

fn payloads(results: &[Result<Frame, FrameError>]) -> Vec<Result<Vec<u8>, FrameError>> {
    results
        .iter()
        .map(|r| match r {
            Ok(frame) => Ok(frame.payload().to_vec()),
            Err(e) => Err(*e),
        })
        .collect()
}

#[test]
fn checksum_is_the_sum_truncated_to_fifteen_bits() {
    assert_eq!(checksum(&[]), 0);
    assert_eq!(checksum(&[0x02, 0x01]), 3);
    assert_eq!(checksum(&[0xFF; 200]), (200 * 255 % 0x8000) as u16);
    assert_eq!(checksum(&[0xFF; 200]), 18232);
    assert_eq!(checksum(&vec![0x80; 256]), 0);
}

#[test]
fn envelope_bytes_are_exact() {
    assert_eq!(
        encode_frame(&[0x02, 0x01]),
        Ok(vec![0xA0, 0xA2, 0x00, 0x02, 0x02, 0x01, 0x00, 0x03, 0xB0, 0xB3])
    );
    let long = vec![0xFFu8; 300];
    let bytes = encode_frame(&long).unwrap();
    assert_eq!(bytes.len(), 308);
    assert_eq!(&bytes[..4], &[0xA0, 0xA2, 0x01, 0x2C]);
    assert_eq!(&bytes[304..], &[0x2A, 0xD4, 0xB0, 0xB3]);
}

#[test]
fn a_payload_that_no_frame_can_carry_is_refused() {
    assert_eq!(encode_frame(&[]), Err(FrameError::InvalidLength { length: 0 }));
    let too_long = vec![0u8; MAX_PAYLOAD + 1];
    assert_eq!(encode_frame(&too_long), Err(FrameError::InvalidLength { length: 0x8000 }));
    assert!(encode_frame(&vec![0u8; MAX_PAYLOAD]).is_ok());
    assert!(matches!(Frame::new(vec![]), Err(FrameError::InvalidLength { length: 0 })));
    assert!(matches!(Frame::new(too_long), Err(FrameError::InvalidLength { length: 0x8000 })));
}

#[test]
fn a_frame_keeps_its_payload_and_message_id() {
    let frame = Frame::new(vec![0x07, 1, 2, 3]).unwrap();
    assert_eq!(frame.message_id(), 0x07);
    assert_eq!(frame.payload(), &[0x07, 1, 2, 3]);
    assert_eq!(frame.encode(), encode_frame(&[0x07, 1, 2, 3]).unwrap());
    assert_eq!(frame.into_payload(), vec![0x07, 1, 2, 3]);
}

#[test]
fn encoded_frames_decode_to_their_payloads() {
    let cases: Vec<Vec<u8>> = vec![
        vec![0x00],
        vec![0x02, 0x01],
        vec![0xA0, 0xA2, 0xB0, 0xB3],
        vec![0xFF; 200],
        (0..=255u8).collect(),
        vec![0x55; MAX_PAYLOAD],
    ];
    for payload in cases {
        let bytes = encode_frame(&payload).unwrap();
        assert_eq!(payloads(&decode_stream(&bytes)), vec![Ok(payload.clone())]);
        let mut cursor = ByteCursor::new(&bytes);
        let frame = read_frame(&mut cursor).unwrap();
        assert_eq!(frame.payload(), &payload[..]);
        assert_eq!(cursor.position(), bytes.len());
    }
}

#[test]
fn corrupting_any_payload_byte_is_a_checksum_mismatch() {
    let payload = vec![0x07, 0x10, 0x20, 0x30, 0xFF, 0x00];
    let good = encode_frame(&payload).unwrap();
    let expected = checksum(&payload);
    for i in 0..payload.len() {
        for delta in [1u8, 0x7F, 0x80, 0xFF] {
            let mut bad = good.clone();
            bad[4 + i] = bad[4 + i].wrapping_add(delta);
            let mut damaged = payload.clone();
            damaged[i] = damaged[i].wrapping_add(delta);
            let mut cursor = ByteCursor::new(&bad);
            let r = read_frame(&mut cursor);
            assert!(matches!(
                r,
                Err(FrameError::ChecksumMismatch { expected: e, actual: a })
                    if e == expected && a == checksum(&damaged)
            ));
            assert_eq!(cursor.position(), payload.len() + 6);
        }
    }
}

#[test]
fn one_corrupt_frame_costs_no_frame_behind_it() {
    for n in 0..5usize {
        let mut stream = encode_frame(&[0x02, 0x11, 0x22]).unwrap();
        stream[5] ^= 0x40;
        let mut expected: Vec<Result<Vec<u8>, FrameError>> =
            vec![Err(FrameError::ChecksumMismatch { expected: 0x35, actual: 0x75 })];
        for k in 0..n {
            let payload = vec![0x07, k as u8, 0xA0, 0xA2];
            stream.extend(encode_frame(&payload).unwrap());
            expected.push(Ok(payload));
        }
        let got = decode_stream(&stream);
        assert_eq!(payloads(&got), expected);
        assert_eq!(got.iter().filter(|r| r.is_ok()).count(), n);
    }
}

#[test]
fn a_corrupt_length_can_swallow_the_frame_behind_it() {
    let mut stream = encode_frame(&[0x02, 0x11]).unwrap();
    stream[3] = 0x0C;
    stream.extend(encode_frame(&[0x07, 0x01]).unwrap());
    let got = decode_stream(&stream);
    assert_eq!(got.iter().filter(|r| r.is_ok()).count(), 0);
}

#[test]
fn a_bad_trailer_is_reported_and_passed() {
    let mut stream = encode_frame(&[0x02, 0x11]).unwrap();
    let n = stream.len();
    stream[n - 1] = 0x00;
    stream.extend(encode_frame(&[0x07]).unwrap());
    assert_eq!(
        payloads(&decode_stream(&stream)),
        vec![Err(FrameError::InvalidTrailer), Ok(vec![0x07])]
    );
}

#[test]
fn a_bad_length_is_reported() {
    let zero = [0xA0, 0xA2, 0x00, 0x00, 0x00, 0x00, 0xB0, 0xB3];
    let mut cursor = ByteCursor::new(&zero);
    assert!(matches!(read_frame(&mut cursor), Err(FrameError::InvalidLength { length: 0 })));
    assert_eq!(cursor.position(), 4);
    let reserved = [0xA0, 0xA2, 0x80, 0x01, 0x07, 0x00, 0x07, 0xB0, 0xB3];
    let mut cursor = ByteCursor::new(&reserved);
    assert!(matches!(read_frame(&mut cursor), Err(FrameError::InvalidLength { length: 0x8001 })));
    assert_eq!(cursor.position(), 4);
}

#[test]
fn noise_before_a_frame_is_skipped() {
    let mut stream = vec![0x00, 0xA0, 0xA0, 0x13, 0xA2, 0xB0, 0xB3];
    stream.extend(encode_frame(&[0x08, 0x09]).unwrap());
    stream.extend([0xDE, 0xAD]);
    stream.extend(encode_frame(&[0x09]).unwrap());
    stream.extend([0xBE, 0xEF]);
    assert_eq!(payloads(&decode_stream(&stream)), vec![Ok(vec![0x08, 0x09]), Ok(vec![0x09])]);
}

#[test]
fn a_stream_without_a_start_marker_holds_no_frame() {
    assert_eq!(payloads(&decode_stream(&[])), vec![]);
    assert_eq!(payloads(&decode_stream(&[1, 2, 3, 0xA2, 0xA0, 0xB0])), vec![]);
    let noise = [1u8, 2, 3];
    let mut cursor = ByteCursor::new(&noise);
    assert!(matches!(read_frame(&mut cursor), Err(FrameError::MissingStart)));
    assert_eq!(cursor.position(), 3);
    let half = [1u8, 2, 0xA0];
    let mut cursor = ByteCursor::new(&half);
    assert!(matches!(read_frame(&mut cursor), Err(FrameError::MissingStart)));
    assert_eq!(cursor.position(), 2);
}

#[test]
fn a_frame_that_the_stream_ends_in_is_left_for_later() {
    let whole = encode_frame(&[0x02, 0x11, 0x22]).unwrap();
    for cut in 2..whole.len() {
        let mut part = vec![0x99];
        part.extend(&whole[..cut]);
        assert_eq!(payloads(&decode_stream(&part)), vec![Err(FrameError::UnexpectedEnd)]);
        let mut cursor = ByteCursor::new(&part);
        assert!(matches!(read_frame(&mut cursor), Err(FrameError::UnexpectedEnd)));
        assert_eq!(cursor.position(), 1);
    }
}
