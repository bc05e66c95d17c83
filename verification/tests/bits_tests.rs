use irox_sirf::bits::{
    to_pattern16, to_pattern32, to_pattern8, to_signed16, to_signed32, to_signed8, ByteCursor,
    ByteOrder, ByteSink, UnexpectedEnd,
};

#[test]
fn cursor_reads_big_endian_fields_in_order() {
    let data = [0x12, 0x34, 0x56, 0x78, 0x9A, 0xBC, 0xDE, 0xF0, 0x01, 0x02, 0x03, 0x04, 0x05, 0x06, 0x07];
    let mut cursor = ByteCursor::new(&data);
    assert_eq!(cursor.read_u8(), Ok(0x12));
    assert_eq!(cursor.read_be_u16(), Ok(0x3456));
    assert_eq!(cursor.read_be_u32(), Ok(0x789A_BCDE));
    assert_eq!(cursor.position(), 7);
    assert_eq!(cursor.read_be_u64(), Ok(0xF001_0203_0405_0607));
    assert_eq!(cursor.remaining(), 0);
}

#[test]
fn cursor_reads_little_endian_fields() {
    let data = [0x34, 0x12, 0x78, 0x56, 0x34, 0x12, 1, 2, 3, 4, 5, 6, 7, 8];
    let mut cursor = ByteCursor::new(&data);
    assert_eq!(cursor.read_u16(ByteOrder::LittleEndian), Ok(0x1234));
    assert_eq!(cursor.read_u32(ByteOrder::LittleEndian), Ok(0x1234_5678));
    assert_eq!(cursor.read_u64(ByteOrder::LittleEndian), Ok(0x0807_0605_0403_0201));
}

#[test]
fn cursor_reads_signed_fields() {
    let data = [0xFF, 0xFF, 0xFE, 0x80, 0x00, 0x00, 0x00, 0x7F];
    let mut cursor = ByteCursor::new(&data);
    assert_eq!(cursor.read_i8(), Ok(-1));
    assert_eq!(cursor.read_be_i16(), Ok(-2));
    assert_eq!(cursor.read_be_i32(), Ok(i32::MIN));
    assert_eq!(cursor.read_i8(), Ok(127));
}

#[test]
fn short_read_fails_without_moving() {
    let data = [1, 2, 3];
    let mut cursor = ByteCursor::new(&data);
    assert_eq!(cursor.read_u8(), Ok(1));
    assert_eq!(cursor.read_be_u32(), Err(UnexpectedEnd { offset: 1, needed: 4 }));
    assert_eq!(cursor.position(), 1);
    assert_eq!(cursor.read_be_u64(), Err(UnexpectedEnd { offset: 1, needed: 8 }));
    assert_eq!(cursor.read_be_u16(), Ok(0x0203));
    assert_eq!(cursor.read_u8(), Err(UnexpectedEnd { offset: 3, needed: 1 }));
    assert_eq!(cursor.read_be_u16(), Err(UnexpectedEnd { offset: 3, needed: 2 }));
    assert_eq!(cursor.read_exact(1), Err(UnexpectedEnd { offset: 3, needed: 1 }));
    assert_eq!(cursor.skip(1), Err(UnexpectedEnd { offset: 3, needed: 1 }));
    assert_eq!(cursor.position(), 3);
}

#[test]
fn one_byte_left_is_no_sixteen_bit_field() {
    let data = [0xAB];
    let mut cursor = ByteCursor::new(&data);
    assert_eq!(cursor.read_be_u16(), Err(UnexpectedEnd { offset: 0, needed: 2 }));
    assert_eq!(cursor.read_u8(), Ok(0xAB));
}

#[test]
fn read_exact_and_read_all() {
    let data = [9, 8, 7, 6, 5];
    let mut cursor = ByteCursor::new(&data);
    assert_eq!(cursor.read_exact(2), Ok(vec![9, 8]));
    assert_eq!(cursor.read_exact(0), Ok(vec![]));
    assert_eq!(cursor.read_all(), vec![7, 6, 5]);
    assert_eq!(cursor.read_all(), Vec::<u8>::new());
    assert_eq!(cursor.position(), 5);
}

#[test]
fn peek_and_skip() {
    let data = [1, 2, 3];
    let mut cursor = ByteCursor::new(&data);
    assert_eq!(cursor.peek_u8(0), Some(1));
    assert_eq!(cursor.peek_u8(2), Some(3));
    assert_eq!(cursor.peek_u8(3), None);
    assert_eq!(cursor.position(), 0);
    assert_eq!(cursor.skip(2), Ok(()));
    assert_eq!(cursor.peek_u8(0), Some(3));
    assert_eq!(cursor.peek_u8(1), None);
}

#[test]
fn sink_writes_in_both_orders() {
    let mut sink = ByteSink::new();
    sink.write_u8(0x01);
    sink.write_be_u16(0x0203);
    sink.write_be_u32(0x0405_0607);
    sink.write_be_u64(0x0809_0A0B_0C0D_0E0F);
    sink.write_u16(0x1234, ByteOrder::LittleEndian);
    sink.write_u32(0x1234_5678, ByteOrder::LittleEndian);
    sink.write_u64(0x0102_0304_0506_0708, ByteOrder::LittleEndian);
    assert_eq!(sink.len(), 29);
    assert_eq!(
        sink.into_bytes(),
        vec![
            1, 2, 3, 4, 5, 6, 7, 8, 9, 10, 11, 12, 13, 14, 15, 0x34, 0x12, 0x78, 0x56, 0x34, 0x12, 8,
            7, 6, 5, 4, 3, 2, 1
        ]
    );
}

#[test]
fn sink_writes_signed_fields() {
    let mut sink = ByteSink::new();
    sink.write_i8(-1);
    sink.write_be_i16(-2);
    sink.write_be_i32(-3);
    sink.write_all(&[0xAA, 0xBB]);
    assert_eq!(sink.into_bytes(), vec![0xFF, 0xFF, 0xFE, 0xFF, 0xFF, 0xFF, 0xFD, 0xAA, 0xBB]);
}

#[test]
fn what_is_written_reads_back() {
    let values = [0u32, 1, 0xFF, 0x100, 0xFFFF, 0x1_0000, 0x7FFF_FFFF, 0x8000_0000, u32::MAX];
    for order in [ByteOrder::BigEndian, ByteOrder::LittleEndian] {
        for v in values {
            let mut sink = ByteSink::new();
            sink.write_u32(v, order);
            sink.write_u64((v as u64) << 17, order);
            sink.write_u16((v % 0x1_0000) as u16, order);
            let bytes = sink.into_bytes();
            let mut cursor = ByteCursor::new(&bytes);
            assert_eq!(cursor.read_u32(order), Ok(v));
            assert_eq!(cursor.read_u64(order), Ok((v as u64) << 17));
            assert_eq!(cursor.read_u16(order), Ok((v % 0x1_0000) as u16));
        }
    }
}

#[test]
fn twos_complement_patterns() {
    assert_eq!(to_signed8(0x80), i8::MIN);
    assert_eq!(to_signed8(0x7F), i8::MAX);
    assert_eq!(to_signed16(0xFFFF), -1);
    assert_eq!(to_signed16(0x8000), i16::MIN);
    assert_eq!(to_signed32(0xFFFF_FFFE), -2);
    assert_eq!(to_signed32(0x8000_0000), i32::MIN);
    assert_eq!(to_pattern8(-1), 0xFF);
    assert_eq!(to_pattern16(i16::MIN), 0x8000);
    assert_eq!(to_pattern32(-2), 0xFFFF_FFFE);
    for v in [i16::MIN, -1, 0, 1, i16::MAX] {
        assert_eq!(to_signed16(to_pattern16(v)), v);
    }
}
