//! Measured navigation data, message id 0x02.

use crate::bits::{
    be_u16_at, be_u32_at, lemma_be_bytes_len, lemma_be_u16_in, lemma_be_u32_in, lemma_subrange_join,
    lemma_subrange_middle, lemma_subrange_split, lemma_u16_bytes_of, lemma_u32_bytes_of, pattern16,
    pattern32, signed16, signed32, u16_be_bytes, u32_be_bytes, ByteCursor, ByteSink,
};
use crate::input::util::{
    gpstow_micros, gpstow_steps, lemma_gpstow_exact, read_gpstow, write_gpstow, GPSTOW_STEP_MICROS,
};
use crate::packet::{
    bytes12_at, field_bytes, field_i16, field_i32, field_u16, field_u8, lemma_bytes12_at, short_at,
    shortage, violation_at, MessageError, Packet, PacketBuilder,
};
use vstd::prelude::*;

verus! {

/// Message id of the measured navigation data message.
pub const NAV_DATA_ID: u8 = 0x02;

/// Number of bytes of the fields of a measured navigation data message.
pub const NAV_DATA_LEN: usize = 40;

/// Largest value that the field `sv_in_fix` can hold.
pub const MAX_SV_IN_FIX: u8 = 12;

/// The receiver's navigation solution: position and velocity as signed
/// fixed-point values, mode and status flags, and the satellites used.
#[derive(Clone, Copy, Debug, PartialEq, Eq)]
pub struct MeasuredNavigationData {
    /// X position in the earth-centred frame, in m.
    pub x_position: i32,
    /// Y position in the earth-centred frame, in m.
    pub y_position: i32,
    /// Z position in the earth-centred frame, in m.
    pub z_position: i32,
    /// X velocity, in eighths of a m/s.
    pub x_velocity: i16,
    /// Y velocity, in eighths of a m/s.
    pub y_velocity: i16,
    /// Z velocity, in eighths of a m/s.
    pub z_velocity: i16,
    /// Position mode flags.
    pub mode1: u8,
    /// Horizontal dilution of precision, in fifths.
    pub hdop: u8,
    /// Solution status flags.
    pub mode2: u8,
    /// GPS week number.
    pub gps_week: u16,
    /// Time of week, in microseconds.
    pub gps_tow: u64,
    /// Number of satellites used in the fix: at most one for each of the twelve
    /// channels.
    pub sv_in_fix: u8,
    /// Satellite number tracked on each of the twelve channels.
    pub prns: [u8; 12],
}

impl View for MeasuredNavigationData {
    type V = MeasuredNavigationData;

    open spec fn view(&self) -> MeasuredNavigationData {
        *self
    }
}

/// The message whose fields are the bytes of `s` from index `at` on: each field
/// where the layout puts it, the first field that the bytes do not reach
/// reported as a shortage, a count beyond its domain as a violation.
pub open spec fn parse_nav_data(s: Seq<u8>, at: int) -> Result<MeasuredNavigationData, MessageError> {
    let avail = s.len() - at;
    if avail < 4 {
        Err(short_at(at, 4))
    } else if avail < 8 {
        Err(short_at(at + 4, 4))
    } else if avail < 12 {
        Err(short_at(at + 8, 4))
    } else if avail < 14 {
        Err(short_at(at + 12, 2))
    } else if avail < 16 {
        Err(short_at(at + 14, 2))
    } else if avail < 18 {
        Err(short_at(at + 16, 2))
    } else if avail < 19 {
        Err(short_at(at + 18, 1))
    } else if avail < 20 {
        Err(short_at(at + 19, 1))
    } else if avail < 21 {
        Err(short_at(at + 20, 1))
    } else if avail < 23 {
        Err(short_at(at + 21, 2))
    } else if avail < 27 {
        Err(short_at(at + 23, 4))
    } else if avail < 28 {
        Err(short_at(at + 27, 1))
    } else if s[at + 27] > MAX_SV_IN_FIX {
        Err(violation_at(at + 27))
    } else if avail < 40 {
        Err(short_at(at + 28, 12))
    } else {
        Ok(
            MeasuredNavigationData {
                x_position: signed32(be_u32_at(s, at)),
                y_position: signed32(be_u32_at(s, at + 4)),
                z_position: signed32(be_u32_at(s, at + 8)),
                x_velocity: signed16(be_u16_at(s, at + 12)),
                y_velocity: signed16(be_u16_at(s, at + 14)),
                z_velocity: signed16(be_u16_at(s, at + 16)),
                mode1: s[at + 18],
                hdop: s[at + 19],
                mode2: s[at + 20],
                gps_week: be_u16_at(s, at + 21),
                gps_tow: gpstow_micros(be_u32_at(s, at + 23)),
                sv_in_fix: s[at + 27],
                prns: bytes12_at(s, at + 28),
            },
        )
    }
}

/// The bytes of the fields of `m`, in wire order; the first field whose value
/// the wire cannot hold is reported as a violation, at its offset in the
/// payload.
pub open spec fn nav_data_bytes(m: MeasuredNavigationData) -> Result<Seq<u8>, MessageError> {
    if gpstow_steps(m.gps_tow) > u32::MAX {
        Err(violation_at(24))
    } else if m.sv_in_fix > MAX_SV_IN_FIX {
        Err(violation_at(28))
    } else {
        Ok(
            u32_be_bytes(pattern32(m.x_position)) + u32_be_bytes(pattern32(m.y_position))
                + u32_be_bytes(pattern32(m.z_position)) + u16_be_bytes(pattern16(m.x_velocity))
                + u16_be_bytes(pattern16(m.y_velocity)) + u16_be_bytes(pattern16(m.z_velocity))
                + seq![m.mode1] + seq![m.hdop] + seq![m.mode2] + u16_be_bytes(m.gps_week)
                + u32_be_bytes(gpstow_steps(m.gps_tow) as u32) + seq![m.sv_in_fix] + m.prns@,
        )
    }
}

impl Packet for MeasuredNavigationData {
    open spec fn type_id(&self) -> u8 {
        NAV_DATA_ID
    }

    open spec fn encoding(v: MeasuredNavigationData) -> Result<Seq<u8>, MessageError> {
        nav_data_bytes(v)
    }

    fn get_bytes(&self) -> (r: Result<Vec<u8>, MessageError>) {
        let mut out = ByteSink::new();
        out.write_be_i32(self.x_position);
        out.write_be_i32(self.y_position);
        out.write_be_i32(self.z_position);
        out.write_be_i16(self.x_velocity);
        out.write_be_i16(self.y_velocity);
        out.write_be_i16(self.z_velocity);
        out.write_u8(self.mode1);
        out.write_u8(self.hdop);
        out.write_u8(self.mode2);
        out.write_be_u16(self.gps_week);
        if write_gpstow(&mut out, self.gps_tow).is_err() {
            return Err(MessageError::DomainViolation { offset: 24 });
        }
        if self.sv_in_fix > MAX_SV_IN_FIX {
            return Err(MessageError::DomainViolation { offset: 28 });
        }
        out.write_u8(self.sv_in_fix);
        out.write_all(self.prns.as_slice());
        proof {
            lemma_be_bytes_len(0, pattern32(self.x_position), 0);
            lemma_be_bytes_len(0, pattern32(self.y_position), 0);
            lemma_be_bytes_len(0, pattern32(self.z_position), 0);
            lemma_be_bytes_len(pattern16(self.x_velocity), 0, 0);
            lemma_be_bytes_len(pattern16(self.y_velocity), 0, 0);
            lemma_be_bytes_len(pattern16(self.z_velocity), 0, 0);
            lemma_be_bytes_len(self.gps_week, 0, 0);
            lemma_be_bytes_len(0, gpstow_steps(self.gps_tow) as u32, 0);
            assert(out@ =~= nav_data_bytes(*self)->Ok_0);
        }
        Ok(out.into_bytes())
    }

    fn get_type(&self) -> (id: u8) {
        NAV_DATA_ID
    }
}

/// Decoder of measured navigation data messages.
#[derive(Clone, Copy, Debug)]
pub struct MeasuredNavigationDataBuilder;

impl PacketBuilder<MeasuredNavigationData> for MeasuredNavigationDataBuilder {
    open spec fn decoding(s: Seq<u8>, at: int) -> Result<MeasuredNavigationData, MessageError> {
        parse_nav_data(s, at)
    }

    fn build_from(&self, input: &mut ByteCursor<'_>) -> (r: Result<MeasuredNavigationData, MessageError>)
        ensures
            r is Ok ==> final(input).offset() == old(input).offset() + NAV_DATA_LEN,
    {
        let mut probe = *input;
        let x_position = field_i32(&mut probe)?;
        let y_position = field_i32(&mut probe)?;
        let z_position = field_i32(&mut probe)?;
        let x_velocity = field_i16(&mut probe)?;
        let y_velocity = field_i16(&mut probe)?;
        let z_velocity = field_i16(&mut probe)?;
        let mode1 = field_u8(&mut probe)?;
        let hdop = field_u8(&mut probe)?;
        let mode2 = field_u8(&mut probe)?;
        let gps_week = field_u16(&mut probe)?;
        let gps_tow = match read_gpstow(&mut probe) {
            Ok(v) => v,
            Err(e) => {
                return Err(shortage(e));
            },
        };
        let sv_in_fix = field_u8(&mut probe)?;
        if sv_in_fix > MAX_SV_IN_FIX {
            return Err(MessageError::DomainViolation { offset: probe.position() - 1 });
        }
        let prns = field_bytes::<12>(&mut probe)?;
        proof {
            let s = old(input).source();
            let at = old(input).offset() as int;
            lemma_bytes12_at(s, at + 28, prns);
            assert(prns@ =~= s.subrange(at + 28, at + 40));
        }
        *input = probe;
        Ok(
            MeasuredNavigationData {
                x_position,
                y_position,
                z_position,
                x_velocity,
                y_velocity,
                z_velocity,
                mode1,
                hdop,
                mode2,
                gps_week,
                gps_tow,
                sv_in_fix,
                prns,
            },
        )
    }
}

/// A measured navigation data message that the wire can hold, with a time of
/// week of whole steps, reads back from its bytes as it was written, whatever
/// stands around the bytes.
pub proof fn lemma_nav_data_round_trip(m: MeasuredNavigationData, before: Seq<u8>, after: Seq<u8>)
    requires
        nav_data_bytes(m) is Ok,
        m.gps_tow % GPSTOW_STEP_MICROS == 0,
    ensures
        nav_data_bytes(m)->Ok_0.len() == NAV_DATA_LEN,
        parse_nav_data(before + nav_data_bytes(m)->Ok_0 + after, before.len() as int) == Ok::<
            MeasuredNavigationData,
            MessageError,
        >(m),
{
    let w = nav_data_bytes(m)->Ok_0;
    let s = before + w + after;
    let at = before.len() as int;
    let f0 = u32_be_bytes(pattern32(m.x_position));
    let f1 = u32_be_bytes(pattern32(m.y_position));
    let f2 = u32_be_bytes(pattern32(m.z_position));
    let f3 = u16_be_bytes(pattern16(m.x_velocity));
    let f4 = u16_be_bytes(pattern16(m.y_velocity));
    let f5 = u16_be_bytes(pattern16(m.z_velocity));
    let f6 = seq![m.mode1];
    let f7 = seq![m.hdop];
    let f8 = seq![m.mode2];
    let f9 = u16_be_bytes(m.gps_week);
    let f10 = u32_be_bytes(gpstow_steps(m.gps_tow) as u32);
    let f11 = seq![m.sv_in_fix];
    let f12 = m.prns@;
    let g1 = f0 + f1;
    let g2 = g1 + f2;
    let g3 = g2 + f3;
    let g4 = g3 + f4;
    let g5 = g4 + f5;
    let g6 = g5 + f6;
    let g7 = g6 + f7;
    let g8 = g7 + f8;
    let g9 = g8 + f9;
    let g10 = g9 + f10;
    let g11 = g10 + f11;
    let g12 = g11 + f12;
    assert(w == g12);
    lemma_be_bytes_len(0, pattern32(m.x_position), 0);
    lemma_be_bytes_len(0, pattern32(m.y_position), 0);
    lemma_be_bytes_len(0, pattern32(m.z_position), 0);
    lemma_be_bytes_len(pattern16(m.x_velocity), 0, 0);
    lemma_be_bytes_len(pattern16(m.y_velocity), 0, 0);
    lemma_be_bytes_len(pattern16(m.z_velocity), 0, 0);
    assert(f6.len() == 1);
    assert(f7.len() == 1);
    assert(f8.len() == 1);
    lemma_be_bytes_len(m.gps_week, 0, 0);
    lemma_be_bytes_len(0, gpstow_steps(m.gps_tow) as u32, 0);
    assert(f11.len() == 1);
    assert(f12.len() == 12);
    lemma_subrange_middle(before, w, after);
    lemma_subrange_split(s, at, at + 28, at + 40, g11, f12);
    lemma_subrange_split(s, at, at + 27, at + 28, g10, f11);
    lemma_subrange_split(s, at, at + 23, at + 27, g9, f10);
    lemma_subrange_split(s, at, at + 21, at + 23, g8, f9);
    lemma_subrange_split(s, at, at + 20, at + 21, g7, f8);
    lemma_subrange_split(s, at, at + 19, at + 20, g6, f7);
    lemma_subrange_split(s, at, at + 18, at + 19, g5, f6);
    lemma_subrange_split(s, at, at + 16, at + 18, g4, f5);
    lemma_subrange_split(s, at, at + 14, at + 16, g3, f4);
    lemma_subrange_split(s, at, at + 12, at + 14, g2, f3);
    lemma_subrange_split(s, at, at + 8, at + 12, g1, f2);
    lemma_subrange_split(s, at, at + 4, at + 8, f0, f1);
    lemma_be_u32_in(s, at, pattern32(m.x_position));
    lemma_be_u32_in(s, at + 4, pattern32(m.y_position));
    lemma_be_u32_in(s, at + 8, pattern32(m.z_position));
    lemma_be_u16_in(s, at + 12, pattern16(m.x_velocity));
    lemma_be_u16_in(s, at + 14, pattern16(m.y_velocity));
    lemma_be_u16_in(s, at + 16, pattern16(m.z_velocity));
    assert(s.subrange(at + 18, at + 19)[0] == m.mode1);
    assert(s.subrange(at + 19, at + 20)[0] == m.hdop);
    assert(s.subrange(at + 20, at + 21)[0] == m.mode2);
    lemma_be_u16_in(s, at + 21, m.gps_week);
    lemma_be_u32_in(s, at + 23, gpstow_steps(m.gps_tow) as u32);
    assert(s.subrange(at + 27, at + 28)[0] == m.sv_in_fix);
    lemma_bytes12_at(s, at + 28, m.prns);
}

/// The bytes from which a measured navigation data message was read are the
/// bytes that it is written as.
pub proof fn lemma_nav_data_canonical(s: Seq<u8>, at: int)
    requires
        0 <= at,
        parse_nav_data(s, at) is Ok,
    ensures
        nav_data_bytes(parse_nav_data(s, at)->Ok_0) == Ok::<Seq<u8>, MessageError>(
            s.subrange(at, at + NAV_DATA_LEN),
        ),
{
    let m = parse_nav_data(s, at)->Ok_0;
    lemma_u32_bytes_of(s, at);
    lemma_u32_bytes_of(s, at + 4);
    lemma_u32_bytes_of(s, at + 8);
    lemma_u16_bytes_of(s, at + 12);
    lemma_u16_bytes_of(s, at + 14);
    lemma_u16_bytes_of(s, at + 16);
    assert(seq![m.mode1] =~= s.subrange(at + 18, at + 19));
    assert(seq![m.hdop] =~= s.subrange(at + 19, at + 20));
    assert(seq![m.mode2] =~= s.subrange(at + 20, at + 21));
    lemma_u16_bytes_of(s, at + 21);
    lemma_u32_bytes_of(s, at + 23);
    lemma_gpstow_exact(be_u32_at(s, at + 23));
    assert(seq![m.sv_in_fix] =~= s.subrange(at + 27, at + 28));
    lemma_bytes12_at(s, at + 28, m.prns);
    lemma_subrange_join(s, at, at + 4, at + 8);
    lemma_subrange_join(s, at, at + 8, at + 12);
    lemma_subrange_join(s, at, at + 12, at + 14);
    lemma_subrange_join(s, at, at + 14, at + 16);
    lemma_subrange_join(s, at, at + 16, at + 18);
    lemma_subrange_join(s, at, at + 18, at + 19);
    lemma_subrange_join(s, at, at + 19, at + 20);
    lemma_subrange_join(s, at, at + 20, at + 21);
    lemma_subrange_join(s, at, at + 21, at + 23);
    lemma_subrange_join(s, at, at + 23, at + 27);
    lemma_subrange_join(s, at, at + 27, at + 28);
    lemma_subrange_join(s, at, at + 28, at + 40);
}

} // verus!
