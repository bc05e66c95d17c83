//! Satellite state, message id 0x1E.

use crate::bits::{
    be_u32_at, be_u64_at, lemma_be_bytes_len, lemma_be_u32_in, lemma_be_u64_in, lemma_subrange_join,
    lemma_subrange_middle, lemma_subrange_split, lemma_u32_bytes_of, lemma_u64_bytes_of,
    u32_be_bytes, u64_be_bytes, ByteCursor, ByteSink,
};
use crate::packet::{field_u32, field_u64, field_u8, short_at, MessageError, Packet, PacketBuilder};
use vstd::prelude::*;

verus! {

/// Message id of the satellite state message.
pub const SV_STATE_ID: u8 = 0x1E;

/// Number of bytes of the fields of a satellite state message.
pub const SV_STATE_LEN: usize = 82;

/// The state of one satellite as the navigation library computed it.
///
/// Floating-point fields are carried as their bit patterns, which the
/// wire holds big-endian.
#[derive(Clone, Copy, Debug, PartialEq, Eq)]
pub struct NavLibSVState {
    /// Satellite number.
    pub sv_id: u8,
    /// GPS time of the state, in s: the bits of an IEEE 754 double.
    pub gps_time: u64,
    /// X position of the satellite, in m: the bits of an IEEE 754 double.
    pub position_x: u64,
    /// Y position of the satellite, in m: the bits of an IEEE 754 double.
    pub position_y: u64,
    /// Z position of the satellite, in m: the bits of an IEEE 754 double.
    pub position_z: u64,
    /// X velocity of the satellite, in m/s: the bits of an IEEE 754 double.
    pub velocity_x: u64,
    /// Y velocity of the satellite, in m/s: the bits of an IEEE 754 double.
    pub velocity_y: u64,
    /// Z velocity of the satellite, in m/s: the bits of an IEEE 754 double.
    pub velocity_z: u64,
    /// Clock bias of the satellite, in s: the bits of an IEEE 754 double.
    pub clock_bias: u64,
    /// Clock drift of the satellite, in s/s: the bits of an IEEE 754 single.
    pub clock_drift: u32,
    /// Source of the orbit data.
    pub ephemeris_flag: u8,
    /// Reserved.
    pub reserved1: u32,
    /// Reserved.
    pub reserved2: u32,
    /// Ionospheric delay, in m: the bits of an IEEE 754 single.
    pub ionospheric_delay: u32,
}

impl View for NavLibSVState {
    type V = NavLibSVState;

    open spec fn view(&self) -> NavLibSVState {
        *self
    }
}

/// The message whose fields are the bytes of `s` from index `at` on: each field
/// where the layout puts it, the first field that the bytes do not reach
/// reported as a shortage.
pub open spec fn parse_sv_state(s: Seq<u8>, at: int) -> Result<NavLibSVState, MessageError> {
    let avail = s.len() - at;
    if avail < 1 {
        Err(short_at(at, 1))
    } else if avail < 9 {
        Err(short_at(at + 1, 8))
    } else if avail < 17 {
        Err(short_at(at + 9, 8))
    } else if avail < 25 {
        Err(short_at(at + 17, 8))
    } else if avail < 33 {
        Err(short_at(at + 25, 8))
    } else if avail < 41 {
        Err(short_at(at + 33, 8))
    } else if avail < 49 {
        Err(short_at(at + 41, 8))
    } else if avail < 57 {
        Err(short_at(at + 49, 8))
    } else if avail < 65 {
        Err(short_at(at + 57, 8))
    } else if avail < 69 {
        Err(short_at(at + 65, 4))
    } else if avail < 70 {
        Err(short_at(at + 69, 1))
    } else if avail < 74 {
        Err(short_at(at + 70, 4))
    } else if avail < 78 {
        Err(short_at(at + 74, 4))
    } else if avail < 82 {
        Err(short_at(at + 78, 4))
    } else {
        Ok(
            NavLibSVState {
                sv_id: s[at],
                gps_time: be_u64_at(s, at + 1),
                position_x: be_u64_at(s, at + 9),
                position_y: be_u64_at(s, at + 17),
                position_z: be_u64_at(s, at + 25),
                velocity_x: be_u64_at(s, at + 33),
                velocity_y: be_u64_at(s, at + 41),
                velocity_z: be_u64_at(s, at + 49),
                clock_bias: be_u64_at(s, at + 57),
                clock_drift: be_u32_at(s, at + 65),
                ephemeris_flag: s[at + 69],
                reserved1: be_u32_at(s, at + 70),
                reserved2: be_u32_at(s, at + 74),
                ionospheric_delay: be_u32_at(s, at + 78),
            },
        )
    }
}

/// The bytes of the fields of `m`, in wire order.
pub open spec fn sv_state_bytes(m: NavLibSVState) -> Result<Seq<u8>, MessageError> {
    Ok(
        seq![m.sv_id] + u64_be_bytes(m.gps_time) + u64_be_bytes(m.position_x)
            + u64_be_bytes(m.position_y) + u64_be_bytes(m.position_z)
            + u64_be_bytes(m.velocity_x) + u64_be_bytes(m.velocity_y)
            + u64_be_bytes(m.velocity_z) + u64_be_bytes(m.clock_bias)
            + u32_be_bytes(m.clock_drift) + seq![m.ephemeris_flag] + u32_be_bytes(m.reserved1)
            + u32_be_bytes(m.reserved2) + u32_be_bytes(m.ionospheric_delay),
    )
}

impl Packet for NavLibSVState {
    open spec fn type_id(&self) -> u8 {
        SV_STATE_ID
    }

    open spec fn encoding(v: NavLibSVState) -> Result<Seq<u8>, MessageError> {
        sv_state_bytes(v)
    }

    fn get_bytes(&self) -> (r: Result<Vec<u8>, MessageError>) {
        let mut out = ByteSink::new();
        out.write_u8(self.sv_id);
        out.write_be_u64(self.gps_time);
        out.write_be_u64(self.position_x);
        out.write_be_u64(self.position_y);
        out.write_be_u64(self.position_z);
        out.write_be_u64(self.velocity_x);
        out.write_be_u64(self.velocity_y);
        out.write_be_u64(self.velocity_z);
        out.write_be_u64(self.clock_bias);
        out.write_be_u32(self.clock_drift);
        out.write_u8(self.ephemeris_flag);
        out.write_be_u32(self.reserved1);
        out.write_be_u32(self.reserved2);
        out.write_be_u32(self.ionospheric_delay);
        proof {
            lemma_be_bytes_len(0, 0, self.gps_time);
            lemma_be_bytes_len(0, 0, self.position_x);
            lemma_be_bytes_len(0, 0, self.position_y);
            lemma_be_bytes_len(0, 0, self.position_z);
            lemma_be_bytes_len(0, 0, self.velocity_x);
            lemma_be_bytes_len(0, 0, self.velocity_y);
            lemma_be_bytes_len(0, 0, self.velocity_z);
            lemma_be_bytes_len(0, 0, self.clock_bias);
            lemma_be_bytes_len(0, self.clock_drift, 0);
            lemma_be_bytes_len(0, self.reserved1, 0);
            lemma_be_bytes_len(0, self.reserved2, 0);
            lemma_be_bytes_len(0, self.ionospheric_delay, 0);
            assert(out@ =~= sv_state_bytes(*self)->Ok_0);
        }
        Ok(out.into_bytes())
    }

    fn get_type(&self) -> (id: u8) {
        SV_STATE_ID
    }
}

/// Decoder of satellite state messages.
#[derive(Clone, Copy, Debug)]
pub struct NavLibSVStateBuilder;

impl PacketBuilder<NavLibSVState> for NavLibSVStateBuilder {
    open spec fn decoding(s: Seq<u8>, at: int) -> Result<NavLibSVState, MessageError> {
        parse_sv_state(s, at)
    }

    fn build_from(&self, input: &mut ByteCursor<'_>) -> (r: Result<NavLibSVState, MessageError>)
        ensures
            r is Ok ==> final(input).offset() == old(input).offset() + SV_STATE_LEN,
    {
        let mut probe = *input;
        let sv_id = field_u8(&mut probe)?;
        let gps_time = field_u64(&mut probe)?;
        let position_x = field_u64(&mut probe)?;
        let position_y = field_u64(&mut probe)?;
        let position_z = field_u64(&mut probe)?;
        let velocity_x = field_u64(&mut probe)?;
        let velocity_y = field_u64(&mut probe)?;
        let velocity_z = field_u64(&mut probe)?;
        let clock_bias = field_u64(&mut probe)?;
        let clock_drift = field_u32(&mut probe)?;
        let ephemeris_flag = field_u8(&mut probe)?;
        let reserved1 = field_u32(&mut probe)?;
        let reserved2 = field_u32(&mut probe)?;
        let ionospheric_delay = field_u32(&mut probe)?;
        *input = probe;
        Ok(
            NavLibSVState {
                sv_id,
                gps_time,
                position_x,
                position_y,
                position_z,
                velocity_x,
                velocity_y,
                velocity_z,
                clock_bias,
                clock_drift,
                ephemeris_flag,
                reserved1,
                reserved2,
                ionospheric_delay,
            },
        )
    }
}

/// A satellite state message that the wire can hold reads back from its bytes
/// as it was written, whatever stands around the bytes.
pub proof fn lemma_sv_state_round_trip(m: NavLibSVState, before: Seq<u8>, after: Seq<u8>)
    requires
        sv_state_bytes(m) is Ok,
    ensures
        sv_state_bytes(m)->Ok_0.len() == SV_STATE_LEN,
        parse_sv_state(before + sv_state_bytes(m)->Ok_0 + after, before.len() as int) == Ok::<
            NavLibSVState,
            MessageError,
        >(m),
{
    let w = sv_state_bytes(m)->Ok_0;
    let s = before + w + after;
    let at = before.len() as int;
    let f0 = seq![m.sv_id];
    let f1 = u64_be_bytes(m.gps_time);
    let f2 = u64_be_bytes(m.position_x);
    let f3 = u64_be_bytes(m.position_y);
    let f4 = u64_be_bytes(m.position_z);
    let f5 = u64_be_bytes(m.velocity_x);
    let f6 = u64_be_bytes(m.velocity_y);
    let f7 = u64_be_bytes(m.velocity_z);
    let f8 = u64_be_bytes(m.clock_bias);
    let f9 = u32_be_bytes(m.clock_drift);
    let f10 = seq![m.ephemeris_flag];
    let f11 = u32_be_bytes(m.reserved1);
    let f12 = u32_be_bytes(m.reserved2);
    let f13 = u32_be_bytes(m.ionospheric_delay);
    let g1 = f0 + f1;
    let g2 = g1 + f2;
    let g3 = g2 + f3;
    let g4 = g3 + f4;
    let g5 = g4 + f5;
    let g6 = g5 + f6;
    let g7 = g6 + f7;
    let g8 = g7 + f8;
    let g9 = g8 + f9;
    let g10 = g9 + f10;
    let g11 = g10 + f11;
    let g12 = g11 + f12;
    let g13 = g12 + f13;
    assert(w == g13);
    assert(f0.len() == 1);
    lemma_be_bytes_len(0, 0, m.gps_time);
    lemma_be_bytes_len(0, 0, m.position_x);
    lemma_be_bytes_len(0, 0, m.position_y);
    lemma_be_bytes_len(0, 0, m.position_z);
    lemma_be_bytes_len(0, 0, m.velocity_x);
    lemma_be_bytes_len(0, 0, m.velocity_y);
    lemma_be_bytes_len(0, 0, m.velocity_z);
    lemma_be_bytes_len(0, 0, m.clock_bias);
    lemma_be_bytes_len(0, m.clock_drift, 0);
    assert(f10.len() == 1);
    lemma_be_bytes_len(0, m.reserved1, 0);
    lemma_be_bytes_len(0, m.reserved2, 0);
    lemma_be_bytes_len(0, m.ionospheric_delay, 0);
    lemma_subrange_middle(before, w, after);
    lemma_subrange_split(s, at, at + 78, at + 82, g12, f13);
    lemma_subrange_split(s, at, at + 74, at + 78, g11, f12);
    lemma_subrange_split(s, at, at + 70, at + 74, g10, f11);
    lemma_subrange_split(s, at, at + 69, at + 70, g9, f10);
    lemma_subrange_split(s, at, at + 65, at + 69, g8, f9);
    lemma_subrange_split(s, at, at + 57, at + 65, g7, f8);
    lemma_subrange_split(s, at, at + 49, at + 57, g6, f7);
    lemma_subrange_split(s, at, at + 41, at + 49, g5, f6);
    lemma_subrange_split(s, at, at + 33, at + 41, g4, f5);
    lemma_subrange_split(s, at, at + 25, at + 33, g3, f4);
    lemma_subrange_split(s, at, at + 17, at + 25, g2, f3);
    lemma_subrange_split(s, at, at + 9, at + 17, g1, f2);
    lemma_subrange_split(s, at, at + 1, at + 9, f0, f1);
    assert(s.subrange(at, at + 1)[0] == m.sv_id);
    lemma_be_u64_in(s, at + 1, m.gps_time);
    lemma_be_u64_in(s, at + 9, m.position_x);
    lemma_be_u64_in(s, at + 17, m.position_y);
    lemma_be_u64_in(s, at + 25, m.position_z);
    lemma_be_u64_in(s, at + 33, m.velocity_x);
    lemma_be_u64_in(s, at + 41, m.velocity_y);
    lemma_be_u64_in(s, at + 49, m.velocity_z);
    lemma_be_u64_in(s, at + 57, m.clock_bias);
    lemma_be_u32_in(s, at + 65, m.clock_drift);
    assert(s.subrange(at + 69, at + 70)[0] == m.ephemeris_flag);
    lemma_be_u32_in(s, at + 70, m.reserved1);
    lemma_be_u32_in(s, at + 74, m.reserved2);
    lemma_be_u32_in(s, at + 78, m.ionospheric_delay);
}

/// The bytes from which a satellite state message was read are the bytes that
/// it is written as.
pub proof fn lemma_sv_state_canonical(s: Seq<u8>, at: int)
    requires
        0 <= at,
        parse_sv_state(s, at) is Ok,
    ensures
        sv_state_bytes(parse_sv_state(s, at)->Ok_0) == Ok::<Seq<u8>, MessageError>(
            s.subrange(at, at + SV_STATE_LEN),
        ),
{
    let m = parse_sv_state(s, at)->Ok_0;
    assert(seq![m.sv_id] =~= s.subrange(at, at + 1));
    lemma_u64_bytes_of(s, at + 1);
    lemma_u64_bytes_of(s, at + 9);
    lemma_u64_bytes_of(s, at + 17);
    lemma_u64_bytes_of(s, at + 25);
    lemma_u64_bytes_of(s, at + 33);
    lemma_u64_bytes_of(s, at + 41);
    lemma_u64_bytes_of(s, at + 49);
    lemma_u64_bytes_of(s, at + 57);
    lemma_u32_bytes_of(s, at + 65);
    assert(seq![m.ephemeris_flag] =~= s.subrange(at + 69, at + 70));
    lemma_u32_bytes_of(s, at + 70);
    lemma_u32_bytes_of(s, at + 74);
    lemma_u32_bytes_of(s, at + 78);
    lemma_subrange_join(s, at, at + 1, at + 9);
    lemma_subrange_join(s, at, at + 9, at + 17);
    lemma_subrange_join(s, at, at + 17, at + 25);
    lemma_subrange_join(s, at, at + 25, at + 33);
    lemma_subrange_join(s, at, at + 33, at + 41);
    lemma_subrange_join(s, at, at + 41, at + 49);
    lemma_subrange_join(s, at, at + 49, at + 57);
    lemma_subrange_join(s, at, at + 57, at + 65);
    lemma_subrange_join(s, at, at + 65, at + 69);
    lemma_subrange_join(s, at, at + 69, at + 70);
    lemma_subrange_join(s, at, at + 70, at + 74);
    lemma_subrange_join(s, at, at + 74, at + 78);
    lemma_subrange_join(s, at, at + 78, at + 82);
}

} // verus!
