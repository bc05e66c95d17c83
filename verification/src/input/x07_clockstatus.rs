//! Clock status, message id 0x07.

use crate::bits::{
    be_u16_at, be_u32_at, lemma_be_bytes_len, lemma_be_u16_in, lemma_be_u32_in, lemma_subrange_join,
    lemma_subrange_middle, lemma_subrange_split, lemma_u16_bytes_of, lemma_u32_bytes_of,
    u16_be_bytes, u32_be_bytes, ByteCursor, ByteSink,
};
use crate::input::util::{
    gpstow_micros, gpstow_steps, lemma_gpstow_exact, read_gpstow, write_gpstow, GPSTOW_STEP_MICROS,
};
use crate::packet::{
    field_u16, field_u32, field_u8, short_at, shortage, violation_at, MessageError, Packet,
    PacketBuilder,
};
use vstd::prelude::*;

verus! {

/// Message id of the clock status message.
pub const CLOCK_STATUS_ID: u8 = 0x07;

/// Number of bytes of the fields of a clock status message.
pub const CLOCK_STATUS_LEN: usize = 19;

/// The receiver's clock status.
#[derive(Clone, Copy, Debug, PartialEq, Eq)]
pub struct ClockStatus {
    /// GPS week number, not reduced modulo 1024.
    pub extended_gps_week: u16,
    /// Time of week, in microseconds.
    pub gps_tow: u64,
    /// Number of satellites in the solution.
    pub svs: u8,
    /// Clock drift, in Hz.
    pub clock_drift: u32,
    /// Clock bias, in ns.
    pub clock_bias: u32,
    /// Estimated GPS time, in ms.
    pub estimated_gps_time: u32,
}

impl View for ClockStatus {
    type V = ClockStatus;

    open spec fn view(&self) -> ClockStatus {
        *self
    }
}

/// The message whose fields are the bytes of `s` from index `at` on: each field
/// where the layout puts it, the first field that the bytes do not reach
/// reported as a shortage.
pub open spec fn parse_clock_status(s: Seq<u8>, at: int) -> Result<ClockStatus, MessageError> {
    let avail = s.len() - at;
    if avail < 2 {
        Err(short_at(at, 2))
    } else if avail < 6 {
        Err(short_at(at + 2, 4))
    } else if avail < 7 {
        Err(short_at(at + 6, 1))
    } else if avail < 11 {
        Err(short_at(at + 7, 4))
    } else if avail < 15 {
        Err(short_at(at + 11, 4))
    } else if avail < 19 {
        Err(short_at(at + 15, 4))
    } else {
        Ok(
            ClockStatus {
                extended_gps_week: be_u16_at(s, at),
                gps_tow: gpstow_micros(be_u32_at(s, at + 2)),
                svs: s[at + 6],
                clock_drift: be_u32_at(s, at + 7),
                clock_bias: be_u32_at(s, at + 11),
                estimated_gps_time: be_u32_at(s, at + 15),
            },
        )
    }
}

/// The bytes of the fields of `m`, in wire order; the first field whose value
/// the wire cannot hold is reported as a violation, at its offset in the
/// payload.
pub open spec fn clock_status_bytes(m: ClockStatus) -> Result<Seq<u8>, MessageError> {
    if gpstow_steps(m.gps_tow) > u32::MAX {
        Err(violation_at(3))
    } else {
        Ok(
            u16_be_bytes(m.extended_gps_week) + u32_be_bytes(gpstow_steps(m.gps_tow) as u32)
                + seq![m.svs] + u32_be_bytes(m.clock_drift) + u32_be_bytes(m.clock_bias)
                + u32_be_bytes(m.estimated_gps_time),
        )
    }
}

impl Packet for ClockStatus {
    open spec fn type_id(&self) -> u8 {
        CLOCK_STATUS_ID
    }

    open spec fn encoding(v: ClockStatus) -> Result<Seq<u8>, MessageError> {
        clock_status_bytes(v)
    }

    fn get_bytes(&self) -> (r: Result<Vec<u8>, MessageError>) {
        let mut out = ByteSink::new();
        out.write_be_u16(self.extended_gps_week);
        if write_gpstow(&mut out, self.gps_tow).is_err() {
            return Err(MessageError::DomainViolation { offset: 3 });
        }
        out.write_u8(self.svs);
        out.write_be_u32(self.clock_drift);
        out.write_be_u32(self.clock_bias);
        out.write_be_u32(self.estimated_gps_time);
        proof {
            lemma_be_bytes_len(self.extended_gps_week, 0, 0);
            lemma_be_bytes_len(0, gpstow_steps(self.gps_tow) as u32, 0);
            lemma_be_bytes_len(0, self.clock_drift, 0);
            lemma_be_bytes_len(0, self.clock_bias, 0);
            lemma_be_bytes_len(0, self.estimated_gps_time, 0);
            assert(out@ =~= clock_status_bytes(*self)->Ok_0);
        }
        Ok(out.into_bytes())
    }

    fn get_type(&self) -> (id: u8) {
        CLOCK_STATUS_ID
    }
}

/// Decoder of clock status messages.
#[derive(Clone, Copy, Debug)]
pub struct ClockStatusBuilder;

impl PacketBuilder<ClockStatus> for ClockStatusBuilder {
    open spec fn decoding(s: Seq<u8>, at: int) -> Result<ClockStatus, MessageError> {
        parse_clock_status(s, at)
    }

    fn build_from(&self, input: &mut ByteCursor<'_>) -> (r: Result<ClockStatus, MessageError>)
        ensures
            r is Ok ==> final(input).offset() == old(input).offset() + CLOCK_STATUS_LEN,
    {
        let mut probe = *input;
        let extended_gps_week = field_u16(&mut probe)?;
        let gps_tow = match read_gpstow(&mut probe) {
            Ok(v) => v,
            Err(e) => {
                return Err(shortage(e));
            },
        };
        let svs = field_u8(&mut probe)?;
        let clock_drift = field_u32(&mut probe)?;
        let clock_bias = field_u32(&mut probe)?;
        let estimated_gps_time = field_u32(&mut probe)?;
        *input = probe;
        Ok(
            ClockStatus {
                extended_gps_week,
                gps_tow,
                svs,
                clock_drift,
                clock_bias,
                estimated_gps_time,
            },
        )
    }
}

/// A clock status message that the wire can hold, with a time of week of whole
/// steps, reads back from its bytes as it was written, whatever stands around
/// the bytes.
pub proof fn lemma_clock_status_round_trip(m: ClockStatus, before: Seq<u8>, after: Seq<u8>)
    requires
        clock_status_bytes(m) is Ok,
        m.gps_tow % GPSTOW_STEP_MICROS == 0,
    ensures
        clock_status_bytes(m)->Ok_0.len() == CLOCK_STATUS_LEN,
        parse_clock_status(before + clock_status_bytes(m)->Ok_0 + after, before.len() as int) == Ok::<
            ClockStatus,
            MessageError,
        >(m),
{
    let w = clock_status_bytes(m)->Ok_0;
    let s = before + w + after;
    let at = before.len() as int;
    let f0 = u16_be_bytes(m.extended_gps_week);
    let f1 = u32_be_bytes(gpstow_steps(m.gps_tow) as u32);
    let f2 = seq![m.svs];
    let f3 = u32_be_bytes(m.clock_drift);
    let f4 = u32_be_bytes(m.clock_bias);
    let f5 = u32_be_bytes(m.estimated_gps_time);
    let g1 = f0 + f1;
    let g2 = g1 + f2;
    let g3 = g2 + f3;
    let g4 = g3 + f4;
    let g5 = g4 + f5;
    assert(w == g5);
    lemma_be_bytes_len(m.extended_gps_week, 0, 0);
    lemma_be_bytes_len(0, gpstow_steps(m.gps_tow) as u32, 0);
    assert(f2.len() == 1);
    lemma_be_bytes_len(0, m.clock_drift, 0);
    lemma_be_bytes_len(0, m.clock_bias, 0);
    lemma_be_bytes_len(0, m.estimated_gps_time, 0);
    lemma_subrange_middle(before, w, after);
    lemma_subrange_split(s, at, at + 15, at + 19, g4, f5);
    lemma_subrange_split(s, at, at + 11, at + 15, g3, f4);
    lemma_subrange_split(s, at, at + 7, at + 11, g2, f3);
    lemma_subrange_split(s, at, at + 6, at + 7, g1, f2);
    lemma_subrange_split(s, at, at + 2, at + 6, f0, f1);
    lemma_be_u16_in(s, at, m.extended_gps_week);
    lemma_be_u32_in(s, at + 2, gpstow_steps(m.gps_tow) as u32);
    assert(s.subrange(at + 6, at + 7)[0] == m.svs);
    lemma_be_u32_in(s, at + 7, m.clock_drift);
    lemma_be_u32_in(s, at + 11, m.clock_bias);
    lemma_be_u32_in(s, at + 15, m.estimated_gps_time);
}

/// The bytes from which a clock status message was read are the bytes that it
/// is written as.
pub proof fn lemma_clock_status_canonical(s: Seq<u8>, at: int)
    requires
        0 <= at,
        parse_clock_status(s, at) is Ok,
    ensures
        clock_status_bytes(parse_clock_status(s, at)->Ok_0) == Ok::<Seq<u8>, MessageError>(
            s.subrange(at, at + CLOCK_STATUS_LEN),
        ),
{
    let m = parse_clock_status(s, at)->Ok_0;
    lemma_u16_bytes_of(s, at);
    lemma_u32_bytes_of(s, at + 2);
    lemma_gpstow_exact(be_u32_at(s, at + 2));
    assert(seq![m.svs] =~= s.subrange(at + 6, at + 7));
    lemma_u32_bytes_of(s, at + 7);
    lemma_u32_bytes_of(s, at + 11);
    lemma_u32_bytes_of(s, at + 15);
    lemma_subrange_join(s, at, at + 2, at + 6);
    lemma_subrange_join(s, at, at + 6, at + 7);
    lemma_subrange_join(s, at, at + 7, at + 11);
    lemma_subrange_join(s, at, at + 11, at + 15);
    lemma_subrange_join(s, at, at + 15, at + 19);
}

} // verus!
