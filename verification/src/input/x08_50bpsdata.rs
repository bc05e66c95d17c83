//! Subframe data, message id 0x08.

use crate::bits::{
    be_u32_at, lemma_be_bytes_len, lemma_be_u32_in, lemma_subrange_join, lemma_subrange_middle,
    lemma_subrange_split, lemma_u32_bytes_of, u32_be_bytes, ByteCursor, ByteSink,
};
use crate::packet::{field_u32, field_u8, short_at, MessageError, Packet, PacketBuilder};
use vstd::prelude::*;

verus! {

/// Message id of the subframe data message.
pub const SUBFRAME_ID: u8 = 0x08;

/// Number of bytes of the fields of a subframe data message.
pub const SUBFRAME_LEN: usize = 42;

/// One subframe of the 50 bit/s navigation message of a satellite.
#[derive(Clone, Copy, Debug, PartialEq, Eq)]
pub struct FiftyBpsData {
    /// Receiver channel on which the subframe was received.
    pub channel: u8,
    /// Satellite number.
    pub sv_id: u8,
    /// The ten words of the subframe of the 50 bit/s navigation message.
    pub words: [u32; 10],
}

impl View for FiftyBpsData {
    type V = FiftyBpsData;

    open spec fn view(&self) -> FiftyBpsData {
        *self
    }
}

/// The message whose fields are the bytes of `s` from index `at` on: each field
/// where the layout puts it, the first field that the bytes do not reach
/// reported as a shortage.
pub open spec fn parse_subframe(s: Seq<u8>, at: int) -> Result<FiftyBpsData, MessageError> {
    let avail = s.len() - at;
    if avail < 1 {
        Err(short_at(at, 1))
    } else if avail < 2 {
        Err(short_at(at + 1, 1))
    } else if avail < 6 {
        Err(short_at(at + 2, 4))
    } else if avail < 10 {
        Err(short_at(at + 6, 4))
    } else if avail < 14 {
        Err(short_at(at + 10, 4))
    } else if avail < 18 {
        Err(short_at(at + 14, 4))
    } else if avail < 22 {
        Err(short_at(at + 18, 4))
    } else if avail < 26 {
        Err(short_at(at + 22, 4))
    } else if avail < 30 {
        Err(short_at(at + 26, 4))
    } else if avail < 34 {
        Err(short_at(at + 30, 4))
    } else if avail < 38 {
        Err(short_at(at + 34, 4))
    } else if avail < 42 {
        Err(short_at(at + 38, 4))
    } else {
        Ok(
            FiftyBpsData {
                channel: s[at],
                sv_id: s[at + 1],
                words: [
                    be_u32_at(s, at + 2),
                    be_u32_at(s, at + 6),
                    be_u32_at(s, at + 10),
                    be_u32_at(s, at + 14),
                    be_u32_at(s, at + 18),
                    be_u32_at(s, at + 22),
                    be_u32_at(s, at + 26),
                    be_u32_at(s, at + 30),
                    be_u32_at(s, at + 34),
                    be_u32_at(s, at + 38),
                ],
            },
        )
    }
}

/// The bytes of the fields of `m`, in wire order.
pub open spec fn subframe_bytes(m: FiftyBpsData) -> Result<Seq<u8>, MessageError> {
    Ok(
        seq![m.channel] + seq![m.sv_id] + u32_be_bytes(m.words[0]) + u32_be_bytes(m.words[1])
            + u32_be_bytes(m.words[2]) + u32_be_bytes(m.words[3]) + u32_be_bytes(m.words[4])
            + u32_be_bytes(m.words[5]) + u32_be_bytes(m.words[6]) + u32_be_bytes(m.words[7])
            + u32_be_bytes(m.words[8]) + u32_be_bytes(m.words[9]),
    )
}

impl Packet for FiftyBpsData {
    open spec fn type_id(&self) -> u8 {
        SUBFRAME_ID
    }

    open spec fn encoding(v: FiftyBpsData) -> Result<Seq<u8>, MessageError> {
        subframe_bytes(v)
    }

    fn get_bytes(&self) -> (r: Result<Vec<u8>, MessageError>) {
        let mut out = ByteSink::new();
        out.write_u8(self.channel);
        out.write_u8(self.sv_id);
        out.write_be_u32(self.words[0]);
        out.write_be_u32(self.words[1]);
        out.write_be_u32(self.words[2]);
        out.write_be_u32(self.words[3]);
        out.write_be_u32(self.words[4]);
        out.write_be_u32(self.words[5]);
        out.write_be_u32(self.words[6]);
        out.write_be_u32(self.words[7]);
        out.write_be_u32(self.words[8]);
        out.write_be_u32(self.words[9]);
        proof {
            lemma_be_bytes_len(0, self.words[0], 0);
            lemma_be_bytes_len(0, self.words[1], 0);
            lemma_be_bytes_len(0, self.words[2], 0);
            lemma_be_bytes_len(0, self.words[3], 0);
            lemma_be_bytes_len(0, self.words[4], 0);
            lemma_be_bytes_len(0, self.words[5], 0);
            lemma_be_bytes_len(0, self.words[6], 0);
            lemma_be_bytes_len(0, self.words[7], 0);
            lemma_be_bytes_len(0, self.words[8], 0);
            lemma_be_bytes_len(0, self.words[9], 0);
            assert(out@ =~= subframe_bytes(*self)->Ok_0);
        }
        Ok(out.into_bytes())
    }

    fn get_type(&self) -> (id: u8) {
        SUBFRAME_ID
    }
}

/// Decoder of subframe data messages.
#[derive(Clone, Copy, Debug)]
pub struct FiftyBpsDataBuilder;

impl PacketBuilder<FiftyBpsData> for FiftyBpsDataBuilder {
    open spec fn decoding(s: Seq<u8>, at: int) -> Result<FiftyBpsData, MessageError> {
        parse_subframe(s, at)
    }

    fn build_from(&self, input: &mut ByteCursor<'_>) -> (r: Result<FiftyBpsData, MessageError>)
        ensures
            r is Ok ==> final(input).offset() == old(input).offset() + SUBFRAME_LEN,
    {
        let mut probe = *input;
        let channel = field_u8(&mut probe)?;
        let sv_id = field_u8(&mut probe)?;
        let words_0 = field_u32(&mut probe)?;
        let words_1 = field_u32(&mut probe)?;
        let words_2 = field_u32(&mut probe)?;
        let words_3 = field_u32(&mut probe)?;
        let words_4 = field_u32(&mut probe)?;
        let words_5 = field_u32(&mut probe)?;
        let words_6 = field_u32(&mut probe)?;
        let words_7 = field_u32(&mut probe)?;
        let words_8 = field_u32(&mut probe)?;
        let words_9 = field_u32(&mut probe)?;
        *input = probe;
        Ok(
            FiftyBpsData {
                channel,
                sv_id,
                words: [
                    words_0,
                    words_1,
                    words_2,
                    words_3,
                    words_4,
                    words_5,
                    words_6,
                    words_7,
                    words_8,
                    words_9,
                ],
            },
        )
    }
}

/// A subframe data message that the wire can hold reads back from its bytes as
/// it was written, whatever stands around the bytes.
pub proof fn lemma_subframe_round_trip(m: FiftyBpsData, before: Seq<u8>, after: Seq<u8>)
    requires
        subframe_bytes(m) is Ok,
    ensures
        subframe_bytes(m)->Ok_0.len() == SUBFRAME_LEN,
        parse_subframe(before + subframe_bytes(m)->Ok_0 + after, before.len() as int) == Ok::<
            FiftyBpsData,
            MessageError,
        >(m),
{
    let w = subframe_bytes(m)->Ok_0;
    let s = before + w + after;
    let at = before.len() as int;
    let f0 = seq![m.channel];
    let f1 = seq![m.sv_id];
    let f2 = u32_be_bytes(m.words[0]);
    let f3 = u32_be_bytes(m.words[1]);
    let f4 = u32_be_bytes(m.words[2]);
    let f5 = u32_be_bytes(m.words[3]);
    let f6 = u32_be_bytes(m.words[4]);
    let f7 = u32_be_bytes(m.words[5]);
    let f8 = u32_be_bytes(m.words[6]);
    let f9 = u32_be_bytes(m.words[7]);
    let f10 = u32_be_bytes(m.words[8]);
    let f11 = u32_be_bytes(m.words[9]);
    let g1 = f0 + f1;
    let g2 = g1 + f2;
    let g3 = g2 + f3;
    let g4 = g3 + f4;
    let g5 = g4 + f5;
    let g6 = g5 + f6;
    let g7 = g6 + f7;
    let g8 = g7 + f8;
    let g9 = g8 + f9;
    let g10 = g9 + f10;
    let g11 = g10 + f11;
    assert(w == g11);
    assert(f0.len() == 1);
    assert(f1.len() == 1);
    lemma_be_bytes_len(0, m.words[0], 0);
    lemma_be_bytes_len(0, m.words[1], 0);
    lemma_be_bytes_len(0, m.words[2], 0);
    lemma_be_bytes_len(0, m.words[3], 0);
    lemma_be_bytes_len(0, m.words[4], 0);
    lemma_be_bytes_len(0, m.words[5], 0);
    lemma_be_bytes_len(0, m.words[6], 0);
    lemma_be_bytes_len(0, m.words[7], 0);
    lemma_be_bytes_len(0, m.words[8], 0);
    lemma_be_bytes_len(0, m.words[9], 0);
    lemma_subrange_middle(before, w, after);
    lemma_subrange_split(s, at, at + 38, at + 42, g10, f11);
    lemma_subrange_split(s, at, at + 34, at + 38, g9, f10);
    lemma_subrange_split(s, at, at + 30, at + 34, g8, f9);
    lemma_subrange_split(s, at, at + 26, at + 30, g7, f8);
    lemma_subrange_split(s, at, at + 22, at + 26, g6, f7);
    lemma_subrange_split(s, at, at + 18, at + 22, g5, f6);
    lemma_subrange_split(s, at, at + 14, at + 18, g4, f5);
    lemma_subrange_split(s, at, at + 10, at + 14, g3, f4);
    lemma_subrange_split(s, at, at + 6, at + 10, g2, f3);
    lemma_subrange_split(s, at, at + 2, at + 6, g1, f2);
    lemma_subrange_split(s, at, at + 1, at + 2, f0, f1);
    assert(s.subrange(at, at + 1)[0] == m.channel);
    assert(s.subrange(at + 1, at + 2)[0] == m.sv_id);
    lemma_be_u32_in(s, at + 2, m.words[0]);
    lemma_be_u32_in(s, at + 6, m.words[1]);
    lemma_be_u32_in(s, at + 10, m.words[2]);
    lemma_be_u32_in(s, at + 14, m.words[3]);
    lemma_be_u32_in(s, at + 18, m.words[4]);
    lemma_be_u32_in(s, at + 22, m.words[5]);
    lemma_be_u32_in(s, at + 26, m.words[6]);
    lemma_be_u32_in(s, at + 30, m.words[7]);
    lemma_be_u32_in(s, at + 34, m.words[8]);
    lemma_be_u32_in(s, at + 38, m.words[9]);
    assert(parse_subframe(s, at)->Ok_0.words =~= m.words);
}

/// The bytes from which a subframe data message was read are the bytes that it
/// is written as.
pub proof fn lemma_subframe_canonical(s: Seq<u8>, at: int)
    requires
        0 <= at,
        parse_subframe(s, at) is Ok,
    ensures
        subframe_bytes(parse_subframe(s, at)->Ok_0) == Ok::<Seq<u8>, MessageError>(
            s.subrange(at, at + SUBFRAME_LEN),
        ),
{
    let m = parse_subframe(s, at)->Ok_0;
    assert(seq![m.channel] =~= s.subrange(at, at + 1));
    assert(seq![m.sv_id] =~= s.subrange(at + 1, at + 2));
    lemma_u32_bytes_of(s, at + 2);
    lemma_u32_bytes_of(s, at + 6);
    lemma_u32_bytes_of(s, at + 10);
    lemma_u32_bytes_of(s, at + 14);
    lemma_u32_bytes_of(s, at + 18);
    lemma_u32_bytes_of(s, at + 22);
    lemma_u32_bytes_of(s, at + 26);
    lemma_u32_bytes_of(s, at + 30);
    lemma_u32_bytes_of(s, at + 34);
    lemma_u32_bytes_of(s, at + 38);
    lemma_subrange_join(s, at, at + 1, at + 2);
    lemma_subrange_join(s, at, at + 2, at + 6);
    lemma_subrange_join(s, at, at + 6, at + 10);
    lemma_subrange_join(s, at, at + 10, at + 14);
    lemma_subrange_join(s, at, at + 14, at + 18);
    lemma_subrange_join(s, at, at + 18, at + 22);
    lemma_subrange_join(s, at, at + 22, at + 26);
    lemma_subrange_join(s, at, at + 26, at + 30);
    lemma_subrange_join(s, at, at + 30, at + 34);
    lemma_subrange_join(s, at, at + 34, at + 38);
    lemma_subrange_join(s, at, at + 38, at + 42);
}

} // verus!
