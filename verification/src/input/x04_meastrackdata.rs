//! Measured tracking data, message id 0x04.

use crate::bits::{
    be_u16_at, be_u32_at, lemma_be_bytes_len, lemma_be_u16_in, lemma_be_u32_in, lemma_subrange_join,
    lemma_subrange_middle, lemma_subrange_split, lemma_u16_bytes_of, lemma_u32_bytes_of, pattern16,
    signed16, u16_be_bytes, u32_be_bytes, ByteCursor, ByteSink,
};
use crate::input::util::{
    gpstow_micros, gpstow_steps, lemma_gpstow_exact, read_gpstow, write_gpstow, GPSTOW_STEP_MICROS,
};
use crate::packet::{
    bytes10_at, field_bytes, field_i16, field_u16, field_u8, lemma_bytes10_at, short_at, shortage,
    violation_at, MessageError, Packet, PacketBuilder,
};
use vstd::prelude::*;

verus! {

/// Message id of the measured tracking data message.
pub const TRACK_DATA_ID: u8 = 0x04;

/// Number of channels of the receiver: the most that one message reports.
pub const MAX_CHANNELS: u8 = 12;

/// Number of bytes before the first channel block: week, time of week and
/// the number of channels.
pub const TRACK_HEADER_LEN: usize = 7;

/// Number of bytes of one channel block.
pub const CHANNEL_LEN: usize = 15;

/// What one receiver channel tracks.
#[derive(Clone, Copy, Debug, PartialEq, Eq)]
pub struct Channel {
    /// Satellite number.
    pub sv_id: u8,
    /// Azimuth of the satellite, in steps of 1.5 degrees.
    pub azimuth: u8,
    /// Elevation of the satellite, in steps of half a degree.
    pub elevation: u8,
    /// Tracking state flags.
    pub state: u16,
    /// Signal strength in dB-Hz, of ten successive 100 ms measurements.
    pub cn0: [u8; 10],
}

/// The tracking state of the receiver's channels.
#[derive(Clone, Debug)]
pub struct MeasuredTrackData {
    /// GPS week number.
    pub gps_week: i16,
    /// Time of week, in microseconds.
    pub gps_tow: u64,
    /// One entry for each channel reported; the wire announces their number.
    pub channels: Vec<Channel>,
}

/// A tracking data message as a mathematical value.
pub struct TrackDataView {
    /// GPS week number.
    pub gps_week: i16,
    /// Time of week, in microseconds.
    pub gps_tow: u64,
    /// The channels reported, in wire order.
    pub channels: Seq<Channel>,
}

impl View for MeasuredTrackData {
    type V = TrackDataView;

    open spec fn view(&self) -> TrackDataView {
        TrackDataView {
            gps_week: self.gps_week,
            gps_tow: self.gps_tow,
            channels: self.channels@,
        }
    }
}

/// The channel whose block begins at index `i` of `s`.
pub open spec fn channel_at(s: Seq<u8>, i: int) -> Channel {
    Channel {
        sv_id: s[i],
        azimuth: s[i + 1],
        elevation: s[i + 2],
        state: be_u16_at(s, i + 3),
        cn0: bytes10_at(s, i + 5),
    }
}

/// The bytes of one channel block.
pub open spec fn channel_bytes(c: Channel) -> Seq<u8> {
    seq![c.sv_id] + seq![c.azimuth] + seq![c.elevation] + u16_be_bytes(c.state) + c.cn0@
}

/// The shortage reported for a channel block that begins at index `i` of a
/// source of `len` bytes and does not fit: that of its first field that the
/// source does not reach.
pub open spec fn channel_shortage(len: int, i: int) -> MessageError {
    let avail = len - i;
    if avail < 1 {
        short_at(i, 1)
    } else if avail < 2 {
        short_at(i + 1, 1)
    } else if avail < 3 {
        short_at(i + 2, 1)
    } else if avail < 5 {
        short_at(i + 3, 2)
    } else {
        short_at(i + 5, 10)
    }
}

/// The `n` channels whose blocks follow one another from index `i` of `s`.
pub open spec fn channels_at(s: Seq<u8>, i: int, n: nat) -> Seq<Channel> {
    Seq::new(n, |k: int| channel_at(s, i + CHANNEL_LEN * k))
}

/// The blocks of the channels `cs`, one after the other.
pub open spec fn channels_bytes(cs: Seq<Channel>) -> Seq<u8>
    decreases cs.len(),
{
    if cs.len() == 0 {
        Seq::empty()
    } else {
        channels_bytes(cs.drop_last()) + channel_bytes(cs.last())
    }
}

/// The message whose fields are the bytes of `s` from index `at` on. The
/// number of channels is read before the blocks: a number beyond the
/// receiver's channels is a violation, and where the bytes hold fewer whole
/// blocks than announced, the first block that does not fit is reported as a
/// shortage and no channel is handed out.
pub open spec fn parse_track_data(s: Seq<u8>, at: int) -> Result<TrackDataView, MessageError> {
    let avail = s.len() - at;
    let announced = s[at + 6];
    let whole = (avail - TRACK_HEADER_LEN) / (CHANNEL_LEN as int);
    if avail < 2 {
        Err(short_at(at, 2))
    } else if avail < 6 {
        Err(short_at(at + 2, 4))
    } else if avail < 7 {
        Err(short_at(at + 6, 1))
    } else if announced > MAX_CHANNELS {
        Err(violation_at(at + 6))
    } else if whole < announced {
        Err(channel_shortage(s.len() as int, at + TRACK_HEADER_LEN + CHANNEL_LEN * whole))
    } else {
        Ok(
            TrackDataView {
                gps_week: signed16(be_u16_at(s, at)),
                gps_tow: gpstow_micros(be_u32_at(s, at + 2)),
                channels: channels_at(s, at + TRACK_HEADER_LEN, announced as nat),
            },
        )
    }
}

/// The bytes of the fields of `v`, in wire order, the number of channels
/// before their blocks; a time of week too large for its field and more
/// channels than the receiver has are violations, at their offsets in the
/// payload.
pub open spec fn track_data_bytes(v: TrackDataView) -> Result<Seq<u8>, MessageError> {
    if gpstow_steps(v.gps_tow) > u32::MAX {
        Err(violation_at(3))
    } else if v.channels.len() > MAX_CHANNELS {
        Err(violation_at(7))
    } else {
        Ok(
            u16_be_bytes(pattern16(v.gps_week)) + u32_be_bytes(gpstow_steps(v.gps_tow) as u32)
                + seq![v.channels.len() as u8] + channels_bytes(v.channels),
        )
    }
}

/// Appends the block of one channel.
fn write_channel(out: &mut ByteSink, c: &Channel)
    ensures
        final(out)@ == old(out)@ + channel_bytes(*c),
{
    out.write_u8(c.sv_id);
    out.write_u8(c.azimuth);
    out.write_u8(c.elevation);
    out.write_be_u16(c.state);
    out.write_all(c.cn0.as_slice());
    proof {
        lemma_be_bytes_len(c.state, 0, 0);
        assert(out@ =~= old(out)@ + channel_bytes(*c));
    }
}

/// Reads the block of one channel: all of it, or nothing.
fn read_channel(input: &mut ByteCursor<'_>) -> (r: Result<Channel, MessageError>)
    ensures
        final(input).source() == old(input).source(),
        old(input).has(CHANNEL_LEN as int) ==> r == Ok::<Channel, MessageError>(
            channel_at(old(input).source(), old(input).offset() as int),
        ) && final(input).offset() == old(input).offset() + CHANNEL_LEN,
        !old(input).has(CHANNEL_LEN as int) ==> r == Err::<Channel, MessageError>(
            channel_shortage(old(input).source().len() as int, old(input).offset() as int),
        ) && *final(input) == *old(input),
{
    let mut probe = *input;
    let sv_id = field_u8(&mut probe)?;
    let azimuth = field_u8(&mut probe)?;
    let elevation = field_u8(&mut probe)?;
    let state = field_u16(&mut probe)?;
    let cn0 = field_bytes::<10>(&mut probe)?;
    proof {
        let s = old(input).source();
        let at = old(input).offset() as int;
        lemma_bytes10_at(s, at + 5, cn0);
        assert(cn0@ =~= s.subrange(at + 5, at + 15));
    }
    *input = probe;
    Ok(Channel { sv_id, azimuth, elevation, state, cn0 })
}

impl Packet for MeasuredTrackData {
    open spec fn type_id(&self) -> u8 {
        TRACK_DATA_ID
    }

    open spec fn encoding(v: TrackDataView) -> Result<Seq<u8>, MessageError> {
        track_data_bytes(v)
    }

    fn get_bytes(&self) -> (r: Result<Vec<u8>, MessageError>) {
        let mut out = ByteSink::new();
        out.write_be_i16(self.gps_week);
        if write_gpstow(&mut out, self.gps_tow).is_err() {
            return Err(MessageError::DomainViolation { offset: 3 });
        }
        let n = self.channels.len();
        if n > MAX_CHANNELS as usize {
            return Err(MessageError::DomainViolation { offset: 7 });
        }
        out.write_u8(n as u8);
        let ghost header = out@;
        let mut k: usize = 0;
        while k < n
            invariant
                k <= n,
                n == self.channels@.len(),
                out@ == header + channels_bytes(self.channels@.take(k as int)),
            decreases n - k,
        {
            write_channel(&mut out, &self.channels[k]);
            proof {
                let next = self.channels@.take(k + 1);
                assert(next.drop_last() =~= self.channels@.take(k as int));
                assert(out@ =~= header + channels_bytes(next));
            }
            k = k + 1;
        }
        proof {
            assert(self.channels@.take(n as int) =~= self.channels@);
            lemma_be_bytes_len(pattern16(self.gps_week), 0, 0);
            lemma_be_bytes_len(0, gpstow_steps(self.gps_tow) as u32, 0);
            assert(out@ =~= track_data_bytes(self@)->Ok_0);
        }
        Ok(out.into_bytes())
    }

    fn get_type(&self) -> (id: u8) {
        TRACK_DATA_ID
    }
}

/// Decoder of measured tracking data messages.
#[derive(Clone, Copy, Debug)]
pub struct MeasuredTrackDataBuilder;

impl PacketBuilder<MeasuredTrackData> for MeasuredTrackDataBuilder {
    open spec fn decoding(s: Seq<u8>, at: int) -> Result<TrackDataView, MessageError> {
        parse_track_data(s, at)
    }

    fn build_from(&self, input: &mut ByteCursor<'_>) -> (r: Result<MeasuredTrackData, MessageError>)
        ensures
            r is Ok ==> final(input).offset() == old(input).offset() + TRACK_HEADER_LEN
                + CHANNEL_LEN * r->Ok_0@.channels.len(),
    {
        let ghost s = input.source();
        let ghost at = input.offset() as int;
        let mut probe = *input;
        let gps_week = field_i16(&mut probe)?;
        let gps_tow = match read_gpstow(&mut probe) {
            Ok(v) => v,
            Err(e) => {
                return Err(shortage(e));
            },
        };
        let announced = field_u8(&mut probe)?;
        if announced > MAX_CHANNELS {
            return Err(MessageError::DomainViolation { offset: probe.position() - 1 });
        }
        let mut channels: Vec<Channel> = Vec::new();
        let mut k: u8 = 0;
        while k < announced
            invariant
                k <= announced <= MAX_CHANNELS,
                s == old(input).source(),
                at == old(input).offset(),
                *input == *old(input),
                probe.source() == s,
                probe.offset() == at + TRACK_HEADER_LEN + CHANNEL_LEN * k,
                probe.offset() <= s.len(),
                announced == s[at + 6],
                channels@ == channels_at(s, at + TRACK_HEADER_LEN, k as nat),
            decreases announced - k,
        {
            let channel = read_channel(&mut probe)?;
            channels.push(channel);
            k = k + 1;
            proof {
                assert(channels@ =~= channels_at(s, at + TRACK_HEADER_LEN, k as nat));
            }
        }
        *input = probe;
        Ok(MeasuredTrackData { gps_week, gps_tow, channels })
    }
}

/// The blocks of `n` channels take fifteen bytes each.
pub proof fn lemma_channels_len(cs: Seq<Channel>)
    ensures
        channels_bytes(cs).len() == CHANNEL_LEN * cs.len(),
    decreases cs.len(),
{
    if cs.len() > 0 {
        lemma_channels_len(cs.drop_last());
        lemma_be_bytes_len(cs.last().state, 0, 0);
    }
}

/// A channel reads back from its block as it was written.
pub proof fn lemma_channel_round_trip(c: Channel, s: Seq<u8>, i: int)
    requires
        0 <= i,
        i + CHANNEL_LEN <= s.len(),
        s.subrange(i, i + CHANNEL_LEN) == channel_bytes(c),
    ensures
        channel_at(s, i) == c,
{
    let f0 = seq![c.sv_id];
    let f1 = seq![c.azimuth];
    let f2 = seq![c.elevation];
    let f3 = u16_be_bytes(c.state);
    let f4 = c.cn0@;
    let g1 = f0 + f1;
    let g2 = g1 + f2;
    let g3 = g2 + f3;
    lemma_be_bytes_len(c.state, 0, 0);
    lemma_subrange_split(s, i, i + 5, i + 15, g3, f4);
    lemma_subrange_split(s, i, i + 3, i + 5, g2, f3);
    lemma_subrange_split(s, i, i + 2, i + 3, g1, f2);
    lemma_subrange_split(s, i, i + 1, i + 2, f0, f1);
    assert(s.subrange(i, i + 1)[0] == c.sv_id);
    assert(s.subrange(i + 1, i + 2)[0] == c.azimuth);
    assert(s.subrange(i + 2, i + 3)[0] == c.elevation);
    lemma_be_u16_in(s, i + 3, c.state);
    lemma_bytes10_at(s, i + 5, c.cn0);
}

/// The block from which a channel was read is the block that it is written
/// as.
pub proof fn lemma_channel_canonical(s: Seq<u8>, i: int)
    requires
        0 <= i,
        i + CHANNEL_LEN <= s.len(),
    ensures
        channel_bytes(channel_at(s, i)) == s.subrange(i, i + CHANNEL_LEN),
{
    let c = channel_at(s, i);
    assert(seq![c.sv_id] =~= s.subrange(i, i + 1));
    assert(seq![c.azimuth] =~= s.subrange(i + 1, i + 2));
    assert(seq![c.elevation] =~= s.subrange(i + 2, i + 3));
    lemma_u16_bytes_of(s, i + 3);
    lemma_bytes10_at(s, i + 5, c.cn0);
    lemma_subrange_join(s, i, i + 1, i + 2);
    lemma_subrange_join(s, i, i + 2, i + 3);
    lemma_subrange_join(s, i, i + 3, i + 5);
    lemma_subrange_join(s, i, i + 5, i + 15);
}

/// Channels read back from their blocks as they were written.
pub proof fn lemma_channels_round_trip(cs: Seq<Channel>, s: Seq<u8>, i: int)
    requires
        0 <= i,
        i + CHANNEL_LEN * cs.len() <= s.len(),
        s.subrange(i, i + CHANNEL_LEN * cs.len()) == channels_bytes(cs),
    ensures
        channels_at(s, i, cs.len()) == cs,
    decreases cs.len(),
{
    if cs.len() > 0 {
        let n = cs.len() as int;
        let front = cs.drop_last();
        lemma_channels_len(front);
        lemma_channels_len(cs);
        lemma_subrange_split(
            s,
            i,
            i + CHANNEL_LEN * (n - 1),
            i + CHANNEL_LEN * n,
            channels_bytes(front),
            channel_bytes(cs.last()),
        );
        lemma_channels_round_trip(front, s, i);
        lemma_channel_round_trip(cs.last(), s, i + CHANNEL_LEN * (n - 1));
        assert forall|k: int| 0 <= k < n implies channels_at(s, i, cs.len())[k] == cs[k] by {
            if k < n - 1 {
                assert(channels_at(s, i, front.len())[k] == front[k]);
            }
        }
    }
    assert(channels_at(s, i, cs.len()) =~= cs);
}

/// The blocks from which channels were read are the blocks that they are
/// written as.
pub proof fn lemma_channels_canonical(s: Seq<u8>, i: int, n: nat)
    requires
        0 <= i,
        i + CHANNEL_LEN * n <= s.len(),
    ensures
        channels_bytes(channels_at(s, i, n)) == s.subrange(i, i + CHANNEL_LEN * n),
    decreases n,
{
    let cs = channels_at(s, i, n);
    if n == 0 {
        assert(s.subrange(i, i + CHANNEL_LEN * n) =~= Seq::<u8>::empty());
    } else {
        let m = (n - 1) as nat;
        assert(cs.drop_last() =~= channels_at(s, i, m));
        lemma_channels_canonical(s, i, m);
        lemma_channel_canonical(s, i + CHANNEL_LEN * m);
        lemma_subrange_join(s, i, i + CHANNEL_LEN * m, i + CHANNEL_LEN * n);
    }
}

/// A tracking data message that the wire can hold, with a time of week of
/// whole steps, reads back from its bytes as it was written, whatever stands
/// around the bytes.
pub proof fn lemma_track_data_round_trip(v: TrackDataView, before: Seq<u8>, after: Seq<u8>)
    requires
        track_data_bytes(v) is Ok,
        v.gps_tow % GPSTOW_STEP_MICROS == 0,
    ensures
        track_data_bytes(v)->Ok_0.len() == TRACK_HEADER_LEN + CHANNEL_LEN * v.channels.len(),
        parse_track_data(before + track_data_bytes(v)->Ok_0 + after, before.len() as int) == Ok::<
            TrackDataView,
            MessageError,
        >(v),
{
    let w = track_data_bytes(v)->Ok_0;
    let s = before + w + after;
    let at = before.len() as int;
    let n = v.channels.len() as int;
    let f0 = u16_be_bytes(pattern16(v.gps_week));
    let f1 = u32_be_bytes(gpstow_steps(v.gps_tow) as u32);
    let f2 = seq![v.channels.len() as u8];
    let f3 = channels_bytes(v.channels);
    let g1 = f0 + f1;
    let g2 = g1 + f2;
    assert(w == g2 + f3);
    lemma_be_bytes_len(pattern16(v.gps_week), gpstow_steps(v.gps_tow) as u32, 0);
    lemma_channels_len(v.channels);
    lemma_subrange_middle(before, w, after);
    lemma_subrange_split(s, at, at + 7, at + 7 + CHANNEL_LEN * n, g2, f3);
    lemma_subrange_split(s, at, at + 6, at + 7, g1, f2);
    lemma_subrange_split(s, at, at + 2, at + 6, f0, f1);
    lemma_be_u16_in(s, at, pattern16(v.gps_week));
    lemma_be_u32_in(s, at + 2, gpstow_steps(v.gps_tow) as u32);
    assert(s.subrange(at + 6, at + 7)[0] == n as u8);
    lemma_channels_round_trip(v.channels, s, at + 7);
    let whole = (s.len() - at - 7) / 15;
    assert(whole >= n);
    let parsed = parse_track_data(s, at)->Ok_0;
    assert(parsed.channels == v.channels);
}

/// The bytes from which a tracking data message was read are the bytes that
/// it is written as.
pub proof fn lemma_track_data_canonical(s: Seq<u8>, at: int)
    requires
        0 <= at,
        parse_track_data(s, at) is Ok,
    ensures
        track_data_bytes(parse_track_data(s, at)->Ok_0) == Ok::<Seq<u8>, MessageError>(
            s.subrange(
                at,
                at + TRACK_HEADER_LEN + CHANNEL_LEN * parse_track_data(s, at)->Ok_0.channels.len(),
            ),
        ),
{
    let v = parse_track_data(s, at)->Ok_0;
    let n = v.channels.len();
    lemma_u16_bytes_of(s, at);
    lemma_u32_bytes_of(s, at + 2);
    lemma_gpstow_exact(be_u32_at(s, at + 2));
    assert(seq![n as u8] =~= s.subrange(at + 6, at + 7));
    lemma_channels_canonical(s, at + 7, n);
    lemma_subrange_join(s, at, at + 2, at + 6);
    lemma_subrange_join(s, at, at + 6, at + 7);
    lemma_subrange_join(s, at, at + 7, at + 7 + CHANNEL_LEN * n);
}

} // verus!
