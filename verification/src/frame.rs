//! The transport envelope: start marker, 15-bit length, payload, 15-bit
//! checksum, end marker.

use crate::bits::{be_u16_at, lemma_be_bytes_len, u16_be_bytes, ByteCursor, ByteSink};
use vstd::prelude::*;

verus! {

/// First byte of the start marker.
pub const START_0: u8 = 0xA0;

/// Second byte of the start marker.
pub const START_1: u8 = 0xA2;

/// First byte of the end marker.
pub const END_0: u8 = 0xB0;

/// Second byte of the end marker.
pub const END_1: u8 = 0xB3;

/// Longest payload that the 15-bit length field can announce.
pub const MAX_PAYLOAD: usize = 0x7FFF;

/// Why no frame came out of the bytes presented.
#[derive(Clone, Copy, Debug, PartialEq, Eq, Structural)]
pub enum FrameError {
    /// The bytes hold no start marker.
    MissingStart,
    /// The bytes end inside a frame.
    UnexpectedEnd,
    /// The length is zero or does not fit in 15 bits.
    InvalidLength { length: usize },
    /// The checksum that the frame carries, `expected`, is not the sum of
    /// the payload bytes received, `actual`.
    ChecksumMismatch { expected: u16, actual: u16 },
    /// The payload and checksum are not followed by the end marker.
    InvalidTrailer,
}

/// Sum of the bytes of `s`.
pub open spec fn byte_sum(s: Seq<u8>) -> nat
    decreases s.len(),
{
    if s.len() == 0 {
        0
    } else {
        byte_sum(s.drop_last()) + s.last() as nat
    }
}

/// The checksum of a payload: the sum of its bytes, truncated to 15 bits.
pub open spec fn checksum_of(payload: Seq<u8>) -> u16 {
    (byte_sum(payload) % 0x8000) as u16
}

/// A payload that an envelope can carry: at least the message id, at most
/// what the length field can announce.
pub open spec fn valid_payload(payload: Seq<u8>) -> bool {
    1 <= payload.len() <= MAX_PAYLOAD
}

/// The envelope of a payload, byte for byte.
pub open spec fn envelope(payload: Seq<u8>) -> Seq<u8> {
    seq![START_0, START_1] + u16_be_bytes(payload.len() as u16) + payload + u16_be_bytes(
        checksum_of(payload),
    ) + seq![END_0, END_1]
}

/// True when the start marker stands at index `i` of `s`.
pub open spec fn start_at(s: Seq<u8>, i: int) -> bool {
    0 <= i && i + 2 <= s.len() && s[i] == START_0 && s[i + 1] == START_1
}

/// Index of the first start marker of `s` at or after `from`; the length of
/// `s` where there is none.
pub open spec fn first_start(s: Seq<u8>, from: int) -> int
    decreases s.len() - from,
{
    if from < 0 || from + 2 > s.len() {
        s.len() as int
    } else if start_at(s, from) {
        from
    } else {
        first_start(s, from + 1)
    }
}

/// How far a search that found no start marker moves: to the end, but not
/// past a final byte that may be the first half of a marker.
pub open spec fn noise_len(s: Seq<u8>) -> int {
    if s.len() > 0 && s.last() == START_0 {
        s.len() - 1
    } else {
        s.len() as int
    }
}

/// One step of the decoder: what it reports, and how many bytes it consumes.
pub struct FrameStep {
    /// The payload of the frame found, or why there is none.
    pub outcome: Result<Seq<u8>, FrameError>,
    /// Number of bytes consumed from the front of the input.
    pub consumed: int,
}

/// The step taken on a frame whose start marker stands at index `i` of `s`.
///
/// A frame that the input ends in consumes only the noise before its start
/// marker, so that the same frame can be presented again with more bytes.
/// A frame that is refused consumes what was read of it: marker and length,
/// then payload and checksum, then the trailer.
pub open spec fn frame_at(s: Seq<u8>, i: int) -> FrameStep {
    let n = be_u16_at(s, i + 2) as int;
    let payload = s.subrange(i + 4, i + 4 + n);
    let sent = be_u16_at(s, i + 4 + n);
    if s.len() < i + 4 {
        FrameStep { outcome: Err(FrameError::UnexpectedEnd), consumed: i }
    } else if n == 0 || n > MAX_PAYLOAD {
        FrameStep { outcome: Err(FrameError::InvalidLength { length: n as usize }), consumed: i + 4 }
    } else if s.len() < i + 6 + n {
        FrameStep { outcome: Err(FrameError::UnexpectedEnd), consumed: i }
    } else if sent != checksum_of(payload) {
        FrameStep {
            outcome: Err(
                FrameError::ChecksumMismatch { expected: sent, actual: checksum_of(payload) },
            ),
            consumed: i + 6 + n,
        }
    } else if s.len() < i + 8 + n {
        FrameStep { outcome: Err(FrameError::UnexpectedEnd), consumed: i }
    } else if s[i + 6 + n] != END_0 || s[i + 7 + n] != END_1 {
        FrameStep { outcome: Err(FrameError::InvalidTrailer), consumed: i + 8 + n }
    } else {
        FrameStep { outcome: Ok(payload), consumed: i + 8 + n }
    }
}

/// The step that the decoder takes on the input `s`: it discards what
/// stands before the first start marker and reads the frame that begins
/// there.
pub open spec fn next_frame(s: Seq<u8>) -> FrameStep {
    let i = first_start(s, 0);
    if i >= s.len() {
        FrameStep { outcome: Err(FrameError::MissingStart), consumed: noise_len(s) }
    } else {
        frame_at(s, i)
    }
}

/// True when the decoder can go on after this step: a frame came out, or one
/// was refused and discarded.
pub open spec fn goes_on(step: FrameStep) -> bool {
    step.outcome != Err::<Seq<u8>, FrameError>(FrameError::MissingStart) && step.outcome != Err::<
        Seq<u8>,
        FrameError,
    >(FrameError::UnexpectedEnd)
}

/// `first_start` gives the least index at or after `from` at which the start
/// marker stands, and the length of `s` exactly when there is no such index.
pub proof fn lemma_first_start(s: Seq<u8>, from: int)
    requires
        0 <= from,
    ensures
        from <= first_start(s, from) || first_start(s, from) == s.len(),
        first_start(s, from) <= s.len(),
        first_start(s, from) < s.len() ==> start_at(s, first_start(s, from)),
        forall|j: int| from <= j < first_start(s, from) ==> !start_at(s, j),
    decreases s.len() - from,
{
    if from + 2 > s.len() {
    } else if start_at(s, from) {
    } else {
        lemma_first_start(s, from + 1);
    }
}

/// A step never moves backwards nor past the end, and moves at least four
/// bytes whenever the decoder can go on.
pub proof fn lemma_step_bounds(s: Seq<u8>)
    ensures
        0 <= next_frame(s).consumed <= s.len(),
        goes_on(next_frame(s)) ==> next_frame(s).consumed >= 4,
{
    lemma_first_start(s, 0);
}

/// What the decoder reports of a whole input, step by step: one entry for
/// each frame found or refused, in order. It stops where no start marker is
/// left; a frame that the input ends in is reported last.
pub open spec fn stream_outcomes(s: Seq<u8>) -> Seq<Result<Seq<u8>, FrameError>>
    decreases s.len(),
{
    let step = next_frame(s);
    if step.outcome == Err::<Seq<u8>, FrameError>(FrameError::MissingStart) {
        Seq::empty()
    } else if !goes_on(step) {
        seq![step.outcome]
    } else {
        proof {
            lemma_step_bounds(s);
        }
        seq![step.outcome] + stream_outcomes(s.skip(step.consumed))
    }
}

/// A validated payload taken out of its envelope. Its first byte is the
/// message id.
#[derive(Debug)]
pub struct Frame {
    message_id: u8,
    payload: Vec<u8>,
}

impl View for Frame {
    type V = Seq<u8>;

    /// The payload, message id first.
    closed spec fn view(&self) -> Seq<u8> {
        self.payload@
    }
}

impl Frame {
    #[verifier::type_invariant]
    spec fn well_formed(&self) -> bool {
        valid_payload(self.payload@) && self.message_id == self.payload@[0]
    }

    /// The frame that carries `payload`; a payload that no envelope can carry
    /// is refused with its length.
    pub fn new(payload: Vec<u8>) -> (r: Result<Frame, FrameError>)
        ensures
            valid_payload(payload@) ==> r is Ok && r->Ok_0@ == payload@,
            !valid_payload(payload@) ==> r == Err::<Frame, FrameError>(
                FrameError::InvalidLength { length: payload@.len() as usize },
            ),
    {
        let n = payload.len();
        if n == 0 || n > MAX_PAYLOAD {
            return Err(FrameError::InvalidLength { length: n });
        }
        let message_id = payload[0];
        Ok(Frame { message_id, payload })
    }

    /// The message id: the first byte of the payload.
    pub fn message_id(&self) -> (id: u8)
        ensures
            valid_payload(self@),
            id == self@[0],
    {
        proof {
            use_type_invariant(self);
        }
        self.message_id
    }

    /// The payload, message id first.
    pub fn payload(&self) -> (bytes: &[u8])
        ensures
            valid_payload(self@),
            bytes@ == self@,
    {
        proof {
            use_type_invariant(self);
        }
        self.payload.as_slice()
    }

    /// The payload, handed over.
    pub fn into_payload(self) -> (bytes: Vec<u8>)
        ensures
            valid_payload(self@),
            bytes@ == self@,
    {
        proof {
            use_type_invariant(&self);
        }
        self.payload
    }

    /// The envelope of this frame.
    pub fn encode(&self) -> (bytes: Vec<u8>)
        ensures
            valid_payload(self@),
            bytes@ == envelope(self@),
    {
        proof {
            use_type_invariant(self);
        }
        write_envelope(self.payload.as_slice())
    }
}

/// The checksum of `payload`.
pub fn checksum(payload: &[u8]) -> (sum: u16)
    ensures
        sum == checksum_of(payload@),
{
    let mut acc: u16 = 0;
    let mut i: usize = 0;
    while i < payload.len()
        invariant
            i <= payload@.len(),
            acc < 0x8000,
            acc == byte_sum(payload@.take(i as int)) % 0x8000,
        decreases payload@.len() - i,
    {
        proof {
            assert(payload@.take(i + 1).drop_last() =~= payload@.take(i as int));
        }
        acc = (acc + payload[i] as u16) % 0x8000;
        i = i + 1;
    }
    proof {
        assert(payload@.take(i as int) =~= payload@);
    }
    acc
}

fn write_envelope(payload: &[u8]) -> (bytes: Vec<u8>)
    requires
        valid_payload(payload@),
    ensures
        bytes@ == envelope(payload@),
{
    let mut sink = ByteSink::new();
    sink.write_u8(START_0);
    sink.write_u8(START_1);
    sink.write_be_u16(payload.len() as u16);
    sink.write_all(payload);
    sink.write_be_u16(checksum(payload));
    sink.write_u8(END_0);
    sink.write_u8(END_1);
    proof {
        lemma_be_bytes_len(payload@.len() as u16, 0, 0);
        lemma_be_bytes_len(checksum_of(payload@), 0, 0);
        assert(sink@ =~= envelope(payload@));
    }
    sink.into_bytes()
}

/// Wraps `payload`, message id first, in its envelope. A payload that is
/// empty or longer than the length field can announce is refused with its
/// length.
pub fn encode_frame(payload: &[u8]) -> (r: Result<Vec<u8>, FrameError>)
    ensures
        valid_payload(payload@) ==> r is Ok && r->Ok_0@ == envelope(payload@),
        !valid_payload(payload@) ==> r == Err::<Vec<u8>, FrameError>(
            FrameError::InvalidLength { length: payload@.len() as usize },
        ),
{
    let n = payload.len();
    if n == 0 || n > MAX_PAYLOAD {
        return Err(FrameError::InvalidLength { length: n });
    }
    Ok(write_envelope(payload))
}

/// What a decoding result says in terms of payload bytes.
pub open spec fn outcome_view(r: Result<Frame, FrameError>) -> Result<Seq<u8>, FrameError> {
    match r {
        Ok(frame) => Ok(frame@),
        Err(e) => Err(e),
    }
}

/// Moves the cursor to the first start marker, over the noise before it.
/// Where there is none the noise is passed, but for a last byte that may
/// begin a marker.
fn seek_start(cursor: &mut ByteCursor<'_>) -> (found: bool)
    ensures
        final(cursor).source() == old(cursor).source(),
        old(cursor).offset() <= old(cursor).source().len(),
        found == (first_start(old(cursor).unread(), 0) < old(cursor).unread().len()),
        found ==> final(cursor).offset() == old(cursor).offset() + first_start(
            old(cursor).unread(),
            0,
        ) && start_at(final(cursor).unread(), 0),
        !found ==> final(cursor).offset() == old(cursor).offset() + noise_len(old(cursor).unread()),
{
    let ghost s = cursor.unread();
    let ghost base = cursor.offset();
    let ghost src = cursor.source();
    let left = cursor.remaining();
    let mut k: usize = 0;
    loop
        invariant
            src == old(cursor).source(),
            base == old(cursor).offset(),
            s == old(cursor).unread(),
            cursor.source() == src,
            cursor.offset() == base + k,
            base + left == src.len(),
            k <= left,
            k == 0 || k < left,
            s.len() == left,
            forall|j: int| 0 <= j < s.len() ==> s[j] == src[base + j],
            first_start(s, 0) == first_start(s, k as int),
        decreases left - k,
    {
        match (cursor.peek_u8(0), cursor.peek_u8(1)) {
            (Some(a), Some(b)) => {
                assert(s[k as int] == a && s[k + 1] == b);
                if a == START_0 && b == START_1 {
                    assert(cursor.unread()[0] == a && cursor.unread()[1] == b);
                    return true;
                }
                let _ = cursor.skip(1);
                k = k + 1;
            },
            (Some(a), None) => {
                assert(s[k as int] == a && k + 1 == s.len());
                assert(first_start(s, 0) == s.len());
                if a != START_0 {
                    let _ = cursor.skip(1);
                }
                return false;
            },
            _ => {
                assert(k == 0 && s.len() == 0);
                return false;
            },
        }
    }
}

/// Takes the next frame from the cursor. The decoder goes through its
/// states in order: it seeks the start marker, skipping what stands before
/// it; reads the length; reads the payload; reads the checksum and compares
/// it with the sum of the payload; reads the end marker; and hands out the
/// frame.
///
/// The cursor moves by what the step consumes. After a refused frame it
/// stands behind what was read of that frame, so the next call looks for a
/// start marker in what follows. Where the bytes end inside a frame the
/// cursor is left on the frame's start marker.
pub fn read_frame(cursor: &mut ByteCursor<'_>) -> (r: Result<Frame, FrameError>)
    ensures
        final(cursor).source() == old(cursor).source(),
        final(cursor).offset() == old(cursor).offset() + next_frame(old(cursor).unread()).consumed,
        outcome_view(r) == next_frame(old(cursor).unread()).outcome,
{
    let ghost s = cursor.unread();
    let ghost base = cursor.offset();
    let ghost src = cursor.source();
    if !seek_start(cursor) {
        return Err(FrameError::MissingStart);
    }
    let ghost k = first_start(s, 0);
    proof {
        lemma_first_start(s, 0);
        assert(forall|j: int| 0 <= j < s.len() ==> s[j] == src[base + j]);
    }
    let mut probe = *cursor;
    let _ = probe.skip(2);
    let n = match probe.read_be_u16() {
        Ok(n) => n,
        Err(_) => {
            return Err(FrameError::UnexpectedEnd);
        },
    };
    assert(n == be_u16_at(s, k + 2)) by {
        reveal(be_u16_at);
    }
    if n == 0 || n > 0x7FFF {
        *cursor = probe;
        return Err(FrameError::InvalidLength { length: n as usize });
    }
    if probe.remaining() < n as usize + 2 {
        return Err(FrameError::UnexpectedEnd);
    }
    let payload = match probe.read_exact(n as usize) {
        Ok(p) => p,
        Err(_) => {
            return Err(FrameError::UnexpectedEnd);
        },
    };
    assert(payload@ =~= s.subrange(k + 4, k + 4 + n)) by {
        assert(payload@.len() == n);
        assert forall|j: int| 0 <= j < n implies payload@[j] == s[k + 4 + j] by {
            assert(payload@[j] == src[base + k + 4 + j]);
        }
    }
    let sent = match probe.read_be_u16() {
        Ok(c) => c,
        Err(_) => {
            return Err(FrameError::UnexpectedEnd);
        },
    };
    assert(sent == be_u16_at(s, k + 4 + n)) by {
        reveal(be_u16_at);
    }
    let actual = checksum(payload.as_slice());
    if sent != actual {
        *cursor = probe;
        return Err(FrameError::ChecksumMismatch { expected: sent, actual });
    }
    match (probe.read_u8(), probe.read_u8()) {
        (Ok(a), Ok(b)) => {
            *cursor = probe;
            if a != END_0 || b != END_1 {
                return Err(FrameError::InvalidTrailer);
            }
            let message_id = payload[0];
            Ok(Frame { message_id, payload })
        },
        _ => Err(FrameError::UnexpectedEnd),
    }
}

/// The payload view of each entry of a list of decoding results.
pub open spec fn outcomes_view(rs: Seq<Result<Frame, FrameError>>) -> Seq<
    Result<Seq<u8>, FrameError>,
> {
    rs.map_values(|r: Result<Frame, FrameError>| outcome_view(r))
}

/// Decodes every frame of `data`, in order, reporting each refused frame in
/// its place and going on behind it.
pub fn decode_stream(data: &[u8]) -> (out: Vec<Result<Frame, FrameError>>)
    ensures
        outcomes_view(out@) == stream_outcomes(data@),
{
    let mut cursor = ByteCursor::new(data);
    let mut out: Vec<Result<Frame, FrameError>> = Vec::new();
    proof {
        assert(cursor.unread() =~= data@);
        assert(outcomes_view(out@) + stream_outcomes(data@) =~= stream_outcomes(data@));
    }
    loop
        invariant
            cursor.source() == data@,
            0 <= cursor.offset() <= data@.len(),
            stream_outcomes(data@) == outcomes_view(out@) + stream_outcomes(cursor.unread()),
        decreases data@.len() - cursor.offset(),
    {
        let ghost rest = cursor.unread();
        proof {
            lemma_step_bounds(rest);
        }
        let r = read_frame(&mut cursor);
        let stop = match &r {
            Err(FrameError::MissingStart) => {
                proof {
                    assert(outcomes_view(out@) + Seq::<Result<Seq<u8>, FrameError>>::empty()
                        =~= outcomes_view(out@));
                }
                return out;
            },
            Err(FrameError::UnexpectedEnd) => true,
            _ => false,
        };
        let ghost before = out@;
        let ghost entry = outcome_view(r);
        out.push(r);
        proof {
            assert(outcomes_view(out@) =~= outcomes_view(before).push(entry));
            assert(cursor.unread() =~= rest.skip(next_frame(rest).consumed));
        }
        if stop {
            proof {
                assert(outcomes_view(before) + seq![entry] =~= outcomes_view(out@));
            }
            return out;
        }
        proof {
            assert(outcomes_view(before) + (seq![entry] + stream_outcomes(cursor.unread()))
                =~= outcomes_view(out@) + stream_outcomes(cursor.unread()));
        }
    }
}

} // verus!
