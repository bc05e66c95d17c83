//! What holds of the envelope: a frame that was encoded decodes to its
//! payload, a damaged frame is refused, and the decoder finds the frames that
//! follow a refused one.

use crate::bits::{
    be_u16_at, lemma_be_bytes_len, lemma_be_u16_in, lemma_subrange_join, lemma_u16_bytes_of,
    u16_be_bytes,
};
use crate::frame::{
    byte_sum, checksum_of, envelope, first_start, frame_at, goes_on, lemma_first_start,
    lemma_step_bounds, next_frame, start_at, stream_outcomes, valid_payload, FrameError,
    FrameStep, END_0, END_1, START_0, START_1,
};
use vstd::prelude::*;

verus! {

/// Bytes in the shape of a frame around `payload`, with whatever checksum
/// and trailer they carry.
pub open spec fn frame_shaped(payload: Seq<u8>, sent: u16, t0: u8, t1: u8) -> Seq<u8> {
    seq![START_0, START_1] + u16_be_bytes(payload.len() as u16) + payload + u16_be_bytes(sent)
        + seq![t0, t1]
}

/// The envelope of `payload` after the payload byte at index `i` was
/// replaced by `b` on the way.
pub open spec fn corrupted(payload: Seq<u8>, i: int, b: u8) -> Seq<u8> {
    envelope(payload).update(i + 4, b)
}

/// The envelopes of the payloads `ps`, one after the other.
pub open spec fn envelopes(ps: Seq<Seq<u8>>) -> Seq<u8>
    decreases ps.len(),
{
    if ps.len() == 0 {
        Seq::empty()
    } else {
        envelope(ps[0]) + envelopes(ps.drop_first())
    }
}

/// The report of a stream in which each of `ps` decoded, in order.
pub open spec fn all_decoded(ps: Seq<Seq<u8>>) -> Seq<Result<Seq<u8>, FrameError>> {
    Seq::new(ps.len(), |k: int| Ok::<Seq<u8>, FrameError>(ps[k]))
}

/// Where each field of frame-shaped bytes stands, whatever follows them.
pub proof fn lemma_frame_layout(payload: Seq<u8>, sent: u16, t0: u8, t1: u8, rest: Seq<u8>)
    requires
        valid_payload(payload),
    ensures
        ({
            let s = frame_shaped(payload, sent, t0, t1) + rest;
            let n = payload.len() as int;
            &&& s.len() == n + 8 + rest.len()
            &&& start_at(s, 0)
            &&& be_u16_at(s, 2) == n
            &&& s.subrange(4, 4 + n) == payload
            &&& be_u16_at(s, 4 + n) == sent
            &&& s[6 + n] == t0
            &&& s[7 + n] == t1
            &&& s.skip(6 + n) == seq![t0, t1] + rest
            &&& s.skip(8 + n) == rest
        }),
{
    let s = frame_shaped(payload, sent, t0, t1) + rest;
    let n = payload.len() as int;
    let len_bytes = u16_be_bytes(payload.len() as u16);
    let sum_bytes = u16_be_bytes(sent);
    lemma_be_bytes_len(payload.len() as u16, 0, 0);
    lemma_be_bytes_len(sent, 0, 0);
    assert(s.subrange(2, 4) =~= len_bytes);
    assert(s.subrange(4 + n, 6 + n) =~= sum_bytes);
    lemma_be_u16_in(s, 2, payload.len() as u16);
    lemma_be_u16_in(s, 4 + n, sent);
    assert(s.subrange(4, 4 + n) =~= payload);
    assert(s.skip(6 + n) =~= seq![t0, t1] + rest);
    assert(s.skip(8 + n) =~= rest);
}

/// An encoded frame decodes to its payload and is consumed whole, whatever
/// follows it.
pub proof fn lemma_frame_round_trip(payload: Seq<u8>, rest: Seq<u8>)
    requires
        valid_payload(payload),
    ensures
        next_frame(envelope(payload) + rest) == (FrameStep {
            outcome: Ok(payload),
            consumed: payload.len() as int + 8,
        }),
        stream_outcomes(envelope(payload) + rest) == seq![Ok::<Seq<u8>, FrameError>(payload)]
            + stream_outcomes(rest),
{
    lemma_frame_layout(payload, checksum_of(payload), END_0, END_1, rest);
    let s = envelope(payload) + rest;
    assert(envelope(payload) == frame_shaped(payload, checksum_of(payload), END_0, END_1));
    assert(first_start(s, 0) == 0);
}

/// A frame alone in its stream decodes to exactly its payload.
pub proof fn lemma_single_frame(payload: Seq<u8>)
    requires
        valid_payload(payload),
    ensures
        stream_outcomes(envelope(payload)) == seq![Ok::<Seq<u8>, FrameError>(payload)],
{
    lemma_frame_round_trip(payload, Seq::empty());
    assert(envelope(payload) + Seq::<u8>::empty() =~= envelope(payload));
    assert(first_start(Seq::<u8>::empty(), 0) == 0);
    assert(stream_outcomes(Seq::<u8>::empty()) =~= Seq::empty());
}

/// Where a frame is found, the bytes from its start marker to the end of
/// what is consumed are the envelope of its payload: encoding what was
/// decoded gives the bytes that it was decoded from.
pub proof fn lemma_frame_canonical(s: Seq<u8>)
    requires
        next_frame(s).outcome is Ok,
    ensures
        valid_payload(next_frame(s).outcome->Ok_0),
        envelope(next_frame(s).outcome->Ok_0) == s.subrange(
            first_start(s, 0),
            next_frame(s).consumed,
        ),
{
    lemma_first_start(s, 0);
    let i = first_start(s, 0);
    let payload = next_frame(s).outcome->Ok_0;
    let n = payload.len() as int;
    lemma_u16_bytes_of(s, i + 2);
    lemma_u16_bytes_of(s, i + 4 + n);
    lemma_be_bytes_len(n as u16, 0, 0);
    lemma_be_bytes_len(checksum_of(payload), 0, 0);
    assert(seq![START_0, START_1] =~= s.subrange(i, i + 2));
    assert(seq![END_0, END_1] =~= s.subrange(i + 6 + n, i + 8 + n));
    lemma_subrange_join(s, i, i + 2, i + 4);
    lemma_subrange_join(s, i, i + 4, i + 4 + n);
    lemma_subrange_join(s, i, i + 4 + n, i + 6 + n);
    lemma_subrange_join(s, i, i + 6 + n, i + 8 + n);
}

/// Frame-shaped bytes whose checksum is not that of their payload are
/// refused with both sums; payload and checksum are consumed, the trailer is
/// left.
pub proof fn lemma_bad_checksum(payload: Seq<u8>, sent: u16, t0: u8, t1: u8, rest: Seq<u8>)
    requires
        valid_payload(payload),
        sent != checksum_of(payload),
    ensures
        next_frame(frame_shaped(payload, sent, t0, t1) + rest) == (FrameStep {
            outcome: Err(
                FrameError::ChecksumMismatch { expected: sent, actual: checksum_of(payload) },
            ),
            consumed: payload.len() as int + 6,
        }),
{
    lemma_frame_layout(payload, sent, t0, t1, rest);
    let s = frame_shaped(payload, sent, t0, t1) + rest;
    assert(first_start(s, 0) == 0);
}

/// Frame-shaped bytes with the right checksum and a wrong trailer are
/// refused and consumed whole.
pub proof fn lemma_bad_trailer(payload: Seq<u8>, t0: u8, t1: u8, rest: Seq<u8>)
    requires
        valid_payload(payload),
        t0 != END_0 || t1 != END_1,
    ensures
        next_frame(frame_shaped(payload, checksum_of(payload), t0, t1) + rest) == (FrameStep {
            outcome: Err(FrameError::InvalidTrailer),
            consumed: payload.len() as int + 8,
        }),
{
    lemma_frame_layout(payload, checksum_of(payload), t0, t1, rest);
    let s = frame_shaped(payload, checksum_of(payload), t0, t1) + rest;
    assert(first_start(s, 0) == 0);
}

/// Replacing one byte changes the sum of the bytes by the difference.
pub proof fn lemma_byte_sum_update(s: Seq<u8>, i: int, b: u8)
    requires
        0 <= i < s.len(),
    ensures
        byte_sum(s.update(i, b)) == byte_sum(s) - s[i] + b,
    decreases s.len(),
{
    let t = s.update(i, b);
    if i == s.len() - 1 {
        assert(t.drop_last() =~= s.drop_last());
    } else {
        assert(t.drop_last() =~= s.drop_last().update(i, b));
        lemma_byte_sum_update(s.drop_last(), i, b);
    }
}

/// Replacing one payload byte by another value changes the checksum.
pub proof fn lemma_checksum_detects(payload: Seq<u8>, i: int, b: u8)
    requires
        0 <= i < payload.len(),
        b != payload[i],
    ensures
        checksum_of(payload.update(i, b)) != checksum_of(payload),
{
    lemma_byte_sum_update(payload, i, b);
    let x = byte_sum(payload) as int;
    let y = byte_sum(payload.update(i, b)) as int;
    assert(y - x == b - payload[i]);
    assert(-0x8000 < y - x < 0x8000 && y != x);
    assert(x % 0x8000 != y % 0x8000) by (nonlinear_arith)
        requires
            -0x8000 < y - x < 0x8000,
            y != x,
    ;
}

/// A frame in which one payload byte was replaced on the way is refused
/// with a checksum mismatch: it never decodes to a wrong payload.
pub proof fn lemma_corrupt_payload_byte(payload: Seq<u8>, i: int, b: u8, rest: Seq<u8>)
    requires
        valid_payload(payload),
        0 <= i < payload.len(),
        b != payload[i],
    ensures
        next_frame(corrupted(payload, i, b) + rest) == (FrameStep {
            outcome: Err(
                FrameError::ChecksumMismatch {
                    expected: checksum_of(payload),
                    actual: checksum_of(payload.update(i, b)),
                },
            ),
            consumed: payload.len() as int + 6,
        }),
        corrupted(payload, i, b) == frame_shaped(
            payload.update(i, b),
            checksum_of(payload),
            END_0,
            END_1,
        ),
{
    lemma_checksum_detects(payload, i, b);
    lemma_be_bytes_len(payload.len() as u16, 0, 0);
    lemma_be_bytes_len(checksum_of(payload), 0, 0);
    assert(corrupted(payload, i, b) =~= frame_shaped(
        payload.update(i, b),
        checksum_of(payload),
        END_0,
        END_1,
    ));
    lemma_bad_checksum(payload.update(i, b), checksum_of(payload), END_0, END_1, rest);
}

/// A search that meets no start marker between `from` and `to` finds what a
/// search from `to` finds.
pub proof fn lemma_search_passes(s: Seq<u8>, from: int, to: int)
    requires
        0 <= from <= to <= s.len(),
        forall|j: int| from <= j < to ==> !start_at(s, j),
    ensures
        first_start(s, from) == first_start(s, to),
    decreases to - from,
{
    if from < to {
        lemma_search_passes(s, from + 1, to);
    }
}

/// A search in `x` finds the same marker when `noise` stands before `x`.
pub proof fn lemma_search_shifts(noise: Seq<u8>, x: Seq<u8>, k: int)
    requires
        0 <= k,
    ensures
        first_start(noise + x, noise.len() + k) == (if first_start(x, k) >= x.len() {
            (noise + x).len() as int
        } else {
            noise.len() + first_start(x, k)
        }),
    decreases x.len() - k,
{
    let s = noise + x;
    let m = noise.len() as int;
    if k + 2 > x.len() {
    } else {
        assert(s[m + k] == x[k] && s[m + k + 1] == x[k + 1]);
        if start_at(x, k) {
        } else {
            lemma_search_shifts(noise, x, k + 1);
        }
    }
}

/// Bytes before the first start marker are noise: the decoder reports of
/// `noise + x` what it reports of `x`.
pub proof fn lemma_noise_skipped(noise: Seq<u8>, x: Seq<u8>)
    requires
        forall|j: int| 0 <= j < noise.len() ==> !start_at(noise + x, j),
    ensures
        next_frame(noise + x).outcome == next_frame(x).outcome,
        goes_on(next_frame(x)) ==> next_frame(noise + x).consumed == noise.len() + next_frame(
            x,
        ).consumed,
        stream_outcomes(noise + x) == stream_outcomes(x),
{
    let s = noise + x;
    let m = noise.len() as int;
    lemma_search_passes(s, 0, m);
    lemma_search_shifts(noise, x, 0);
    lemma_first_start(x, 0);
    let i = first_start(x, 0);
    if i < x.len() {
        assert(first_start(s, 0) == m + i);
        assert(forall|j: int| 0 <= j < x.len() ==> s[m + j] == x[j]);
        let n = be_u16_at(x, i + 2) as int;
        if x.len() >= i + 4 {
            assert(be_u16_at(s, m + i + 2) == n) by {
                reveal(be_u16_at);
            }
            if x.len() >= i + 6 + n {
                assert(s.subrange(m + i + 4, m + i + 4 + n) =~= x.subrange(i + 4, i + 4 + n));
                assert(be_u16_at(s, m + i + 4 + n) == be_u16_at(x, i + 4 + n)) by {
                    reveal(be_u16_at);
                }
            }
        }
        assert(frame_at(s, m + i).outcome == frame_at(x, i).outcome);
        assert(frame_at(s, m + i).consumed == m + frame_at(x, i).consumed);
        if goes_on(next_frame(x)) {
            lemma_step_bounds(x);
            assert(s.skip(m + next_frame(x).consumed) =~= x.skip(next_frame(x).consumed));
        }
    }
}

/// Frames that stand one after the other decode one after the other, and
/// the decoder goes on with what follows them.
pub proof fn lemma_frames_in_a_row(ps: Seq<Seq<u8>>, rest: Seq<u8>)
    requires
        forall|k: int| 0 <= k < ps.len() ==> valid_payload(#[trigger] ps[k]),
    ensures
        stream_outcomes(envelopes(ps) + rest) == all_decoded(ps) + stream_outcomes(rest),
    decreases ps.len(),
{
    if ps.len() == 0 {
        assert(envelopes(ps) + rest =~= rest);
        assert(all_decoded(ps) + stream_outcomes(rest) =~= stream_outcomes(rest));
    } else {
        let tail = ps.drop_first();
        lemma_frames_in_a_row(tail, rest);
        lemma_frame_round_trip(ps[0], envelopes(tail) + rest);
        assert(envelopes(ps) + rest =~= envelope(ps[0]) + (envelopes(tail) + rest));
        assert(all_decoded(ps) =~= seq![Ok::<Seq<u8>, FrameError>(ps[0])] + all_decoded(tail));
        assert(seq![Ok::<Seq<u8>, FrameError>(ps[0])] + (all_decoded(tail) + stream_outcomes(rest))
            =~= all_decoded(ps) + stream_outcomes(rest));
    }
}

/// One corrupt payload byte costs one frame and no more: the damaged frame
/// is reported as a checksum mismatch, and the decoder reports of the
/// stream behind it what it would report of that stream alone.
pub proof fn lemma_resynchronizes(payload: Seq<u8>, i: int, b: u8, rest: Seq<u8>)
    requires
        valid_payload(payload),
        0 <= i < payload.len(),
        b != payload[i],
    ensures
        stream_outcomes(corrupted(payload, i, b) + rest) == seq![
            Err::<Seq<u8>, FrameError>(
                FrameError::ChecksumMismatch {
                    expected: checksum_of(payload),
                    actual: checksum_of(payload.update(i, b)),
                },
            ),
        ] + stream_outcomes(rest),
{
    let damaged = payload.update(i, b);
    let s = corrupted(payload, i, b) + rest;
    lemma_corrupt_payload_byte(payload, i, b, rest);
    lemma_frame_layout(damaged, checksum_of(payload), END_0, END_1, rest);
    let trailer = seq![END_0, END_1];
    assert(s.skip(damaged.len() as int + 6) == trailer + rest);
    assert((trailer + rest)[0] == END_0 && (trailer + rest)[1] == END_1);
    lemma_noise_skipped(trailer, rest);
}

/// A stream of one frame with a corrupt payload byte followed by any number
/// of sound frames yields the mismatch and then every one of those frames.
pub proof fn lemma_resynchronizes_on_frames(payload: Seq<u8>, i: int, b: u8, ps: Seq<Seq<u8>>)
    requires
        valid_payload(payload),
        0 <= i < payload.len(),
        b != payload[i],
        forall|k: int| 0 <= k < ps.len() ==> valid_payload(#[trigger] ps[k]),
    ensures
        stream_outcomes(corrupted(payload, i, b) + envelopes(ps)) == seq![
            Err::<Seq<u8>, FrameError>(
                FrameError::ChecksumMismatch {
                    expected: checksum_of(payload),
                    actual: checksum_of(payload.update(i, b)),
                },
            ),
        ] + all_decoded(ps),
        all_decoded(ps).len() == ps.len(),
{
    lemma_resynchronizes(payload, i, b, envelopes(ps));
    lemma_frames_in_a_row(ps, Seq::empty());
    assert(envelopes(ps) + Seq::<u8>::empty() =~= envelopes(ps));
    assert(first_start(Seq::<u8>::empty(), 0) == 0);
    assert(all_decoded(ps) + stream_outcomes(Seq::<u8>::empty()) =~= all_decoded(ps));
}

/// A frame whose trailer was damaged is refused and consumed whole, and the
/// decoder reports of the stream behind it what it would report of that
/// stream alone.
pub proof fn lemma_resynchronizes_after_trailer(payload: Seq<u8>, t0: u8, t1: u8, rest: Seq<u8>)
    requires
        valid_payload(payload),
        t0 != END_0 || t1 != END_1,
    ensures
        stream_outcomes(frame_shaped(payload, checksum_of(payload), t0, t1) + rest) == seq![
            Err::<Seq<u8>, FrameError>(FrameError::InvalidTrailer),
        ] + stream_outcomes(rest),
{
    lemma_bad_trailer(payload, t0, t1, rest);
    lemma_frame_layout(payload, checksum_of(payload), t0, t1, rest);
}

} // verus!
