//! What holds of messages on the link: a message that was encoded is
//! delivered as it was, an unknown message id keeps its payload, and a
//! damaged frame costs no message but its own.

use crate::frame::{checksum_of, stream_outcomes, valid_payload, FrameError};
use crate::frame_laws::{
    all_decoded, corrupted, envelopes, lemma_resynchronizes_on_frames, lemma_single_frame,
};
use crate::input::util::GPSTOW_STEP_MICROS;
use crate::input::x02_mesnavdata::lemma_nav_data_round_trip;
use crate::input::x04_meastrackdata::lemma_track_data_round_trip;
use crate::input::x07_clockstatus::lemma_clock_status_round_trip;
use crate::input::x08_50bpsdata::lemma_subframe_round_trip;
use crate::input::x1E_navsvstate::lemma_sv_state_round_trip;
use crate::input::x35_advpwrmgmt::lemma_power_mgmt_round_trip;
use crate::input::xff_asciidata::lemma_ascii_data_round_trip;
use crate::message::{Decoder, MessageView};
use crate::packet::MessageError;
use crate::registry::{
    dispatching, message_frame, payload_of, standard_decoders, stream_messages, DispatchErrorView,
    LinkErrorView,
};
use vstd::prelude::*;

verus! {

/// True when the message's time of week, if it has one, is a whole number
/// of wire steps, so that writing it rounds nothing away.
pub open spec fn whole_steps(m: MessageView) -> bool {
    match m {
        MessageView::NavData(d) => d.gps_tow % GPSTOW_STEP_MICROS == 0,
        MessageView::TrackData(d) => d.gps_tow % GPSTOW_STEP_MICROS == 0,
        MessageView::ClockStatus(d) => d.gps_tow % GPSTOW_STEP_MICROS == 0,
        _ => true,
    }
}

/// A message that a frame can carry as it is: its fields fit the wire, none
/// is rounded, and its payload is not too long.
pub open spec fn carried_exactly(m: MessageView) -> bool {
    message_frame(m) is Ok && whole_steps(m)
}

/// The receiver's messages are registered under their own ids.
pub proof fn lemma_standard_decoders(m: MessageView)
    ensures
        standard_decoders().dom().contains(m.id()),
        standard_decoders()[m.id()] == m.decoder(),
{
}

/// The decoder of a message reads the message back from its payload.
pub proof fn lemma_payload_round_trip(m: MessageView)
    requires
        m.bytes() is Ok,
        whole_steps(m),
    ensures
        m.decoder().decoding(payload_of(m), 1) == Ok::<MessageView, MessageError>(m),
{
    let before = seq![m.id()];
    let after = Seq::<u8>::empty();
    let w = m.bytes()->Ok_0;
    assert(before + w + after =~= payload_of(m));
    match m {
        MessageView::NavData(d) => {
            lemma_nav_data_round_trip(d, before, after);
        },
        MessageView::TrackData(d) => {
            lemma_track_data_round_trip(d, before, after);
        },
        MessageView::ClockStatus(d) => {
            lemma_clock_status_round_trip(d, before, after);
        },
        MessageView::Subframe(d) => {
            lemma_subframe_round_trip(d, before, after);
        },
        MessageView::SvState(d) => {
            lemma_sv_state_round_trip(d, before, after);
        },
        MessageView::PowerMgmt(d) => {
            lemma_power_mgmt_round_trip(d, before, after);
        },
        MessageView::Text(t) => {
            lemma_ascii_data_round_trip(t, before);
        },
    }
}

/// Dispatch of the payload of a message through the standard registry gives
/// the message.
pub proof fn lemma_dispatch_round_trip(m: MessageView)
    requires
        m.bytes() is Ok,
        whole_steps(m),
    ensures
        dispatching(standard_decoders(), payload_of(m)) == Ok::<MessageView, DispatchErrorView>(m),
{
    lemma_standard_decoders(m);
    lemma_payload_round_trip(m);
    assert(payload_of(m)[0] == m.id());
}

/// A message that was encoded and framed is delivered as it was: the stream
/// that holds its frame gives exactly that message.
pub proof fn lemma_message_round_trip(m: MessageView)
    requires
        carried_exactly(m),
    ensures
        stream_messages(standard_decoders(), message_frame(m)->Ok_0) == seq![
            Ok::<MessageView, LinkErrorView>(m),
        ],
{
    lemma_dispatch_round_trip(m);
    lemma_single_frame(payload_of(m));
    assert(stream_messages(standard_decoders(), message_frame(m)->Ok_0) =~= seq![
        Ok::<MessageView, LinkErrorView>(m),
    ]);
}

/// A frame whose message id has no decoder is reported as unknown, and the
/// report holds the id and the payload as they were received.
pub proof fn lemma_unknown_keeps_payload(decoders: Map<u8, Decoder>, payload: Seq<u8>)
    requires
        !decoders.dom().contains(payload[0]),
    ensures
        dispatching(decoders, payload) == Err::<MessageView, DispatchErrorView>(
            DispatchErrorView::UnknownMessageType { message_id: payload[0], payload },
        ),
{
}

/// The payloads of the messages `ms`, in order.
pub open spec fn payloads_of(ms: Seq<MessageView>) -> Seq<Seq<u8>> {
    Seq::new(ms.len(), |k: int| payload_of(ms[k]))
}

/// The report of a stream that delivered each of `ms`, in order.
pub open spec fn all_delivered(ms: Seq<MessageView>) -> Seq<Result<MessageView, LinkErrorView>> {
    Seq::new(ms.len(), |k: int| Ok::<MessageView, LinkErrorView>(ms[k]))
}

/// A stream of one frame with a corrupt payload byte followed by the frames
/// of any number of messages delivers every one of those messages, in
/// order, after the report of the mismatch: one corrupt frame costs no
/// message that follows it.
pub proof fn lemma_link_resynchronizes(payload: Seq<u8>, i: int, b: u8, ms: Seq<MessageView>)
    requires
        valid_payload(payload),
        0 <= i < payload.len(),
        b != payload[i],
        forall|k: int| 0 <= k < ms.len() ==> carried_exactly(#[trigger] ms[k]),
    ensures
        stream_messages(standard_decoders(), corrupted(payload, i, b) + envelopes(payloads_of(ms)))
            == seq![
            Err::<MessageView, LinkErrorView>(
                LinkErrorView::Frame(
                    FrameError::ChecksumMismatch {
                        expected: checksum_of(payload),
                        actual: checksum_of(payload.update(i, b)),
                    },
                ),
            ),
        ] + all_delivered(ms),
        all_delivered(ms).len() == ms.len(),
{
    let ps = payloads_of(ms);
    assert forall|k: int| 0 <= k < ps.len() implies valid_payload(#[trigger] ps[k]) by {
        assert(carried_exactly(ms[k]));
    }
    lemma_resynchronizes_on_frames(payload, i, b, ps);
    let outcomes = stream_outcomes(corrupted(payload, i, b) + envelopes(ps));
    let report = stream_messages(standard_decoders(), corrupted(payload, i, b) + envelopes(ps));
    assert(outcomes.len() == ms.len() + 1);
    assert forall|k: int| 0 <= k < ms.len() implies #[trigger] report[k + 1] == Ok::<
        MessageView,
        LinkErrorView,
    >(ms[k]) by {
        assert(outcomes[k + 1] == all_decoded(ps)[k]);
        assert(carried_exactly(ms[k]));
        lemma_dispatch_round_trip(ms[k]);
    }
    let expected = seq![
        Err::<MessageView, LinkErrorView>(
            LinkErrorView::Frame(
                FrameError::ChecksumMismatch {
                    expected: checksum_of(payload),
                    actual: checksum_of(payload.update(i, b)),
                },
            ),
        ),
    ] + all_delivered(ms);
    assert(report.len() == expected.len());
    assert forall|k: int| 0 <= k < report.len() implies report[k] == expected[k] by {
        if k > 0 {
            assert(report[(k - 1) + 1] == Ok::<MessageView, LinkErrorView>(ms[k - 1]));
        }
    }
    assert(report =~= expected);
}

} // verus!
