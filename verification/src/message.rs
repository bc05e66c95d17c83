//! The closed set of messages, and the decoders that produce them.

use crate::bits::{text_of, ByteCursor};
use crate::input::x02_mesnavdata::{
    nav_data_bytes, parse_nav_data, MeasuredNavigationData, MeasuredNavigationDataBuilder,
    NAV_DATA_ID,
};
use crate::input::x04_meastrackdata::{
    parse_track_data, track_data_bytes, MeasuredTrackData, MeasuredTrackDataBuilder, TrackDataView,
    TRACK_DATA_ID,
};
use crate::input::x07_clockstatus::{
    clock_status_bytes, parse_clock_status, ClockStatus, ClockStatusBuilder, CLOCK_STATUS_ID,
};
use crate::input::x08_50bpsdata::{
    parse_subframe, subframe_bytes, FiftyBpsData, FiftyBpsDataBuilder, SUBFRAME_ID,
};
use crate::input::x1E_navsvstate::{
    parse_sv_state, sv_state_bytes, NavLibSVState, NavLibSVStateBuilder, SV_STATE_ID,
};
use crate::input::x35_advpwrmgmt::{
    parse_power_mgmt, power_mgmt_bytes, AdvancedPowerManagement, AdvancedPowerManagementBuilder,
    POWER_MGMT_ID,
};
use crate::input::xff_asciidata::{AsciiData, AsciiDataBuilder, ASCII_DATA_ID};
use crate::packet::{MessageError, Packet, PacketBuilder};
use vstd::prelude::*;
use vstd::utf8::encode_utf8;

verus! {

/// A decoded message: one variant for each message type that is modelled.
#[derive(Clone, Debug)]
pub enum Message {
    /// Measured navigation data.
    NavData(MeasuredNavigationData),
    /// Measured tracking data.
    TrackData(MeasuredTrackData),
    /// Clock status.
    ClockStatus(ClockStatus),
    /// A subframe of the 50 bit/s navigation message.
    Subframe(FiftyBpsData),
    /// The state of one satellite.
    SvState(NavLibSVState),
    /// Power management settings.
    PowerMgmt(AdvancedPowerManagement),
    /// Free text.
    Text(AsciiData),
}

/// A message as a mathematical value.
pub enum MessageView {
    /// Measured navigation data.
    NavData(MeasuredNavigationData),
    /// Measured tracking data.
    TrackData(TrackDataView),
    /// Clock status.
    ClockStatus(ClockStatus),
    /// A subframe of the 50 bit/s navigation message.
    Subframe(FiftyBpsData),
    /// The state of one satellite.
    SvState(NavLibSVState),
    /// Power management settings.
    PowerMgmt(AdvancedPowerManagement),
    /// Free text.
    Text(Seq<char>),
}

impl View for Message {
    type V = MessageView;

    open spec fn view(&self) -> MessageView {
        match self {
            Message::NavData(m) => MessageView::NavData(m@),
            Message::TrackData(m) => MessageView::TrackData(m@),
            Message::ClockStatus(m) => MessageView::ClockStatus(m@),
            Message::Subframe(m) => MessageView::Subframe(m@),
            Message::SvState(m) => MessageView::SvState(m@),
            Message::PowerMgmt(m) => MessageView::PowerMgmt(m@),
            Message::Text(m) => MessageView::Text(m@),
        }
    }
}

impl MessageView {
    /// The message id under which this message travels.
    pub open spec fn id(self) -> u8 {
        match self {
            MessageView::NavData(_) => NAV_DATA_ID,
            MessageView::TrackData(_) => TRACK_DATA_ID,
            MessageView::ClockStatus(_) => CLOCK_STATUS_ID,
            MessageView::Subframe(_) => SUBFRAME_ID,
            MessageView::SvState(_) => SV_STATE_ID,
            MessageView::PowerMgmt(_) => POWER_MGMT_ID,
            MessageView::Text(_) => ASCII_DATA_ID,
        }
    }

    /// The bytes of the message's fields, or why it cannot be written.
    pub open spec fn bytes(self) -> Result<Seq<u8>, MessageError> {
        match self {
            MessageView::NavData(m) => nav_data_bytes(m),
            MessageView::TrackData(m) => track_data_bytes(m),
            MessageView::ClockStatus(m) => clock_status_bytes(m),
            MessageView::Subframe(m) => subframe_bytes(m),
            MessageView::SvState(m) => sv_state_bytes(m),
            MessageView::PowerMgmt(m) => power_mgmt_bytes(m),
            MessageView::Text(m) => Ok(encode_utf8(m)),
        }
    }

    /// The decoder that reads messages of this type.
    pub open spec fn decoder(self) -> Decoder {
        match self {
            MessageView::NavData(_) => Decoder::NavData,
            MessageView::TrackData(_) => Decoder::TrackData,
            MessageView::ClockStatus(_) => Decoder::ClockStatus,
            MessageView::Subframe(_) => Decoder::Subframe,
            MessageView::SvState(_) => Decoder::SvState,
            MessageView::PowerMgmt(_) => Decoder::PowerMgmt,
            MessageView::Text(_) => Decoder::Text,
        }
    }
}

impl Packet for Message {
    open spec fn type_id(&self) -> u8 {
        self@.id()
    }

    open spec fn encoding(v: MessageView) -> Result<Seq<u8>, MessageError> {
        v.bytes()
    }

    fn get_bytes(&self) -> (r: Result<Vec<u8>, MessageError>) {
        match self {
            Message::NavData(m) => m.get_bytes(),
            Message::TrackData(m) => m.get_bytes(),
            Message::ClockStatus(m) => m.get_bytes(),
            Message::Subframe(m) => m.get_bytes(),
            Message::SvState(m) => m.get_bytes(),
            Message::PowerMgmt(m) => m.get_bytes(),
            Message::Text(m) => m.get_bytes(),
        }
    }

    fn get_type(&self) -> (id: u8) {
        match self {
            Message::NavData(m) => m.get_type(),
            Message::TrackData(m) => m.get_type(),
            Message::ClockStatus(m) => m.get_type(),
            Message::Subframe(m) => m.get_type(),
            Message::SvState(m) => m.get_type(),
            Message::PowerMgmt(m) => m.get_type(),
            Message::Text(m) => m.get_type(),
        }
    }
}

/// The decoders that a registry can hold: one for each message type.
#[derive(Clone, Copy, Debug, PartialEq, Eq, Structural)]
pub enum Decoder {
    /// Reads measured navigation data.
    NavData,
    /// Reads measured tracking data.
    TrackData,
    /// Reads a clock status.
    ClockStatus,
    /// Reads a subframe of the 50 bit/s navigation message.
    Subframe,
    /// Reads the state of one satellite.
    SvState,
    /// Reads power management settings.
    PowerMgmt,
    /// Reads whatever is left as text.
    Text,
}

/// The result of a decoder of one message type as a result of the set.
pub open spec fn lifted<V>(r: Result<V, MessageError>, wrap: spec_fn(V) -> MessageView) -> Result<
    MessageView,
    MessageError,
> {
    match r {
        Ok(m) => Ok(wrap(m)),
        Err(e) => Err(e),
    }
}

impl Decoder {
    /// The message that this decoder reads from the bytes of `s` from index
    /// `at` on, or why it reads none.
    pub open spec fn decoding(self, s: Seq<u8>, at: int) -> Result<MessageView, MessageError> {
        match self {
            Decoder::NavData => lifted(
                parse_nav_data(s, at),
                |m: MeasuredNavigationData| MessageView::NavData(m),
            ),
            Decoder::TrackData => lifted(
                parse_track_data(s, at),
                |m: TrackDataView| MessageView::TrackData(m),
            ),
            Decoder::ClockStatus => lifted(
                parse_clock_status(s, at),
                |m: ClockStatus| MessageView::ClockStatus(m),
            ),
            Decoder::Subframe => lifted(
                parse_subframe(s, at),
                |m: FiftyBpsData| MessageView::Subframe(m),
            ),
            Decoder::SvState => lifted(
                parse_sv_state(s, at),
                |m: NavLibSVState| MessageView::SvState(m),
            ),
            Decoder::PowerMgmt => lifted(
                parse_power_mgmt(s, at),
                |m: AdvancedPowerManagement| MessageView::PowerMgmt(m),
            ),
            Decoder::Text => Ok(MessageView::Text(text_of(s.skip(at)))),
        }
    }

    /// The message id that the receiver sends this decoder's messages under.
    pub fn standard_id(&self) -> (id: u8)
        ensures
            id == match *self {
                Decoder::NavData => NAV_DATA_ID,
                Decoder::TrackData => TRACK_DATA_ID,
                Decoder::ClockStatus => CLOCK_STATUS_ID,
                Decoder::Subframe => SUBFRAME_ID,
                Decoder::SvState => SV_STATE_ID,
                Decoder::PowerMgmt => POWER_MGMT_ID,
                Decoder::Text => ASCII_DATA_ID,
            },
    {
        match self {
            Decoder::NavData => NAV_DATA_ID,
            Decoder::TrackData => TRACK_DATA_ID,
            Decoder::ClockStatus => CLOCK_STATUS_ID,
            Decoder::Subframe => SUBFRAME_ID,
            Decoder::SvState => SV_STATE_ID,
            Decoder::PowerMgmt => POWER_MGMT_ID,
            Decoder::Text => ASCII_DATA_ID,
        }
    }

    /// Reads one message from the cursor. Where it fails the cursor is left
    /// as it was.
    pub fn decode(&self, input: &mut ByteCursor<'_>) -> (r: Result<Message, MessageError>)
        ensures
            message_view(r) == self.decoding(old(input).source(), old(input).offset() as int),
            final(input).source() == old(input).source(),
            final(input).offset() >= old(input).offset(),
            r is Err ==> *final(input) == *old(input),
    {
        match self {
            Decoder::NavData => match MeasuredNavigationDataBuilder.build_from(input) {
                Ok(m) => Ok(Message::NavData(m)),
                Err(e) => Err(e),
            },
            Decoder::TrackData => match MeasuredTrackDataBuilder.build_from(input) {
                Ok(m) => Ok(Message::TrackData(m)),
                Err(e) => Err(e),
            },
            Decoder::ClockStatus => match ClockStatusBuilder.build_from(input) {
                Ok(m) => Ok(Message::ClockStatus(m)),
                Err(e) => Err(e),
            },
            Decoder::Subframe => match FiftyBpsDataBuilder.build_from(input) {
                Ok(m) => Ok(Message::Subframe(m)),
                Err(e) => Err(e),
            },
            Decoder::SvState => match NavLibSVStateBuilder.build_from(input) {
                Ok(m) => Ok(Message::SvState(m)),
                Err(e) => Err(e),
            },
            Decoder::PowerMgmt => match AdvancedPowerManagementBuilder.build_from(input) {
                Ok(m) => Ok(Message::PowerMgmt(m)),
                Err(e) => Err(e),
            },
            Decoder::Text => match AsciiDataBuilder.build_from(input) {
                Ok(m) => Ok(Message::Text(m)),
                Err(e) => Err(e),
            },
        }
    }
}

/// What a decoding result says in terms of the view of its message.
pub open spec fn message_view(r: Result<Message, MessageError>) -> Result<
    MessageView,
    MessageError,
> {
    match r {
        Ok(m) => Ok(m@),
        Err(e) => Err(e),
    }
}

} // verus!
