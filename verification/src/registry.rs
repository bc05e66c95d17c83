//! The registry that maps message ids to decoders, and dispatch of
//! validated frames through it.

use crate::bits::{ByteCursor, ByteSink};
use crate::frame::{
    decode_stream, encode_frame, envelope, outcomes_view, stream_outcomes, valid_payload, Frame,
    FrameError,
};
use crate::message::{Decoder, Message, MessageView};
use crate::packet::{MessageError, Packet};
use vstd::prelude::*;

verus! {

/// Number of message ids.
pub const ID_COUNT: usize = 256;

/// Why a registration was refused.
#[derive(Clone, Copy, Debug, PartialEq, Eq, Structural)]
pub enum RegistryError {
    /// A decoder is registered for this message id already.
    Duplicate { message_id: u8 },
}

/// Why a validated frame gave no message.
#[derive(Clone, Debug)]
pub enum DispatchError {
    /// No decoder is registered for the frame's message id. The payload is
    /// handed back as it was received.
    UnknownMessageType { message_id: u8, payload: Vec<u8> },
    /// The decoder registered for the message id refused the payload.
    Decode { message_id: u8, error: MessageError },
}

/// A dispatch error as a mathematical value.
pub enum DispatchErrorView {
    /// No decoder is registered for the frame's message id.
    UnknownMessageType { message_id: u8, payload: Seq<u8> },
    /// The decoder registered for the message id refused the payload.
    Decode { message_id: u8, error: MessageError },
}

impl View for DispatchError {
    type V = DispatchErrorView;

    open spec fn view(&self) -> DispatchErrorView {
        match self {
            DispatchError::UnknownMessageType { message_id, payload } => {
                DispatchErrorView::UnknownMessageType {
                    message_id: *message_id,
                    payload: payload@,
                }
            },
            DispatchError::Decode { message_id, error } => DispatchErrorView::Decode {
                message_id: *message_id,
                error: *error,
            },
        }
    }
}

/// What dispatch makes of a payload, given the decoders registered: the
/// first byte selects the decoder, which reads the bytes that follow. Bytes
/// that follow the last field of the message are not read.
pub open spec fn dispatching(decoders: Map<u8, Decoder>, payload: Seq<u8>) -> Result<
    MessageView,
    DispatchErrorView,
> {
    let message_id = payload[0];
    if !decoders.dom().contains(message_id) {
        Err(DispatchErrorView::UnknownMessageType { message_id, payload })
    } else {
        match decoders[message_id].decoding(payload, 1) {
            Ok(m) => Ok(m),
            Err(error) => Err(DispatchErrorView::Decode { message_id, error }),
        }
    }
}

/// What a dispatch result says in terms of views.
pub open spec fn dispatch_view(r: Result<Message, DispatchError>) -> Result<
    MessageView,
    DispatchErrorView,
> {
    match r {
        Ok(m) => Ok(m@),
        Err(e) => Err(e@),
    }
}

/// The decoders of the receiver's messages under the ids that the receiver
/// sends them with.
pub open spec fn standard_decoders() -> Map<u8, Decoder> {
    Map::<u8, Decoder>::empty().insert(0x02, Decoder::NavData).insert(
        0x04,
        Decoder::TrackData,
    ).insert(0x07, Decoder::ClockStatus).insert(0x08, Decoder::Subframe).insert(
        0x1E,
        Decoder::SvState,
    ).insert(0x35, Decoder::PowerMgmt).insert(0xFF, Decoder::Text)
}

/// A mapping from message ids to decoders. It is filled once and read
/// thereafter; no id can be registered twice.
#[derive(Debug)]
pub struct Registry {
    slots: Vec<Option<Decoder>>,
}

impl View for Registry {
    type V = Map<u8, Decoder>;

    /// The decoder registered for each message id.
    closed spec fn view(&self) -> Map<u8, Decoder> {
        Map::new(
            |id: u8| id < self.slots@.len() && self.slots@[id as int] is Some,
            |id: u8| self.slots@[id as int]->Some_0,
        )
    }
}

impl Registry {
    #[verifier::type_invariant]
    spec fn one_slot_for_each_id(&self) -> bool {
        self.slots@.len() == ID_COUNT
    }

    /// A registry without any decoder.
    pub fn new() -> (registry: Self)
        ensures
            registry@ == Map::<u8, Decoder>::empty(),
    {
        let mut slots: Vec<Option<Decoder>> = Vec::new();
        let mut i: usize = 0;
        while i < ID_COUNT
            invariant
                i <= ID_COUNT,
                slots@.len() == i,
                forall|j: int| 0 <= j < i ==> slots@[j] is None,
            decreases ID_COUNT - i,
        {
            slots.push(None);
            i = i + 1;
        }
        let registry = Registry { slots };
        assert(registry@ =~= Map::<u8, Decoder>::empty());
        registry
    }

    /// Registers `decoder` for `message_id`. An id that has a decoder keeps
    /// it: the registration is refused and the registry is left as it was.
    pub fn register(&mut self, message_id: u8, decoder: Decoder) -> (r: Result<(), RegistryError>)
        ensures
            old(self)@.dom().contains(message_id) ==> r == Err::<(), RegistryError>(
                RegistryError::Duplicate { message_id },
            ) && final(self)@ == old(self)@,
            !old(self)@.dom().contains(message_id) ==> r is Ok && final(self)@ == old(self)@.insert(
                message_id,
                decoder,
            ),
    {
        proof {
            use_type_invariant(&*self);
        }
        if self.slots[message_id as usize].is_some() {
            return Err(RegistryError::Duplicate { message_id });
        }
        self.slots[message_id as usize] = Some(decoder);
        assert(self@ =~= old(self)@.insert(message_id, decoder));
        Ok(())
    }

    /// The registry of the receiver's messages: every decoder under the id
    /// that the receiver sends its messages with.
    pub fn standard() -> (registry: Self)
        ensures
            registry@ == standard_decoders(),
    {
        let mut registry = Registry::new();
        let _ = registry.register(0x02, Decoder::NavData);
        let _ = registry.register(0x04, Decoder::TrackData);
        let _ = registry.register(0x07, Decoder::ClockStatus);
        let _ = registry.register(0x08, Decoder::Subframe);
        let _ = registry.register(0x1E, Decoder::SvState);
        let _ = registry.register(0x35, Decoder::PowerMgmt);
        let _ = registry.register(0xFF, Decoder::Text);
        registry
    }

    /// The decoder registered for `message_id`, if there is one.
    pub fn lookup(&self, message_id: u8) -> (r: Option<Decoder>)
        ensures
            r == (if self@.dom().contains(message_id) {
                Some(self@[message_id])
            } else {
                None
            }),
    {
        proof {
            use_type_invariant(self);
        }
        self.slots[message_id as usize]
    }

    /// Decodes the payload of a validated frame with the decoder registered
    /// for its message id. Where none is registered, the payload comes back
    /// unchanged in the error.
    pub fn dispatch(&self, frame: &Frame) -> (r: Result<Message, DispatchError>)
        ensures
            dispatch_view(r) == dispatching(self@, frame@),
    {
        let message_id = frame.message_id();
        let payload = frame.payload();
        match self.lookup(message_id) {
            None => {
                let mut copy = ByteSink::new();
                copy.write_all(payload);
                let kept = copy.into_bytes();
                assert(kept@ =~= frame@);
                Err(DispatchError::UnknownMessageType { message_id, payload: kept })
            },
            Some(decoder) => {
                let mut cursor = ByteCursor::new(payload);
                let _ = cursor.skip(1);
                match decoder.decode(&mut cursor) {
                    Ok(m) => Ok(m),
                    Err(error) => Err(DispatchError::Decode { message_id, error }),
                }
            },
        }
    }
}

/// Why a message could not be put in a frame.
#[derive(Clone, Copy, Debug, PartialEq, Eq, Structural)]
pub enum EncodeError {
    /// The message holds a value that its wire field cannot hold.
    Message(MessageError),
    /// The payload is longer than a frame can carry.
    Frame(FrameError),
}

/// The payload of a message: its id, then the bytes of its fields.
pub open spec fn payload_of(m: MessageView) -> Seq<u8>
    recommends
        m.bytes() is Ok,
{
    seq![m.id()] + m.bytes()->Ok_0
}

/// The frame of a message, or why it has none.
pub open spec fn message_frame(m: MessageView) -> Result<Seq<u8>, EncodeError> {
    match m.bytes() {
        Err(error) => Err(EncodeError::Message(error)),
        Ok(_) => if valid_payload(payload_of(m)) {
            Ok(envelope(payload_of(m)))
        } else {
            Err(
                EncodeError::Frame(
                    FrameError::InvalidLength { length: payload_of(m).len() as usize },
                ),
            )
        },
    }
}

/// What an encoding result says in terms of bytes.
pub open spec fn frame_bytes_view(r: Result<Vec<u8>, EncodeError>) -> Result<Seq<u8>, EncodeError> {
    match r {
        Ok(bytes) => Ok(bytes@),
        Err(e) => Err(e),
    }
}

/// Serializes a message and wraps it in its envelope, with a freshly
/// computed checksum.
pub fn encode_message(message: &Message) -> (r: Result<Vec<u8>, EncodeError>)
    ensures
        frame_bytes_view(r) == message_frame(message@),
{
    let fields = match message.get_bytes() {
        Ok(bytes) => bytes,
        Err(error) => {
            return Err(EncodeError::Message(error));
        },
    };
    let mut payload = ByteSink::new();
    payload.write_u8(message.get_type());
    payload.write_all(fields.as_slice());
    let payload = payload.into_bytes();
    assert(payload@ =~= payload_of(message@));
    match encode_frame(payload.as_slice()) {
        Ok(bytes) => Ok(bytes),
        Err(error) => Err(EncodeError::Frame(error)),
    }
}

/// Why a stretch of the stream gave no message.
#[derive(Clone, Debug)]
pub enum LinkError {
    /// The envelope was refused.
    Frame(FrameError),
    /// The frame was sound and gave no message.
    Dispatch(DispatchError),
}

/// A link error as a mathematical value.
pub enum LinkErrorView {
    /// The envelope was refused.
    Frame(FrameError),
    /// The frame was sound and gave no message.
    Dispatch(DispatchErrorView),
}

impl View for LinkError {
    type V = LinkErrorView;

    open spec fn view(&self) -> LinkErrorView {
        match self {
            LinkError::Frame(error) => LinkErrorView::Frame(*error),
            LinkError::Dispatch(error) => LinkErrorView::Dispatch(error@),
        }
    }
}

/// What the link makes of one entry of the frame decoder's report.
pub open spec fn delivering(decoders: Map<u8, Decoder>, outcome: Result<Seq<u8>, FrameError>)
    -> Result<MessageView, LinkErrorView> {
    match outcome {
        Err(error) => Err(LinkErrorView::Frame(error)),
        Ok(payload) => match dispatching(decoders, payload) {
            Ok(m) => Ok(m),
            Err(error) => Err(LinkErrorView::Dispatch(error)),
        },
    }
}

/// What the link reports of a whole stream: for each frame found or
/// refused, in order, the message it gave or why it gave none.
pub open spec fn stream_messages(decoders: Map<u8, Decoder>, s: Seq<u8>) -> Seq<
    Result<MessageView, LinkErrorView>,
> {
    stream_outcomes(s).map_values(|o: Result<Seq<u8>, FrameError>| delivering(decoders, o))
}

/// What a delivery says in terms of views.
pub open spec fn delivery_view(r: Result<Message, LinkError>) -> Result<MessageView, LinkErrorView> {
    match r {
        Ok(m) => Ok(m@),
        Err(e) => Err(e@),
    }
}

impl Registry {
    /// Decodes every frame of `data` and dispatches each sound one: one
    /// entry for each frame found or refused, in stream order.
    pub fn decode_messages(&self, data: &[u8]) -> (out: Vec<Result<Message, LinkError>>)
        ensures
            out@.map_values(|r: Result<Message, LinkError>| delivery_view(r)) == stream_messages(
                self@,
                data@,
            ),
    {
        let frames = decode_stream(data);
        let ghost outcomes = stream_outcomes(data@);
        let mut out: Vec<Result<Message, LinkError>> = Vec::new();
        let mut i: usize = 0;
        while i < frames.len()
            invariant
                i <= frames@.len(),
                outcomes_view(frames@) == outcomes,
                out@.len() == i,
                forall|j: int|
                    0 <= j < i ==> delivery_view(#[trigger] out@[j]) == delivering(self@, outcomes[j]),
            decreases frames@.len() - i,
        {
            assert(outcomes_view(frames@)[i as int] == outcomes[i as int]);
            let entry = match &frames[i] {
                Ok(frame) => match self.dispatch(frame) {
                    Ok(m) => Ok(m),
                    Err(error) => Err(LinkError::Dispatch(error)),
                },
                Err(error) => Err(LinkError::Frame(*error)),
            };
            out.push(entry);
            i = i + 1;
        }
        assert(out@.map_values(|r: Result<Message, LinkError>| delivery_view(r)) =~= stream_messages(
            self@,
            data@,
        ));
        out
    }
}

} // verus!
