//! Free text from the receiver's firmware, message id 0xFF.

use crate::bits::{text_of, ByteCursor};
use crate::packet::{MessageError, Packet, PacketBuilder};
use vstd::prelude::*;
use vstd::slice::slice_to_vec;
use vstd::utf8::{encode_utf8, encode_utf8_decode_utf8, encode_utf8_valid_utf8};

verus! {

/// Message id of the text message.
pub const ASCII_DATA_ID: u8 = 0xFF;

/// A line of text from the receiver.
#[derive(Debug, Clone)]
pub struct AsciiData {
    message: String,
}

impl View for AsciiData {
    type V = Seq<char>;

    /// The characters of the text.
    closed spec fn view(&self) -> Seq<char> {
        self.message@
    }
}

impl Default for AsciiData {
    fn default() -> (r: Self)
        ensures
            r@ == Seq::<char>::empty(),
    {
        AsciiData { message: String::new() }
    }
}

impl AsciiData {
    /// The message that carries `message`.
    pub fn new(message: String) -> (r: Self)
        ensures
            r@ == message@,
    {
        AsciiData { message }
    }

    /// The text.
    pub fn message(&self) -> (text: &str)
        ensures
            text@ == self@,
    {
        self.message.as_str()
    }
}

impl Packet for AsciiData {
    open spec fn type_id(&self) -> u8 {
        ASCII_DATA_ID
    }

    open spec fn encoding(v: Seq<char>) -> Result<Seq<u8>, MessageError> {
        Ok(encode_utf8(v))
    }

    fn get_bytes(&self) -> (r: Result<Vec<u8>, MessageError>) {
        Ok(slice_to_vec(self.message.as_str().as_bytes()))
    }

    fn get_type(&self) -> (id: u8) {
        ASCII_DATA_ID
    }
}

/// Decoder of text messages: whatever is left of the payload is the text.
#[derive(Clone, Copy, Debug)]
pub struct AsciiDataBuilder;

impl PacketBuilder<AsciiData> for AsciiDataBuilder {
    open spec fn decoding(s: Seq<u8>, at: int) -> Result<Seq<char>, MessageError> {
        Ok(text_of(s.skip(at)))
    }

    fn build_from(&self, input: &mut ByteCursor<'_>) -> (r: Result<AsciiData, MessageError>)
        ensures
            r is Ok,
            final(input).offset() == old(input).source().len(),
    {
        message_from(input.read_all_str_lossy())
    }
}

/// The message that holds the text that decoding gave; a failure of the
/// byte source is passed on as such.
pub fn message_from(decoded: Result<String, irox_bits::Error>) -> (r: Result<
    AsciiData,
    MessageError,
>)
    ensures
        decoded is Ok ==> r is Ok && r->Ok_0@ == decoded->Ok_0@,
        decoded is Err ==> r == Err::<AsciiData, MessageError>(MessageError::Source),
{
    match decoded {
        Ok(message) => Ok(AsciiData { message }),
        Err(_) => Err(MessageError::Source),
    }
}

/// A text reads back from its bytes as it was written, whatever stands
/// before the bytes.
pub proof fn lemma_ascii_data_round_trip(text: Seq<char>, before: Seq<u8>)
    ensures
        text_of((before + encode_utf8(text)).skip(before.len() as int)) == text,
{
    encode_utf8_valid_utf8(text);
    encode_utf8_decode_utf8(text);
    assert((before + encode_utf8(text)).skip(before.len() as int) =~= encode_utf8(text));
}

} // verus!
