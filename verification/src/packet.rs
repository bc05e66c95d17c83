//! What every message type offers: its bytes and its message id on the way
//! out, a builder that reads it from a cursor on the way in.

use crate::bits::{
    be_u16_at, be_u32_at, be_u64_at, signed16, signed32, ByteCursor, UnexpectedEnd,
};
use vstd::prelude::*;

verus! {

/// Why a message could not be read from, or written as, payload bytes.
#[derive(Clone, Copy, Debug, PartialEq, Eq, Structural)]
pub enum MessageError {
    /// The field that begins at `offset` needs `needed` bytes, and fewer are
    /// left.
    UnexpectedEnd { offset: usize, needed: usize },
    /// The field that begins at `offset` holds a value outside its domain.
    DomainViolation { offset: usize },
    /// The byte source itself reported a failure.
    Source,
}

/// The shortage reported for a field of `needed` bytes at `offset`.
pub open spec fn short_at(offset: int, needed: int) -> MessageError {
    MessageError::UnexpectedEnd { offset: offset as usize, needed: needed as usize }
}

/// The violation reported for the field at `offset`.
pub open spec fn violation_at(offset: int) -> MessageError {
    MessageError::DomainViolation { offset: offset as usize }
}

/// What a result says in terms of the bytes it holds.
pub open spec fn bytes_view(r: Result<Vec<u8>, MessageError>) -> Result<Seq<u8>, MessageError> {
    match r {
        Ok(bytes) => Ok(bytes@),
        Err(e) => Err(e),
    }
}

/// What a result says in terms of the view of the message it holds.
pub open spec fn packet_view<P: View>(r: Result<P, MessageError>) -> Result<P::V, MessageError> {
    match r {
        Ok(packet) => Ok(packet@),
        Err(e) => Err(e),
    }
}

/// A message that can be put on the wire.
pub trait Packet: View + Sized {
    /// The message id under which this message travels.
    spec fn type_id(&self) -> u8;

    /// The bytes of the message's fields, in wire order, without the message
    /// id; or why the message cannot be written.
    spec fn encoding(v: Self::V) -> Result<Seq<u8>, MessageError>;

    /// The bytes of the message's fields, in wire order.
    fn get_bytes(&self) -> (r: Result<Vec<u8>, MessageError>)
        ensures
            bytes_view(r) == Self::encoding(self@),
    ;

    /// The message id under which this message travels.
    fn get_type(&self) -> (id: u8)
        ensures
            id == self.type_id(),
    ;
}

/// A decoder for one message type.
pub trait PacketBuilder<P: Packet> {
    /// The message that the bytes of `s` from index `at` on hold, or why they
    /// hold none. Index `at` is that of the first field: the message id
    /// stands before it.
    spec fn decoding(s: Seq<u8>, at: int) -> Result<P::V, MessageError>;

    /// Reads one message from the cursor. Where it fails the cursor is left
    /// as it was.
    fn build_from(&self, input: &mut ByteCursor<'_>) -> (r: Result<P, MessageError>)
        ensures
            packet_view(r) == Self::decoding(old(input).source(), old(input).offset() as int),
            final(input).source() == old(input).source(),
            final(input).offset() >= old(input).offset(),
            r is Err ==> *final(input) == *old(input),
    ;
}

/// What reading one field of `n` bytes does: where `n` bytes are left it
/// gives `value` and moves `n` bytes on, otherwise it reports the shortage
/// at the field's offset and leaves the cursor as it was.
pub open spec fn field_read<T>(
    before: &ByteCursor<'_>,
    after: &ByteCursor<'_>,
    r: Result<T, MessageError>,
    n: int,
    value: T,
) -> bool {
    if before.has(n) {
        r == Ok::<T, MessageError>(value) && before.advanced(after, n)
    } else {
        r == Err::<T, MessageError>(short_at(before.offset() as int, n)) && *after == *before
    }
}

/// The message error for a shortage that the cursor reported.
pub fn shortage(e: UnexpectedEnd) -> (r: MessageError)
    ensures
        r == (MessageError::UnexpectedEnd { offset: e.offset, needed: e.needed }),
{
    MessageError::UnexpectedEnd { offset: e.offset, needed: e.needed }
}

/// Reads a one-byte unsigned field.
pub fn field_u8(input: &mut ByteCursor<'_>) -> (r: Result<u8, MessageError>)
    ensures
        field_read(old(input), final(input), r, 1, old(input).source()[old(input).offset() as int]),
{
    match input.read_u8() {
        Ok(v) => Ok(v),
        Err(e) => Err(shortage(e)),
    }
}

/// Reads a two-byte unsigned big-endian field.
pub fn field_u16(input: &mut ByteCursor<'_>) -> (r: Result<u16, MessageError>)
    ensures
        field_read(
            old(input),
            final(input),
            r,
            2,
            be_u16_at(old(input).source(), old(input).offset() as int),
        ),
{
    match input.read_be_u16() {
        Ok(v) => Ok(v),
        Err(e) => Err(shortage(e)),
    }
}

/// Reads a two-byte signed big-endian field.
pub fn field_i16(input: &mut ByteCursor<'_>) -> (r: Result<i16, MessageError>)
    ensures
        field_read(
            old(input),
            final(input),
            r,
            2,
            signed16(be_u16_at(old(input).source(), old(input).offset() as int)),
        ),
{
    match input.read_be_i16() {
        Ok(v) => Ok(v),
        Err(e) => Err(shortage(e)),
    }
}

/// Reads a four-byte unsigned big-endian field.
pub fn field_u32(input: &mut ByteCursor<'_>) -> (r: Result<u32, MessageError>)
    ensures
        field_read(
            old(input),
            final(input),
            r,
            4,
            be_u32_at(old(input).source(), old(input).offset() as int),
        ),
{
    match input.read_be_u32() {
        Ok(v) => Ok(v),
        Err(e) => Err(shortage(e)),
    }
}

/// Reads a four-byte signed big-endian field.
pub fn field_i32(input: &mut ByteCursor<'_>) -> (r: Result<i32, MessageError>)
    ensures
        field_read(
            old(input),
            final(input),
            r,
            4,
            signed32(be_u32_at(old(input).source(), old(input).offset() as int)),
        ),
{
    match input.read_be_i32() {
        Ok(v) => Ok(v),
        Err(e) => Err(shortage(e)),
    }
}

/// Reads an eight-byte unsigned big-endian field.
pub fn field_u64(input: &mut ByteCursor<'_>) -> (r: Result<u64, MessageError>)
    ensures
        field_read(
            old(input),
            final(input),
            r,
            8,
            be_u64_at(old(input).source(), old(input).offset() as int),
        ),
{
    match input.read_be_u64() {
        Ok(v) => Ok(v),
        Err(e) => Err(shortage(e)),
    }
}

/// The ten bytes of `s` from index `i` on.
pub open spec fn bytes10_at(s: Seq<u8>, i: int) -> [u8; 10] {
    [s[i], s[i + 1], s[i + 2], s[i + 3], s[i + 4], s[i + 5], s[i + 6], s[i + 7], s[i + 8], s[i + 9]]
}

/// The twelve bytes of `s` from index `i` on.
pub open spec fn bytes12_at(s: Seq<u8>, i: int) -> [u8; 12] {
    [
        s[i],
        s[i + 1],
        s[i + 2],
        s[i + 3],
        s[i + 4],
        s[i + 5],
        s[i + 6],
        s[i + 7],
        s[i + 8],
        s[i + 9],
        s[i + 10],
        s[i + 11],
    ]
}

/// An array of ten bytes is the ten bytes at `i` exactly when its view is
/// that range of the sequence.
pub proof fn lemma_bytes10_at(s: Seq<u8>, i: int, a: [u8; 10])
    requires
        0 <= i,
        i + 10 <= s.len(),
    ensures
        bytes10_at(s, i)@ == s.subrange(i, i + 10),
        a@ == s.subrange(i, i + 10) <==> a == bytes10_at(s, i),
{
    assert(bytes10_at(s, i)@ =~= s.subrange(i, i + 10));
    if a@ == s.subrange(i, i + 10) {
        assert(a =~= bytes10_at(s, i));
    }
}

/// An array of twelve bytes is the twelve bytes at `i` exactly when its view
/// is that range of the sequence.
pub proof fn lemma_bytes12_at(s: Seq<u8>, i: int, a: [u8; 12])
    requires
        0 <= i,
        i + 12 <= s.len(),
    ensures
        bytes12_at(s, i)@ == s.subrange(i, i + 12),
        a@ == s.subrange(i, i + 12) <==> a == bytes12_at(s, i),
{
    assert(bytes12_at(s, i)@ =~= s.subrange(i, i + 12));
    if a@ == s.subrange(i, i + 12) {
        assert(a =~= bytes12_at(s, i));
    }
}

/// Reads a field of `N` bytes.
pub fn field_bytes<const N: usize>(input: &mut ByteCursor<'_>) -> (r: Result<[u8; N], MessageError>)
    ensures
        old(input).has(N as int) ==> r is Ok && r->Ok_0@ == old(input).unread().take(N as int)
            && old(input).advanced(final(input), N as int),
        !old(input).has(N as int) ==> r == Err::<[u8; N], MessageError>(
            short_at(old(input).offset() as int, N as int),
        ) && *final(input) == *old(input),
{
    let bytes = match input.read_exact(N) {
        Ok(v) => v,
        Err(e) => {
            return Err(shortage(e));
        },
    };
    let mut out = [0u8;N];
    let mut i: usize = 0;
    while i < N
        invariant
            i <= N,
            bytes@.len() == N,
            out@.len() == N,
            forall|j: int| 0 <= j < i ==> out@[j] == bytes@[j],
        decreases N - i,
    {
        out[i] = bytes[i];
        i = i + 1;
    }
    assert(out@ =~= bytes@);
    Ok(out)
}

} // verus!
