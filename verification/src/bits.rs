//! Fixed-width integers on the wire and a forward-only cursor over a byte slice.

use vstd::prelude::*;
use vstd::utf8::{decode_utf8, valid_utf8};

verus! {

/// Order in which the bytes of a multi-byte field appear on the wire.
#[derive(Clone, Copy, Debug, PartialEq, Eq, Structural)]
pub enum ByteOrder {
    /// Most significant byte first.
    BigEndian,
    /// Least significant byte first.
    LittleEndian,
}

/// A read asked for more bytes than the source still holds.
#[derive(Clone, Copy, Debug, PartialEq, Eq, Structural)]
pub struct UnexpectedEnd {
    /// Offset in the source at which the read began.
    pub offset: usize,
    /// Number of bytes the read asked for.
    pub needed: usize,
}

/// The 16-bit value whose big-endian bytes are `s[i]`, `s[i + 1]`.
#[verifier::opaque]
pub open spec fn be_u16_at(s: Seq<u8>, i: int) -> u16 {
    (s[i] as int * 0x100 + s[i + 1] as int) as u16
}

/// The 32-bit value whose big-endian bytes are `s[i] .. s[i + 3]`.
#[verifier::opaque]
pub open spec fn be_u32_at(s: Seq<u8>, i: int) -> u32 {
    (be_u16_at(s, i) as int * 0x1_0000 + be_u16_at(s, i + 2) as int) as u32
}

/// The 64-bit value whose big-endian bytes are `s[i] .. s[i + 7]`.
#[verifier::opaque]
pub open spec fn be_u64_at(s: Seq<u8>, i: int) -> u64 {
    (be_u32_at(s, i) as int * 0x1_0000_0000 + be_u32_at(s, i + 4) as int) as u64
}

/// The two bytes of `v`, most significant first.
#[verifier::opaque]
pub open spec fn u16_be_bytes(v: u16) -> Seq<u8> {
    seq![(v / 0x100) as u8, (v % 0x100) as u8]
}

/// The four bytes of `v`, most significant first.
#[verifier::opaque]
pub open spec fn u32_be_bytes(v: u32) -> Seq<u8> {
    u16_be_bytes((v / 0x1_0000) as u16) + u16_be_bytes((v % 0x1_0000) as u16)
}

/// The eight bytes of `v`, most significant first.
#[verifier::opaque]
pub open spec fn u64_be_bytes(v: u64) -> Seq<u8> {
    u32_be_bytes((v / 0x1_0000_0000) as u32) + u32_be_bytes((v % 0x1_0000_0000) as u32)
}

/// The signed reading of an 8-bit pattern in two's complement.
pub open spec fn signed8(v: u8) -> i8 {
    if v < 0x80 { v as i8 } else { (v - 0x100) as i8 }
}

/// The signed reading of a 16-bit pattern in two's complement.
pub open spec fn signed16(v: u16) -> i16 {
    if v < 0x8000 { v as i16 } else { (v - 0x1_0000) as i16 }
}

/// The signed reading of a 32-bit pattern in two's complement.
pub open spec fn signed32(v: u32) -> i32 {
    if v < 0x8000_0000 { v as i32 } else { (v - 0x1_0000_0000) as i32 }
}

/// The 8-bit pattern of a signed value in two's complement.
pub open spec fn pattern8(v: i8) -> u8 {
    if v >= 0 { v as u8 } else { (v + 0x100) as u8 }
}

/// The 16-bit pattern of a signed value in two's complement.
pub open spec fn pattern16(v: i16) -> u16 {
    if v >= 0 { v as u16 } else { (v + 0x1_0000) as u16 }
}

/// The 32-bit pattern of a signed value in two's complement.
pub open spec fn pattern32(v: i32) -> u32 {
    if v >= 0 { v as u32 } else { (v + 0x1_0000_0000) as u32 }
}

/// The 16-bit value whose little-endian bytes are `s[i]`, `s[i + 1]`.
#[verifier::opaque]
pub open spec fn le_u16_at(s: Seq<u8>, i: int) -> u16 {
    (s[i] as int + s[i + 1] as int * 0x100) as u16
}

/// The 32-bit value whose little-endian bytes are `s[i] .. s[i + 3]`.
#[verifier::opaque]
pub open spec fn le_u32_at(s: Seq<u8>, i: int) -> u32 {
    (le_u16_at(s, i) as int + le_u16_at(s, i + 2) as int * 0x1_0000) as u32
}

/// The 64-bit value whose little-endian bytes are `s[i] .. s[i + 7]`.
#[verifier::opaque]
pub open spec fn le_u64_at(s: Seq<u8>, i: int) -> u64 {
    (le_u32_at(s, i) as int + le_u32_at(s, i + 4) as int * 0x1_0000_0000) as u64
}

/// The two bytes of `v`, least significant first.
#[verifier::opaque]
pub open spec fn u16_le_bytes(v: u16) -> Seq<u8> {
    seq![(v % 0x100) as u8, (v / 0x100) as u8]
}

/// The four bytes of `v`, least significant first.
#[verifier::opaque]
pub open spec fn u32_le_bytes(v: u32) -> Seq<u8> {
    u16_le_bytes((v % 0x1_0000) as u16) + u16_le_bytes((v / 0x1_0000) as u16)
}

/// The eight bytes of `v`, least significant first.
#[verifier::opaque]
pub open spec fn u64_le_bytes(v: u64) -> Seq<u8> {
    u32_le_bytes((v % 0x1_0000_0000) as u32) + u32_le_bytes((v / 0x1_0000_0000) as u32)
}

/// The 16-bit value that the two bytes at `i` hold in the given order.
pub open spec fn u16_at(s: Seq<u8>, i: int, order: ByteOrder) -> u16 {
    match order {
        ByteOrder::BigEndian => be_u16_at(s, i),
        ByteOrder::LittleEndian => le_u16_at(s, i),
    }
}

/// The 32-bit value that the four bytes at `i` hold in the given order.
pub open spec fn u32_at(s: Seq<u8>, i: int, order: ByteOrder) -> u32 {
    match order {
        ByteOrder::BigEndian => be_u32_at(s, i),
        ByteOrder::LittleEndian => le_u32_at(s, i),
    }
}

/// The 64-bit value that the eight bytes at `i` hold in the given order.
pub open spec fn u64_at(s: Seq<u8>, i: int, order: ByteOrder) -> u64 {
    match order {
        ByteOrder::BigEndian => be_u64_at(s, i),
        ByteOrder::LittleEndian => le_u64_at(s, i),
    }
}

/// The two bytes of `v` in the given order.
pub open spec fn u16_bytes(v: u16, order: ByteOrder) -> Seq<u8> {
    match order {
        ByteOrder::BigEndian => u16_be_bytes(v),
        ByteOrder::LittleEndian => u16_le_bytes(v),
    }
}

/// The four bytes of `v` in the given order.
pub open spec fn u32_bytes(v: u32, order: ByteOrder) -> Seq<u8> {
    match order {
        ByteOrder::BigEndian => u32_be_bytes(v),
        ByteOrder::LittleEndian => u32_le_bytes(v),
    }
}

/// The eight bytes of `v` in the given order.
pub open spec fn u64_bytes(v: u64, order: ByteOrder) -> Seq<u8> {
    match order {
        ByteOrder::BigEndian => u64_be_bytes(v),
        ByteOrder::LittleEndian => u64_le_bytes(v),
    }
}

/// Reading back the bytes of a 16-bit value, in either order, gives the value.
pub proof fn lemma_u16_round_trip(v: u16, order: ByteOrder)
    ensures
        u16_bytes(v, order).len() == 2,
        u16_at(u16_bytes(v, order), 0, order) == v,
{
    reveal(be_u16_at);
    reveal(le_u16_at);
    reveal(u16_be_bytes);
    reveal(u16_le_bytes);
}

/// Reading back the bytes of a 32-bit value, in either order, gives the value.
pub proof fn lemma_u32_round_trip(v: u32, order: ByteOrder)
    ensures
        u32_bytes(v, order).len() == 4,
        u32_at(u32_bytes(v, order), 0, order) == v,
{
    reveal(be_u16_at);
    reveal(le_u16_at);
    reveal(u16_be_bytes);
    reveal(u16_le_bytes);
    reveal(be_u32_at);
    reveal(le_u32_at);
    reveal(u32_be_bytes);
    reveal(u32_le_bytes);
    lemma_u16_round_trip((v / 0x1_0000) as u16, order);
    lemma_u16_round_trip((v % 0x1_0000) as u16, order);
}

/// Reading back the bytes of a 64-bit value, in either order, gives the value.
pub proof fn lemma_u64_round_trip(v: u64, order: ByteOrder)
    ensures
        u64_bytes(v, order).len() == 8,
        u64_at(u64_bytes(v, order), 0, order) == v,
{
    reveal(be_u16_at);
    reveal(le_u16_at);
    reveal(u16_be_bytes);
    reveal(u16_le_bytes);
    reveal(be_u32_at);
    reveal(le_u32_at);
    reveal(u32_be_bytes);
    reveal(u32_le_bytes);
    reveal(be_u64_at);
    reveal(le_u64_at);
    reveal(u64_be_bytes);
    reveal(u64_le_bytes);
    lemma_u32_round_trip((v / 0x1_0000_0000) as u32, order);
    lemma_u32_round_trip((v % 0x1_0000_0000) as u32, order);
}

/// Where the two bytes at `i` are those of `v`, the value read there is `v`.
pub proof fn lemma_be_u16_in(s: Seq<u8>, i: int, v: u16)
    requires
        0 <= i,
        i + 2 <= s.len(),
        s.subrange(i, i + 2) == u16_be_bytes(v),
    ensures
        be_u16_at(s, i) == v,
{
    reveal(be_u16_at);
    reveal(u16_be_bytes);
    let w = s.subrange(i, i + 2);
    assert(w[0] == s[i] && w[1] == s[i + 1]);
}

/// Where the four bytes at `i` are those of `v`, the value read there is `v`.
pub proof fn lemma_be_u32_in(s: Seq<u8>, i: int, v: u32)
    requires
        0 <= i,
        i + 4 <= s.len(),
        s.subrange(i, i + 4) == u32_be_bytes(v),
    ensures
        be_u32_at(s, i) == v,
{
    reveal(be_u32_at);
    reveal(u32_be_bytes);
    reveal(be_u16_at);
    reveal(u16_be_bytes);
    let w = s.subrange(i, i + 4);
    assert(w[0] == s[i] && w[1] == s[i + 1] && w[2] == s[i + 2] && w[3] == s[i + 3]);
    lemma_u32_round_trip(v, ByteOrder::BigEndian);
}

/// Where the eight bytes at `i` are those of `v`, the value read there is
/// `v`.
pub proof fn lemma_be_u64_in(s: Seq<u8>, i: int, v: u64)
    requires
        0 <= i,
        i + 8 <= s.len(),
        s.subrange(i, i + 8) == u64_be_bytes(v),
    ensures
        be_u64_at(s, i) == v,
{
    reveal(be_u64_at);
    reveal(u64_be_bytes);
    reveal(be_u32_at);
    reveal(u32_be_bytes);
    reveal(be_u16_at);
    reveal(u16_be_bytes);
    let w = s.subrange(i, i + 8);
    assert(w[0] == s[i] && w[1] == s[i + 1] && w[2] == s[i + 2] && w[3] == s[i + 3]);
    assert(w[4] == s[i + 4] && w[5] == s[i + 5] && w[6] == s[i + 6] && w[7] == s[i + 7]);
    lemma_u64_round_trip(v, ByteOrder::BigEndian);
}

/// The bytes of the 16-bit value read at `i` are the two bytes at `i`.
pub proof fn lemma_u16_bytes_of(s: Seq<u8>, i: int)
    requires
        0 <= i,
        i + 2 <= s.len(),
    ensures
        u16_be_bytes(be_u16_at(s, i)) == s.subrange(i, i + 2),
{
    reveal(be_u16_at);
    reveal(u16_be_bytes);
    assert(u16_be_bytes(be_u16_at(s, i)) =~= s.subrange(i, i + 2));
}

/// The bytes of the 32-bit value read at `i` are the four bytes at `i`.
pub proof fn lemma_u32_bytes_of(s: Seq<u8>, i: int)
    requires
        0 <= i,
        i + 4 <= s.len(),
    ensures
        u32_be_bytes(be_u32_at(s, i)) == s.subrange(i, i + 4),
{
    reveal(be_u32_at);
    reveal(u32_be_bytes);
    let hi = be_u16_at(s, i);
    let lo = be_u16_at(s, i + 2);
    let v = be_u32_at(s, i);
    assert(v == hi as int * 0x1_0000 + lo as int);
    assert((v / 0x1_0000) as u16 == hi && (v % 0x1_0000) as u16 == lo);
    assert(u16_be_bytes(hi) == s.subrange(i, i + 2)) by {
        lemma_u16_bytes_of(s, i);
    }
    assert(u16_be_bytes(lo) == s.subrange(i + 2, i + 4)) by {
        lemma_u16_bytes_of(s, i + 2);
    }
    assert(s.subrange(i, i + 2) + s.subrange(i + 2, i + 4) =~= s.subrange(i, i + 4));
}

/// The bytes of the 64-bit value read at `i` are the eight bytes at `i`.
pub proof fn lemma_u64_bytes_of(s: Seq<u8>, i: int)
    requires
        0 <= i,
        i + 8 <= s.len(),
    ensures
        u64_be_bytes(be_u64_at(s, i)) == s.subrange(i, i + 8),
{
    reveal(be_u64_at);
    reveal(u64_be_bytes);
    let hi = be_u32_at(s, i);
    let lo = be_u32_at(s, i + 4);
    let v = be_u64_at(s, i);
    assert(v == hi as int * 0x1_0000_0000 + lo as int);
    assert((v / 0x1_0000_0000) as u32 == hi && (v % 0x1_0000_0000) as u32 == lo);
    assert(u32_be_bytes(hi) == s.subrange(i, i + 4)) by {
        lemma_u32_bytes_of(s, i);
    }
    assert(u32_be_bytes(lo) == s.subrange(i + 4, i + 8)) by {
        lemma_u32_bytes_of(s, i + 4);
    }
    assert(s.subrange(i, i + 4) + s.subrange(i + 4, i + 8) =~= s.subrange(i, i + 8));
}

/// The bytes of a value are as many as its width.
pub proof fn lemma_be_bytes_len(a: u16, b: u32, c: u64)
    ensures
        u16_be_bytes(a).len() == 2,
        u32_be_bytes(b).len() == 4,
        u64_be_bytes(c).len() == 8,
{
    lemma_u16_round_trip(a, ByteOrder::BigEndian);
    lemma_u32_round_trip(b, ByteOrder::BigEndian);
    lemma_u64_round_trip(c, ByteOrder::BigEndian);
}

/// Two adjoining ranges of a sequence, joined, are the range that spans
/// both.
pub proof fn lemma_subrange_join(s: Seq<u8>, a: int, b: int, c: int)
    requires
        0 <= a <= b <= c <= s.len(),
    ensures
        s.subrange(a, b) + s.subrange(b, c) == s.subrange(a, c),
{
    assert(s.subrange(a, b) + s.subrange(b, c) =~= s.subrange(a, c));
}

/// Where `x + y` is a range of a sequence, `x` and `y` are the two parts of
/// that range.
pub proof fn lemma_subrange_split(s: Seq<u8>, a: int, b: int, c: int, x: Seq<u8>, y: Seq<u8>)
    requires
        0 <= a <= b <= c <= s.len(),
        x.len() == b - a,
        x + y == s.subrange(a, c),
    ensures
        x == s.subrange(a, b),
        y == s.subrange(b, c),
{
    let whole = x + y;
    assert(whole.len() == c - a);
    assert forall|i: int| 0 <= i < x.len() implies x[i] == s.subrange(a, b)[i] by {
        assert(whole[i] == x[i]);
    }
    assert forall|i: int| 0 <= i < y.len() implies y[i] == s.subrange(b, c)[i] by {
        assert(whole[x.len() + i] == y[i]);
    }
    assert(x =~= s.subrange(a, b));
    assert(y =~= s.subrange(b, c));
}

/// What stands between two sequences is found again at its place.
pub proof fn lemma_subrange_middle(before: Seq<u8>, w: Seq<u8>, after: Seq<u8>)
    ensures
        (before + w + after).subrange(before.len() as int, before.len() as int + w.len()) == w,
        (before + w + after).len() == before.len() + w.len() + after.len(),
{
    assert((before + w + after).subrange(before.len() as int, before.len() as int + w.len()) =~= w);
}

/// A signed value and its two's-complement pattern determine each other.
pub proof fn lemma_signed_pattern(a: i8, b: i16, c: i32, x: u8, y: u16, z: u32)
    ensures
        signed8(pattern8(a)) == a,
        signed16(pattern16(b)) == b,
        signed32(pattern32(c)) == c,
        pattern8(signed8(x)) == x,
        pattern16(signed16(y)) == y,
        pattern32(signed32(z)) == z,
{
}

/// The error type of the byte-stream crate, carried through unopened.
#[verifier::external_type_specification]
#[verifier::external_body]
pub struct ExBitsError(irox_bits::Error);

/// The text that lossy decoding makes of bytes that are not well-formed
/// UTF-8, each malformed run replaced by U+FFFD.
pub uninterp spec fn lossy_text(bytes: Seq<u8>) -> Seq<char>;

/// The text of a payload: the characters that the bytes encode where they
/// are well-formed UTF-8, and what lossy decoding makes of them otherwise.
pub open spec fn text_of(bytes: Seq<u8>) -> Seq<char> {
    if valid_utf8(bytes) {
        decode_utf8(bytes)
    } else {
        lossy_text(bytes)
    }
}

/// `irox_bits::Bits::read_all_str_lossy` on a byte slice: it drains the slice
/// into a vector and hands the vector to `String::from_utf8_lossy`. On a
/// slice no step of it can fail, so the result is always `Ok`. Well-formed
/// UTF-8 comes back as the text it encodes; of other bytes only the name of
/// the result is known.
#[verifier::external_body]
fn read_all_str_lossy(bytes: &[u8]) -> (r: Result<String, irox_bits::Error>)
    ensures
        r is Ok,
        r->Ok_0@ == (if valid_utf8(bytes@) {
            decode_utf8(bytes@)
        } else {
            lossy_text(bytes@)
        }),
{
    let mut input = bytes;
    irox_bits::Bits::read_all_str_lossy(&mut input)
}

/// A forward-only reader over a borrowed byte slice.
///
/// A read either hands out the whole field and moves past it, or fails and
/// leaves the position where it was: no byte is handed out twice and no field
/// is handed out in part.
#[derive(Clone, Copy, Debug)]
pub struct ByteCursor<'a> {
    data: &'a [u8],
    pos: usize,
}

impl<'a> ByteCursor<'a> {
    #[verifier::type_invariant]
    spec fn in_bounds(&self) -> bool {
        self.pos <= self.data@.len()
    }

    /// All the bytes of the source, read or not.
    pub closed spec fn source(&self) -> Seq<u8> {
        self.data@
    }

    /// Number of bytes read so far.
    pub closed spec fn offset(&self) -> nat {
        self.pos as nat
    }

    /// The bytes not read yet.
    pub open spec fn unread(&self) -> Seq<u8> {
        self.source().skip(self.offset() as int)
    }

    /// True when `n` more bytes can be read.
    pub open spec fn has(&self, n: int) -> bool {
        self.offset() + n <= self.source().len()
    }

    /// The cursor over the same source after `n` more bytes were read.
    pub open spec fn advanced(&self, after: &Self, n: int) -> bool {
        &&& after.source() == self.source()
        &&& after.offset() == self.offset() + n
    }

    /// A cursor at the start of `data`.
    pub fn new(data: &'a [u8]) -> (cursor: Self)
        ensures
            cursor.source() == data@,
            cursor.offset() == 0,
    {
        ByteCursor { data, pos: 0 }
    }

    /// Number of bytes read so far.
    pub fn position(&self) -> (pos: usize)
        ensures
            pos == self.offset(),
            pos <= self.source().len(),
    {
        proof {
            use_type_invariant(self);
        }
        self.pos
    }

    /// Number of bytes not read yet.
    pub fn remaining(&self) -> (n: usize)
        ensures
            n == self.source().len() - self.offset(),
            n == self.unread().len(),
    {
        proof {
            use_type_invariant(self);
        }
        self.data.len() - self.pos
    }

    /// The error that a read of `needed` bytes at the current position gives.
    pub open spec fn short(&self, needed: int) -> UnexpectedEnd {
        UnexpectedEnd { offset: self.offset() as usize, needed: needed as usize }
    }

    /// What a read of an `n`-byte field does: where `n` bytes are left it
    /// gives `value` and moves `n` bytes on, otherwise it reports the
    /// shortage and leaves the cursor as it was.
    pub open spec fn reads<T>(
        &self,
        after: &Self,
        r: Result<T, UnexpectedEnd>,
        n: int,
        value: T,
    ) -> bool {
        if self.has(n) {
            r == Ok::<T, UnexpectedEnd>(value) && self.advanced(after, n)
        } else {
            r == Err::<T, UnexpectedEnd>(self.short(n)) && *after == *self
        }
    }

    /// The byte `ahead` positions past the current one, without reading it.
    pub fn peek_u8(&self, ahead: usize) -> (r: Option<u8>)
        ensures
            r == (if self.has(ahead + 1) {
                Some(self.source()[self.offset() + ahead])
            } else {
                None
            }),
    {
        proof {
            use_type_invariant(self);
        }
        if self.data.len() - self.pos <= ahead {
            None
        } else {
            Some(self.data[self.pos + ahead])
        }
    }

    /// Moves `n` bytes on without handing them out.
    pub fn skip(&mut self, n: usize) -> (r: Result<(), UnexpectedEnd>)
        ensures
            old(self).reads(final(self), r, n as int, ()),
    {
        proof {
            use_type_invariant(&*self);
        }
        if self.data.len() - self.pos < n {
            return Err(UnexpectedEnd { offset: self.pos, needed: n });
        }
        self.pos = self.pos + n;
        Ok(())
    }

    /// Reads one unsigned byte.
    pub fn read_u8(&mut self) -> (r: Result<u8, UnexpectedEnd>)
        ensures
            old(self).reads(final(self), r, 1, old(self).source()[old(self).offset() as int]),
    {
        proof {
            use_type_invariant(&*self);
        }
        if self.data.len() - self.pos < 1 {
            return Err(UnexpectedEnd { offset: self.pos, needed: 1 });
        }
        let v = self.data[self.pos];
        self.pos = self.pos + 1;
        Ok(v)
    }

    /// Reads one signed byte.
    pub fn read_i8(&mut self) -> (r: Result<i8, UnexpectedEnd>)
        ensures
            old(self).reads(final(self), r, 1, signed8(old(self).source()[old(self).offset() as int])),
    {
        match self.read_u8() {
            Ok(v) => Ok(to_signed8(v)),
            Err(e) => Err(e),
        }
    }

    /// Reads an unsigned 16-bit field in the given byte order.
    pub fn read_u16(&mut self, order: ByteOrder) -> (r: Result<u16, UnexpectedEnd>)
        ensures
            old(self).reads(final(self), r, 2, u16_at(old(self).source(), old(self).offset() as int, order)),
    {
        proof {
            use_type_invariant(&*self);
        }
        if self.data.len() - self.pos < 2 {
            return Err(UnexpectedEnd { offset: self.pos, needed: 2 });
        }
        let a: u16 = self.data[self.pos] as u16;
        let b: u16 = self.data[self.pos + 1] as u16;
        self.pos = self.pos + 2;
        proof {
            reveal(be_u16_at);
            reveal(le_u16_at);
        }
        match order {
            ByteOrder::BigEndian => Ok(a * 0x100 + b),
            ByteOrder::LittleEndian => Ok(a + b * 0x100),
        }
    }

    /// Reads an unsigned 32-bit field in the given byte order.
    pub fn read_u32(&mut self, order: ByteOrder) -> (r: Result<u32, UnexpectedEnd>)
        ensures
            old(self).reads(final(self), r, 4, u32_at(old(self).source(), old(self).offset() as int, order)),
    {
        proof {
            use_type_invariant(&*self);
        }
        if self.data.len() - self.pos < 4 {
            return Err(UnexpectedEnd { offset: self.pos, needed: 4 });
        }
        let a: u32 = self.data[self.pos] as u32;
        let b: u32 = self.data[self.pos + 1] as u32;
        let c: u32 = self.data[self.pos + 2] as u32;
        let d: u32 = self.data[self.pos + 3] as u32;
        self.pos = self.pos + 4;
        proof {
            reveal(be_u16_at);
            reveal(le_u16_at);
            reveal(be_u32_at);
            reveal(le_u32_at);
        }
        match order {
            ByteOrder::BigEndian => Ok((a * 0x100 + b) * 0x1_0000 + (c * 0x100 + d)),
            ByteOrder::LittleEndian => Ok((a + b * 0x100) + (c + d * 0x100) * 0x1_0000),
        }
    }

    /// Reads an unsigned 64-bit field in the given byte order.
    pub fn read_u64(&mut self, order: ByteOrder) -> (r: Result<u64, UnexpectedEnd>)
        ensures
            old(self).reads(final(self), r, 8, u64_at(old(self).source(), old(self).offset() as int, order)),
    {
        proof {
            use_type_invariant(&*self);
        }
        if self.data.len() - self.pos < 8 {
            return Err(UnexpectedEnd { offset: self.pos, needed: 8 });
        }
        let first = self.read_u32(order);
        let second = self.read_u32(order);
        proof {
            reveal(be_u64_at);
            reveal(le_u64_at);
        }
        match (first, second) {
            (Ok(x), Ok(y)) => {
                let x: u64 = x as u64;
                let y: u64 = y as u64;
                match order {
                    ByteOrder::BigEndian => Ok(x * 0x1_0000_0000 + y),
                    ByteOrder::LittleEndian => Ok(x + y * 0x1_0000_0000),
                }
            },
            _ => {
                proof {
                    assert(false);
                }
                Err(UnexpectedEnd { offset: 0, needed: 8 })
            },
        }
    }

    /// Reads an unsigned big-endian 16-bit field.
    pub fn read_be_u16(&mut self) -> (r: Result<u16, UnexpectedEnd>)
        ensures
            old(self).reads(final(self), r, 2, be_u16_at(old(self).source(), old(self).offset() as int)),
    {
        self.read_u16(ByteOrder::BigEndian)
    }

    /// Reads a signed big-endian 16-bit field.
    pub fn read_be_i16(&mut self) -> (r: Result<i16, UnexpectedEnd>)
        ensures
            old(self).reads(
                final(self),
                r,
                2,
                signed16(be_u16_at(old(self).source(), old(self).offset() as int)),
            ),
    {
        match self.read_u16(ByteOrder::BigEndian) {
            Ok(v) => Ok(to_signed16(v)),
            Err(e) => Err(e),
        }
    }

    /// Reads an unsigned big-endian 32-bit field.
    pub fn read_be_u32(&mut self) -> (r: Result<u32, UnexpectedEnd>)
        ensures
            old(self).reads(final(self), r, 4, be_u32_at(old(self).source(), old(self).offset() as int)),
    {
        self.read_u32(ByteOrder::BigEndian)
    }

    /// Reads a signed big-endian 32-bit field.
    pub fn read_be_i32(&mut self) -> (r: Result<i32, UnexpectedEnd>)
        ensures
            old(self).reads(
                final(self),
                r,
                4,
                signed32(be_u32_at(old(self).source(), old(self).offset() as int)),
            ),
    {
        match self.read_u32(ByteOrder::BigEndian) {
            Ok(v) => Ok(to_signed32(v)),
            Err(e) => Err(e),
        }
    }

    /// Reads an unsigned big-endian 64-bit field.
    pub fn read_be_u64(&mut self) -> (r: Result<u64, UnexpectedEnd>)
        ensures
            old(self).reads(final(self), r, 8, be_u64_at(old(self).source(), old(self).offset() as int)),
    {
        self.read_u64(ByteOrder::BigEndian)
    }

    /// Reads exactly `n` bytes.
    pub fn read_exact(&mut self, n: usize) -> (r: Result<Vec<u8>, UnexpectedEnd>)
        ensures
            old(self).has(n as int) ==> r is Ok && r->Ok_0@ == old(self).unread().take(n as int)
                && old(self).advanced(final(self), n as int),
            !old(self).has(n as int) ==> r == Err::<Vec<u8>, UnexpectedEnd>(old(self).short(n as int))
                && *final(self) == *old(self),
    {
        proof {
            use_type_invariant(&*self);
        }
        if self.data.len() - self.pos < n {
            return Err(UnexpectedEnd { offset: self.pos, needed: n });
        }
        let ghost start = self.pos as int;
        let len = self.data.len();
        let mut out: Vec<u8> = Vec::new();
        let mut i: usize = 0;
        while i < n
            invariant
                i <= n,
                len == self.data@.len(),
                self.pos + n <= len,
                self.pos == start,
                out@ == self.data@.subrange(start, start + i),
            decreases n - i,
        {
            out.push(self.data[self.pos + i]);
            i = i + 1;
            assert(out@ =~= self.data@.subrange(start, start + i));
        }
        self.pos = self.pos + n;
        assert(out@ =~= old(self).unread().take(n as int));
        Ok(out)
    }

    /// Reads every byte that is left as text. Bytes that are well-formed
    /// UTF-8 give the text that they encode; in other bytes each malformed
    /// run is replaced, so that text comes out of any bytes. The error is the
    /// byte-stream crate's own and is handed on as it comes.
    pub fn read_all_str_lossy(&mut self) -> (r: Result<String, irox_bits::Error>)
        ensures
            r is Ok,
            r->Ok_0@ == text_of(old(self).unread()),
            final(self).source() == old(self).source(),
            final(self).offset() == old(self).source().len(),
            old(self).offset() <= old(self).source().len(),
    {
        let bytes = self.read_all();
        read_all_str_lossy(bytes.as_slice())
    }

    /// Reads every byte that is left.
    pub fn read_all(&mut self) -> (bytes: Vec<u8>)
        ensures
            bytes@ == old(self).unread(),
            final(self).source() == old(self).source(),
            final(self).offset() == old(self).source().len(),
            old(self).offset() <= old(self).source().len(),
    {
        let n = self.remaining();
        match self.read_exact(n) {
            Ok(bytes) => {
                assert(old(self).unread().take(n as int) =~= old(self).unread());
                bytes
            },
            Err(_) => {
                proof {
                    assert(false);
                }
                Vec::new()
            },
        }
    }
}

/// An in-memory byte sink: writes append and never fail.
pub struct ByteSink {
    buf: Vec<u8>,
}

impl View for ByteSink {
    type V = Seq<u8>;

    /// The bytes written so far, in order.
    closed spec fn view(&self) -> Seq<u8> {
        self.buf@
    }
}

impl ByteSink {
    /// An empty sink.
    pub fn new() -> (sink: Self)
        ensures
            sink@ == Seq::<u8>::empty(),
    {
        ByteSink { buf: Vec::new() }
    }

    /// Number of bytes written so far.
    pub fn len(&self) -> (n: usize)
        ensures
            n == self@.len(),
    {
        self.buf.len()
    }

    /// The bytes written, handed over.
    pub fn into_bytes(self) -> (bytes: Vec<u8>)
        ensures
            bytes@ == self@,
    {
        self.buf
    }

    /// Appends one unsigned byte.
    pub fn write_u8(&mut self, v: u8)
        ensures
            final(self)@ == old(self)@.push(v),
    {
        self.buf.push(v);
    }

    /// Appends one signed byte.
    pub fn write_i8(&mut self, v: i8)
        ensures
            final(self)@ == old(self)@.push(pattern8(v)),
    {
        self.buf.push(to_pattern8(v));
    }

    /// Appends an unsigned 16-bit field in the given byte order.
    pub fn write_u16(&mut self, v: u16, order: ByteOrder)
        ensures
            final(self)@ == old(self)@ + u16_bytes(v, order),
    {
        let hi: u8 = (v / 0x100) as u8;
        let lo: u8 = (v % 0x100) as u8;
        proof {
            reveal(u16_be_bytes);
            reveal(u16_le_bytes);
        }
        match order {
            ByteOrder::BigEndian => {
                self.buf.push(hi);
                self.buf.push(lo);
            },
            ByteOrder::LittleEndian => {
                self.buf.push(lo);
                self.buf.push(hi);
            },
        }
        assert(self@ =~= old(self)@ + u16_bytes(v, order));
    }

    /// Appends an unsigned 32-bit field in the given byte order.
    pub fn write_u32(&mut self, v: u32, order: ByteOrder)
        ensures
            final(self)@ == old(self)@ + u32_bytes(v, order),
    {
        let hi: u16 = (v / 0x1_0000) as u16;
        let lo: u16 = (v % 0x1_0000) as u16;
        proof {
            reveal(u32_be_bytes);
            reveal(u32_le_bytes);
        }
        match order {
            ByteOrder::BigEndian => {
                self.write_u16(hi, order);
                self.write_u16(lo, order);
            },
            ByteOrder::LittleEndian => {
                self.write_u16(lo, order);
                self.write_u16(hi, order);
            },
        }
        assert(self@ =~= old(self)@ + u32_bytes(v, order));
    }

    /// Appends an unsigned 64-bit field in the given byte order.
    pub fn write_u64(&mut self, v: u64, order: ByteOrder)
        ensures
            final(self)@ == old(self)@ + u64_bytes(v, order),
    {
        let hi: u32 = (v / 0x1_0000_0000) as u32;
        let lo: u32 = (v % 0x1_0000_0000) as u32;
        proof {
            reveal(u64_be_bytes);
            reveal(u64_le_bytes);
        }
        match order {
            ByteOrder::BigEndian => {
                self.write_u32(hi, order);
                self.write_u32(lo, order);
            },
            ByteOrder::LittleEndian => {
                self.write_u32(lo, order);
                self.write_u32(hi, order);
            },
        }
        assert(self@ =~= old(self)@ + u64_bytes(v, order));
    }

    /// Appends an unsigned big-endian 16-bit field.
    pub fn write_be_u16(&mut self, v: u16)
        ensures
            final(self)@ == old(self)@ + u16_be_bytes(v),
    {
        self.write_u16(v, ByteOrder::BigEndian);
    }

    /// Appends a signed big-endian 16-bit field.
    pub fn write_be_i16(&mut self, v: i16)
        ensures
            final(self)@ == old(self)@ + u16_be_bytes(pattern16(v)),
    {
        self.write_u16(to_pattern16(v), ByteOrder::BigEndian);
    }

    /// Appends an unsigned big-endian 32-bit field.
    pub fn write_be_u32(&mut self, v: u32)
        ensures
            final(self)@ == old(self)@ + u32_be_bytes(v),
    {
        self.write_u32(v, ByteOrder::BigEndian);
    }

    /// Appends a signed big-endian 32-bit field.
    pub fn write_be_i32(&mut self, v: i32)
        ensures
            final(self)@ == old(self)@ + u32_be_bytes(pattern32(v)),
    {
        self.write_u32(to_pattern32(v), ByteOrder::BigEndian);
    }

    /// Appends an unsigned big-endian 64-bit field.
    pub fn write_be_u64(&mut self, v: u64)
        ensures
            final(self)@ == old(self)@ + u64_be_bytes(v),
    {
        self.write_u64(v, ByteOrder::BigEndian);
    }

    /// Appends all of `bytes`.
    pub fn write_all(&mut self, bytes: &[u8])
        ensures
            final(self)@ == old(self)@ + bytes@,
    {
        let mut i: usize = 0;
        while i < bytes.len()
            invariant
                i <= bytes@.len(),
                self@ == old(self)@ + bytes@.take(i as int),
            decreases bytes@.len() - i,
        {
            self.buf.push(bytes[i]);
            i = i + 1;
            assert(self@ =~= old(self)@ + bytes@.take(i as int));
        }
        assert(bytes@.take(i as int) =~= bytes@);
    }
}

/// The signed value of an 8-bit pattern.
pub fn to_signed8(v: u8) -> (r: i8)
    ensures
        r == signed8(v),
{
    if v < 0x80 {
        v as i8
    } else {
        (v as i16 - 0x100) as i8
    }
}

/// The signed value of a 16-bit pattern.
pub fn to_signed16(v: u16) -> (r: i16)
    ensures
        r == signed16(v),
{
    if v < 0x8000 {
        v as i16
    } else {
        (v as i32 - 0x1_0000) as i16
    }
}

/// The signed value of a 32-bit pattern.
pub fn to_signed32(v: u32) -> (r: i32)
    ensures
        r == signed32(v),
{
    if v < 0x8000_0000 {
        v as i32
    } else {
        (v as i64 - 0x1_0000_0000) as i32
    }
}

/// The 8-bit pattern of a signed value.
pub fn to_pattern8(v: i8) -> (r: u8)
    ensures
        r == pattern8(v),
{
    if v >= 0 {
        v as u8
    } else {
        (v as i16 + 0x100) as u8
    }
}

/// The 16-bit pattern of a signed value.
pub fn to_pattern16(v: i16) -> (r: u16)
    ensures
        r == pattern16(v),
{
    if v >= 0 {
        v as u16
    } else {
        (v as i32 + 0x1_0000) as u16
    }
}

/// The 32-bit pattern of a signed value.
pub fn to_pattern32(v: i32) -> (r: u32)
    ensures
        r == pattern32(v),
{
    if v >= 0 {
        v as u32
    } else {
        (v as i64 + 0x1_0000_0000) as u32
    }
}

} // verus!
