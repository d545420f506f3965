//! Cursors, errors and the two traits every message body implements.
//!
//! A body is described by three functions on its view. [`Encode::wire`] gives the bytes of a
//! value, [`Encode::encode_error`] says which field, if any, has no encoding, and
//! [`Decode::parse`] gives what a reader at some position finds there. The executable methods
//! are stated against these, and the laws at the end of this file relate them to each other.

use vstd::prelude::*;

use crate::text;

verus! {

/// Why some bytes are not a value.
#[derive(Debug, Clone, Copy, PartialEq, Eq)]
pub enum DecodeError {
    /// The input ended inside a field.
    NotEnoughBytes {
        /// The field that was being read.
        context: &'static str,
    },
    /// A field holds a value that it may not hold.
    InvalidField {
        /// The structure or field that was being read.
        context: &'static str,
        /// What is wrong.
        field: &'static str,
        /// Why it is wrong.
        reason: &'static str,
    },
    /// A length is out of bounds.
    InvalidLength {
        /// The structure that was being read.
        context: &'static str,
        /// Why the length is wrong.
        reason: &'static str,
    },
}

/// Why a value has no encoding.
#[derive(Debug, Clone, Copy, PartialEq, Eq)]
pub enum EncodeError {
    /// A length does not fit its prefix.
    FieldTooLarge {
        /// The field that was being written.
        context: &'static str,
        /// What is too large.
        field: &'static str,
    },
}

impl DecodeError {
    /// The error in words.
    pub open spec fn words(self) -> Seq<char> {
        match self {
            DecodeError::NotEnoughBytes { context } => "not enough bytes in "@ + context@,
            DecodeError::InvalidField { context, field, reason } => "invalid field "@ + field@
                + " in "@ + context@ + ": "@ + reason@,
            DecodeError::InvalidLength { context, reason } => "invalid length in "@ + context@
                + ": "@ + reason@,
        }
    }

    /// The error in words.
    pub fn message(&self) -> (r: String)
        ensures
            r@ == self.words(),
    {
        match self {
            DecodeError::NotEnoughBytes { context } => {
                let mut out = "not enough bytes in ".to_owned();
                text::push_str(&mut out, context);
                out
            },
            DecodeError::InvalidField { context, field, reason } => {
                let mut out = "invalid field ".to_owned();
                text::push_str(&mut out, field);
                text::push_str(&mut out, " in ");
                text::push_str(&mut out, context);
                text::push_str(&mut out, ": ");
                text::push_str(&mut out, reason);
                out
            },
            DecodeError::InvalidLength { context, reason } => {
                let mut out = "invalid length in ".to_owned();
                text::push_str(&mut out, context);
                text::push_str(&mut out, ": ");
                text::push_str(&mut out, reason);
                out
            },
        }
    }
}

impl EncodeError {
    /// The error in words.
    pub open spec fn words(self) -> Seq<char> {
        match self {
            EncodeError::FieldTooLarge { context, field } => "field "@ + field@ + " of "@ + context@
                + " is too large"@,
        }
    }

    /// The error in words.
    pub fn message(&self) -> (r: String)
        ensures
            r@ == self.words(),
    {
        match self {
            EncodeError::FieldTooLarge { context, field } => {
                let mut out = "field ".to_owned();
                text::push_str(&mut out, field);
                text::push_str(&mut out, " of ");
                text::push_str(&mut out, context);
                text::push_str(&mut out, " is too large");
                out
            },
        }
    }
}

/// What a reader returns.
pub type DecodeResult<T> = Result<T, DecodeError>;

/// What a writer returns.
pub type EncodeResult<T> = Result<T, EncodeError>;

/// The two bytes of a `u16`, low byte first.
#[verifier::opaque]
pub open spec fn le16(x: u16) -> Seq<u8> {
    seq![(x % 256) as u8, (x / 256) as u8]
}

/// The four bytes of a `u32`, low byte first.
#[verifier::opaque]
pub open spec fn le32(x: u32) -> Seq<u8> {
    seq![
        (x % 256) as u8,
        (x / 256 % 256) as u8,
        (x / 65536 % 256) as u8,
        (x / 16777216) as u8,
    ]
}

/// The eight bytes of a `u64`, low byte first.
#[verifier::opaque]
pub open spec fn le64(x: u64) -> Seq<u8> {
    le32((x % 0x1_0000_0000) as u32) + le32((x / 0x1_0000_0000) as u32)
}

/// The `u16` whose low byte stands at `p`.
#[verifier::opaque]
pub open spec fn u16_at(b: Seq<u8>, p: int) -> u16 {
    (b[p] + 256 * b[p + 1]) as u16
}

/// The `u32` whose low byte stands at `p`.
#[verifier::opaque]
pub open spec fn u32_at(b: Seq<u8>, p: int) -> u32 {
    (b[p] + 256 * b[p + 1] + 65536 * b[p + 2] + 16777216 * b[p + 3]) as u32
}

/// The `u64` whose low byte stands at `p`.
#[verifier::opaque]
pub open spec fn u64_at(b: Seq<u8>, p: int) -> u64 {
    (u32_at(b, p) + 0x1_0000_0000 * u32_at(b, p + 4)) as u64
}

/// What reading `n` bytes at `p` finds.
pub open spec fn take_slice(b: Seq<u8>, p: int, n: int, context: &'static str) -> DecodeResult<
    (Seq<u8>, int),
> {
    if p + n <= b.len() {
        Ok((b.subrange(p, p + n), p + n))
    } else {
        Err(DecodeError::NotEnoughBytes { context })
    }
}

/// What reading a byte at `p` finds.
pub open spec fn take_u8(b: Seq<u8>, p: int, context: &'static str) -> DecodeResult<(u8, int)> {
    if p + 1 <= b.len() {
        Ok((b[p], p + 1))
    } else {
        Err(DecodeError::NotEnoughBytes { context })
    }
}

/// What reading a `u16` at `p` finds.
pub open spec fn take_u16(b: Seq<u8>, p: int, context: &'static str) -> DecodeResult<(u16, int)> {
    if p + 2 <= b.len() {
        Ok((u16_at(b, p), p + 2))
    } else {
        Err(DecodeError::NotEnoughBytes { context })
    }
}

/// What reading a `u32` at `p` finds.
pub open spec fn take_u32(b: Seq<u8>, p: int, context: &'static str) -> DecodeResult<(u32, int)> {
    if p + 4 <= b.len() {
        Ok((u32_at(b, p), p + 4))
    } else {
        Err(DecodeError::NotEnoughBytes { context })
    }
}

/// Reads little-endian fields from the front of a byte slice.
#[derive(Debug)]
pub struct ReadCursor<'a> {
    buf: &'a [u8],
    pos: usize,
}

impl<'a> ReadCursor<'a> {
    #[verifier::type_invariant]
    spec fn inv(self) -> bool {
        self.pos <= self.buf@.len()
    }

    /// Everything this cursor reads from, what has been read included.
    pub closed spec fn bytes(self) -> Seq<u8> {
        self.buf@
    }

    /// How many bytes have been read.
    pub closed spec fn pos(self) -> int {
        self.pos as int
    }

    /// A cursor at the front of `buf`.
    pub fn new(buf: &'a [u8]) -> (r: Self)
        ensures
            r.bytes() == buf@,
            r.pos() == 0,
    {
        ReadCursor { buf, pos: 0 }
    }

    /// Read `n` bytes.
    pub fn read_slice(&mut self, n: usize, context: &'static str) -> (r: DecodeResult<&'a [u8]>)
        ensures
            final(self).bytes() == old(self).bytes(),
            match take_slice(old(self).bytes(), old(self).pos(), n as int, context) {
                Ok((v, q)) => r matches Ok(s) && s@ == v && final(self).pos() == q,
                Err(e) => r matches Err(f) && f == e && final(self).pos() == old(self).pos(),
            },
    {
        proof {
            use_type_invariant(&*self);
        }
        if n <= self.buf.len() - self.pos {
            let slice = vstd::slice::slice_subrange(self.buf, self.pos, self.pos + n);
            self.pos = self.pos + n;
            Ok(slice)
        } else {
            Err(DecodeError::NotEnoughBytes { context })
        }
    }

    /// Read a byte.
    pub fn read_u8(&mut self, context: &'static str) -> (r: DecodeResult<u8>)
        ensures
            final(self).bytes() == old(self).bytes(),
            match take_u8(old(self).bytes(), old(self).pos(), context) {
                Ok((v, q)) => r matches Ok(x) && x == v && final(self).pos() == q,
                Err(e) => r matches Err(f) && f == e && final(self).pos() == old(self).pos(),
            },
    {
        let s = self.read_slice(1, context)?;
        Ok(s[0])
    }

    /// Read a `u16`, low byte first.
    pub fn read_u16_le(&mut self, context: &'static str) -> (r: DecodeResult<u16>)
        ensures
            final(self).bytes() == old(self).bytes(),
            match take_u16(old(self).bytes(), old(self).pos(), context) {
                Ok((v, q)) => r matches Ok(x) && x == v && final(self).pos() == q,
                Err(e) => r matches Err(f) && f == e && final(self).pos() == old(self).pos(),
            },
    {
        let s = self.read_slice(2, context)?;
        proof {
            reveal(u16_at);
        }
        Ok(s[0] as u16 + 256 * s[1] as u16)
    }

    /// Read a `u32`, low byte first.
    pub fn read_u32_le(&mut self, context: &'static str) -> (r: DecodeResult<u32>)
        ensures
            final(self).bytes() == old(self).bytes(),
            match take_u32(old(self).bytes(), old(self).pos(), context) {
                Ok((v, q)) => r matches Ok(x) && x == v && final(self).pos() == q,
                Err(e) => r matches Err(f) && f == e && final(self).pos() == old(self).pos(),
            },
    {
        let s = self.read_slice(4, context)?;
        proof {
            reveal(u32_at);
        }
        Ok(s[0] as u32 + 256 * s[1] as u32 + 65536 * s[2] as u32 + 16777216 * s[3] as u32)
    }
}

/// Appends little-endian fields to a growing buffer.
#[derive(Debug)]
pub struct WriteCursor {
    buf: Vec<u8>,
}

impl View for WriteCursor {
    type V = Seq<u8>;

    closed spec fn view(&self) -> Seq<u8> {
        self.buf@
    }
}

impl WriteCursor {
    /// A cursor that has written nothing.
    pub fn new() -> (r: Self)
        ensures
            r@ == Seq::<u8>::empty(),
    {
        WriteCursor { buf: Vec::new() }
    }

    /// What has been written.
    pub fn into_vec(self) -> (r: Vec<u8>)
        ensures
            r@ == self@,
    {
        self.buf
    }

    /// Write `data` as it is.
    pub fn write_slice(&mut self, data: &[u8])
        ensures
            final(self)@ == old(self)@ + data@,
    {
        self.buf.extend_from_slice(data);
        assert(self.buf@ =~= old(self)@ + data@);
    }

    /// Write a byte.
    pub fn write_u8(&mut self, v: u8)
        ensures
            final(self)@ == old(self)@ + seq![v],
    {
        self.buf.push(v);
        assert(self.buf@ =~= old(self)@ + seq![v]);
    }

    /// Write a `u16`, low byte first.
    pub fn write_u16_le(&mut self, v: u16)
        ensures
            final(self)@ == old(self)@ + le16(v),
    {
        self.buf.push((v % 256) as u8);
        self.buf.push((v / 256) as u8);
        proof {
            reveal(le16);
        }
        assert(self.buf@ =~= old(self)@ + le16(v));
    }

    /// Write a `u32`, low byte first.
    pub fn write_u32_le(&mut self, v: u32)
        ensures
            final(self)@ == old(self)@ + le32(v),
    {
        self.buf.push((v % 256) as u8);
        self.buf.push((v / 256 % 256) as u8);
        self.buf.push((v / 65536 % 256) as u8);
        self.buf.push((v / 16777216) as u8);
        proof {
            reveal(le32);
        }
        assert(self.buf@ =~= old(self)@ + le32(v));
    }
}

/// A value with a wire form.
pub trait Encode: View {
    /// The bytes of a value.
    spec fn wire(v: Self::V) -> Seq<u8>;

    /// The first field of a value that has no encoding, if there is one.
    spec fn encode_error(v: Self::V) -> Option<EncodeError>;

    /// How many bytes the value takes on the wire.
    fn size(&self) -> (n: usize)
        requires
            Self::wire(self@).len() <= usize::MAX,
        ensures
            n == Self::wire(self@).len(),
    ;

    /// Append the value's bytes to `dst`.
    fn encode(&self, dst: &mut WriteCursor) -> (r: EncodeResult<()>)
        ensures
            match Self::encode_error(self@) {
                None => r is Ok && final(dst)@ == old(dst)@ + Self::wire(self@),
                Some(e) => r matches Err(f) && f == e,
            },
    ;
}

/// A value that can be read back from its wire form.
pub trait Decode: Encode + Sized {
    /// Whether the wire form of a value says all of it.
    spec fn restorable(v: Self::V) -> bool;

    /// What a reader at `p` finds: a value and the position behind it, or an error.
    spec fn parse(b: Seq<u8>, p: int) -> DecodeResult<(Self::V, int)>;

    /// Read one value.
    fn decode(src: &mut ReadCursor<'_>) -> (r: DecodeResult<Self>)
        ensures
            final(src).bytes() == old(src).bytes(),
            match Self::parse(old(src).bytes(), old(src).pos()) {
                Ok((v, q)) => r matches Ok(m) && m@ == v && final(src).pos() == q,
                Err(e) => r matches Err(f) && f == e,
            },
    ;

    /// Where the bytes of a restorable value stand, a reader finds that value.
    proof fn lemma_restores(v: Self::V, b: Seq<u8>, p: int)
        requires
            Self::encode_error(v) is None,
            Self::restorable(v),
            at(b, p, Self::wire(v)),
        ensures
            Self::parse(b, p) == Ok::<(Self::V, int), DecodeError>(
                (v, p + Self::wire(v).len()),
            ),
    ;

    /// What a reader finds does not depend on what follows it.
    proof fn lemma_extends(b: Seq<u8>, p: int, more: Seq<u8>)
        requires
            0 <= p <= b.len(),
            Self::parse(b, p) is Ok,
        ensures
            Self::parse(b + more, p) == Self::parse(b, p),
            p <= Self::parse(b, p)->Ok_0.1 <= b.len(),
    ;
}

/// A copy of `bytes`.
pub fn copy_bytes(bytes: &[u8]) -> (r: Vec<u8>)
    ensures
        r@ == bytes@,
{
    let mut copy: Vec<u8> = Vec::new();
    copy.extend_from_slice(bytes);
    assert(copy@ =~= bytes@);
    copy
}

/// Decode one value from the front of `bytes`; what follows it is ignored.
pub fn decode<T: Decode>(bytes: &[u8]) -> (r: DecodeResult<T>)
    ensures
        match T::parse(bytes@, 0) {
            Ok((v, _)) => r matches Ok(m) && m@ == v,
            Err(e) => r matches Err(f) && f == e,
        },
{
    let mut src = ReadCursor::new(bytes);
    T::decode(&mut src)
}

/// Encode one value into a buffer of its own.
pub fn encode_vec<T: Encode>(value: &T) -> (r: EncodeResult<Vec<u8>>)
    ensures
        match T::encode_error(value@) {
            None => r matches Ok(bytes) && bytes@ == T::wire(value@),
            Some(e) => r matches Err(f) && f == e,
        },
{
    let mut dst = WriteCursor::new();
    value.encode(&mut dst)?;
    let bytes = dst.into_vec();
    assert(bytes@ =~= T::wire(value@));
    Ok(bytes)
}

/// Whether `s` stands in `b` at `p`.
pub open spec fn at(b: Seq<u8>, p: int, s: Seq<u8>) -> bool {
    &&& 0 <= p
    &&& p + s.len() <= b.len()
    &&& b.subrange(p, p + s.len() as int) == s
}

/// Two pieces stand one behind the other where their concatenation stands.
pub broadcast proof fn lemma_at_add(b: Seq<u8>, p: int, s: Seq<u8>, t: Seq<u8>)
    requires
        #[trigger] at(b, p, s + t),
    ensures
        at(b, p, s),
        at(b, p + s.len(), t),
{
    assert(b.subrange(p, p + s.len() as int) =~= (s + t).subrange(0, s.len() as int));
    assert((s + t).subrange(0, s.len() as int) =~= s);
    assert(b.subrange(p + s.len(), p + s.len() + t.len()) =~= (s + t).subrange(
        s.len() as int,
        (s + t).len() as int,
    ));
    assert((s + t).subrange(s.len() as int, (s + t).len() as int) =~= t);
}

/// A byte is read where it stands.
pub broadcast proof fn lemma_at_u8(b: Seq<u8>, p: int, x: u8)
    requires
        #[trigger] at(b, p, seq![x]),
    ensures
        b[p] == x,
        p + 1 <= b.len(),
{
    assert(b.subrange(p, p + 1)[0] == b[p]);
}

/// A `u16` is read where its bytes stand.
pub broadcast proof fn lemma_at_le16(b: Seq<u8>, p: int, x: u16)
    requires
        #[trigger] at(b, p, le16(x)),
    ensures
        u16_at(b, p) == x,
        p + 2 <= b.len(),
{
    reveal(le16);
    reveal(u16_at);
    let s = b.subrange(p, p + 2);
    assert(s[0] == b[p] && s[1] == b[p + 1]);
}

/// A `u32` is read where its bytes stand.
pub broadcast proof fn lemma_at_le32(b: Seq<u8>, p: int, x: u32)
    requires
        #[trigger] at(b, p, le32(x)),
    ensures
        u32_at(b, p) == x,
        p + 4 <= b.len(),
{
    reveal(le32);
    reveal(u32_at);
    let s = b.subrange(p, p + 4);
    assert(s[0] == b[p] && s[1] == b[p + 1] && s[2] == b[p + 2] && s[3] == b[p + 3]);
}

/// A `u64` is read where its bytes stand.
pub broadcast proof fn lemma_at_le64(b: Seq<u8>, p: int, x: u64)
    requires
        #[trigger] at(b, p, le64(x)),
    ensures
        u64_at(b, p) == x,
        p + 8 <= b.len(),
{
    broadcast use lemma_le32_len;

    reveal(le64);
    reveal(u64_at);
    let lo = (x % 0x1_0000_0000) as u32;
    let hi = (x / 0x1_0000_0000) as u32;
    lemma_at_add(b, p, le32(lo), le32(hi));
    lemma_at_le32(b, p, lo);
    lemma_at_le32(b, p + 4, hi);
}

/// A `u16` has two bytes.
pub broadcast proof fn lemma_le16_len(x: u16)
    ensures
        #[trigger] le16(x).len() == 2,
{
    reveal(le16);
}

/// A `u32` has four bytes.
pub broadcast proof fn lemma_le32_len(x: u32)
    ensures
        #[trigger] le32(x).len() == 4,
{
    reveal(le32);
}

/// A `u64` has eight bytes.
pub broadcast proof fn lemma_le64_len(x: u64)
    ensures
        #[trigger] le64(x).len() == 8,
{
    broadcast use lemma_le32_len;

    reveal(le64);
}

/// A `u16` within `b` is read there when more follows.
pub broadcast proof fn lemma_u16_of_longer(b: Seq<u8>, more: Seq<u8>, p: int)
    requires
        0 <= p,
        p + 2 <= b.len(),
    ensures
        #[trigger] u16_at(b + more, p) == u16_at(b, p),
{
    reveal(u16_at);
}

/// A `u32` within `b` is read there when more follows.
pub broadcast proof fn lemma_u32_of_longer(b: Seq<u8>, more: Seq<u8>, p: int)
    requires
        0 <= p,
        p + 4 <= b.len(),
    ensures
        #[trigger] u32_at(b + more, p) == u32_at(b, p),
{
    reveal(u32_at);
}

/// A `u64` within `b` is read there when more follows.
pub broadcast proof fn lemma_u64_of_longer(b: Seq<u8>, more: Seq<u8>, p: int)
    requires
        0 <= p,
        p + 8 <= b.len(),
    ensures
        #[trigger] u64_at(b + more, p) == u64_at(b, p),
{
    broadcast use lemma_u32_of_longer;

    reveal(u64_at);
}

/// What stands within `b` also stands there when more follows.
pub broadcast proof fn lemma_subrange_of_longer(b: Seq<u8>, more: Seq<u8>, p: int, q: int)
    requires
        0 <= p <= q <= b.len(),
    ensures
        #[trigger] (b + more).subrange(p, q) == b.subrange(p, q),
{
    assert((b + more).subrange(p, q) =~= b.subrange(p, q));
}

/// The widths of the fixed-width fields.
pub broadcast group group_lens {
    lemma_le16_len,
    lemma_le32_len,
    lemma_le64_len,
}

/// What the reading laws of fixed-width fields come down to.
pub broadcast group group_fields {
    lemma_at_add,
    lemma_at_u8,
    lemma_at_le16,
    lemma_at_le32,
    lemma_at_le64,
    lemma_subrange_of_longer,
    lemma_u16_of_longer,
    lemma_u32_of_longer,
    lemma_u64_of_longer,
    group_lens,
}

/// Decoding gives back what was encoded, whatever follows it.
pub proof fn law_decode_inverts_encode<T: Decode>(v: T::V, rest: Seq<u8>)
    requires
        T::encode_error(v) is None,
        T::restorable(v),
    ensures
        T::parse(T::wire(v) + rest, 0) == Ok::<(T::V, int), DecodeError>(
            (v, T::wire(v).len() as int),
        ),
{
    let b = T::wire(v) + rest;
    assert(b.subrange(0, T::wire(v).len() as int) =~= T::wire(v));
    T::lemma_restores(v, b, 0);
}

/// Two values with the same bytes are the same value.
pub proof fn law_wire_is_injective<T: Decode>(v: T::V, w: T::V)
    requires
        T::encode_error(v) is None,
        T::restorable(v),
        T::encode_error(w) is None,
        T::restorable(w),
        T::wire(v) == T::wire(w),
    ensures
        v == w,
{
    law_decode_inverts_encode::<T>(v, Seq::empty());
    law_decode_inverts_encode::<T>(w, Seq::empty());
}

/// A value cut short is an error, wherever it was cut.
pub proof fn law_truncation_is_an_error<T: Decode>(v: T::V, cut: int)
    requires
        T::encode_error(v) is None,
        T::restorable(v),
        0 <= cut < T::wire(v).len(),
    ensures
        T::parse(T::wire(v).subrange(0, cut), 0) is Err,
{
    let b = T::wire(v).subrange(0, cut);
    let more = T::wire(v).subrange(cut, T::wire(v).len() as int);
    assert(b + more =~= T::wire(v));
    if T::parse(b, 0) is Ok {
        T::lemma_extends(b, 0, more);
        law_decode_inverts_encode::<T>(v, Seq::empty());
        assert(T::wire(v) + Seq::<u8>::empty() =~= T::wire(v));
    }
}

/// What is wrong is said with where it is and why.
pub proof fn law_codec_errors_are_worded(d: &DecodeError, e: &EncodeError, ds: String, es: String)
    requires
        call_ensures(DecodeError::message, (d,), ds),
        call_ensures(EncodeError::message, (e,), es),
    ensures
        ds@ == match d {
            DecodeError::NotEnoughBytes { context } => "not enough bytes in "@ + context@,
            DecodeError::InvalidField { context, field, reason } => "invalid field "@ + field@
                + " in "@ + context@ + ": "@ + reason@,
            DecodeError::InvalidLength { context, reason } => "invalid length in "@ + context@
                + ": "@ + reason@,
        },
        es@ == match e {
            EncodeError::FieldTooLarge { context, field } => "field "@ + field@ + " of "@ + context@
                + " is too large"@,
        },
{
}

} // verus!
