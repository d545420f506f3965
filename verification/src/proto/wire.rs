//! Primitive encoders shared by every message body.

use vstd::prelude::*;
use vstd::utf8;

use crate::proto::pdu;
use crate::proto::pdu::{
    DecodeError, DecodeResult, EncodeError, EncodeResult, ReadCursor, WriteCursor,
};

verus! {

/// The bytes of a length-prefixed string.
pub open spec fn string_wire(s: Seq<char>) -> Seq<u8> {
    pdu::le16((utf8::encode_utf8(s).len() % 65536) as u16) + utf8::encode_utf8(s)
}

/// Why a string has no encoding, if it has none.
pub open spec fn string_error(s: Seq<char>, context: &'static str) -> Option<EncodeError> {
    if utf8::encode_utf8(s).len() <= u16::MAX {
        None
    } else {
        Some(EncodeError::FieldTooLarge { context, field: "string length" })
    }
}

/// What reading a length-prefixed string at `p` finds.
pub open spec fn take_string(b: Seq<u8>, p: int, context: &'static str) -> DecodeResult<
    (Seq<char>, int),
> {
    match pdu::take_u16(b, p, context) {
        Err(e) => Err(e),
        Ok((len, p)) => match pdu::take_slice(b, p, len as int, context) {
            Err(e) => Err(e),
            Ok((bytes, p)) => if utf8::valid_utf8(bytes) {
                Ok((utf8::decode_utf8(bytes), p))
            } else {
                Err(
                    DecodeError::InvalidField {
                        context,
                        field: "string",
                        reason: "not valid UTF-8",
                    },
                )
            },
        },
    }
}

/// The bytes of a length-prefixed blob.
pub open spec fn blob_wire(data: Seq<u8>) -> Seq<u8> {
    pdu::le32((data.len() % 0x1_0000_0000) as u32) + data
}

/// Why a blob has no encoding, if it has none.
pub open spec fn blob_error(data: Seq<u8>, context: &'static str) -> Option<EncodeError> {
    if data.len() <= u32::MAX {
        None
    } else {
        Some(EncodeError::FieldTooLarge { context, field: "blob length" })
    }
}

/// What reading a length-prefixed blob at `p` finds.
pub open spec fn take_blob(b: Seq<u8>, p: int, context: &'static str) -> DecodeResult<
    (Seq<u8>, int),
> {
    match pdu::take_u32(b, p, context) {
        Err(e) => Err(e),
        Ok((len, p)) => pdu::take_slice(b, p, len as int, context),
    }
}

/// The byte of a boolean.
pub open spec fn bool_wire(value: bool) -> Seq<u8> {
    seq![if value { 1u8 } else { 0u8 }]
}

/// What reading a boolean at `p` finds: any byte but zero is true.
pub open spec fn take_bool(b: Seq<u8>, p: int, context: &'static str) -> DecodeResult<(bool, int)> {
    match pdu::take_u8(b, p, context) {
        Err(e) => Err(e),
        Ok((x, p)) => Ok((x != 0, p)),
    }
}

/// The bytes of an `i32`: its two's complement, low byte first.
pub open spec fn i32_wire(v: i32) -> Seq<u8> {
    pdu::le32(v as u32)
}

/// What reading an `i32` at `p` finds.
pub open spec fn take_i32(b: Seq<u8>, p: int, context: &'static str) -> DecodeResult<(i32, int)> {
    match pdu::take_u32(b, p, context) {
        Err(e) => Err(e),
        Ok((x, p)) => Ok((x as i32, p)),
    }
}

/// The bytes of an `i16`: its two's complement, low byte first.
pub open spec fn i16_wire(v: i16) -> Seq<u8> {
    pdu::le16(v as u16)
}

/// What reading an `i16` at `p` finds.
pub open spec fn take_i16(b: Seq<u8>, p: int, context: &'static str) -> DecodeResult<(i16, int)> {
    match pdu::take_u16(b, p, context) {
        Err(e) => Err(e),
        Ok((x, p)) => Ok((x as i16, p)),
    }
}

/// What reading a `u64` at `p` finds.
pub open spec fn take_u64(b: Seq<u8>, p: int, context: &'static str) -> DecodeResult<(u64, int)> {
    if p + 8 <= b.len() {
        Ok((pdu::u64_at(b, p), p + 8))
    } else {
        Err(DecodeError::NotEnoughBytes { context })
    }
}

/// Turns bytes into text through [`String::from_utf8`].
///
/// Trusted: the call succeeds exactly on well-formed UTF-8, and the text is then what the bytes
/// spell.
#[verifier::external_body]
fn text_from_utf8(bytes: &[u8]) -> (r: Option<String>)
    ensures
        match r {
            Some(s) => utf8::valid_utf8(bytes@) && s@ == utf8::decode_utf8(bytes@),
            None => !utf8::valid_utf8(bytes@),
        },
{
    String::from_utf8(bytes.to_vec()).ok()
}

/// On-wire size of a length-prefixed UTF-8 string.
pub fn string_size(s: &str) -> (n: usize)
    requires
        string_wire(s@).len() <= usize::MAX,
    ensures
        n == string_wire(s@).len(),
{
    broadcast use pdu::group_lens;

    2 + s.as_bytes().len()
}

/// Write a `u16` length followed by the UTF-8 bytes (no NUL terminator).
pub fn write_string(dst: &mut WriteCursor, s: &str, ctx: &'static str) -> (r: EncodeResult<()>)
    ensures
        match string_error(s@, ctx) {
            None => r is Ok && final(dst)@ == old(dst)@ + string_wire(s@),
            Some(e) => r matches Err(f) && f == e && final(dst)@ == old(dst)@,
        },
{
    let bytes = s.as_bytes();
    let len: usize = bytes.len();
    if len > 65535 {
        return Err(EncodeError::FieldTooLarge { context: ctx, field: "string length" });
    }
    dst.write_u16_le(len as u16);
    dst.write_slice(bytes);
    broadcast use pdu::group_lens;

    assert(dst@ =~= old(dst)@ + string_wire(s@));
    Ok(())
}

/// Read a `u16`-length-prefixed UTF-8 string. Invalid UTF-8 is a decode error rather than
/// being silently replaced: a peer sending malformed text is a bug worth surfacing.
pub fn read_string(src: &mut ReadCursor<'_>, ctx: &'static str) -> (r: DecodeResult<String>)
    ensures
        final(src).bytes() == old(src).bytes(),
        match take_string(old(src).bytes(), old(src).pos(), ctx) {
            Ok((v, q)) => r matches Ok(s) && s@ == v && final(src).pos() == q,
            Err(e) => r matches Err(f) && f == e,
        },
{
    let len: u16 = src.read_u16_le(ctx)?;
    let bytes = src.read_slice(len as usize, ctx)?;
    match text_from_utf8(bytes) {
        Some(s) => Ok(s),
        None => Err(
            DecodeError::InvalidField { context: ctx, field: "string", reason: "not valid UTF-8" },
        ),
    }
}

/// Write a boolean as a single byte.
pub fn write_bool(dst: &mut WriteCursor, value: bool, _ctx: &'static str) -> (r: EncodeResult<()>)
    ensures
        r is Ok,
        final(dst)@ == old(dst)@ + bool_wire(value),
{
    dst.write_u8(if value { 1 } else { 0 });
    Ok(())
}

/// Read a boolean; any non-zero byte is true.
pub fn read_bool(src: &mut ReadCursor<'_>, ctx: &'static str) -> (r: DecodeResult<bool>)
    ensures
        final(src).bytes() == old(src).bytes(),
        match take_bool(old(src).bytes(), old(src).pos(), ctx) {
            Ok((v, q)) => r matches Ok(x) && x == v && final(src).pos() == q,
            Err(e) => r matches Err(f) && f == e,
        },
{
    let x: u8 = src.read_u8(ctx)?;
    Ok(x != 0)
}

/// Write a `u32`-length-prefixed byte blob.
pub fn write_blob(dst: &mut WriteCursor, data: &[u8], ctx: &'static str) -> (r: EncodeResult<()>)
    ensures
        match blob_error(data@, ctx) {
            None => r is Ok && final(dst)@ == old(dst)@ + blob_wire(data@),
            Some(e) => r matches Err(f) && f == e && final(dst)@ == old(dst)@,
        },
{
    if data.len() as u64 > 0xFFFF_FFFF {
        return Err(EncodeError::FieldTooLarge { context: ctx, field: "blob length" });
    }
    dst.write_u32_le(data.len() as u32);
    dst.write_slice(data);
    broadcast use pdu::group_lens;

    assert(dst@ =~= old(dst)@ + blob_wire(data@));
    Ok(())
}

/// Read a `u32`-length-prefixed byte blob.
pub fn read_blob(src: &mut ReadCursor<'_>, ctx: &'static str) -> (r: DecodeResult<Vec<u8>>)
    ensures
        final(src).bytes() == old(src).bytes(),
        match take_blob(old(src).bytes(), old(src).pos(), ctx) {
            Ok((v, q)) => r matches Ok(x) && x@ == v && final(src).pos() == q,
            Err(e) => r matches Err(f) && f == e,
        },
{
    let len: u32 = src.read_u32_le(ctx)?;
    let bytes = src.read_slice(len as usize, ctx)?;
    Ok(pdu::copy_bytes(bytes))
}

/// Write an `i32`.
pub fn write_i32(dst: &mut WriteCursor, v: i32, _ctx: &'static str) -> (r: EncodeResult<()>)
    ensures
        r is Ok,
        final(dst)@ == old(dst)@ + i32_wire(v),
{
    dst.write_u32_le(v as u32);
    Ok(())
}

/// Read an `i32`.
pub fn read_i32(src: &mut ReadCursor<'_>, ctx: &'static str) -> (r: DecodeResult<i32>)
    ensures
        final(src).bytes() == old(src).bytes(),
        match take_i32(old(src).bytes(), old(src).pos(), ctx) {
            Ok((v, q)) => r matches Ok(x) && x == v && final(src).pos() == q,
            Err(e) => r matches Err(f) && f == e,
        },
{
    let x: u32 = src.read_u32_le(ctx)?;
    Ok(x as i32)
}

/// Write an `i16`.
pub fn write_i16(dst: &mut WriteCursor, v: i16, _ctx: &'static str) -> (r: EncodeResult<()>)
    ensures
        r is Ok,
        final(dst)@ == old(dst)@ + i16_wire(v),
{
    dst.write_u16_le(v as u16);
    Ok(())
}

/// Read an `i16`.
pub fn read_i16(src: &mut ReadCursor<'_>, ctx: &'static str) -> (r: DecodeResult<i16>)
    ensures
        final(src).bytes() == old(src).bytes(),
        match take_i16(old(src).bytes(), old(src).pos(), ctx) {
            Ok((v, q)) => r matches Ok(x) && x == v && final(src).pos() == q,
            Err(e) => r matches Err(f) && f == e,
        },
{
    let x: u16 = src.read_u16_le(ctx)?;
    Ok(x as i16)
}

/// Write a `u64`: the low half first.
pub fn write_u64(dst: &mut WriteCursor, v: u64, _ctx: &'static str) -> (r: EncodeResult<()>)
    ensures
        r is Ok,
        final(dst)@ == old(dst)@ + pdu::le64(v),
{
    dst.write_u32_le((v % 0x1_0000_0000) as u32);
    dst.write_u32_le((v / 0x1_0000_0000) as u32);
    proof {
        reveal(pdu::le64);
    }
    assert(dst@ =~= old(dst)@ + pdu::le64(v));
    Ok(())
}

/// Read a `u64`.
pub fn read_u64(src: &mut ReadCursor<'_>, ctx: &'static str) -> (r: DecodeResult<u64>)
    ensures
        final(src).bytes() == old(src).bytes(),
        match take_u64(old(src).bytes(), old(src).pos(), ctx) {
            Ok((v, q)) => r matches Ok(x) && x == v && final(src).pos() == q,
            Err(e) => r matches Err(f) && f == e,
        },
{
    let lo: u32 = src.read_u32_le(ctx)?;
    let hi: u32 = src.read_u32_le(ctx)?;
    proof {
        reveal(pdu::u64_at);
    }
    Ok(lo as u64 + 0x1_0000_0000 * hi as u64)
}

/// A string is read where its bytes stand, if its length fits the prefix.
pub broadcast proof fn lemma_at_string(b: Seq<u8>, p: int, s: Seq<char>)
    requires
        #[trigger] pdu::at(b, p, string_wire(s)),
        utf8::encode_utf8(s).len() <= u16::MAX,
    ensures
        p + 2 <= b.len(),
        pdu::u16_at(b, p) == utf8::encode_utf8(s).len(),
        p + string_wire(s).len() <= b.len(),
        b.subrange(p + 2, p + 2 + utf8::encode_utf8(s).len()) == utf8::encode_utf8(s),
        utf8::valid_utf8(utf8::encode_utf8(s)),
        utf8::decode_utf8(utf8::encode_utf8(s)) == s,
{
    broadcast use {
        pdu::group_lens,
        utf8::encode_utf8_valid_utf8,
        utf8::encode_utf8_decode_utf8,
    };

    pdu::lemma_at_add(b, p, pdu::le16((utf8::encode_utf8(s).len() % 65536) as u16), utf8::encode_utf8(s));
    pdu::lemma_at_le16(b, p, (utf8::encode_utf8(s).len() % 65536) as u16);
}

/// A blob is read where its bytes stand, if its length fits the prefix.
pub broadcast proof fn lemma_at_blob(b: Seq<u8>, p: int, data: Seq<u8>)
    requires
        #[trigger] pdu::at(b, p, blob_wire(data)),
        data.len() <= u32::MAX,
    ensures
        p + 4 <= b.len(),
        pdu::u32_at(b, p) == data.len(),
        p + blob_wire(data).len() <= b.len(),
        b.subrange(p + 4, p + 4 + data.len() as int) == data,
{
    broadcast use pdu::group_lens;

    pdu::lemma_at_add(b, p, pdu::le32((data.len() % 0x1_0000_0000) as u32), data);
    pdu::lemma_at_le32(b, p, (data.len() % 0x1_0000_0000) as u32);
}

/// An `i32` is read where its bytes stand.
pub broadcast proof fn lemma_at_i32(b: Seq<u8>, p: int, v: i32)
    requires
        #[trigger] pdu::at(b, p, i32_wire(v)),
    ensures
        p + 4 <= b.len(),
        pdu::u32_at(b, p) as i32 == v,
{
    pdu::lemma_at_le32(b, p, v as u32);
    assert((v as u32) as i32 == v) by (bit_vector);
}

/// An `i16` is read where its bytes stand.
pub broadcast proof fn lemma_at_i16(b: Seq<u8>, p: int, v: i16)
    requires
        #[trigger] pdu::at(b, p, i16_wire(v)),
    ensures
        p + 2 <= b.len(),
        pdu::u16_at(b, p) as i16 == v,
{
    pdu::lemma_at_le16(b, p, v as u16);
    assert((v as u16) as i16 == v) by (bit_vector);
}

/// What the reading laws of the compound fields come down to.
pub broadcast group group_wire {
    lemma_at_string,
    lemma_at_blob,
    lemma_at_i32,
    lemma_at_i16,
}

} // verus!
