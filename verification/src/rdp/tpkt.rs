//! TPKT framing: four bytes in front of every message, of which the last two say how long it is.

use vstd::prelude::*;

verus! {

/// Bytes in a TPKT header.
pub const TPKT_HEADER_LEN: usize = 4;

/// The only TPKT version there is.
pub const TPKT_VERSION: u8 = 3;

/// Why bytes are no TPKT frame.
#[derive(Debug, Clone, Copy, PartialEq, Eq)]
pub enum TpktError {
    /// The version is not [`TPKT_VERSION`].
    Version(u8),
    /// The length is smaller than the header.
    Length(u16),
}

/// The length that a header declares.
pub open spec fn declared(header: Seq<u8>) -> u16 {
    (header[2] * 256 + header[3]) as u16
}

/// How long the frame at the front of some bytes is, once its header is there.
pub open spec fn frame_at(bytes: Seq<u8>) -> Result<Option<nat>, TpktError> {
    if bytes.len() < TPKT_HEADER_LEN {
        Ok(None)
    } else if bytes[0] != TPKT_VERSION {
        Err(TpktError::Version(bytes[0]))
    } else if declared(bytes) < TPKT_HEADER_LEN {
        Err(TpktError::Length(declared(bytes)))
    } else {
        Ok(Some(declared(bytes) as nat))
    }
}

/// How long the frame at the front of `bytes` is, its header included, or `None` while the header
/// is not all there.
///
/// # Errors
///
/// [`TpktError`] if this is no TPKT header.
pub fn frame_length(bytes: &[u8]) -> (r: Result<Option<usize>, TpktError>)
    ensures
        match r {
            Ok(None) => frame_at(bytes@) == Ok::<Option<nat>, TpktError>(None),
            Ok(Some(len)) => frame_at(bytes@) == Ok::<_, TpktError>(Some(len as nat)),
            Err(e) => frame_at(bytes@) == Err::<Option<nat>, _>(e),
        },
{
    if bytes.len() < TPKT_HEADER_LEN {
        return Ok(None);
    }
    if bytes[0] != TPKT_VERSION {
        return Err(TpktError::Version(bytes[0]));
    }
    let length: u16 = bytes[2] as u16 * 256 + bytes[3] as u16;
    if (length as usize) < TPKT_HEADER_LEN {
        return Err(TpktError::Length(length));
    }
    Ok(Some(length as usize))
}

/// Takes the frame at the front of `bytes`, its header included, and exactly that: whatever
/// follows it stays. `None` while the frame is not all there.
///
/// # Errors
///
/// [`TpktError`] if this is no TPKT frame.
pub fn take_frame(bytes: &mut Vec<u8>) -> (r: Result<Option<Vec<u8>>, TpktError>)
    ensures
        match frame_at(old(bytes)@) {
            Err(e) => r == Err::<Option<Vec<u8>>, _>(e) && final(bytes)@ == old(bytes)@,
            Ok(Some(len)) if len <= old(bytes)@.len() => {
                &&& r matches Ok(Some(frame))
                &&& frame@ == old(bytes)@.take(len as int)
                &&& final(bytes)@ == old(bytes)@.skip(len as int)
            },
            _ => r matches Ok(None) && final(bytes)@ == old(bytes)@,
        },
{
    let len: usize = match frame_length(bytes.as_slice()) {
        Err(e) => {
            return Err(e);
        },
        Ok(None) => {
            return Ok(None);
        },
        Ok(Some(len)) => len,
    };
    if bytes.len() < len {
        return Ok(None);
    }
    let rest = bytes.split_off(len);
    let mut frame = rest;
    std::mem::swap(bytes, &mut frame);
    assert(frame@ =~= old(bytes)@.take(len as int));
    assert(bytes@ =~= old(bytes)@.skip(len as int));
    Ok(Some(frame))
}

/// Whether some bytes are one whole frame.
pub open spec fn is_frame(bytes: Seq<u8>) -> bool {
    frame_at(bytes) == Ok::<_, TpktError>(Some(bytes.len()))
}

/// Frames written one behind the other are read back one by one: a whole frame at the front is
/// found as it is, whatever follows it.
pub proof fn law_frames_are_read_exactly(frame: Seq<u8>, rest: Seq<u8>)
    requires
        is_frame(frame),
    ensures
        frame_at(frame + rest) == Ok::<_, TpktError>(Some(frame.len())),
        (frame + rest).take(frame.len() as int) == frame,
        (frame + rest).skip(frame.len() as int) == rest,
{
    assert((frame + rest).take(frame.len() as int) =~= frame);
    assert((frame + rest).skip(frame.len() as int) =~= rest);
}

/// A frame is taken once all of it is there, as long as its third and fourth byte say, the high one
/// first. Its first byte is 3, and it is at least as long as its header of four bytes.
pub proof fn law_frames_are_as_long_as_they_say()
    ensures
        forall|v: &mut Vec<u8>, r: Result<Option<Vec<u8>>, TpktError>| #[trigger]
            call_ensures(take_frame, (v,), r) ==> ({
                let b = (*v)@;
                let len = 256 * b[2] + b[3];
                let taken = b.len() >= 4 && b[0] == 3 && 4 <= len <= b.len();
                &&& (r is Ok && r->Ok_0 is Some) <==> taken
                &&& taken ==> r->Ok_0->0@ == b.take(len) && final(v)@ == b.skip(len)
                &&& !taken ==> final(v)@ == b
                &&& r is Err <==> b.len() >= 4 && (b[0] != 3 || len < 4)
                &&& b.len() >= 4 && b[0] != 3 ==> r == Err::<Option<Vec<u8>>, _>(
                    TpktError::Version(b[0]),
                )
                &&& b.len() >= 4 && b[0] == 3 && len < 4 ==> (r matches Err(TpktError::Length(l))
                    && l == len)
            }),
{
}

/// The length of a frame is known with its header.
pub proof fn law_headers_tell_the_length(bytes: &[u8], r: Result<Option<usize>, TpktError>)
    requires
        call_ensures(frame_length, (bytes,), r),
    ensures
        bytes@.len() < 4 ==> r == Ok::<Option<usize>, TpktError>(None),
        bytes@.len() >= 4 && bytes@[0] == 3 && 256 * bytes@[2] + bytes@[3] >= 4 ==> (
        r matches Ok(Some(len)) && len == 256 * bytes@[2] + bytes@[3]),
        bytes@.len() >= 4 && (bytes@[0] != 3 || 256 * bytes@[2] + bytes@[3] < 4) ==> r is Err,
{
}

} // verus!
