//! Chunk framing: the 8-byte header, fragmentation, reassembly, and size limits.
//!
//! Three properties matter here:
//!
//! 1. **`length` is authoritative.** A body is decoded from exactly the slice the header
//!    declares, so a malformed body can never read into the next message.
//! 2. **Big messages are fragmented** onto a channel, capped at [`MAX_CHUNK_PAYLOAD`], so a
//!    keyframe cannot delay input or control.
//! 3. **Nothing is allocated on a peer's say-so.** Per-type caps are checked against the header
//!    before any buffer grows, and reassembly buffers grow with arriving data rather than
//!    pre-allocating the declared size.

use std::collections::HashMap;

use vstd::prelude::*;

use crate::proto::chunk_flags;
use crate::proto::message::msg_type;
use crate::proto::pdu;
use crate::proto::pdu::{
    Decode, DecodeError, DecodeResult, Encode, EncodeError, EncodeResult, ReadCursor, WriteCursor,
};

verus! {

/// Bytes in a chunk header.
pub const CHUNK_HEADER_LEN: usize = 8;

/// Largest payload carried by a single chunk. This is a latency bound: the longest a
/// higher-priority channel can be delayed by a lower-priority one.
pub const MAX_CHUNK_PAYLOAD: usize = 32 * 1024;

/// The 8-byte chunk header.
#[derive(Debug, Clone, Copy, PartialEq, Eq)]
pub struct ChunkHeader {
    /// Message type (see [`crate::proto::message::msg_type`]), repeated on every chunk.
    pub msg_type: u8,
    /// Flag bits ([`chunk_flags`]).
    pub flags: u8,
    /// Logical channel ([`crate::proto::channel`]).
    pub channel: u16,
    /// Payload bytes in *this* chunk.
    pub length: u32,
}

impl View for ChunkHeader {
    type V = ChunkHeader;

    open spec fn view(&self) -> ChunkHeader {
        *self
    }
}

impl ChunkHeader {
    /// Whether more chunks follow for this message.
    pub open spec fn more(self) -> bool {
        self.flags & chunk_flags::FRAG_MORE != 0
    }

    /// Whether more chunks follow for this message.
    pub fn has_more(&self) -> (r: bool)
        ensures
            r == self.more(),
    {
        self.flags & chunk_flags::FRAG_MORE != 0
    }
}

impl Encode for ChunkHeader {
    open spec fn wire(v: ChunkHeader) -> Seq<u8> {
        seq![v.msg_type] + seq![v.flags] + pdu::le16(v.channel) + pdu::le32(v.length)
    }

    open spec fn encode_error(v: ChunkHeader) -> Option<EncodeError> {
        None
    }

    fn size(&self) -> usize {
        broadcast use pdu::group_lens;

        CHUNK_HEADER_LEN
    }

    fn encode(&self, dst: &mut WriteCursor) -> EncodeResult<()> {
        dst.write_u8(self.msg_type);
        dst.write_u8(self.flags);
        dst.write_u16_le(self.channel);
        dst.write_u32_le(self.length);
        assert(dst@ =~= old(dst)@ + Self::wire(self@));
        Ok(())
    }
}

impl Decode for ChunkHeader {
    /// A header comes back whole if it sets no undefined flag and declares no oversized payload.
    open spec fn restorable(v: ChunkHeader) -> bool {
        v.flags & chunk_flags::KNOWN == v.flags && v.length <= MAX_CHUNK_PAYLOAD
    }

    /// Undefined flag bits are dropped, not refused: a receiver that failed on an unknown bit
    /// would break the day a later version starts using one.
    open spec fn parse(b: Seq<u8>, p: int) -> DecodeResult<(ChunkHeader, int)> {
        match pdu::take_u8(b, p, "chunk type") {
            Err(e) => Err(e),
            Ok((msg_type, p)) => match pdu::take_u8(b, p, "chunk flags") {
                Err(e) => Err(e),
                Ok((flags, p)) => match pdu::take_u16(b, p, "chunk channel") {
                    Err(e) => Err(e),
                    Ok((channel, p)) => match pdu::take_u32(b, p, "chunk length") {
                        Err(e) => Err(e),
                        Ok((length, p)) => if length > MAX_CHUNK_PAYLOAD {
                            Err(
                                DecodeError::InvalidLength {
                                    context: "oxproto chunk",
                                    reason: "chunk payload exceeds MAX_CHUNK_PAYLOAD",
                                },
                            )
                        } else {
                            let flags = flags & chunk_flags::KNOWN;
                            Ok((ChunkHeader { msg_type, flags, channel, length }, p))
                        },
                    },
                },
            },
        }
    }

    fn decode(src: &mut ReadCursor<'_>) -> DecodeResult<Self> {
        let msg_type: u8 = src.read_u8("chunk type")?;
        let flags: u8 = src.read_u8("chunk flags")?;
        let channel: u16 = src.read_u16_le("chunk channel")?;
        let length: u32 = src.read_u32_le("chunk length")?;
        let flags: u8 = flags & chunk_flags::KNOWN;
        if length as usize > MAX_CHUNK_PAYLOAD {
            return Err(
                DecodeError::InvalidLength {
                    context: "oxproto chunk",
                    reason: "chunk payload exceeds MAX_CHUNK_PAYLOAD",
                },
            );
        }
        Ok(ChunkHeader { msg_type, flags, channel, length })
    }

    proof fn lemma_restores(v: ChunkHeader, b: Seq<u8>, p: int) {
        broadcast use pdu::group_fields;

    }

    proof fn lemma_extends(b: Seq<u8>, p: int, more: Seq<u8>) {
        broadcast use pdu::group_fields;

    }
}

/// The larger of nothing and one: how many chunks a payload of `len` bytes takes.
pub open spec fn chunk_count(len: nat) -> nat {
    if len == 0 {
        1
    } else {
        ((len + MAX_CHUNK_PAYLOAD - 1) / MAX_CHUNK_PAYLOAD as int) as nat
    }
}

/// The part of `payload` that chunk `i` carries.
pub open spec fn piece(payload: Seq<u8>, i: int) -> Seq<u8> {
    let end = (i + 1) * MAX_CHUNK_PAYLOAD;
    payload.subrange(
        i * MAX_CHUNK_PAYLOAD,
        if end < payload.len() { end } else { payload.len() as int },
    )
}

/// The header of chunk `i`: every chunk but the last says that more follow.
pub open spec fn piece_header(msg_type: u8, channel: u16, payload: Seq<u8>, i: int) -> ChunkHeader {
    ChunkHeader {
        msg_type,
        flags: if i + 1 < chunk_count(payload.len()) { chunk_flags::FRAG_MORE } else { 0 },
        channel,
        length: piece(payload, i).len() as u32,
    }
}

/// The wire bytes of chunk `i`.
pub open spec fn chunk(msg_type: u8, channel: u16, payload: Seq<u8>, i: int) -> Seq<u8> {
    ChunkHeader::wire(piece_header(msg_type, channel, payload, i)) + piece(payload, i)
}

/// Whether `chunks` are the chunks of the payload, in order.
pub open spec fn are_chunks(
    chunks: Seq<Vec<u8>>,
    msg_type: u8,
    channel: u16,
    payload: Seq<u8>,
) -> bool {
    &&& chunks.len() == chunk_count(payload.len())
    &&& forall|i: int|
        0 <= i < chunks.len() ==> (#[trigger] chunks[i])@ == chunk(msg_type, channel, payload, i)
}

/// Which chunk is the last one.
proof fn lemma_chunk_count(len: nat, i: int)
    requires
        0 <= i,
        i * MAX_CHUNK_PAYLOAD < len || i == 0,
    ensures
        i + 1 < chunk_count(len) <==> (i + 1) * MAX_CHUNK_PAYLOAD < len,
        (i + 1) * MAX_CHUNK_PAYLOAD >= len ==> chunk_count(len) == i + 1,
        (i + 1) * MAX_CHUNK_PAYLOAD == i * MAX_CHUNK_PAYLOAD + MAX_CHUNK_PAYLOAD,
{
    assert(MAX_CHUNK_PAYLOAD == 32768);
}

/// Split `payload` into chunk-sized frames, returning the complete wire bytes.
///
/// A zero-length payload still produces one chunk, so a body-less message is representable.
pub fn fragment(msg_type: u8, channel: u16, payload: &[u8]) -> (r: EncodeResult<Vec<Vec<u8>>>)
    ensures
        r matches Ok(out) && are_chunks(out@, msg_type, channel, payload@),
{
    let mut out: Vec<Vec<u8>> = Vec::new();
    let mut offset: usize = 0;
    loop
        invariant_except_break
            offset == out.len() * MAX_CHUNK_PAYLOAD,
            offset < payload.len() || offset == 0,
        invariant
            forall|i: int|
                0 <= i < out.len() ==> (#[trigger] out[i])@ == chunk(
                    msg_type,
                    channel,
                    payload@,
                    i,
                ),
        ensures
            out.len() == chunk_count(payload@.len()),
        decreases payload.len() - offset,
    {
        let more = payload.len() - offset > MAX_CHUNK_PAYLOAD;
        let end: usize = if more { offset + MAX_CHUNK_PAYLOAD } else { payload.len() };
        let piece = vstd::slice::slice_subrange(payload, offset, end);
        let header = ChunkHeader {
            msg_type,
            flags: if more { chunk_flags::FRAG_MORE } else { 0 },
            channel,
            length: piece.len() as u32,
        };
        let ghost n = out.len() as int;
        proof {
            assert(MAX_CHUNK_PAYLOAD == 32768);
            lemma_chunk_count(payload@.len(), n);
            assert(piece@ =~= self::piece(payload@, n));
            assert(header == piece_header(msg_type, channel, payload@, n));
        }
        let mut cursor = WriteCursor::new();
        header.encode(&mut cursor)?;
        cursor.write_slice(piece);
        let buf = cursor.into_vec();
        assert(buf@ =~= chunk(msg_type, channel, payload@, n));
        out.push(buf);
        if !more {
            break;
        }
        offset = end;
    }
    Ok(out)
}

/// Most channels that may hold a partially reassembled message at once.
///
/// Reassembly state is allocated *before* authentication (the handshake itself arrives through
/// it), so without this a peer could open partial fragment sequences on thousands of distinct
/// channel ids and pin memory without ever presenting a token. Legitimate traffic needs only a
/// handful: control, input, cursor, window, and one video channel per shared window.
pub const MAX_PENDING_CHANNELS: usize = 64;

/// Total bytes buffered across all partially reassembled messages.
///
/// The per-type limit bounds one message; this bounds the sum, so many channels each holding a
/// legal-but-large partial message cannot add up to an unbounded total.
pub const MAX_PENDING_BYTES: usize = 64 * 1024 * 1024;

/// Maximum size of a fully reassembled message of this type.
pub open spec fn max_len(msg_type: u8) -> nat {
    if msg_type == msg_type::WINDOW_OPENED || msg_type == msg_type::WINDOW_TITLE || msg_type
        == msg_type::DISPLAY_LAYOUT || msg_type == msg_type::ERROR {
        8 * 1024
    } else if msg_type == msg_type::CURSOR_SHAPE {
        256 * 1024
    } else if msg_type == msg_type::WINDOW_ICON {
        1024 * 1024
    } else if msg_type == msg_type::FRAME_DATA {
        32 * 1024 * 1024
    } else {
        4 * 1024
    }
}

/// Maximum size of a fully reassembled message of this type.
///
/// Checked while reassembling, before the buffer is allowed to grow, so a peer cannot make a
/// receiver allocate arbitrary memory.
pub fn max_message_len(msg_type: u8) -> (r: usize)
    ensures
        r == max_len(msg_type),
{
    match msg_type {
        msg_type::WINDOW_OPENED
        | msg_type::WINDOW_TITLE
        | msg_type::DISPLAY_LAYOUT
        | msg_type::ERROR => 8 * 1024,
        msg_type::CURSOR_SHAPE => 256 * 1024,
        msg_type::WINDOW_ICON => 1024 * 1024,
        msg_type::FRAME_DATA => 32 * 1024 * 1024,
        // Handshake, control, input and the small cursor messages.
        _ => 4 * 1024,
    }
}

/// A fully reassembled message: its type and its body bytes.
#[derive(Debug, Clone, PartialEq, Eq)]
pub struct Message {
    /// Message type code.
    pub msg_type: u8,
    /// Complete body, ready to decode.
    pub payload: Vec<u8>,
}

/// A message type and the bytes received for it.
pub struct Parts {
    /// Message type code.
    pub msg_type: u8,
    /// The bytes so far.
    pub bytes: Seq<u8>,
}

impl View for Message {
    type V = Parts;

    open spec fn view(&self) -> Parts {
        Parts { msg_type: self.msg_type, bytes: self.payload@ }
    }
}

#[derive(Debug)]
struct Pending {
    msg_type: u8,
    buf: Vec<u8>,
}

impl View for Pending {
    type V = Parts;

    closed spec fn view(&self) -> Parts {
        Parts { msg_type: self.msg_type, bytes: self.buf@ }
    }
}

/// How many bytes are buffered over all channels.
pub open spec fn buffered(pending: Map<u16, Parts>) -> nat
    recommends
        pending.dom().finite(),
    decreases pending.dom().len(),
    when pending.dom().finite()
{
    if pending.dom().len() == 0 {
        0
    } else {
        let c = pending.dom().choose();
        pending[c].bytes.len() + buffered(pending.remove(c))
    }
}

/// The bytes of one channel are part of the total.
proof fn lemma_buffered_remove(pending: Map<u16, Parts>, c: u16)
    requires
        pending.dom().finite(),
        pending.dom().contains(c),
    ensures
        buffered(pending) == pending[c].bytes.len() + buffered(pending.remove(c)),
    decreases pending.dom().len(),
{
    let d = pending.dom().choose();
    if c != d {
        lemma_buffered_remove(pending.remove(d), c);
        lemma_buffered_remove(pending.remove(c), d);
        assert(pending.remove(d).remove(c) =~= pending.remove(c).remove(d));
    }
}

/// Adding a channel adds its bytes.
proof fn lemma_buffered_insert(pending: Map<u16, Parts>, c: u16, parts: Parts)
    requires
        pending.dom().finite(),
        !pending.dom().contains(c),
    ensures
        buffered(pending.insert(c, parts)) == parts.bytes.len() + buffered(pending),
{
    lemma_buffered_remove(pending.insert(c, parts), c);
    assert(pending.insert(c, parts).remove(c) =~= pending);
}

/// The error for a message that is larger than its type allows.
pub open spec fn too_long() -> DecodeError {
    DecodeError::InvalidLength {
        context: "oxproto reassembly",
        reason: "message exceeds the maximum size for its type",
    }
}

/// What the partial messages are after a chunk arrived.
pub open spec fn pending_after(
    pending: Map<u16, Parts>,
    header: ChunkHeader,
    payload: Seq<u8>,
) -> Map<u16, Parts> {
    let c = header.channel;
    match answer(pending, header, payload) {
        // The last chunk of a message frees its channel.
        Ok(Some(_)) => pending.remove(c),
        Ok(None) => pending.insert(
            c,
            Parts { msg_type: header.msg_type, bytes: so_far(pending, c) + payload },
        ),
        Err(e) => if drops_channel(pending, header, payload) {
            pending.remove(c)
        } else {
            pending
        },
    }
}

/// The bytes received so far of the message in flight on a channel.
pub open spec fn so_far(pending: Map<u16, Parts>, channel: u16) -> Seq<u8> {
    if pending.dom().contains(channel) {
        pending[channel].bytes
    } else {
        Seq::empty()
    }
}

/// Whether a chunk would be buffered or would complete buffered bytes, as opposed to being a
/// whole message of its own.
pub open spec fn joins(pending: Map<u16, Parts>, header: ChunkHeader) -> bool {
    header.more() || pending.dom().contains(header.channel)
}

/// Whether the totals have room for a chunk that joins.
pub open spec fn has_room(
    pending: Map<u16, Parts>,
    header: ChunkHeader,
    payload: Seq<u8>,
) -> bool {
    &&& pending.dom().contains(header.channel) || pending.dom().len() < MAX_PENDING_CHANNELS
    &&& buffered(pending) + payload.len() <= MAX_PENDING_BYTES
}

/// Whether a chunk disagrees with the message in flight on its channel.
pub open spec fn changes_type(pending: Map<u16, Parts>, header: ChunkHeader) -> bool {
    pending.dom().contains(header.channel) && pending[header.channel].msg_type != header.msg_type
}

/// Whether a refused chunk takes the message in flight on its channel with it.
pub open spec fn drops_channel(
    pending: Map<u16, Parts>,
    header: ChunkHeader,
    payload: Seq<u8>,
) -> bool {
    &&& payload.len() == header.length
    &&& joins(pending, header)
    &&& has_room(pending, header, payload)
    &&& changes_type(pending, header) || so_far(pending, header.channel).len() + payload.len()
        > max_len(header.msg_type)
}

/// What a chunk is answered with: the complete message if it was the last one, nothing if more
/// chunks are expected, or why the chunk is refused.
pub open spec fn answer(
    pending: Map<u16, Parts>,
    header: ChunkHeader,
    payload: Seq<u8>,
) -> DecodeResult<Option<Parts>> {
    let bytes = so_far(pending, header.channel) + payload;
    if payload.len() != header.length {
        Err(
            DecodeError::InvalidLength {
                context: "oxproto reassembly",
                reason: "payload length does not match the chunk header",
            },
        )
    } else if joins(pending, header) && !pending.dom().contains(header.channel)
        && pending.dom().len() >= MAX_PENDING_CHANNELS {
        Err(
            DecodeError::InvalidLength {
                context: "oxproto reassembly",
                reason: "too many channels with a partially reassembled message",
            },
        )
    } else if joins(pending, header) && !has_room(pending, header, payload) {
        Err(
            DecodeError::InvalidLength {
                context: "oxproto reassembly",
                reason: "total buffered reassembly bytes exceeded",
            },
        )
    } else if changes_type(pending, header) {
        Err(
            DecodeError::InvalidField {
                context: "oxproto reassembly",
                field: "type",
                reason: "chunk type differs from the message in flight on this channel",
            },
        )
    } else if bytes.len() > max_len(header.msg_type) {
        Err(too_long())
    } else if header.more() {
        Ok(None)
    } else {
        Ok(Some(Parts { msg_type: header.msg_type, bytes }))
    }
}

/// Per-channel reassembly of fragmented messages.
///
/// A channel carries at most one message at a time; a chunk whose type disagrees with the
/// message already in flight on that channel is a protocol error.
#[derive(Debug)]
pub struct Reassembler {
    pending: HashMap<u16, Pending>,
    pending_bytes: usize,
}

impl View for Reassembler {
    type V = Map<u16, Parts>;

    closed spec fn view(&self) -> Map<u16, Parts> {
        by_channel(self.pending@)
    }
}

impl Reassembler {
    #[verifier::type_invariant]
    spec fn inv(self) -> bool {
        &&& self@.dom().finite()
        &&& self.pending_bytes == buffered(self@)
        &&& within_limits(self@)
    }

    /// A reassembler with no messages in flight.
    pub fn new() -> (r: Self)
        ensures
            r@ == Map::<u16, Parts>::empty(),
    {
        broadcast use vstd::std_specs::hash::group_hash_axioms;

        let pending: HashMap<u16, Pending> = HashMap::new();
        assert(by_channel(pending@) =~= Map::<u16, Parts>::empty());
        Reassembler { pending, pending_bytes: 0 }
    }

    /// How many channels currently have a partial message.
    pub fn pending_channels(&self) -> (r: usize)
        ensures
            r == self@.dom().len(),
            r <= MAX_PENDING_CHANNELS,
    {
        broadcast use vstd::std_specs::hash::group_hash_axioms;

        proof {
            use_type_invariant(self);
            assert(self@.dom() =~= self.pending@.dom());
        }
        self.pending.len()
    }

    /// Bytes currently buffered across all partially reassembled messages.
    pub fn pending_bytes(&self) -> (r: usize)
        ensures
            r == buffered(self@),
            r <= MAX_PENDING_BYTES,
            self@.dom().finite(),
            within_limits(self@),
    {
        proof {
            use_type_invariant(self);
        }
        self.pending_bytes
    }

    /// Feed one chunk. Returns the complete message once the final chunk of a message arrives,
    /// or `None` while more chunks are expected.
    ///
    /// The wire format cannot distinguish "final chunk of the sequence in flight" from "a fresh
    /// unfragmented message that happens to share this channel and type": a sender that abandons
    /// a fragment sequence and reuses the channel gets its leftover bytes spliced onto the next
    /// message.
    pub fn push(&mut self, header: &ChunkHeader, payload: &[u8]) -> (r: DecodeResult<
        Option<Message>,
    >)
        ensures
            final(self)@ == pending_after(old(self)@, *header, payload@),
            match answer(old(self)@, *header, payload@) {
                Ok(Some(m)) => r matches Ok(Some(x)) && x@ == m,
                Ok(None) => r matches Ok(None),
                Err(e) => r matches Err(f) && f == e,
            },
    {
        broadcast use vstd::std_specs::hash::group_hash_axioms;

        proof {
            use_type_invariant(&*self);
            assert(self@.dom() =~= self.pending@.dom());
        }
        let ghost before = self@;
        if payload.len() != header.length as usize {
            return Err(
                DecodeError::InvalidLength {
                    context: "oxproto reassembly",
                    reason: "payload length does not match the chunk header",
                },
            );
        }
        let is_new_channel = !self.pending.contains_key(&header.channel);
        // Fast path: an unfragmented message with nothing pending on the channel.
        if !header.has_more() && is_new_channel {
            check_len(header.msg_type, payload.len())?;
            let message = Message {
                msg_type: header.msg_type,
                payload: pdu::copy_bytes(payload),
            };
            assert(so_far(before, header.channel) + payload@ =~= payload@);
            assert(before.remove(header.channel) =~= before);
            return Ok(Some(message));
        }
        if is_new_channel && self.pending.len() >= MAX_PENDING_CHANNELS {
            return Err(
                DecodeError::InvalidLength {
                    context: "oxproto reassembly",
                    reason: "too many channels with a partially reassembled message",
                },
            );
        }
        if payload.len() > MAX_PENDING_BYTES - self.pending_bytes {
            return Err(
                DecodeError::InvalidLength {
                    context: "oxproto reassembly",
                    reason: "total buffered reassembly bytes exceeded",
                },
            );
        }
        let mut this = Reassembler::new();
        std::mem::swap(self, &mut this);
        let Reassembler { mut pending, mut pending_bytes } = this;
        let entry = match pending.remove(&header.channel) {
            Some(entry) => {
                proof {
                    lemma_buffered_remove(before, header.channel);
                }
                pending_bytes = pending_bytes - entry.buf.len();
                entry
            },
            None => {
                assert(before.remove(header.channel) =~= before);
                Pending { msg_type: header.msg_type, buf: Vec::new() }
            },
        };
        let ghost rest = before.remove(header.channel);
        assert(by_channel(pending@) =~= rest);
        assert(entry@.bytes =~= so_far(before, header.channel));
        proof {
            lemma_within_limits_remove(before, header.channel);
        }
        if entry.msg_type != header.msg_type {
            *self = Reassembler { pending, pending_bytes };
            return Err(
                DecodeError::InvalidField {
                    context: "oxproto reassembly",
                    field: "type",
                    reason: "chunk type differs from the message in flight on this channel",
                },
            );
        }
        // Grow with the data that actually arrived, never to a declared size.
        let mut buf = entry.buf;
        if let Err(e) = check_len(header.msg_type, buf.len() + payload.len()) {
            *self = Reassembler { pending, pending_bytes };
            return Err(e);
        }
        buf.extend_from_slice(payload);
        assert(buf@ =~= so_far(before, header.channel) + payload@);
        if header.has_more() {
            let entry = Pending { msg_type: header.msg_type, buf };
            pending_bytes = pending_bytes + entry.buf.len();
            let ghost parts = entry@;
            pending.insert(header.channel, entry);
            proof {
                assert(by_channel(pending@) =~= rest.insert(header.channel, parts));
                assert(rest.insert(header.channel, parts) =~= before.insert(
                    header.channel,
                    parts,
                ));
                lemma_buffered_insert(rest, header.channel, parts);
            }
            *self = Reassembler { pending, pending_bytes };
            return Ok(None);
        }
        *self = Reassembler { pending, pending_bytes };
        Ok(Some(Message { msg_type: header.msg_type, payload: buf }))
    }
}

/// The partial messages by channel.
spec fn by_channel(pending: Map<u16, Pending>) -> Map<u16, Parts> {
    pending.map_values(|p: Pending| p@)
}

/// Dropping a channel keeps the limits.
proof fn lemma_within_limits_remove(pending: Map<u16, Parts>, c: u16)
    requires
        pending.dom().finite(),
        within_limits(pending),
    ensures
        pending.remove(c).dom().finite(),
        within_limits(pending.remove(c)),
        pending.remove(c).dom().len() <= pending.dom().len(),
{
    if pending.dom().contains(c) {
        lemma_buffered_remove(pending, c);
    } else {
        assert(pending.remove(c) =~= pending);
    }
    assert forall|d: u16| #[trigger] pending.remove(c).dom().contains(d) implies pending.remove(
        c,
    )[d].bytes.len() <= max_len(pending.remove(c)[d].msg_type) by {
        assert(pending.dom().contains(d));
    }
}

/// What the partial messages never exceed.
pub open spec fn within_limits(pending: Map<u16, Parts>) -> bool {
    &&& pending.dom().len() <= MAX_PENDING_CHANNELS
    &&& buffered(pending) <= MAX_PENDING_BYTES
    &&& forall|c: u16| #[trigger]
        pending.dom().contains(c) ==> pending[c].bytes.len() <= max_len(pending[c].msg_type)
}

fn check_len(msg_type: u8, len: usize) -> (r: DecodeResult<()>)
    ensures
        match r {
            Ok(()) => len <= max_len(msg_type),
            Err(e) => len > max_len(msg_type) && e == too_long(),
        },
{
    if len > max_message_len(msg_type) {
        return Err(
            DecodeError::InvalidLength {
                context: "oxproto reassembly",
                reason: "message exceeds the maximum size for its type",
            },
        );
    }
    Ok(())
}

/// The partial messages after the first `k` chunks of a payload arrived.
pub open spec fn pending_fed(
    pending: Map<u16, Parts>,
    msg_type: u8,
    channel: u16,
    payload: Seq<u8>,
    k: nat,
) -> Map<u16, Parts>
    decreases k,
{
    if k == 0 {
        pending
    } else {
        let i = k - 1;
        pending_after(
            pending_fed(pending, msg_type, channel, payload, i as nat),
            piece_header(msg_type, channel, payload, i),
            piece(payload, i),
        )
    }
}

/// A chunk's header says how long its piece is, and a piece fits a chunk.
proof fn lemma_piece(payload: Seq<u8>, i: int)
    requires
        0 <= i < chunk_count(payload.len()),
    ensures
        0 <= i * MAX_CHUNK_PAYLOAD <= payload.len(),
        piece(payload, i).len() <= MAX_CHUNK_PAYLOAD,
        i + 1 < chunk_count(payload.len()) ==> piece(payload, i).len() == MAX_CHUNK_PAYLOAD,
        i + 1 < chunk_count(payload.len()) ==> (i + 1) * MAX_CHUNK_PAYLOAD < payload.len(),
        payload.subrange(0, i * MAX_CHUNK_PAYLOAD) + piece(payload, i) == (if i + 1 < chunk_count(
            payload.len(),
        ) {
            payload.subrange(0, (i + 1) * MAX_CHUNK_PAYLOAD)
        } else {
            payload
        }),
{
    assert(MAX_CHUNK_PAYLOAD == 32768);
    let whole = payload.subrange(0, i * MAX_CHUNK_PAYLOAD) + piece(payload, i);
    if i + 1 < chunk_count(payload.len()) {
        assert(whole =~= payload.subrange(0, (i + 1) * MAX_CHUNK_PAYLOAD));
    } else {
        assert(whole =~= payload);
    }
}

/// What is pending after the first chunks of a payload, if they all fit.
proof fn lemma_pending_fed(
    pending: Map<u16, Parts>,
    msg_type: u8,
    channel: u16,
    payload: Seq<u8>,
    k: nat,
)
    requires
        pending.dom().finite(),
        !pending.dom().contains(channel),
        payload.len() <= max_len(msg_type),
        chunk_count(payload.len()) > 1 ==> pending.dom().len() < MAX_PENDING_CHANNELS && buffered(
            pending,
        ) + payload.len() <= MAX_PENDING_BYTES,
        k < chunk_count(payload.len()),
    ensures
        ({
            let fed = pending_fed(pending, msg_type, channel, payload, k);
            let bytes = payload.subrange(0, k * MAX_CHUNK_PAYLOAD);
            &&& k == 0 ==> fed == pending
            &&& k > 0 ==> fed == pending.insert(channel, Parts { msg_type, bytes })
            &&& so_far(fed, channel) == bytes
            &&& answer(
                fed,
                piece_header(msg_type, channel, payload, k as int),
                piece(payload, k as int),
            ) == (if k + 1 < chunk_count(payload.len()) {
                Ok::<Option<Parts>, DecodeError>(None)
            } else {
                Ok(Some(Parts { msg_type, bytes: payload }))
            })
        }),
    decreases k,
{
    assert(MAX_CHUNK_PAYLOAD == 32768);
    let fed = pending_fed(pending, msg_type, channel, payload, k);
    let bytes = payload.subrange(0, k * MAX_CHUNK_PAYLOAD);
    let header = piece_header(msg_type, channel, payload, k as int);
    if k > 0 {
        let i = (k - 1) as nat;
        lemma_pending_fed(pending, msg_type, channel, payload, i);
        lemma_piece(payload, i as int);
        let prev = pending_fed(pending, msg_type, channel, payload, i);
        assert(bytes =~= payload.subrange(0, i * MAX_CHUNK_PAYLOAD) + piece(payload, i as int));
        assert(fed =~= pending.insert(channel, Parts { msg_type, bytes }));
        lemma_buffered_insert(pending, channel, Parts { msg_type, bytes });
    } else {
        assert(bytes =~= Seq::<u8>::empty());
    }
    lemma_piece(payload, k as int);
    assert(header.more() <==> k + 1 < chunk_count(payload.len())) by {
        assert(1u8 & 1u8 != 0) by (bit_vector);
        assert(0u8 & 1u8 == 0) by (bit_vector);
    }
}

/// A message that was fragmented comes back whole.
///
/// Every chunk but the last is answered with nothing, the last one with the message, and nothing
/// of the message stays behind. This holds on a channel with no message in flight, for a payload
/// that its type allows, and, if more than one chunk is needed, as long as the totals have room.
pub proof fn law_fragments_reassemble(
    pending: Map<u16, Parts>,
    msg_type: u8,
    channel: u16,
    payload: Seq<u8>,
)
    requires
        pending.dom().finite(),
        !pending.dom().contains(channel),
        payload.len() <= max_len(msg_type),
        chunk_count(payload.len()) > 1 ==> pending.dom().len() < MAX_PENDING_CHANNELS && buffered(
            pending,
        ) + payload.len() <= MAX_PENDING_BYTES,
    ensures
        forall|k: nat|
            k < chunk_count(payload.len()) ==> answer(
                #[trigger] pending_fed(pending, msg_type, channel, payload, k),
                piece_header(msg_type, channel, payload, k as int),
                piece(payload, k as int),
            ) == (if k + 1 < chunk_count(payload.len()) {
                Ok::<Option<Parts>, DecodeError>(None)
            } else {
                Ok(Some(Parts { msg_type, bytes: payload }))
            }),
        pending_fed(pending, msg_type, channel, payload, chunk_count(payload.len())) == pending,
{
    assert forall|k: nat| k < chunk_count(payload.len()) implies answer(
        #[trigger] pending_fed(pending, msg_type, channel, payload, k),
        piece_header(msg_type, channel, payload, k as int),
        piece(payload, k as int),
    ) == (if k + 1 < chunk_count(payload.len()) {
        Ok::<Option<Parts>, DecodeError>(None)
    } else {
        Ok(Some(Parts { msg_type, bytes: payload }))
    }) by {
        lemma_pending_fed(pending, msg_type, channel, payload, k);
    }
    let n = chunk_count(payload.len());
    assert(n >= 1) by {
        assert(MAX_CHUNK_PAYLOAD == 32768);
    }
    let last = (n - 1) as nat;
    lemma_pending_fed(pending, msg_type, channel, payload, last);
    assert(pending_fed(pending, msg_type, channel, payload, n) =~= pending);
}

/// A chunk's bytes decode to its header, and the header is followed by exactly its piece.
pub proof fn law_chunks_decode(msg_type: u8, channel: u16, payload: Seq<u8>, i: int)
    requires
        0 <= i < chunk_count(payload.len()),
    ensures
        ({
            let bytes = chunk(msg_type, channel, payload, i);
            let header = piece_header(msg_type, channel, payload, i);
            &&& ChunkHeader::parse(bytes, 0) == Ok::<(ChunkHeader, int), DecodeError>(
                (header, CHUNK_HEADER_LEN as int),
            )
            &&& bytes.len() == CHUNK_HEADER_LEN + header.length
            &&& bytes.subrange(CHUNK_HEADER_LEN as int, bytes.len() as int) == piece(payload, i)
        }),
{
    broadcast use pdu::group_lens;

    lemma_piece(payload, i);
    let header = piece_header(msg_type, channel, payload, i);
    assert(1u8 & 1u8 == 1 && 0u8 & 1u8 == 0) by (bit_vector);
    pdu::law_decode_inverts_encode::<ChunkHeader>(header, piece(payload, i));
    let bytes = chunk(msg_type, channel, payload, i);
    assert(bytes.subrange(CHUNK_HEADER_LEN as int, bytes.len() as int) =~= piece(payload, i));
}

/// Undefined flag bits are ignored: whatever else a header's flags hold, what is read of them is
/// the bits that are defined.
pub proof fn law_reserved_flags_are_ignored(v: ChunkHeader, rest: Seq<u8>)
    requires
        v.length <= MAX_CHUNK_PAYLOAD,
    ensures
        ChunkHeader::parse(ChunkHeader::wire(v) + rest, 0) == Ok::<(ChunkHeader, int), DecodeError>(
            (
                ChunkHeader { flags: v.flags & chunk_flags::KNOWN, ..v },
                CHUNK_HEADER_LEN as int,
            ),
        ),
{
    broadcast use pdu::group_fields;

    let b = ChunkHeader::wire(v) + rest;
    assert(b.subrange(0, CHUNK_HEADER_LEN as int) =~= ChunkHeader::wire(v));
    assert(pdu::at(b, 0, ChunkHeader::wire(v)));
}

/// A chunk touches no channel but its own.
pub proof fn law_channels_are_independent(
    pending: Map<u16, Parts>,
    header: ChunkHeader,
    payload: Seq<u8>,
)
    ensures
        pending_after(pending, header, payload).remove(header.channel) == pending.remove(
            header.channel,
        ),
{
    assert(pending_after(pending, header, payload).remove(header.channel) =~= pending.remove(
        header.channel,
    ));
}

/// Whatever a peer sends, the partial messages stay within their limits.
pub proof fn law_limits_hold(pending: Map<u16, Parts>, header: ChunkHeader, payload: Seq<u8>)
    requires
        pending.dom().finite(),
        within_limits(pending),
    ensures
        pending_after(pending, header, payload).dom().finite(),
        within_limits(pending_after(pending, header, payload)),
{
    let c = header.channel;
    lemma_within_limits_remove(pending, c);
    if answer(pending, header, payload) matches Ok(None) {
        let parts = Parts { msg_type: header.msg_type, bytes: so_far(pending, c) + payload };
        let rest = pending.remove(c);
        lemma_buffered_insert(rest, c, parts);
        assert(rest.insert(c, parts) =~= pending.insert(c, parts));
        if pending.dom().contains(c) {
            lemma_buffered_remove(pending, c);
        } else {
            assert(rest =~= pending);
        }
        let after = pending_after(pending, header, payload);
        assert forall|d: u16| #[trigger] after.dom().contains(d) implies after[d].bytes.len()
            <= max_len(after[d].msg_type) by {
            if d != c {
                assert(pending.dom().contains(d));
            }
        }
    }
}

/// The partial messages after some chunks arrived, one after the other.
pub open spec fn pending_after_all(
    pending: Map<u16, Parts>,
    chunks: Seq<(ChunkHeader, Seq<u8>)>,
) -> Map<u16, Parts>
    decreases chunks.len(),
{
    if chunks.len() == 0 {
        pending
    } else {
        let (header, payload) = chunks.last();
        pending_after(pending_after_all(pending, chunks.drop_last()), header, payload)
    }
}

/// Whatever a new reassembler is fed, refused chunks included, it stays within its limits: so many
/// channels, so many bytes over all of them and, on each, no more than its message's type allows.
/// With no message in flight, nothing is buffered.
pub proof fn law_limits_always_hold(chunks: Seq<(ChunkHeader, Seq<u8>)>)
    ensures
        ({
            let pending = pending_after_all(Map::empty(), chunks);
            &&& pending.dom().finite()
            &&& within_limits(pending)
            &&& pending.dom().len() == 0 ==> buffered(pending) == 0
            &&& forall|c: u16| #[trigger]
                pending.dom().contains(c) ==> pending[c].bytes.len() <= buffered(pending)
        }),
    decreases chunks.len(),
{
    let pending = pending_after_all(Map::empty(), chunks);
    if chunks.len() == 0 {
        assert(pending.dom() =~= Set::empty());
    } else {
        let (header, payload) = chunks.last();
        law_limits_always_hold(chunks.drop_last());
        law_limits_hold(pending_after_all(Map::empty(), chunks.drop_last()), header, payload);
    }
    assert forall|c: u16| #[trigger] pending.dom().contains(c) implies pending[c].bytes.len()
        <= buffered(pending) by {
        lemma_buffered_remove(pending, c);
    }
}

/// A message to be sent: its type, its channel and its body.
pub struct Outgoing {
    /// Message type code.
    pub msg_type: u8,
    /// Channel it rides on.
    pub channel: u16,
    /// The body.
    pub payload: Seq<u8>,
}

impl Outgoing {
    /// How many chunks it takes.
    pub open spec fn chunks(self) -> nat {
        chunk_count(self.payload.len())
    }

    /// Its chunk `i`.
    pub open spec fn at(self, i: int) -> (ChunkHeader, Seq<u8>) {
        (
            piece_header(self.msg_type, self.channel, self.payload, i),
            piece(self.payload, i),
        )
    }

    /// What its chunk `i` is answered with when all goes well: the message at the last one, and
    /// nothing before that.
    pub open spec fn answer_at(self, i: int) -> DecodeResult<Option<Parts>> {
        if i + 1 < self.chunks() {
            Ok(None)
        } else {
            Ok(Some(Parts { msg_type: self.msg_type, bytes: self.payload }))
        }
    }

    /// What is pending beside `others` once its first `i` chunks arrived.
    spec fn beside(self, others: Map<u16, Parts>, i: int) -> Map<u16, Parts> {
        if 0 < i < self.chunks() {
            others.insert(
                self.channel,
                Parts {
                    msg_type: self.msg_type,
                    bytes: self.payload.subrange(0, i * MAX_CHUNK_PAYLOAD),
                },
            )
        } else {
            others
        }
    }
}

/// How many of some turns are the first sender's.
pub open spec fn turns_of_first(turns: Seq<bool>) -> nat
    decreases turns.len(),
{
    if turns.len() == 0 {
        0
    } else {
        turns_of_first(turns.drop_last()) + if turns.last() {
            1nat
        } else {
            0
        }
    }
}

/// The chunk sent at turn `j` when two messages are sent by turns, each in its own order: `true` is
/// the first one's turn.
pub open spec fn woven_chunk(a: Outgoing, b: Outgoing, turns: Seq<bool>, j: int) -> (
    ChunkHeader,
    Seq<u8>,
) {
    let mine = turns_of_first(turns.take(j)) as int;
    if turns[j] {
        a.at(mine)
    } else {
        b.at(j - mine)
    }
}

/// The chunks of two messages that are sent by turns.
pub open spec fn woven(a: Outgoing, b: Outgoing, turns: Seq<bool>) -> Seq<(ChunkHeader, Seq<u8>)> {
    Seq::new(turns.len(), |j: int| woven_chunk(a, b, turns, j))
}

/// The chunks of the first turns are the first chunks.
proof fn lemma_woven_take(a: Outgoing, b: Outgoing, turns: Seq<bool>, j: int)
    requires
        0 <= j <= turns.len(),
    ensures
        woven(a, b, turns).take(j) == woven(a, b, turns.take(j)),
{
    let fewer = turns.take(j);
    assert forall|i: int| 0 <= i < j implies woven(a, b, turns).take(j)[i] == woven(
        a,
        b,
        fewer,
    )[i] by {
        assert(turns.take(i) =~= fewer.take(i));
    }
    assert(woven(a, b, turns).take(j) =~= woven(a, b, fewer));
}

/// A sender has no more turns in fewer turns, and what is not the first one's is the other's.
proof fn lemma_turns(turns: Seq<bool>, j: int)
    requires
        0 <= j <= turns.len(),
    ensures
        turns_of_first(turns.take(j)) <= turns_of_first(turns),
        j - turns_of_first(turns.take(j)) <= turns.len() - turns_of_first(turns),
        turns_of_first(turns.take(j)) <= j,
        j < turns.len() && turns[j] ==> turns_of_first(turns.take(j)) < turns_of_first(turns),
        j < turns.len() && !turns[j] ==> j - turns_of_first(turns.take(j)) < turns.len()
            - turns_of_first(turns),
    decreases turns.len(),
{
    if turns.len() == j {
        assert(turns.take(j) =~= turns);
        if j > 0 {
            lemma_turns(turns.drop_last(), j - 1);
            assert(turns.drop_last().take(j - 1) =~= turns.drop_last());
        }
    } else {
        let fewer = turns.drop_last();
        lemma_turns(fewer, j);
        assert(fewer.take(j) =~= turns.take(j));
        if j < fewer.len() {
            assert(fewer[j] == turns[j]);
        } else {
            assert(fewer.take(j) =~= fewer);
        }
    }
}

/// One chunk of a message arrives where only another channel may be in flight.
proof fn lemma_beside(m: Outgoing, others: Map<u16, Parts>, i: int)
    requires
        others.dom().finite(),
        !others.dom().contains(m.channel),
        others.dom().len() < MAX_PENDING_CHANNELS,
        buffered(others) + m.payload.len() <= MAX_PENDING_BYTES,
        m.payload.len() <= max_len(m.msg_type),
        0 <= i < m.chunks(),
    ensures
        answer(m.beside(others, i), m.at(i).0, m.at(i).1) == m.answer_at(i),
        pending_after(m.beside(others, i), m.at(i).0, m.at(i).1) == m.beside(others, i + 1),
{
    let (kind, on, body) = (m.msg_type, m.channel, m.payload);
    lemma_pending_fed(others, kind, on, body, i as nat);
    assert(m.beside(others, i) == pending_fed(others, kind, on, body, i as nat));
    if i + 1 < m.chunks() {
        lemma_pending_fed(others, kind, on, body, (i + 1) as nat);
    } else {
        law_fragments_reassemble(others, kind, on, body);
    }
    assert(pending_fed(others, kind, on, body, (i + 1) as nat) == pending_after(
        pending_fed(others, kind, on, body, i as nat),
        m.at(i).0,
        m.at(i).1,
    ));
}

/// What is pending of two messages of which some chunks arrived.
spec fn both(a: Outgoing, b: Outgoing, i: int, k: int) -> Map<u16, Parts> {
    a.beside(b.beside(Map::empty(), k), i)
}

/// What is pending of one message alone.
proof fn lemma_alone(m: Outgoing, i: int)
    requires
        m.payload.len() <= max_len(m.msg_type),
    ensures
        m.beside(Map::empty(), i).dom().finite(),
        m.beside(Map::empty(), i).dom().len() <= 1,
        buffered(m.beside(Map::empty(), i)) <= m.payload.len(),
        forall|c: u16|
            c != m.channel ==> !(#[trigger] m.beside(Map::empty(), i).dom().contains(c)),
{
    let none = Map::<u16, Parts>::empty();
    assert(none.dom() =~= Set::empty());
    assert(MAX_CHUNK_PAYLOAD == 32768);
    if 0 < i < m.chunks() {
        lemma_piece(m.payload, i);
        lemma_buffered_insert(
            none,
            m.channel,
            Parts {
                msg_type: m.msg_type,
                bytes: m.payload.subrange(0, i * MAX_CHUNK_PAYLOAD),
            },
        );
    }
}

/// Where a new reassembler stands after some turns, and what the next chunk is answered with.
proof fn lemma_woven(a: Outgoing, b: Outgoing, turns: Seq<bool>)
    requires
        a.channel != b.channel,
        a.payload.len() <= max_len(a.msg_type),
        b.payload.len() <= max_len(b.msg_type),
        turns_of_first(turns) <= a.chunks(),
        turns.len() - turns_of_first(turns) <= b.chunks(),
    ensures
        ({
            let i = turns_of_first(turns) as int;
            let k = turns.len() - i;
            let pending = pending_after_all(Map::empty(), woven(a, b, turns));
            &&& pending == both(a, b, i, k)
            &&& i < a.chunks() ==> answer(pending, a.at(i).0, a.at(i).1) == a.answer_at(i)
            &&& k < b.chunks() ==> answer(pending, b.at(k).0, b.at(k).1) == b.answer_at(k)
            &&& i < a.chunks() ==> pending_after(pending, a.at(i).0, a.at(i).1) == both(
                a,
                b,
                i + 1,
                k,
            )
            &&& k < b.chunks() ==> pending_after(pending, b.at(k).0, b.at(k).1) == both(
                a,
                b,
                i,
                k + 1,
            )
        }),
    decreases turns.len(),
{
    let none = Map::<u16, Parts>::empty();
    let i = turns_of_first(turns) as int;
    let k = turns.len() - i;
    let all = woven(a, b, turns);
    let pending = pending_after_all(none, all);
    if turns.len() == 0 {
        assert(both(a, b, 0, 0) == none);
    } else {
        let last = turns.len() - 1;
        let fewer = turns.drop_last();
        assert(fewer =~= turns.take(last));
        lemma_turns(turns, last);
        lemma_woven(a, b, fewer);
        lemma_woven_take(a, b, turns, last);
        assert(all.drop_last() =~= all.take(last));
        assert(all.last() == woven_chunk(a, b, turns, last));
    }
    assert(pending == both(a, b, i, k));
    lemma_alone(a, i);
    lemma_alone(b, k);
    let beside_b = b.beside(none, k);
    let beside_a = a.beside(none, i);
    assert(both(a, b, i, k) =~= b.beside(beside_a, k));
    assert(both(a, b, i, k + 1) =~= b.beside(beside_a, k + 1));
    if i < a.chunks() {
        lemma_beside(a, beside_b, i);
    }
    if k < b.chunks() {
        lemma_beside(b, beside_a, k);
    }
}

/// Two messages on two channels both arrive, in whatever order their chunks are interleaved: each
/// last chunk is answered with its own message and every other one with nothing, and at the end
/// nothing is in flight.
pub proof fn law_interleaved_messages_both_arrive(a: Outgoing, b: Outgoing, turns: Seq<bool>)
    requires
        a.channel != b.channel,
        a.payload.len() <= max_len(a.msg_type),
        b.payload.len() <= max_len(b.msg_type),
        turns_of_first(turns) == a.chunks(),
        turns.len() == a.chunks() + b.chunks(),
    ensures
        ({
            let chunks = woven(a, b, turns);
            &&& forall|j: int|
                0 <= j < turns.len() ==> {
                    let mine = turns_of_first(turns.take(j)) as int;
                    answer(
                        pending_after_all(Map::empty(), chunks.take(j)),
                        #[trigger] chunks[j].0,
                        chunks[j].1,
                    ) == (if turns[j] {
                        a.answer_at(mine)
                    } else {
                        b.answer_at(j - mine)
                    })
                }
            &&& pending_after_all(Map::empty(), chunks) == Map::<u16, Parts>::empty()
            &&& buffered(pending_after_all(Map::empty(), chunks)) == 0
        }),
{
    let chunks = woven(a, b, turns);
    assert forall|j: int| 0 <= j < turns.len() implies ({
        let mine = turns_of_first(turns.take(j)) as int;
        answer(
            pending_after_all(Map::empty(), chunks.take(j)),
            #[trigger] chunks[j].0,
            chunks[j].1,
        ) == (if turns[j] {
            a.answer_at(mine)
        } else {
            b.answer_at(j - mine)
        })
    }) by {
        lemma_turns(turns, j);
        lemma_woven_take(a, b, turns, j);
        lemma_woven(a, b, turns.take(j));
    }
    lemma_woven(a, b, turns);
    assert(Map::<u16, Parts>::empty().dom() =~= Set::empty());
}

/// How large a message of each type may be, in bytes: 32 MiB for a frame, 1 MiB for an icon, 256 KiB
/// for a cursor, 8 KiB for a title, an announcement, a layout or an error, and 4 KiB for all else.
pub proof fn law_types_have_their_limits(msg_type: u8, r: usize)
    requires
        call_ensures(max_message_len, (msg_type,), r),
    ensures
        msg_type == msg_type::FRAME_DATA ==> r == 33_554_432,
        msg_type == msg_type::WINDOW_ICON ==> r == 1_048_576,
        msg_type == msg_type::CURSOR_SHAPE ==> r == 262_144,
        msg_type == msg_type::WINDOW_TITLE || msg_type == msg_type::WINDOW_OPENED || msg_type
            == msg_type::DISPLAY_LAYOUT || msg_type == msg_type::ERROR ==> r == 8_192,
        r == 33_554_432 ==> msg_type == msg_type::FRAME_DATA,
        r == 1_048_576 ==> msg_type == msg_type::WINDOW_ICON,
        r == 262_144 ==> msg_type == msg_type::CURSOR_SHAPE,
        r == 33_554_432 || r == 1_048_576 || r == 262_144 || r == 8_192 || r == 4_096,
        r == 8_192 ==> msg_type == msg_type::WINDOW_TITLE || msg_type == msg_type::WINDOW_OPENED
            || msg_type == msg_type::DISPLAY_LAYOUT || msg_type == msg_type::ERROR,
{
}

/// A chunk is taken exactly when its payload is as long as its header says, it goes on with the
/// message that is in flight on its channel, and the message stays within the limit of its type; and,
/// where bytes have to be kept back for it, as long as no more than 64 channels and no more than
/// 64 MiB are. What is taken is put behind what came before: it is the message once no chunk is to
/// follow, and is kept back until then. No other channel is touched.
pub proof fn law_chunks_are_taken_within_the_limits(
    header: ChunkHeader,
    payload: &[u8],
    limit: usize,
)
    requires
        call_ensures(max_message_len, (header.msg_type,), limit),
    ensures
        forall|p: &mut Reassembler, r: DecodeResult<Option<Message>>| #[trigger]
            call_ensures(Reassembler::push, (p, &header, payload), r) ==> {
                let pending = (*p)@;
                let c = header.channel;
                let in_flight = pending.contains_key(c);
                let more = header.flags & 1 != 0;
                let bytes = (if in_flight {
                    pending[c].bytes
                } else {
                    Seq::empty()
                }) + payload@;
                let fits = payload@.len() == header.length && bytes.len() <= limit && (in_flight
                    ==> pending[c].msg_type == header.msg_type) && (in_flight || more ==> (in_flight
                    || pending.dom().len() < 64) && buffered(pending) + payload@.len()
                    <= 67_108_864);
                &&& r is Ok <==> fits
                &&& r is Ok && more ==> {
                    &&& r->Ok_0 is None
                    &&& final(p)@.contains_key(c)
                    &&& final(p)@[c].bytes == bytes
                    &&& final(p)@[c].msg_type == header.msg_type
                }
                &&& r is Ok && !more ==> {
                    &&& r matches Ok(Some(m))
                    &&& m.msg_type == header.msg_type
                    &&& m.payload@ == bytes
                    &&& !final(p)@.contains_key(c)
                }
                &&& final(p)@.remove(c) == pending.remove(c)
            },
{
    assert forall|p: &mut Reassembler, r: DecodeResult<Option<Message>>| #[trigger]
        call_ensures(Reassembler::push, (p, &header, payload), r) implies final(p)@.remove(
        header.channel,
    ) == (*p)@.remove(header.channel) by {
        law_channels_are_independent((*p)@, header, payload@);
    }
}

/// A chunk that is refused changes nothing, unless what it was refused for is the message itself: one
/// that changes its type or outgrows its limit is given up, and its channel is free again. An
/// outgrown message is refused by name.
pub proof fn law_refused_messages_are_given_up(header: ChunkHeader, payload: &[u8], limit: usize)
    requires
        call_ensures(max_message_len, (header.msg_type,), limit),
    ensures
        forall|p: &mut Reassembler, r: DecodeResult<Option<Message>>| #[trigger]
            call_ensures(Reassembler::push, (p, &header, payload), r) ==> {
                let pending = (*p)@;
                let c = header.channel;
                &&& r is Err ==> final(p)@ == pending || final(p)@ == pending.remove(c)
                &&& r is Err && payload@.len() != header.length ==> final(p)@ == pending
                &&& pending.contains_key(c) && payload@.len() == header.length && buffered(pending)
                    + payload@.len() <= 67_108_864 ==> {
                    &&& pending[c].msg_type != header.msg_type ==> r is Err && final(p)@
                        == pending.remove(c)
                    &&& pending[c].msg_type == header.msg_type && pending[c].bytes.len()
                        + payload@.len() > limit ==> r == Err::<Option<Message>, _>(
                        DecodeError::InvalidLength {
                            context: "oxproto reassembly",
                            reason: "message exceeds the maximum size for its type",
                        },
                    ) && final(p)@ == pending.remove(c)
                }
            },
{
}

/// What is pending after chunks of a message that is too long, as far as it is not yet.
proof fn lemma_fed_within(
    pending: Map<u16, Parts>,
    msg_type: u8,
    channel: u16,
    payload: Seq<u8>,
    k: nat,
)
    requires
        pending.dom().finite(),
        !pending.dom().contains(channel),
        pending.dom().len() < MAX_PENDING_CHANNELS,
        buffered(pending) + payload.len() <= MAX_PENDING_BYTES,
        k < chunk_count(payload.len()),
        k * MAX_CHUNK_PAYLOAD <= max_len(msg_type),
    ensures
        ({
            let fed = pending_fed(pending, msg_type, channel, payload, k);
            let bytes = payload.subrange(0, k * MAX_CHUNK_PAYLOAD);
            let header = piece_header(msg_type, channel, payload, k as int);
            let part = piece(payload, k as int);
            &&& k == 0 ==> fed == pending
            &&& k > 0 ==> fed == pending.insert(channel, Parts { msg_type, bytes })
            &&& bytes.len() + part.len() > max_len(msg_type) ==> answer(fed, header, part) == Err::<
                Option<Parts>,
                _,
            >(too_long())
            &&& bytes.len() + part.len() <= max_len(msg_type) && k + 1 < chunk_count(payload.len())
                ==> answer(fed, header, part) == Ok::<Option<Parts>, DecodeError>(None)
        }),
    decreases k,
{
    assert(MAX_CHUNK_PAYLOAD == 32768);
    let fed = pending_fed(pending, msg_type, channel, payload, k);
    let bytes = payload.subrange(0, k * MAX_CHUNK_PAYLOAD);
    let header = piece_header(msg_type, channel, payload, k as int);
    if k > 0 {
        let i = (k - 1) as nat;
        lemma_fed_within(pending, msg_type, channel, payload, i);
        lemma_piece(payload, i as int);
        assert(bytes =~= payload.subrange(0, i * MAX_CHUNK_PAYLOAD) + piece(payload, i as int));
        assert(fed =~= pending.insert(channel, Parts { msg_type, bytes }));
        lemma_buffered_insert(pending, channel, Parts { msg_type, bytes });
    } else {
        assert(bytes =~= Seq::<u8>::empty());
    }
    lemma_piece(payload, k as int);
    assert(header.more() <==> k + 1 < chunk_count(payload.len())) by {
        assert(1u8 & 1u8 != 0) by (bit_vector);
        assert(0u8 & 1u8 == 0) by (bit_vector);
    }
}

/// A message of any type arrives whole, chunk by chunk, up to the limit of its type, and not a byte
/// beyond it: a frame of up to 32 MiB, an icon of up to 1 MiB, a cursor of up to 256 KiB, a title, an
/// announcement, a layout or an error of up to 8 KiB, anything else of up to 4 KiB. A longer one is
/// refused at the chunk that passes the limit, and nothing was answered before that.
///
/// This holds on a channel with no message in flight, with fewer than 64 channels in use and room for
/// the message within the 64 MiB that may be kept back.
pub proof fn law_messages_arrive_up_to_their_limit(
    pending: Map<u16, Parts>,
    msg_type: u8,
    channel: u16,
    payload: Seq<u8>,
)
    requires
        pending.dom().finite(),
        !pending.dom().contains(channel),
        pending.dom().len() < 64,
        buffered(pending) + payload.len() <= 67_108_864,
    ensures
        ({
            let limit: int = if msg_type == msg_type::FRAME_DATA {
                33_554_432
            } else if msg_type == msg_type::WINDOW_ICON {
                1_048_576
            } else if msg_type == msg_type::CURSOR_SHAPE {
                262_144
            } else if msg_type == msg_type::WINDOW_TITLE || msg_type == msg_type::WINDOW_OPENED
                || msg_type == msg_type::DISPLAY_LAYOUT || msg_type == msg_type::ERROR {
                8_192
            } else {
                4_096
            };
            let n = chunk_count(payload.len());
            let answer_to = |k: int|
                answer(
                    pending_fed(pending, msg_type, channel, payload, k as nat),
                    piece_header(msg_type, channel, payload, k),
                    piece(payload, k),
                );
            &&& payload.len() <= limit ==> {
                &&& forall|k: int|
                    0 <= k < n - 1 ==> #[trigger] answer_to(k) == Ok::<Option<Parts>, DecodeError>(
                        None,
                    )
                &&& answer_to(n - 1) == Ok::<_, DecodeError>(Some(Parts { msg_type, bytes: payload }))
                &&& pending_fed(pending, msg_type, channel, payload, n) == pending
            }
            &&& payload.len() > limit ==> {
                let k = limit / 32_768;
                &&& k < n
                &&& forall|j: int|
                    0 <= j < k ==> #[trigger] answer_to(j) == Ok::<Option<Parts>, DecodeError>(None)
                &&& answer_to(k) == Err::<Option<Parts>, _>(
                    DecodeError::InvalidLength {
                        context: "oxproto reassembly",
                        reason: "message exceeds the maximum size for its type",
                    },
                )
            }
        }),
{
    assert(MAX_CHUNK_PAYLOAD == 32768);
    let limit = max_len(msg_type) as int;
    let n = chunk_count(payload.len());
    let answer_to = |k: int|
        answer(
            pending_fed(pending, msg_type, channel, payload, k as nat),
            piece_header(msg_type, channel, payload, k),
            piece(payload, k),
        );
    if payload.len() <= limit {
        law_fragments_reassemble(pending, msg_type, channel, payload);
        assert forall|k: int| 0 <= k < n - 1 implies #[trigger] answer_to(k) == Ok::<
            Option<Parts>,
            DecodeError,
        >(None) by {
            lemma_pending_fed(pending, msg_type, channel, payload, k as nat);
        }
        lemma_pending_fed(pending, msg_type, channel, payload, (n - 1) as nat);
    } else {
        let k = limit / 32_768;
        assert(k * 32_768 <= limit < (k + 1) * 32_768);
        assert(k < n);
        assert forall|j: int| 0 <= j < k implies #[trigger] answer_to(j) == Ok::<
            Option<Parts>,
            DecodeError,
        >(None) by {
            lemma_fed_within(pending, msg_type, channel, payload, j as nat);
            lemma_piece(payload, j);
        }
        lemma_fed_within(pending, msg_type, channel, payload, k as nat);
        lemma_piece(payload, k);
    }
}

/// A message is cut into pieces of 32 KiB, the last of which may be shorter: there is one at least,
/// one behind the other they are the message again, and every chunk but the last says that more
/// follow. Every chunk carries the message's type and channel, and says how long its piece is.
pub proof fn law_messages_are_cut_into_chunks(
    msg_type: u8,
    channel: u16,
    payload: Seq<u8>,
    i: int,
)
    requires
        0 <= i < chunk_count(payload.len()),
    ensures
        ({
            let n = chunk_count(payload.len());
            let header = piece_header(msg_type, channel, payload, i);
            let part = piece(payload, i);
            &&& n >= 1
            &&& (n - 1) * 32_768 < payload.len() || payload.len() == 0
            &&& payload.len() <= n * 32_768
            &&& i < n - 1 ==> part.len() == 32_768 && part == payload.subrange(
                i * 32_768,
                i * 32_768 + 32_768,
            )
            &&& i == n - 1 ==> part == payload.subrange(i * 32_768, payload.len() as int)
            &&& header.msg_type == msg_type && header.channel == channel
            &&& header.length == part.len()
            &&& header.flags == (if i < n - 1 {
                1u8
            } else {
                0u8
            })
            &&& chunk(msg_type, channel, payload, i).len() == 8 + part.len()
        }),
{
    broadcast use pdu::group_lens;

    assert(MAX_CHUNK_PAYLOAD == 32768);
    lemma_piece(payload, i);
}

/// What is counted as in flight is what is: a channel for each message that has begun, and the bytes
/// that came for it. A chunk says with its lowest flag whether more follow.
pub proof fn law_counts_follow_the_chunks(
    header: &ChunkHeader,
    more: bool,
    fresh: Reassembler,
    channels: usize,
    bytes: usize,
)
    requires
        call_ensures(ChunkHeader::has_more, (header,), more),
        call_ensures(Reassembler::new, (), fresh),
        call_ensures(Reassembler::pending_channels, (&fresh,), channels),
        call_ensures(Reassembler::pending_bytes, (&fresh,), bytes),
    ensures
        more <==> header.flags % 2 == 1,
        channels == 0 && bytes == 0,
        forall|p: &Reassembler, n: usize| #[trigger]
            call_ensures(Reassembler::pending_channels, (p,), n) ==> n <= 64 && n == p@.dom().len(),
        forall|p: &Reassembler, n: usize| #[trigger]
            call_ensures(Reassembler::pending_bytes, (p,), n) ==> n <= 67_108_864 && n == buffered(
                p@,
            ),
{
    let flags = header.flags;
    assert(flags & 1 != 0 <==> flags % 2 == 1) by (bit_vector);
    assert(fresh@.dom() =~= Set::empty());
}

} // verus!
