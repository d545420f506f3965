//! The byte stream to the agent, as messages.
//!
//! A [`Link`] does no I/O. Whoever owns the stream hands it the bytes that arrived and writes
//! out the bytes it wants sent, in whatever pieces the stream takes them. All progress is held
//! here, so a read or a write that is interrupted part-way loses nothing and the next one resumes
//! where it stopped.

use vstd::prelude::*;

use crate::proto::channel;
use crate::proto::envelope;
use crate::proto::envelope::{ChunkHeader, Parts, Reassembler, CHUNK_HEADER_LEN};
use crate::proto::message;
use crate::proto::message::{Message, MessageView};
use crate::proto::pdu;
use crate::proto::pdu::{DecodeError, DecodeResult, EncodeError, EncodeResult};

verus! {

/// What stands at the front of the bytes that arrived.
pub enum Front {
    /// Not yet a whole chunk.
    Incomplete,
    /// A header that cannot be one.
    Bad(DecodeError),
    /// A chunk.
    Chunk {
        /// Its header.
        header: ChunkHeader,
        /// Its payload.
        payload: Seq<u8>,
        /// What follows it.
        rest: Seq<u8>,
    },
}

/// What stands at the front of the bytes that arrived.
pub open spec fn front(bytes: Seq<u8>) -> Front {
    if bytes.len() < CHUNK_HEADER_LEN {
        Front::Incomplete
    } else {
        match <ChunkHeader as pdu::Decode>::parse(bytes, 0) {
            Err(e) => Front::Bad(e),
            Ok((header, _)) => {
                let end = CHUNK_HEADER_LEN + header.length;
                if bytes.len() < end {
                    Front::Incomplete
                } else {
                    Front::Chunk {
                        header,
                        payload: bytes.subrange(CHUNK_HEADER_LEN as int, end),
                        rest: bytes.subrange(end, bytes.len() as int),
                    }
                }
            },
        }
    }
}

/// Bytes that arrived and have not been consumed.
#[derive(Debug)]
struct Inbound {
    buf: Vec<u8>,
    read: usize,
}

impl View for Inbound {
    type V = Seq<u8>;

    closed spec fn view(&self) -> Seq<u8> {
        self.buf@.subrange(self.read as int, self.buf@.len() as int)
    }
}

impl Inbound {
    #[verifier::type_invariant]
    spec fn inv(self) -> bool {
        self.read <= self.buf@.len()
    }

    fn new() -> (r: Self)
        ensures
            r@ == Seq::<u8>::empty(),
    {
        let r = Inbound { buf: Vec::new(), read: 0 };
        assert(r@ =~= Seq::<u8>::empty());
        r
    }

    fn push(&mut self, bytes: &[u8])
        ensures
            final(self)@ == old(self)@ + bytes@,
    {
        proof {
            use_type_invariant(&*self);
        }
        // Consumed bytes are let go of before more are kept.
        let mut buf = pdu::copy_bytes(
            vstd::slice::slice_subrange(self.buf.as_slice(), self.read, self.buf.len()),
        );
        buf.extend_from_slice(bytes);
        assert(buf@ =~= self@ + bytes@);
        *self = Inbound { buf, read: 0 };
        assert(self@ =~= buf@);
    }

    /// Takes the chunk at the front, if it is there.
    fn take(&mut self) -> (r: DecodeResult<Option<(ChunkHeader, Vec<u8>)>>)
        ensures
            match front(old(self)@) {
                Front::Incomplete => r matches Ok(None) && final(self)@ == old(self)@,
                Front::Bad(e) => r == Err::<Option<(ChunkHeader, Vec<u8>)>, _>(e) && final(self)@
                    == old(self)@,
                Front::Chunk { header, payload, rest } => {
                    &&& r matches Ok(Some(taken))
                    &&& taken.0 == header
                    &&& taken.1@ == payload
                    &&& final(self)@ == rest
                },
            },
    {
        proof {
            use_type_invariant(&*self);
        }
        let ghost bytes = self@;
        let available: usize = self.buf.len() - self.read;
        if available < CHUNK_HEADER_LEN {
            return Ok(None);
        }
        let rest = vstd::slice::slice_subrange(self.buf.as_slice(), self.read, self.buf.len());
        assert(rest@ =~= bytes);
        let header: ChunkHeader = pdu::decode(rest)?;
        if available - CHUNK_HEADER_LEN < header.length as usize {
            return Ok(None);
        }
        let end: usize = CHUNK_HEADER_LEN + header.length as usize;
        let payload = pdu::copy_bytes(vstd::slice::slice_subrange(rest, CHUNK_HEADER_LEN, end));
        self.read = self.read + end;
        assert(self@ =~= bytes.subrange(end as int, bytes.len() as int));
        Ok(Some((header, payload)))
    }
}

/// Bytes to send, of which some may have gone out already.
#[derive(Debug)]
struct Outbound {
    buf: Vec<u8>,
    written: usize,
}

impl View for Outbound {
    type V = Seq<u8>;

    closed spec fn view(&self) -> Seq<u8> {
        self.buf@.subrange(self.written as int, self.buf@.len() as int)
    }
}

impl Outbound {
    #[verifier::type_invariant]
    spec fn inv(self) -> bool {
        self.written <= self.buf@.len()
    }

    fn new() -> (r: Self)
        ensures
            r@ == Seq::<u8>::empty(),
    {
        let r = Outbound { buf: Vec::new(), written: 0 };
        assert(r@ =~= Seq::<u8>::empty());
        r
    }

    fn push(&mut self, bytes: &[u8])
        ensures
            final(self)@ == old(self)@ + bytes@,
    {
        proof {
            use_type_invariant(&*self);
        }
        let mut this = Outbound::new();
        std::mem::swap(self, &mut this);
        let Outbound { mut buf, written } = this;
        buf.extend_from_slice(bytes);
        *self = Outbound { buf, written };
        assert(self@ =~= old(self)@ + bytes@);
    }

    fn unsent(&self) -> (r: &[u8])
        ensures
            r@ == self@,
    {
        proof {
            use_type_invariant(self);
        }
        vstd::slice::slice_subrange(self.buf.as_slice(), self.written, self.buf.len())
    }

    fn on_written(&mut self, n: usize)
        requires
            n <= old(self)@.len(),
        ensures
            final(self)@ == old(self)@.skip(n as int),
    {
        proof {
            use_type_invariant(&*self);
        }
        let len: usize = self.buf.len();
        assert(self.written + n <= len);
        self.written = self.written + n;
        if self.written == self.buf.len() {
            *self = Outbound::new();
        }
        assert(self@ =~= old(self)@.skip(n as int));
    }
}

/// The bytes of the first `n` chunks of a message.
pub open spec fn framed_to(msg_type: u8, channel: u16, payload: Seq<u8>, n: nat) -> Seq<u8>
    decreases n,
{
    if n == 0 {
        Seq::empty()
    } else {
        framed_to(msg_type, channel, payload, (n - 1) as nat) + envelope::chunk(
            msg_type,
            channel,
            payload,
            n - 1,
        )
    }
}

/// The bytes of a message on the wire, where frames ride on `video_channel`.
pub open spec fn framed_on(m: MessageView, video_channel: u16) -> Seq<u8> {
    framed_to(
        m.type_code(),
        m.rides_on(video_channel),
        m.body(),
        envelope::chunk_count(m.body().len()),
    )
}

/// The bytes of a message that the client sends. Only frames would ride on a video channel, and
/// the client sends none.
pub open spec fn framed(m: MessageView) -> Seq<u8> {
    framed_on(m, channel::CONTROL)
}

/// Some chunks, one behind the other.
pub open spec fn concatenated(chunks: Seq<Vec<u8>>) -> Seq<u8>
    decreases chunks.len(),
{
    if chunks.len() == 0 {
        Seq::empty()
    } else {
        concatenated(chunks.drop_last()) + chunks.last()@
    }
}

/// Why a link cannot go on.
#[derive(Debug, Clone, Copy, PartialEq, Eq)]
pub enum LinkError {
    /// The chunks do not fit together.
    Framing(DecodeError),
    /// A message of a known type is malformed.
    Body(DecodeError),
}

impl LinkError {
    /// The error in words.
    pub open spec fn words(self) -> Seq<char> {
        match self {
            LinkError::Framing(error) => error.words(),
            LinkError::Body(error) => error.words(),
        }
    }

    /// The error in words: what is wrong with the bytes.
    pub fn message(&self) -> (r: String)
        ensures
            r@ == self.words(),
    {
        match self {
            LinkError::Framing(error) => error.message(),
            LinkError::Body(error) => error.message(),
        }
    }
}

/// What became of the bytes at the front of a link.
#[derive(Debug)]
pub enum Received {
    /// There is no whole chunk yet.
    Incomplete,
    /// A chunk of a message that is still in flight, or a message of a type that is not
    /// implemented: skipped rather than fatal.
    Skipped,
    /// A message.
    Message(Message),
}

/// What a [`Received`] holds.
pub enum ReceivedView {
    /// See [`Received::Incomplete`].
    Incomplete,
    /// See [`Received::Skipped`].
    Skipped,
    /// See [`Received::Message`].
    Message(MessageView),
}

impl View for Received {
    type V = ReceivedView;

    open spec fn view(&self) -> ReceivedView {
        match self {
            Received::Incomplete => ReceivedView::Incomplete,
            Received::Skipped => ReceivedView::Skipped,
            Received::Message(m) => ReceivedView::Message(m@),
        }
    }
}

/// What a [`Link`] holds.
pub struct LinkView {
    /// Bytes that arrived and have not been consumed.
    pub inbound: Seq<u8>,
    /// Messages of which some chunks arrived.
    pub pending: Map<u16, Parts>,
    /// Bytes to send.
    pub outbound: Seq<u8>,
}

impl LinkView {
    /// A link with nothing on it.
    pub open spec fn idle() -> LinkView {
        LinkView { inbound: Seq::empty(), pending: Map::empty(), outbound: Seq::empty() }
    }

    /// What the chunk at the front gives.
    pub open spec fn received(self) -> Result<ReceivedView, LinkError> {
        match front(self.inbound) {
            Front::Incomplete => Ok(ReceivedView::Incomplete),
            Front::Bad(e) => Err(LinkError::Framing(e)),
            Front::Chunk { header, payload, .. } => match envelope::answer(
                self.pending,
                header,
                payload,
            ) {
                Err(e) => Err(LinkError::Framing(e)),
                Ok(None) => Ok(ReceivedView::Skipped),
                Ok(Some(parts)) => match message::parse_body(parts.msg_type, parts.bytes) {
                    Err(e) => Err(LinkError::Body(e)),
                    Ok(None) => Ok(ReceivedView::Skipped),
                    Ok(Some(m)) => Ok(ReceivedView::Message(m)),
                },
            },
        }
    }

    /// The link once the chunk at the front is consumed.
    pub open spec fn advanced(self) -> LinkView {
        match front(self.inbound) {
            Front::Chunk { header, payload, rest } => LinkView {
                inbound: rest,
                pending: envelope::pending_after(self.pending, header, payload),
                ..self
            },
            _ => self,
        }
    }

    /// The link with a message queued.
    pub open spec fn queued(self, m: MessageView) -> LinkView {
        LinkView { outbound: self.outbound + framed(m), ..self }
    }
}

/// The byte stream to the agent, as messages.
#[derive(Debug)]
pub struct Link {
    inbound: Inbound,
    reassembler: Reassembler,
    outbound: Outbound,
}

impl View for Link {
    type V = LinkView;

    closed spec fn view(&self) -> LinkView {
        LinkView {
            inbound: self.inbound@,
            pending: self.reassembler@,
            outbound: self.outbound@,
        }
    }
}

impl Default for Link {
    fn default() -> (r: Self)
        ensures
            r@ == LinkView::idle(),
    {
        Link::new()
    }
}

impl Link {
    /// A link with nothing on it.
    pub fn new() -> (r: Self)
        ensures
            r@ == LinkView::idle(),
    {
        Link { inbound: Inbound::new(), reassembler: Reassembler::new(), outbound: Outbound::new() }
    }

    /// Takes in bytes that arrived.
    pub fn receive(&mut self, bytes: &[u8])
        ensures
            final(self)@ == (LinkView {
                inbound: old(self)@.inbound + bytes@,
                ..old(self)@
            }),
    {
        self.inbound.push(bytes);
    }

    /// Consumes the chunk at the front of what arrived.
    ///
    /// # Errors
    ///
    /// A chunk that cannot be one, or a malformed message of a known type.
    pub fn next(&mut self) -> (r: Result<Received, LinkError>)
        ensures
            final(self)@ == old(self)@.advanced(),
            match r {
                Ok(received) => old(self)@.received() == Ok::<_, LinkError>(received@),
                Err(e) => old(self)@.received() == Err::<ReceivedView, _>(e),
            },
            r matches Ok(Received::Incomplete) ==> final(self)@ == old(self)@,
            r is Ok && !(r matches Ok(Received::Incomplete)) ==> final(self)@.inbound.len()
                < old(self)@.inbound.len(),
    {
        let (header, payload) = match self.inbound.take() {
            Err(e) => {
                return Err(LinkError::Framing(e));
            },
            Ok(None) => {
                return Ok(Received::Incomplete);
            },
            Ok(Some(taken)) => taken,
        };
        let whole = match self.reassembler.push(&header, payload.as_slice()) {
            Err(e) => {
                return Err(LinkError::Framing(e));
            },
            Ok(None) => {
                return Ok(Received::Skipped);
            },
            Ok(Some(whole)) => whole,
        };
        match Message::decode_known(whole.msg_type, whole.payload.as_slice()) {
            Err(e) => Err(LinkError::Body(e)),
            Ok(None) => Ok(Received::Skipped),
            Ok(Some(m)) => Ok(Received::Message(m)),
        }
    }

    /// Appends a message's chunks to the outgoing bytes.
    ///
    /// # Errors
    ///
    /// [`EncodeError`] if the message does not fit its encoding; nothing is queued.
    pub fn queue(&mut self, m: &Message) -> (r: EncodeResult<()>)
        ensures
            match m@.body_error() {
                None => r is Ok && final(self)@ == old(self)@.queued(m@),
                Some(e) => r == Err::<(), _>(e) && final(self)@ == old(self)@,
            },
    {
        let chunks = m.to_chunks(channel::CONTROL)?;
        let ghost start = self@;
        let ghost (kind, on, body) = (m@.type_code(), m@.rides_on(channel::CONTROL), m@.body());
        let mut i: usize = 0;
        assert(self@.outbound =~= start.outbound + framed_to(kind, on, body, 0));
        while i < chunks.len()
            invariant
                i <= chunks.len(),
                envelope::are_chunks(chunks@, kind, on, body),
                self@ == (LinkView {
                    outbound: start.outbound + framed_to(kind, on, body, i as nat),
                    ..start
                }),
            decreases chunks.len() - i,
        {
            self.outbound.push(chunks[i].as_slice());
            assert(chunks@[i as int]@ == envelope::chunk(kind, on, body, i as int));
            assert(self@.outbound =~= start.outbound + framed_to(kind, on, body, (i + 1) as nat));
            i = i + 1;
        }
        Ok(())
    }

    /// Bytes to send.
    pub fn unsent(&self) -> (r: &[u8])
        ensures
            r@ == self@.outbound,
    {
        self.outbound.unsent()
    }

    /// The stream took the first `n` of the bytes to send. `false` means that it took none, which
    /// a stream does only once it can take no more.
    pub fn on_written(&mut self, n: usize) -> (r: bool)
        requires
            n <= old(self)@.outbound.len(),
        ensures
            r == (n > 0),
            final(self)@ == (LinkView {
                outbound: old(self)@.outbound.skip(n as int),
                ..old(self)@
            }),
    {
        self.outbound.on_written(n);
        n > 0
    }
}

/// A whole chunk at the front stays there, whatever arrives behind it.
pub proof fn law_more_bytes_change_nothing_in_front(bytes: Seq<u8>, more: Seq<u8>)
    requires
        front(bytes) is Chunk,
    ensures
        front(bytes + more) == (Front::Chunk {
            header: front(bytes)->header,
            payload: front(bytes)->payload,
            rest: front(bytes)->rest + more,
        }),
{
    <ChunkHeader as pdu::Decode>::lemma_extends(bytes, 0, more);
    let all = bytes + more;
    let end = CHUNK_HEADER_LEN + front(bytes)->header.length;
    assert(all.subrange(CHUNK_HEADER_LEN as int, end) =~= front(bytes)->payload);
    assert(all.subrange(end, all.len() as int) =~= front(bytes)->rest + more);
}

/// The link once the first `n` chunks are consumed.
pub open spec fn advanced_by(link: LinkView, n: nat) -> LinkView
    decreases n,
{
    if n == 0 {
        link
    } else {
        advanced_by(link, (n - 1) as nat).advanced()
    }
}

/// The bytes of a message from chunk `k` on.
spec fn framed_from(msg_type: u8, channel: u16, payload: Seq<u8>, k: nat, n: nat) -> Seq<u8>
    decreases n - k,
{
    if k >= n {
        Seq::empty()
    } else {
        envelope::chunk(msg_type, channel, payload, k as int) + framed_from(
            msg_type,
            channel,
            payload,
            k + 1,
            n,
        )
    }
}

proof fn lemma_framed_splits(msg_type: u8, channel: u16, payload: Seq<u8>, k: nat, n: nat)
    requires
        k <= n,
    ensures
        framed_to(msg_type, channel, payload, k) + framed_from(msg_type, channel, payload, k, n)
            == framed_to(msg_type, channel, payload, n),
    decreases n - k,
{
    if k < n {
        lemma_framed_splits(msg_type, channel, payload, k + 1, n);
        let tail = framed_from(msg_type, channel, payload, k + 1, n);
        let chunk = envelope::chunk(msg_type, channel, payload, k as int);
        let head = framed_to(msg_type, channel, payload, k);
        assert((head + chunk) + tail =~= head + (chunk + tail));
    } else {
        assert(framed_to(msg_type, channel, payload, k) + Seq::<u8>::empty() =~= framed_to(
            msg_type,
            channel,
            payload,
            k,
        ));
    }
}

/// A chunk is found at the front of whatever follows it.
proof fn lemma_front(msg_type: u8, channel: u16, payload: Seq<u8>, k: int, tail: Seq<u8>)
    requires
        0 <= k < envelope::chunk_count(payload.len()),
    ensures
        front(envelope::chunk(msg_type, channel, payload, k) + tail) == (Front::Chunk {
            header: envelope::piece_header(msg_type, channel, payload, k),
            payload: envelope::piece(payload, k),
            rest: tail,
        }),
{
    let bytes = envelope::chunk(msg_type, channel, payload, k);
    envelope::law_chunks_decode(msg_type, channel, payload, k);
    <ChunkHeader as pdu::Decode>::lemma_extends(bytes, 0, tail);
    let all = bytes + tail;
    let end = bytes.len() as int;
    assert(all.subrange(CHUNK_HEADER_LEN as int, end) =~= bytes.subrange(
        CHUNK_HEADER_LEN as int,
        end,
    ));
    assert(all.subrange(end, all.len() as int) =~= tail);
}

/// Where a link stands after `k` chunks of a message.
proof fn lemma_advanced_by(link: LinkView, m: MessageView, video: u16, rest: Seq<u8>, k: nat)
    requires
        k <= envelope::chunk_count(m.body().len()),
        link.inbound == framed_on(m, video) + rest,
    ensures
        ({
            let (kind, on, body) = (m.type_code(), m.rides_on(video), m.body());
            let n = envelope::chunk_count(body.len());
            let at = advanced_by(link, k);
            &&& at.inbound == framed_from(kind, on, body, k, n) + rest
            &&& at.pending == envelope::pending_fed(link.pending, kind, on, body, k)
            &&& at.outbound == link.outbound
        }),
    decreases k,
{
    let (kind, on, body) = (m.type_code(), m.rides_on(video), m.body());
    let n = envelope::chunk_count(body.len());
    if k == 0 {
        lemma_framed_splits(kind, on, body, 0, n);
        assert(framed_to(kind, on, body, 0) + framed_from(kind, on, body, 0, n) =~= framed_from(
            kind,
            on,
            body,
            0,
            n,
        ));
    } else {
        let i = (k - 1) as nat;
        lemma_advanced_by(link, m, video, rest, i);
        let tail = framed_from(kind, on, body, k, n) + rest;
        let chunk = envelope::chunk(kind, on, body, i as int);
        lemma_front(kind, on, body, i as int, tail);
        assert(framed_from(kind, on, body, i, n) + rest =~= chunk + tail);
    }
}

/// What a link gives after `k` chunks of a message.
proof fn lemma_received_at(link: LinkView, m: MessageView, video: u16, rest: Seq<u8>, k: nat)
    requires
        k < envelope::chunk_count(m.body().len()),
        link.inbound == framed_on(m, video) + rest,
    ensures
        ({
            let (kind, on, body) = (m.type_code(), m.rides_on(video), m.body());
            advanced_by(link, k).received() == (match envelope::answer(
                envelope::pending_fed(link.pending, kind, on, body, k),
                envelope::piece_header(kind, on, body, k as int),
                envelope::piece(body, k as int),
            ) {
                Err(e) => Err(LinkError::Framing(e)),
                Ok(None) => Ok(ReceivedView::Skipped),
                Ok(Some(parts)) => match message::parse_body(parts.msg_type, parts.bytes) {
                    Err(e) => Err(LinkError::Body(e)),
                    Ok(None) => Ok(ReceivedView::Skipped),
                    Ok(Some(m)) => Ok(ReceivedView::Message(m)),
                },
            })
        }),
{
    let (kind, on, body) = (m.type_code(), m.rides_on(video), m.body());
    let n = envelope::chunk_count(body.len());
    lemma_advanced_by(link, m, video, rest, k);
    let tail = framed_from(kind, on, body, k + 1, n) + rest;
    lemma_front(kind, on, body, k as int, tail);
    assert(framed_from(kind, on, body, k, n) + rest =~= envelope::chunk(
        kind,
        on,
        body,
        k as int,
    ) + tail);
}

/// Chunks one behind the other are the bytes of their message.
proof fn lemma_concatenated(
    msg_type: u8,
    channel: u16,
    payload: Seq<u8>,
    chunks: Seq<Vec<u8>>,
    n: nat,
)
    requires
        envelope::are_chunks(chunks, msg_type, channel, payload),
        n <= chunks.len(),
    ensures
        concatenated(chunks.take(n as int)) == framed_to(msg_type, channel, payload, n),
    decreases n,
{
    if n > 0 {
        let some = chunks.take(n as int);
        lemma_concatenated(msg_type, channel, payload, chunks, (n - 1) as nat);
        assert(some.drop_last() =~= chunks.take(n - 1));
        assert(some.last() == chunks[n - 1]);
    }
}

/// Whether a link has room for a message that rides on `channel`: no message is in flight there,
/// and the totals hold it.
pub open spec fn has_room(link: LinkView, m: MessageView, channel: u16) -> bool {
    &&& link.pending.dom().finite()
    &&& !link.pending.dom().contains(channel)
    &&& envelope::chunk_count(m.body().len()) > 1 ==> link.pending.dom().len()
        < envelope::MAX_PENDING_CHANNELS && envelope::buffered(link.pending) + m.body().len()
        <= envelope::MAX_PENDING_BYTES
}

/// Whether a link gives exactly `m`, chunk by chunk, and then stands before `rest` with nothing of
/// the message left behind.
pub open spec fn delivers(link: LinkView, m: MessageView, rest: Seq<u8>) -> bool {
    let n = envelope::chunk_count(m.body().len());
    &&& n >= 1
    &&& forall|k: nat|
        k + 1 < n ==> (#[trigger] advanced_by(link, k)).received() == Ok::<_, LinkError>(
            ReceivedView::Skipped,
        )
    &&& advanced_by(link, (n - 1) as nat).received() == Ok::<_, LinkError>(
        ReceivedView::Message(m),
    )
    &&& advanced_by(link, n) == (LinkView { inbound: rest, ..link })
}

/// The bytes of a message give the message.
proof fn lemma_delivers(link: LinkView, m: MessageView, video: u16, rest: Seq<u8>)
    requires
        m.body_error() is None,
        m.restorable(),
        m.body().len() <= envelope::max_len(m.type_code()),
        has_room(link, m, m.rides_on(video)),
        link.inbound == framed_on(m, video) + rest,
    ensures
        delivers(link, m, rest),
{
    let (kind, on, body) = (m.type_code(), m.rides_on(video), m.body());
    let n = envelope::chunk_count(body.len());
    assert(n >= 1) by {
        assert(envelope::MAX_CHUNK_PAYLOAD == 32768);
    }
    envelope::law_fragments_reassemble(link.pending, kind, on, body);
    message::law_registry_round_trip(m, Seq::empty());
    assert(body + Seq::<u8>::empty() =~= body);
    assert forall|k: nat| k + 1 < n implies (#[trigger] advanced_by(link, k)).received() == Ok::<
        _,
        LinkError,
    >(ReceivedView::Skipped) by {
        lemma_received_at(link, m, video, rest, k);
    }
    let last = (n - 1) as nat;
    lemma_received_at(link, m, video, rest, last);
    lemma_advanced_by(link, m, video, rest, n);
    assert(framed_from(kind, on, body, n, n) + rest =~= rest);
}

/// What one end sends as chunks, the other end receives: the chunks of a message, frames on any
/// video channel included, give exactly that message, whatever follows them, and nothing of it
/// stays behind.
///
/// This holds for a message that its encoding can hold whole, on a channel with no message in
/// flight, as long as the receiver's totals have room for it.
pub proof fn law_chunks_arrive(
    link: LinkView,
    m: MessageView,
    video_channel: u16,
    chunks: Seq<Vec<u8>>,
    rest: Seq<u8>,
)
    requires
        m.body_error() is None,
        m.restorable(),
        m.body().len() <= envelope::max_len(m.type_code()),
        has_room(link, m, m.rides_on(video_channel)),
        envelope::are_chunks(chunks, m.type_code(), m.rides_on(video_channel), m.body()),
        link.inbound == concatenated(chunks) + rest,
    ensures
        delivers(link, m, rest),
{
    let n = envelope::chunk_count(m.body().len());
    lemma_concatenated(m.type_code(), m.rides_on(video_channel), m.body(), chunks, n);
    assert(chunks.take(n as int) =~= chunks);
    lemma_delivers(link, m, video_channel, rest);
}

/// What one end queues, the other end receives: the bytes that [`Link::queue`] puts on the wire for
/// a message, whatever follows them, give exactly that message, and nothing of it stays behind.
///
/// This holds for the messages that [`law_chunks_arrive`] speaks of.
pub proof fn law_queued_messages_arrive(link: LinkView, m: MessageView, rest: Seq<u8>)
    requires
        m.body_error() is None,
        m.restorable(),
        m.body().len() <= envelope::max_len(m.type_code()),
        has_room(link, m, m.rides_on(channel::CONTROL)),
        link.inbound == framed(m) + rest,
    ensures
        delivers(link, m, rest),
{
    lemma_delivers(link, m, channel::CONTROL, rest);
}

/// A link's error is said as what is wrong with the bytes, and no link error is another.
pub proof fn law_link_errors_are_worded(e: &LinkError, inner: DecodeError, words: String, r: String)
    requires
        call_ensures(LinkError::message, (e,), r),
        call_ensures(DecodeError::message, (&inner,), words),
        *e == LinkError::Framing(inner) || *e == LinkError::Body(inner),
    ensures
        r@ == words@,
{
}

/// A message is queued behind what is queued already, as its chunks one after the other; bytes that
/// went out are taken from the front, and bytes that arrived are kept behind those that did before.
pub proof fn law_links_keep_the_order(m: &Message, bytes: &[u8], n: usize)
    ensures
        forall|l: &mut Link, r: EncodeResult<()>, chunks: EncodeResult<Vec<Vec<u8>>>|
            #![trigger call_ensures(Link::queue, (l, m), r), call_ensures(Message::to_chunks, (m, 0), chunks)]
            call_ensures(Link::queue, (l, m), r) && call_ensures(
                Message::to_chunks,
                (m, 0),
                chunks,
            ) ==> {
                &&& r is Ok <==> chunks is Ok
                &&& r is Ok ==> final(l)@.outbound == (*l)@.outbound + concatenated(
                    chunks->Ok_0@,
                )
                &&& r is Err ==> final(l)@ == (*l)@
                &&& final(l)@.inbound == (*l)@.inbound
            },
        forall|l: &mut Link| #[trigger]
            call_ensures(Link::receive, (l, bytes), ()) ==> final(l)@.inbound == (*l)@.inbound
                + bytes@ && final(l)@.outbound == (*l)@.outbound,
        forall|l: &mut Link, r: bool| #[trigger]
            call_ensures(Link::on_written, (l, n), r) && n <= (*l)@.outbound.len() ==> final(l)@.outbound == (*l)@.outbound.subrange(n as int, (*l)@.outbound.len() as int) && r == (
            n != 0) && final(l)@.inbound == (*l)@.inbound,
{
    assert forall|l: &mut Link, r: EncodeResult<()>, chunks: EncodeResult<Vec<Vec<u8>>>|
        #![trigger call_ensures(Link::queue, (l, m), r), call_ensures(Message::to_chunks, (m, 0), chunks)]
        call_ensures(Link::queue, (l, m), r) && call_ensures(
            Message::to_chunks,
            (m, 0),
            chunks,
        ) implies {
        &&& r is Ok <==> chunks is Ok
        &&& r is Ok ==> final(l)@.outbound == (*l)@.outbound + concatenated(chunks->Ok_0@)
        &&& r is Err ==> final(l)@ == (*l)@
        &&& final(l)@.inbound == (*l)@.inbound
    } by {
        if r is Ok {
            lemma_framed_is_concatenated(
                m@.type_code(),
                m@.rides_on(0),
                m@.body(),
                chunks->Ok_0@,
                chunks->Ok_0@.len(),
            );
            assert(chunks->Ok_0@.take(chunks->Ok_0@.len() as int) =~= chunks->Ok_0@);
        }
    }
}

/// The bytes of the first chunks are those chunks one behind the other.
proof fn lemma_framed_is_concatenated(
    msg_type: u8,
    on: u16,
    body: Seq<u8>,
    chunks: Seq<Vec<u8>>,
    n: nat,
)
    requires
        envelope::are_chunks(chunks, msg_type, on, body),
        n <= chunks.len(),
    ensures
        framed_to(msg_type, on, body, n) == concatenated(chunks.take(n as int)),
    decreases n,
{
    if n > 0 {
        let front = chunks.take(n as int);
        lemma_framed_is_concatenated(msg_type, on, body, chunks, (n - 1) as nat);
        assert(front.drop_last() =~= chunks.take(n - 1));
        assert(front.last() == chunks[n - 1]);
        assert(chunks[n - 1]@ == envelope::chunk(msg_type, on, body, n - 1));
    }
}

/// A whole chunk at the front of what arrived is consumed, and comes to what the reassembler and the
/// message's own reading make of it: an error of the chunks is one of framing, and one of the message
/// one of its body. Types that are not implemented are skipped, and so are messages in flight.
pub proof fn law_links_read_chunk_by_chunk(
    header: ChunkHeader,
    encoded: Vec<u8>,
    payload: &[u8],
    rest: Seq<u8>,
)
    requires
        call_ensures(pdu::encode_vec::<ChunkHeader>, (&header,), Ok(encoded)),
        header.flags <= 1,
        header.length <= 32_768,
        payload@.len() == header.length,
    ensures
        forall|
            l: &mut Link,
            q: &mut Reassembler,
            whole: DecodeResult<Option<envelope::Message>>,
            body: &[u8],
            read: DecodeResult<Option<Message>>,
            r: Result<Received, LinkError>,
        |
            #![trigger call_ensures(Link::next, (l,), r), call_ensures(Reassembler::push, (q, &header, payload), whole), call_ensures(Message::decode_known, (header.msg_type, body), read)]
            call_ensures(Link::next, (l,), r) && call_ensures(
                Reassembler::push,
                (q, &header, payload),
                whole,
            ) && call_ensures(Message::decode_known, (header.msg_type, body), read) && (*l)@.inbound
                == encoded@ + payload@ + rest && (*q)@ == (*l)@.pending && (
            whole matches Ok(Some(message)) ==> body@ == message.payload@) ==> {
                &&& final(l)@.inbound == rest
                &&& final(l)@.pending == final(q)@
                &&& final(l)@.outbound == (*l)@.outbound
                &&& match whole {
                    Err(e) => r == Err::<Received, _>(LinkError::Framing(e)),
                    Ok(None) => r matches Ok(Received::Skipped),
                    Ok(Some(_)) => match read {
                        Err(e) => r == Err::<Received, _>(LinkError::Body(e)),
                        Ok(None) => r matches Ok(Received::Skipped),
                        Ok(Some(m)) => r matches Ok(Received::Message(x)) && x@ == m@,
                    },
                }
            },
{
    let bytes = encoded@ + payload@ + rest;
    lemma_known_header(header);
    pdu::law_decode_inverts_encode::<ChunkHeader>(header, payload@ + rest);
    assert(bytes =~= encoded@ + (payload@ + rest));
    let end = 8 + header.length;
    assert(bytes.subrange(8, end as int) =~= payload@);
    assert(bytes.subrange(end as int, bytes.len() as int) =~= rest);
    assert(front(bytes) == Front::Chunk { header, payload: payload@, rest });
}

/// A header within the limits has eight bytes, and is read back whole.
proof fn lemma_known_header(header: ChunkHeader)
    requires
        header.flags <= 1,
        header.length <= 32_768,
    ensures
        <ChunkHeader as pdu::Encode>::wire(header).len() == 8,
        <ChunkHeader as pdu::Decode>::restorable(header),
{
    broadcast use pdu::group_lens;

    let flags = header.flags;
    assert(flags <= 1 ==> flags & 1 == flags) by (bit_vector);
}

/// While the chunk at the front is not all there, nothing is consumed.
pub proof fn law_links_wait_for_whole_chunks(
    header: ChunkHeader,
    encoded: Vec<u8>,
    part: Seq<u8>,
)
    requires
        call_ensures(pdu::encode_vec::<ChunkHeader>, (&header,), Ok(encoded)),
        header.flags <= 1,
        header.length <= 32_768,
        part.len() < header.length,
    ensures
        forall|l: &mut Link, r: Result<Received, LinkError>| #[trigger]
            call_ensures(Link::next, (l,), r) && ((*l)@.inbound == encoded@ + part
                || (*l)@.inbound.len() < 8) ==> (r matches Ok(Received::Incomplete)) && final(l)@
                == (*l)@,
{
    lemma_known_header(header);
    pdu::law_decode_inverts_encode::<ChunkHeader>(header, part);
}

} // verus!
