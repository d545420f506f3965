//! The client session: handshake, then a stream of [`ClientEvent`]s.
//!
//! Nothing here does I/O, so a session works over plain TCP in tests, TLS in production, and QUIC
//! later without change: whoever owns the stream feeds the bytes that arrived to
//! [`ClientSession::receive`], asks [`ClientSession::next_event`] what they mean, and writes out
//! [`ClientSession::unsent`].

use std::collections::VecDeque;
use std::time::Instant;

use vstd::prelude::*;

use crate::client::clock::ClientClock;
use crate::client::event::{ClientEvent, ClientEventView};
use crate::client::link;
use crate::client::link::{Link, LinkError, LinkView, Received, ReceivedView};
use crate::proto::latency::{ClockSync, ClockView, Samples};
use crate::proto::message::{
    error_code, feature, ClientHello, ClientHelloView, DisplayLayout, ErrorView, Message,
    MessageView, Ping, Pong, ServerHello, MIN_SUPPORTED_VERSION, PROTOCOL_VERSION,
};
use crate::proto::pdu::{EncodeError, EncodeResult};
use crate::text;

verus! {

/// Round-trip samples kept for the clock-offset estimate.
///
/// At one ping a second this is a couple of minutes of history: enough for the minimum to
/// represent a genuinely unqueued round trip, which is the one worth trusting.
pub const RTT_WINDOW: usize = 128;

/// Exchanges kept as candidates for the offset estimate.
pub const OFFSET_CANDIDATES: usize = 64;

/// Assumed worst-case relative drift between the two clocks, in parts per million.
///
/// Ordinary crystals are specified to tens of ppm and a virtualised guest clock is usually
/// disciplined on top of that, so 100 ppm is conservative rather than typical. It is an
/// assumption, and it is stated here rather than buried because the error bound depends on it:
/// at 100 ppm a sample one minute old has drifted 6 ms, which dwarfs half the round trip of a
/// fast exchange.
pub const CLOCK_DRIFT_PPM: u64 = 100;

/// One ping/pong exchange, kept as a candidate for the offset estimate.
#[derive(Debug, Clone, Copy, PartialEq, Eq)]
pub struct OffsetSample {
    /// Round trip of the exchange.
    pub rtt_us: u64,
    /// The offset it showed.
    pub offset_us: i64,
    /// When its pong landed.
    pub taken_at_us: u64,
}

impl OffsetSample {
    /// How far this sample's offset could be out if used at `now_us`: half the round trip, which
    /// is what the symmetric-path assumption costs when the path is not symmetric, plus what the
    /// two clocks do to each other while the sample ages.
    pub open spec fn error_bound(self, now_us: u64) -> u64 {
        let age = if self.taken_at_us < now_us {
            now_us - self.taken_at_us
        } else {
            0
        };
        let drift = if age * CLOCK_DRIFT_PPM < u64::MAX {
            age * CLOCK_DRIFT_PPM
        } else {
            u64::MAX as int
        };
        (self.rtt_us / 2 + drift / 1_000_000) as u64
    }

    /// How far this sample's offset could be out if used at `now_us`.
    ///
    /// Two independent errors. Both are upper bounds, and they add.
    pub fn error_bound_us(&self, now_us: u64) -> (r: u64)
        ensures
            r == self.error_bound(now_us),
    {
        let age_us: u64 = now_us.saturating_sub(self.taken_at_us);
        let drift: u64 = match age_us.checked_mul(CLOCK_DRIFT_PPM) {
            Some(drift) => drift,
            None => u64::MAX,
        };
        self.rtt_us / 2 + drift / 1_000_000
    }
}

/// Whether candidate `i` has the smallest error bound at `now_us`, and is the first that has.
pub open spec fn is_best(recent: Seq<OffsetSample>, now_us: u64, i: int) -> bool {
    &&& 0 <= i < recent.len()
    &&& forall|j: int|
        0 <= j < recent.len() ==> recent[i].error_bound(now_us) <= #[trigger] recent[j].error_bound(
            now_us,
        )
    &&& forall|j: int|
        0 <= j < i ==> recent[i].error_bound(now_us) < #[trigger] recent[j].error_bound(now_us)
}

/// Whether `best` is the candidate to use at `now_us`.
pub open spec fn is_choice(
    recent: Seq<OffsetSample>,
    now_us: u64,
    best: Option<OffsetSample>,
) -> bool {
    match best {
        None => recent.len() == 0,
        Some(sample) => exists|i: int| #[trigger] is_best(recent, now_us, i) && sample == recent[i],
    }
}

/// The candidates after one more exchange, of which the last [`OFFSET_CANDIDATES`] are kept.
pub open spec fn with_candidate(recent: Seq<OffsetSample>, sample: OffsetSample) -> Seq<
    OffsetSample,
> {
    if recent.len() >= OFFSET_CANDIDATES {
        recent.drop_first().push(sample)
    } else {
        recent.push(sample)
    }
}

/// Which exchange the offset estimate should come from.
///
/// Not the most recent one. An offset is only as trustworthy as the symmetry of the round trip
/// it was measured over, so a single congested exchange poisons the estimate for as long as it
/// is the latest.
///
/// Nor simply the lowest round trip ever seen, which is incomplete here: the best exchange may be
/// minutes old, and an old offset is wrong by however far the clocks have drifted apart since. So
/// the sample chosen is the one whose *total* error bound is smallest (round-trip asymmetry plus
/// accumulated drift), which prefers a fast recent exchange, tolerates an older one when nothing
/// better exists, and lets a stale sample age out on its own rather than by a rule about how old
/// is too old.
#[derive(Debug)]
pub struct OffsetEstimate {
    recent: VecDeque<OffsetSample>,
}

impl View for OffsetEstimate {
    type V = Seq<OffsetSample>;

    closed spec fn view(&self) -> Seq<OffsetSample> {
        self.recent@
    }
}

impl Default for OffsetEstimate {
    fn default() -> (r: Self)
        ensures
            r@ == Seq::<OffsetSample>::empty(),
    {
        OffsetEstimate::new()
    }
}

impl OffsetEstimate {
    /// An estimate with no candidates.
    pub fn new() -> (r: Self)
        ensures
            r@ == Seq::<OffsetSample>::empty(),
    {
        OffsetEstimate { recent: VecDeque::new() }
    }

    /// Number of candidates held.
    pub fn len(&self) -> (r: usize)
        ensures
            r == self@.len(),
    {
        self.recent.len()
    }

    /// Whether there is no candidate.
    pub fn is_empty(&self) -> (r: bool)
        ensures
            r == (self@.len() == 0),
    {
        self.recent.len() == 0
    }

    /// Keeps an exchange as a candidate, letting go of the oldest one where there are too many.
    pub fn push(&mut self, sample: OffsetSample)
        ensures
            final(self)@ == with_candidate(old(self)@, sample),
    {
        if self.recent.len() >= OFFSET_CANDIDATES {
            self.recent.pop_front();
        }
        self.recent.push_back(sample);
        assert(self@ =~= with_candidate(old(self)@, sample));
    }

    /// The candidate with the smallest total error bound at `now_us`.
    pub fn best(&self, now_us: u64) -> (r: Option<OffsetSample>)
        ensures
            is_choice(self@, now_us, r),
    {
        if self.recent.len() == 0 {
            return None;
        }
        let mut best: usize = 0;
        let mut i: usize = 1;
        while i < self.recent.len()
            invariant
                best < i <= self@.len(),
                forall|j: int|
                    0 <= j < i ==> self@[best as int].error_bound(now_us)
                        <= #[trigger] self@[j].error_bound(now_us),
                forall|j: int|
                    0 <= j < best ==> self@[best as int].error_bound(now_us)
                        < #[trigger] self@[j].error_bound(now_us),
            decreases self@.len() - i,
        {
            if self.recent[i].error_bound_us(now_us) < self.recent[best].error_bound_us(now_us) {
                best = i;
            }
            i = i + 1;
        }
        assert(is_best(self@, now_us, best as int));
        Some(self.recent[best])
    }
}

/// Configuration for [`ClientSession::greet`].
#[derive(Debug, Clone, PartialEq, Eq)]
pub struct SessionConfig {
    /// Shared secret provisioned out of band; the agent rejects anything else.
    pub auth_token: String,
    /// Name reported in the agent's logs.
    pub client_name: String,
    /// Codec ids in descending preference.
    pub codecs: Vec<u8>,
    /// The client's outputs, so the agent can match DPI and geometry.
    pub display: DisplayLayout,
}

impl SessionConfig {
    /// The hello that opens a session.
    pub open spec fn hello(&self) -> ClientHelloView {
        ClientHelloView {
            version_min: MIN_SUPPORTED_VERSION,
            version_max: PROTOCOL_VERSION,
            features: feature::SUPPORTED,
            auth_token: self.auth_token@,
            client_name: self.client_name@,
            codecs: self.codecs@,
            display: self.display@,
        }
    }
}

/// Why no session came about.
#[derive(Debug, Clone, PartialEq, Eq)]
pub enum ConnectError {
    /// The agent refused, and said why.
    Refused(String),
    /// The agent answered with something other than a hello.
    Unexpected(String),
    /// The agent's answer could not be read.
    Link(LinkError),
}

/// What a [`ConnectError`] holds.
pub enum ConnectErrorView {
    /// See [`ConnectError::Refused`].
    Refused(Seq<char>),
    /// See [`ConnectError::Unexpected`].
    Unexpected(Seq<char>),
    /// See [`ConnectError::Link`].
    Link(LinkError),
}

impl View for ConnectError {
    type V = ConnectErrorView;

    open spec fn view(&self) -> ConnectErrorView {
        match self {
            ConnectError::Refused(message) => ConnectErrorView::Refused(message@),
            ConnectError::Unexpected(message) => ConnectErrorView::Unexpected(message@),
            ConnectError::Link(e) => ConnectErrorView::Link(*e),
        }
    }
}

/// What the agent's refusal is reported as.
pub open spec fn refusal(e: ErrorView) -> Seq<char> {
    (if e.code == error_code::AUTH_FAILED {
        "authentication rejected by the agent"@
    } else {
        "agent refused the session"@
    }) + ": "@ + e.message + " (code "@ + text::decimal(e.code as nat) + ")"@
}

/// What an answer other than a hello is reported as.
pub open spec fn unexpected(type_code: u8) -> Seq<char> {
    "expected ServerHello, got "@ + text::hex_byte(type_code)
}

/// How the answer to the hello reads: the agent's hello, nothing yet, or why there is no session.
/// Anything but a hello or an error is a protocol violation; types that are not implemented are
/// skipped.
pub open spec fn reply(link: LinkView) -> (LinkView, Result<Option<ServerHello>, ConnectErrorView>)
    decreases link.inbound.len(),
{
    match link.received() {
        Err(e) => (link.advanced(), Err(ConnectErrorView::Link(e))),
        Ok(ReceivedView::Incomplete) => (link, Ok(None)),
        Ok(ReceivedView::Skipped) => reply(link.advanced()),
        Ok(ReceivedView::Message(MessageView::ServerHello(hello))) => (
            link.advanced(),
            Ok(Some(hello)),
        ),
        Ok(ReceivedView::Message(MessageView::Error(e))) => (
            link.advanced(),
            Err(ConnectErrorView::Refused(refusal(e))),
        ),
        Ok(ReceivedView::Message(other)) => (
            link.advanced(),
            Err(ConnectErrorView::Unexpected(unexpected(other.type_code()))),
        ),
    }
}

/// What a [`ClientSession`] holds.
pub struct SessionView {
    /// The byte stream.
    pub link: LinkView,
    /// Protocol version both peers agreed on.
    pub version: u16,
    /// Features both peers advertised.
    pub features: u64,
    /// Codec the agent selected.
    pub codec: u8,
    /// Opaque session id.
    pub session_id: u64,
    /// Round trips and the agent-clock offset.
    pub clock_sync: ClockView,
    /// Candidate offsets.
    pub offsets: Seq<OffsetSample>,
    /// Sequence number of the next ping.
    pub ping_seq: u32,
}

impl SessionView {
    /// A session that the agent's hello opens.
    pub open spec fn opened(link: LinkView, hello: ServerHello) -> SessionView {
        SessionView {
            link,
            version: hello.version,
            features: hello.features & feature::SUPPORTED,
            codec: hello.codec,
            session_id: hello.session_id,
            clock_sync: ClockView::fresh(RTT_WINDOW as nat),
            offsets: Seq::empty(),
            ping_seq: 0,
        }
    }

    /// The session once the chunk at the front of its link is consumed.
    pub open spec fn advanced(self) -> SessionView {
        SessionView { link: self.link.advanced(), ..self }
    }

    /// The session once more bytes arrived.
    pub open spec fn with(self, bytes: Seq<u8>) -> SessionView {
        SessionView {
            link: LinkView { inbound: self.link.inbound + bytes, ..self.link },
            ..self
        }
    }

    /// The session once a pong landed. It carries the agent's own clock, so this is the only
    /// thing that lets an agent timestamp be compared with a client one.
    pub open spec fn after_pong(self, pong: Pong, now_us: u64) -> SessionView {
        let clock_sync = self.clock_sync.after_pong(pong.seq, pong.agent_us, now_us);
        match (self.clock_sync.round_trip(pong.seq, now_us), clock_sync.offset) {
            (Some(rtt_us), Some(offset_us)) => SessionView {
                clock_sync,
                offsets: with_candidate(
                    self.offsets,
                    OffsetSample { rtt_us, offset_us, taken_at_us: now_us },
                ),
                ..self
            },
            _ => SessionView { clock_sync, ..self },
        }
    }

    /// The session once a message other than a pong was taken in. A ping is answered, echoing what
    /// it carries: the agent owns the clock.
    pub open spec fn answered(self, m: MessageView) -> SessionView {
        match m {
            MessageView::Ping(ping) => SessionView {
                link: self.link.queued(
                    MessageView::Pong(Pong { seq: ping.seq, sent_us: ping.sent_us, agent_us: 0 }),
                ),
                ..self
            },
            _ => self,
        }
    }

    /// What comes next on a session: an event, nothing until more bytes arrive, or why the link
    /// cannot go on. Housekeeping is answered on the way and never surfaced; the pongs on the way
    /// land at `times`, in order.
    pub open spec fn next(self, times: Seq<u64>) -> (
        SessionView,
        Result<Option<ClientEventView>, LinkError>,
    )
        decreases self.link.inbound.len(),
    {
        match self.link.received() {
            Err(e) => (self.advanced(), Err(e)),
            Ok(ReceivedView::Incomplete) => (self, Ok(None)),
            Ok(ReceivedView::Skipped) => self.advanced().next(times),
            Ok(ReceivedView::Message(MessageView::Pong(pong))) => self.advanced().after_pong(
                pong,
                times[0],
            ).next(times.skip(1)),
            Ok(ReceivedView::Message(m)) => {
                let after = self.advanced().answered(m);
                match event_of(m) {
                    Some(event) => (after, Ok(Some(event))),
                    None => after.next(times),
                }
            },
        }
    }

    /// How many pongs land before the next event.
    pub open spec fn pongs_ahead(self) -> nat
        decreases self.link.inbound.len(),
    {
        match self.link.received() {
            Err(_) => 0,
            Ok(ReceivedView::Incomplete) => 0,
            Ok(ReceivedView::Skipped) => self.advanced().pongs_ahead(),
            Ok(ReceivedView::Message(MessageView::Pong(_))) => 1 + self.advanced().pongs_ahead(),
            Ok(ReceivedView::Message(m)) => if event_of(m) is Some {
                0
            } else {
                self.advanced().pongs_ahead()
            },
        }
    }

    /// The session once a ping was sent.
    pub open spec fn pinged(self, now_us: u64) -> SessionView {
        SessionView {
            link: self.link.queued(
                MessageView::Ping(Ping { seq: self.ping_seq, sent_us: now_us }),
            ),
            clock_sync: self.clock_sync.after_ping(self.ping_seq, now_us),
            ping_seq: if self.ping_seq == u32::MAX {
                0
            } else {
                (self.ping_seq + 1) as u32
            },
            ..self
        }
    }
}

/// The event that a message surfaces as, if it is not housekeeping. Client-to-agent messages
/// arriving from the agent are a protocol violation, but dropping them is friendlier than tearing
/// the session down.
pub open spec fn event_of(m: MessageView) -> Option<ClientEventView> {
    match m {
        MessageView::WindowOpened(m) => Some(ClientEventView::WindowOpened(m)),
        MessageView::WindowGeometry(m) => Some(ClientEventView::WindowGeometry(m)),
        MessageView::WindowTitle(m) => Some(ClientEventView::WindowTitle(m)),
        MessageView::WindowState(m) => Some(ClientEventView::WindowState(m)),
        MessageView::WindowZOrder(m) => Some(ClientEventView::WindowZOrder(m)),
        MessageView::WindowIcon(m) => Some(ClientEventView::WindowIcon(m)),
        MessageView::WindowClosed(m) => Some(ClientEventView::WindowClosed(m)),
        MessageView::FrameData(m) => Some(ClientEventView::Frame(m)),
        MessageView::CursorShape(m) => Some(ClientEventView::CursorShape(m)),
        MessageView::CursorPosition(m) => Some(ClientEventView::CursorPosition(m)),
        MessageView::CursorVisibility(m) => Some(ClientEventView::CursorVisibility(m)),
        MessageView::Error(m) => Some(ClientEventView::Error(m)),
        MessageView::Close(m) => Some(ClientEventView::Closed(m)),
        _ => None,
    }
}

/// A live session with the agent.
#[derive(Debug)]
pub struct ClientSession {
    link: Link,
    /// Protocol version both peers agreed on.
    pub version: u16,
    /// Features both peers advertised.
    pub features: u64,
    /// Codec the agent selected.
    pub codec: u8,
    /// Opaque session id, for correlating logs with the agent.
    pub session_id: u64,
    /// The session's monotonic clock. Every client-side timestamp on the wire comes from here,
    /// and so does everything the latency accounting compares, so they share one epoch.
    clock: ClientClock,
    clock_sync: ClockSync,
    offsets: OffsetEstimate,
    ping_seq: u32,
}

impl View for ClientSession {
    type V = SessionView;

    closed spec fn view(&self) -> SessionView {
        SessionView {
            link: self.link@,
            version: self.version,
            features: self.features,
            codec: self.codec,
            session_id: self.session_id,
            clock_sync: self.clock_sync@,
            offsets: self.offsets@,
            ping_seq: self.ping_seq,
        }
    }
}

impl ClientSession {
    /// The session's clock.
    pub closed spec fn own_clock(&self) -> ClientClock {
        self.clock
    }

    /// A link with the hello that opens a session queued on it.
    ///
    /// # Errors
    ///
    /// [`EncodeError`] if the configuration does not fit a hello.
    pub fn greet(config: &SessionConfig) -> (r: EncodeResult<Link>)
        ensures
            match MessageView::ClientHello(config.hello()).body_error() {
                None => r matches Ok(link) && link@ == LinkView::idle().queued(
                    MessageView::ClientHello(config.hello()),
                ),
                Some(e) => r == Err::<Link, _>(e),
            },
    {
        let hello = Message::ClientHello(
            ClientHello {
                version_min: MIN_SUPPORTED_VERSION,
                version_max: PROTOCOL_VERSION,
                features: feature::SUPPORTED,
                auth_token: config.auth_token.clone(),
                client_name: config.client_name.clone(),
                codecs: config.codecs.clone(),
                display: DisplayLayout { outputs: config.display.outputs.clone() },
            },
        );
        assert(hello@->ClientHello_0.codecs =~= config.codecs@);
        assert(hello@->ClientHello_0.display =~= config.display@);
        let mut link = Link::new();
        link.queue(&hello)?;
        Ok(link)
    }

    /// Reads the answer to the hello out of what has arrived on `link`.
    ///
    /// Returns `Ok(None)` while the answer is not all there.
    ///
    /// # Errors
    ///
    /// [`ConnectError`] if the agent refused, answered with anything but a hello, or cannot be
    /// understood.
    pub fn await_hello(link: &mut Link) -> (r: Result<Option<ServerHello>, ConnectError>)
        ensures
            ({
                let (after, answer) = reply(old(link)@);
                &&& final(link)@ == after
                &&& match r {
                    Ok(hello) => answer == Ok::<_, ConnectErrorView>(hello),
                    Err(e) => answer == Err::<Option<ServerHello>, _>(e@),
                }
            }),
    {
        loop
            invariant
                reply(link@) == reply(old(link)@),
            decreases link@.inbound.len(),
        {
            let received = match link.next() {
                Err(e) => {
                    return Err(ConnectError::Link(e));
                },
                Ok(received) => received,
            };
            match received {
                Received::Incomplete => {
                    return Ok(None);
                },
                // Unknown type: skip it, per the forward-compatibility rule.
                Received::Skipped => {},
                Received::Message(Message::ServerHello(hello)) => {
                    return Ok(Some(hello));
                },
                Received::Message(Message::Error(e)) => {
                    let mut message = if e.code == error_code::AUTH_FAILED {
                        "authentication rejected by the agent".to_owned()
                    } else {
                        "agent refused the session".to_owned()
                    };
                    text::push_str(&mut message, ": ");
                    text::push_str(&mut message, e.message.as_str());
                    text::push_str(&mut message, " (code ");
                    text::push_decimal(&mut message, e.code as u64);
                    text::push_str(&mut message, ")");
                    return Err(ConnectError::Refused(message));
                },
                Received::Message(other) => {
                    let mut message = "expected ServerHello, got ".to_owned();
                    text::push_hex_byte(&mut message, other.msg_type());
                    return Err(ConnectError::Unexpected(message));
                },
            }
        }
    }

    /// The session that the agent's hello opens.
    pub fn open(link: Link, hello: ServerHello, clock: ClientClock) -> (r: Self)
        ensures
            r@ == SessionView::opened(link@, hello),
            r.own_clock() == clock,
    {
        ClientSession {
            link,
            version: hello.version,
            features: hello.features & feature::SUPPORTED,
            codec: hello.codec,
            session_id: hello.session_id,
            clock,
            clock_sync: ClockSync::new(RTT_WINDOW),
            offsets: OffsetEstimate::new(),
            ping_seq: 0,
        }
    }

    /// Completes the handshake over a link that the hello went out on: [`Self::await_hello`],
    /// then [`Self::open`] with a clock that starts there.
    ///
    /// # Errors
    ///
    /// The link comes back while the answer is not all there; otherwise as [`Self::await_hello`].
    pub fn connect(mut link: Link) -> (r: Result<Self, (Link, Option<ConnectError>)>)
        ensures
            ({
                let (after, answer) = reply(link@);
                match r {
                    Ok(session) => {
                        &&& answer matches Ok(Some(hello))
                        &&& session@ == SessionView::opened(after, hello)
                        &&& call_ensures(Instant::now, (), session.own_clock().counts_from())
                    },
                    Err((rest, None)) => answer == Ok::<_, ConnectErrorView>(None::<ServerHello>)
                        && rest@ == after,
                    Err((rest, Some(e))) => answer == Err::<Option<ServerHello>, _>(e@) && rest@
                        == after,
                }
            }),
    {
        match Self::await_hello(&mut link) {
            Err(e) => Err((link, Some(e))),
            Ok(None) => Err((link, None)),
            Ok(Some(hello)) => Ok(Self::open(link, hello, ClientClock::new())),
        }
    }

    /// Whether a negotiated feature is active for this session.
    pub fn has_feature(&self, bit: u64) -> (r: bool)
        ensures
            r == (self@.features & bit != 0),
    {
        self.features & bit != 0
    }

    /// Takes in bytes that arrived.
    pub fn receive(&mut self, bytes: &[u8])
        ensures
            final(self)@ == old(self)@.with(bytes@),
            final(self).own_clock() == old(self).own_clock(),
    {
        self.link.receive(bytes);
    }

    /// Bytes to send.
    pub fn unsent(&self) -> (r: &[u8])
        ensures
            r@ == self@.link.outbound,
    {
        self.link.unsent()
    }

    /// The stream took the first `n` of the bytes to send. `false` means that it took none, which
    /// a stream does only once it can take no more.
    pub fn on_written(&mut self, n: usize) -> (r: bool)
        requires
            n <= old(self)@.link.outbound.len(),
        ensures
            r == (n > 0),
            final(self)@ == (SessionView {
                link: LinkView {
                    outbound: old(self)@.link.outbound.skip(n as int),
                    ..old(self)@.link
                },
                ..old(self)@
            }),
            final(self).own_clock() == old(self).own_clock(),
    {
        self.link.on_written(n)
    }

    /// The next event, answering protocol housekeeping (ping/pong) transparently, if every pong
    /// on the way lands at `now_us`.
    ///
    /// Returns `Ok(None)` when there is no event until more bytes arrive.
    ///
    /// # Errors
    ///
    /// [`LinkError`] if what arrived cannot be understood.
    pub fn next_event_at(&mut self, now_us: u64) -> (r: Result<Option<ClientEvent>, LinkError>)
        ensures
            is_next(
                old(self)@,
                Seq::new(old(self)@.pongs_ahead(), |i: int| now_us),
                r,
                final(self)@,
            ),
            final(self).own_clock() == old(self).own_clock(),
    {
        let ghost mut times: Seq<u64> = Seq::empty();
        proof {
            lemma_reaches_itself(self@);
        }
        loop
            invariant
                reaches(old(self)@, times, self@),
                forall|i: int| 0 <= i < times.len() ==> times[i] == now_us,
                self.own_clock() == old(self).own_clock(),
            decreases self@.link.inbound.len(),
        {
            let ghost start = self@;
            let taken = self.take_next();
            match taken {
                Ok(Taken::Housekeeping) => {
                    proof {
                        lemma_reaches_behind(old(self)@, times, start, self@);
                    }
                },
                Ok(Taken::Pong(pong)) => {
                    self.on_pong(pong, now_us);
                    proof {
                        lemma_reaches_behind_pong(old(self)@, times, start, pong, now_us);
                        times = times.push(now_us);
                    }
                },
                Ok(Taken::Event(event)) => {
                    let r = Ok(Some(event));
                    proof {
                        lemma_reaches_the_end(old(self)@, times, start, r, self@);
                        assert(times =~= Seq::new(old(self)@.pongs_ahead(), |i: int| now_us));
                    }
                    return r;
                },
                Ok(Taken::Nothing) => {
                    let r = Ok(None);
                    proof {
                        lemma_reaches_the_end(old(self)@, times, start, r, self@);
                        assert(times =~= Seq::new(old(self)@.pongs_ahead(), |i: int| now_us));
                    }
                    return r;
                },
                Err(e) => {
                    let r = Err(e);
                    proof {
                        lemma_reaches_the_end(old(self)@, times, start, r, self@);
                        assert(times =~= Seq::new(old(self)@.pongs_ahead(), |i: int| now_us));
                    }
                    return r;
                },
            }
        }
    }

    /// The next event, answering protocol housekeeping (ping/pong) transparently. The session's own
    /// clock is read as each pong lands.
    ///
    /// Returns `Ok(None)` when there is no event until more bytes arrive.
    ///
    /// # Errors
    ///
    /// [`LinkError`] if what arrived cannot be understood.
    pub fn next_event(&mut self) -> (r: Result<Option<ClientEvent>, LinkError>)
        ensures
            exists|times: Seq<u64>|
                {
                    &&& #[trigger] is_next(old(self)@, times, r, final(self)@)
                    &&& times.len() == old(self)@.pongs_ahead()
                    &&& forall|i: int|
                        0 <= i < times.len() ==> old(self).own_clock().may_read(
                            #[trigger] times[i],
                        )
                },
            final(self).own_clock() == old(self).own_clock(),
    {
        let ghost mut times: Seq<u64> = Seq::empty();
        proof {
            lemma_reaches_itself(self@);
        }
        loop
            invariant
                reaches(old(self)@, times, self@),
                forall|i: int|
                    0 <= i < times.len() ==> old(self).own_clock().may_read(#[trigger] times[i]),
                self.own_clock() == old(self).own_clock(),
            decreases self@.link.inbound.len(),
        {
            let ghost start = self@;
            let taken = self.take_next();
            match taken {
                Ok(Taken::Housekeeping) => {
                    proof {
                        lemma_reaches_behind(old(self)@, times, start, self@);
                    }
                },
                Ok(Taken::Pong(pong)) => {
                    let now_us: u64 = self.clock.now_us();
                    self.on_pong(pong, now_us);
                    proof {
                        lemma_reaches_behind_pong(old(self)@, times, start, pong, now_us);
                        times = times.push(now_us);
                    }
                },
                Ok(Taken::Event(event)) => {
                    let r = Ok(Some(event));
                    proof {
                        lemma_reaches_the_end(old(self)@, times, start, r, self@);
                    }
                    return r;
                },
                Ok(Taken::Nothing) => {
                    let r = Ok(None);
                    proof {
                        lemma_reaches_the_end(old(self)@, times, start, r, self@);
                    }
                    return r;
                },
                Err(e) => {
                    let r = Err(e);
                    proof {
                        lemma_reaches_the_end(old(self)@, times, start, r, self@);
                    }
                    return r;
                },
            }
        }
    }

    /// Consumes the chunk at the front of the link, and answers it unless it completes a pong.
    fn take_next(&mut self) -> (r: Result<Taken, LinkError>)
        ensures
            final(self).own_clock() == old(self).own_clock(),
            takes(old(self)@, r, final(self)@),
            r is Ok && !(r matches Ok(Taken::Nothing)) ==> final(self)@.link.inbound.len() < old(
                self,
            )@.link.inbound.len(),
    {
        match self.link.next() {
            Err(e) => Err(e),
            Ok(Received::Incomplete) => Ok(Taken::Nothing),
            Ok(Received::Skipped) => Ok(Taken::Housekeeping),
            Ok(Received::Message(Message::Pong(pong))) => Ok(Taken::Pong(pong)),
            Ok(Received::Message(m)) => match self.take_in(m) {
                Some(event) => Ok(Taken::Event(event)),
                None => Ok(Taken::Housekeeping),
            },
        }
    }

    /// A pong landed at `now_us`.
    fn on_pong(&mut self, pong: Pong, now_us: u64)
        ensures
            final(self)@ == old(self)@.after_pong(pong, now_us),
            final(self).own_clock() == old(self).own_clock(),
    {
        if let Some(rtt_us) = self.clock_sync.on_pong(pong.seq, pong.agent_us, now_us) {
            if let Some(offset_us) = self.clock_sync.offset_us() {
                self.offsets.push(OffsetSample { rtt_us, offset_us, taken_at_us: now_us });
            }
        }
    }

    /// Takes in one message other than a pong.
    fn take_in(&mut self, m: Message) -> (r: Option<ClientEvent>)
        requires
            !(m@ is Pong),
        ensures
            final(self)@ == old(self)@.answered(m@),
            match r {
                None => event_of(m@) is None,
                Some(event) => event_of(m@) == Some(event@),
            },
            final(self).own_clock() == old(self).own_clock(),
    {
        match m {
            Message::Ping(ping) => {
                let pong = Message::Pong(
                    Pong {
                        seq: ping.seq,
                        sent_us: ping.sent_us,
                        // The agent owns the clock; the client echoes rather than inventing.
                        agent_us: 0,
                    },
                );
                // Queue rather than write: writing is resumable, and ordered.
                let _queued = self.link.queue(&pong);
                None
            },
            Message::WindowOpened(m) => Some(ClientEvent::WindowOpened(m)),
            Message::WindowGeometry(m) => Some(ClientEvent::WindowGeometry(m)),
            Message::WindowTitle(m) => Some(ClientEvent::WindowTitle(m)),
            Message::WindowState(m) => Some(ClientEvent::WindowState(m)),
            Message::WindowZOrder(m) => Some(ClientEvent::WindowZOrder(m)),
            Message::WindowIcon(m) => Some(ClientEvent::WindowIcon(m)),
            Message::WindowClosed(m) => Some(ClientEvent::WindowClosed(m)),
            Message::FrameData(m) => Some(ClientEvent::Frame(m)),
            Message::CursorShape(m) => Some(ClientEvent::CursorShape(m)),
            Message::CursorPosition(m) => Some(ClientEvent::CursorPosition(m)),
            Message::CursorVisibility(m) => Some(ClientEvent::CursorVisibility(m)),
            Message::Error(m) => Some(ClientEvent::Error(m)),
            Message::Close(m) => Some(ClientEvent::Closed(m)),
            _ => None,
        }
    }

    /// Send a message to the agent (input, acks, window control, quality hints).
    ///
    /// # Errors
    ///
    /// [`EncodeError`] if the message does not fit its encoding; nothing is sent.
    pub fn send(&mut self, m: &Message) -> (r: EncodeResult<()>)
        ensures
            match m@.body_error() {
                None => r is Ok && final(self)@ == (SessionView {
                    link: old(self)@.link.queued(m@),
                    ..old(self)@
                }),
                Some(e) => r == Err::<(), _>(e) && final(self)@ == old(self)@,
            },
            final(self).own_clock() == old(self).own_clock(),
    {
        self.link.queue(m)
    }

    /// The session's clock. Copy it rather than starting another, or timestamps taken in
    /// different places cannot be compared.
    pub fn clock(&self) -> (r: ClientClock)
        ensures
            r == self.own_clock(),
    {
        self.clock
    }

    /// The exchange that the offset estimate comes from at `now_us`.
    pub fn offset_at(&self, now_us: u64) -> (r: Option<OffsetSample>)
        ensures
            is_choice(self@.offsets, now_us, r),
    {
        self.offsets.best(now_us)
    }

    /// How far ahead of the client's clock the agent's is, once a pong has landed.
    ///
    /// The estimate assumes the network delays both directions equally, so its error is half the
    /// path asymmetry and is bounded by half the round-trip time. Read it together with
    /// [`ClientSession::rtt_us`]: an offset from a 1 ms round trip is worth far more than one
    /// from a 40 ms round trip.
    pub fn clock_offset_us(&self) -> (r: Option<i64>)
        ensures
            exists|now_us: u64, best: Option<OffsetSample>| #[trigger]
                is_choice(self@.offsets, now_us, best) && self.own_clock().may_read(now_us) && r
                    == (match best {
                    None => None,
                    Some(sample) => Some(sample.offset_us),
                }),
    {
        let now_us: u64 = self.clock.now_us();
        let best = self.offset_at(now_us);
        assert(is_choice(self@.offsets, now_us, best));
        match best {
            None => None,
            Some(sample) => Some(sample.offset_us),
        }
    }

    /// How far the offset estimate could be out.
    ///
    /// The bound of the exchange the offset actually came from (round-trip asymmetry plus the
    /// drift accumulated since it was taken), never of some other, more flattering sample.
    pub fn offset_error_bound_us(&self) -> (r: Option<u64>)
        ensures
            exists|now_us: u64, best: Option<OffsetSample>| #[trigger]
                is_choice(self@.offsets, now_us, best) && self.own_clock().may_read(now_us) && r
                    == (match best {
                    None => None,
                    Some(sample) => Some(sample.error_bound(now_us)),
                }),
    {
        let now_us: u64 = self.clock.now_us();
        let best = self.offset_at(now_us);
        assert(is_choice(self@.offsets, now_us, best));
        match best {
            None => None,
            Some(sample) => Some(sample.error_bound_us(now_us)),
        }
    }

    /// Round-trip time statistics from the ping/pong exchange.
    pub fn rtt_us(&self) -> (r: &Samples)
        ensures
            r@ == self@.clock_sync.rtt,
    {
        self.clock_sync.rtt()
    }

    /// Send a liveness probe, and register it so the matching pong updates the clock estimate.
    ///
    /// Both ends do this every second; it is the only way to relate an agent timestamp to a
    /// client one.
    pub fn ping_at(&mut self, now_us: u64)
        ensures
            final(self)@ == old(self)@.pinged(now_us),
            final(self).own_clock() == old(self).own_clock(),
    {
        let seq: u32 = self.ping_seq;
        self.ping_seq = self.ping_seq.wrapping_add(1);
        self.clock_sync.on_ping_sent(seq, now_us);
        let _queued = self.link.queue(&Message::Ping(Ping { seq, sent_us: now_us }));
    }

    /// [`ClientSession::ping_at`], on the session's own clock.
    pub fn ping(&mut self)
        ensures
            exists|now_us: u64|
                final(self)@ == #[trigger] old(self)@.pinged(now_us)
                    && old(self).own_clock().may_read(now_us),
            final(self).own_clock() == old(self).own_clock(),
    {
        let now_us: u64 = self.clock.now_us();
        self.ping_at(now_us);
        assert(self@ == old(self)@.pinged(now_us));
    }
}

/// What the chunk at the front of a session's link came to.
enum Taken {
    /// There is no whole chunk yet.
    Nothing,
    /// Nothing that surfaces: it was skipped, or answered.
    Housekeeping,
    /// A pong, which has not been counted.
    Pong(Pong),
    /// An event.
    Event(ClientEvent),
}

/// Whether `r` is what comes next on a session whose pongs land at `times`, which leaves it as
/// `after`.
pub open spec fn is_next(
    before: SessionView,
    times: Seq<u64>,
    r: Result<Option<ClientEvent>, LinkError>,
    after: SessionView,
) -> bool {
    let (end, next) = before.next(times);
    &&& after == end
    &&& match r {
        Ok(Some(event)) => next == Ok::<_, LinkError>(Some(event@)),
        Ok(None) => next == Ok::<Option<ClientEventView>, LinkError>(None),
        Err(e) => next == Err::<Option<ClientEventView>, _>(e),
    }
}

/// How many pongs are ahead depends on what arrived alone.
proof fn lemma_pongs_ahead(a: SessionView, b: SessionView)
    requires
        a.link.inbound == b.link.inbound,
        a.link.pending == b.link.pending,
    ensures
        a.pongs_ahead() == b.pongs_ahead(),
    decreases a.link.inbound.len(),
{
    match a.link.received() {
        Ok(ReceivedView::Skipped) => lemma_pongs_ahead(a.advanced(), b.advanced()),
        Ok(ReceivedView::Message(_)) => lemma_pongs_ahead(a.advanced(), b.advanced()),
        _ => {},
    }
}

/// Whether consuming the chunk at the front of a session may come to `r` and leave `after`.
spec fn takes(before: SessionView, r: Result<Taken, LinkError>, after: SessionView) -> bool {
    let received = before.link.received();
    match r {
        Err(e) => received == Err::<ReceivedView, _>(e) && after == before.advanced(),
        Ok(Taken::Nothing) => {
            &&& received == Ok::<_, LinkError>(ReceivedView::Incomplete)
            &&& after == before
        },
        Ok(Taken::Pong(pong)) => {
            &&& received == Ok::<_, LinkError>(ReceivedView::Message(MessageView::Pong(pong)))
            &&& after == before.advanced()
        },
        Ok(Taken::Event(event)) => {
            &&& received matches Ok(ReceivedView::Message(m))
            &&& !(m is Pong)
            &&& event_of(m) == Some(event@)
            &&& after == before.advanced().answered(m)
        },
        Ok(Taken::Housekeeping) => is_housekeeping(before, after),
    }
}

/// Whether the chunk at the front of a session surfaces as nothing and is no pong, and consuming
/// it leaves `after`.
spec fn is_housekeeping(before: SessionView, after: SessionView) -> bool {
    match before.link.received() {
        Ok(ReceivedView::Skipped) => after == before.advanced(),
        Ok(ReceivedView::Message(m)) => {
            &&& !(m is Pong)
            &&& event_of(m) is None
            &&& after == before.advanced().answered(m)
        },
        _ => false,
    }
}

/// Whether a session comes to `now` on the way to its next event, if the pongs so far landed at
/// `times`.
#[verifier::opaque]
spec fn reaches(session: SessionView, times: Seq<u64>, now: SessionView) -> bool {
    &&& forall|rest: Seq<u64>| session.next(#[trigger] (times + rest)) == now.next(rest)
    &&& session.pongs_ahead() == times.len() + now.pongs_ahead()
}

/// A session starts where it is.
proof fn lemma_reaches_itself(session: SessionView)
    ensures
        reaches(session, Seq::empty(), session),
{
    reveal(reaches);
    let none = Seq::<u64>::empty();
    assert forall|rest: Seq<u64>| session.next(#[trigger] (none + rest)) == session.next(rest) by {
        assert(none + rest =~= rest);
    }
}

/// Housekeeping takes no time.
proof fn lemma_reaches_behind(
    session: SessionView,
    times: Seq<u64>,
    start: SessionView,
    after: SessionView,
)
    requires
        reaches(session, times, start),
        is_housekeeping(start, after),
    ensures
        reaches(session, times, after),
{
    reveal(reaches);
    lemma_pongs_ahead(start.advanced(), after);
    assert forall|rest: Seq<u64>| session.next(#[trigger] (times + rest)) == after.next(rest) by {
        assert(start.next(rest) == after.next(rest));
    }
}

/// A pong that lands takes the next time.
proof fn lemma_reaches_behind_pong(
    session: SessionView,
    times: Seq<u64>,
    start: SessionView,
    pong: Pong,
    now_us: u64,
)
    requires
        reaches(session, times, start),
        start.link.received() == Ok::<_, LinkError>(
            ReceivedView::Message(MessageView::Pong(pong)),
        ),
    ensures
        reaches(session, times.push(now_us), start.advanced().after_pong(pong, now_us)),
{
    reveal(reaches);
    let after = start.advanced().after_pong(pong, now_us);
    lemma_pongs_ahead(start.advanced(), after);
    assert forall|rest: Seq<u64>|
        session.next(#[trigger] (times.push(now_us) + rest)) == after.next(rest) by {
        let from = seq![now_us] + rest;
        assert(times.push(now_us) + rest =~= times + from);
        assert(from.skip(1) =~= rest);
        assert(from[0] == now_us);
    }
}

/// What ends the way to the next event is what comes next.
proof fn lemma_reaches_the_end(
    session: SessionView,
    times: Seq<u64>,
    start: SessionView,
    r: Result<Option<ClientEvent>, LinkError>,
    after: SessionView,
)
    requires
        reaches(session, times, start),
        match r {
            Err(e) => takes(start, Err(e), after),
            Ok(None) => takes(start, Ok(Taken::Nothing), after),
            Ok(Some(event)) => takes(start, Ok(Taken::Event(event)), after),
        },
    ensures
        is_next(session, times, r, after),
        times.len() == session.pongs_ahead(),
{
    reveal(reaches);
    assert(times + Seq::<u64>::empty() =~= times);
    assert(start.pongs_ahead() == 0);
}

/// However the bytes of the stream are cut up, they mean the same: asking for the next event
/// before all of it has arrived changes nothing about the events that follow.
pub proof fn law_partial_reads_lose_nothing(
    session: SessionView,
    more: Seq<u8>,
    times: Seq<u64>,
    later: Seq<u64>,
)
    requires
        session.next(times).1 == Ok::<Option<ClientEventView>, LinkError>(None),
        times.len() == session.pongs_ahead(),
    ensures
        session.with(more).next(times + later) == session.next(times).0.with(more).next(later),
    decreases session.link.inbound.len(),
{
    match session.link.received() {
        Err(_) => {},
        Ok(ReceivedView::Incomplete) => {
            assert(times + later =~= later);
        },
        Ok(ReceivedView::Skipped) => {
            link::law_more_bytes_change_nothing_in_front(session.link.inbound, more);
            assert(session.with(more).advanced() == session.advanced().with(more));
            law_partial_reads_lose_nothing(session.advanced(), more, times, later);
        },
        Ok(ReceivedView::Message(MessageView::Pong(pong))) => {
            link::law_more_bytes_change_nothing_in_front(session.link.inbound, more);
            let after = session.advanced().after_pong(pong, times[0]);
            assert(session.with(more).advanced() == session.advanced().with(more));
            assert(session.advanced().with(more).after_pong(pong, times[0]) == after.with(more));
            lemma_pongs_ahead(session.advanced(), after);
            assert((times + later).skip(1) =~= times.skip(1) + later);
            law_partial_reads_lose_nothing(after, more, times.skip(1), later);
        },
        Ok(ReceivedView::Message(m)) => {
            link::law_more_bytes_change_nothing_in_front(session.link.inbound, more);
            let after = session.advanced().answered(m);
            assert(session.with(more).advanced() == session.advanced().with(more));
            assert(session.advanced().with(more).answered(m) == after.with(more));
            lemma_pongs_ahead(session.advanced(), after);
            law_partial_reads_lose_nothing(after, more, times, later);
        },
    }
}

/// A ping is answered by the session itself and never surfaced: its pong is queued, carrying the
/// same sequence number and send time, and reading goes on behind it.
pub proof fn law_pings_are_answered(session: SessionView, ping: Ping, times: Seq<u64>)
    requires
        session.link.received() == Ok::<_, LinkError>(
            ReceivedView::Message(MessageView::Ping(ping)),
        ),
    ensures
        session.next(times) == (SessionView {
            link: session.link.advanced().queued(
                MessageView::Pong(Pong { seq: ping.seq, sent_us: ping.sent_us, agent_us: 0 }),
            ),
            ..session
        }).next(times),
{
}

/// Each pong is timed as it lands: two pongs that arrive together are counted at their own times.
pub proof fn law_pongs_are_timed_as_they_land(
    session: SessionView,
    first: Pong,
    second: Pong,
    times: Seq<u64>,
)
    requires
        session.link.received() == Ok::<_, LinkError>(
            ReceivedView::Message(MessageView::Pong(first)),
        ),
        session.link.advanced().received() == Ok::<_, LinkError>(
            ReceivedView::Message(MessageView::Pong(second)),
        ),
        times.len() == session.pongs_ahead(),
    ensures
        times.len() >= 2,
        session.next(times) == session.advanced().after_pong(first, times[0]).advanced().after_pong(
            second,
            times[1],
        ).next(times.skip(2)),
{
    let one = session.advanced();
    let after = one.after_pong(first, times[0]);
    assert(session.pongs_ahead() == 1 + one.pongs_ahead());
    assert(one.pongs_ahead() == 1 + one.advanced().pongs_ahead());
    assert(session.next(times) == after.next(times.skip(1)));
    assert(after.link == one.link);
    assert(after.next(times.skip(1)) == after.advanced().after_pong(
        second,
        times.skip(1)[0],
    ).next(times.skip(1).skip(1)));
    assert(times.skip(1).skip(1) =~= times.skip(2));
}

/// The answer to the hello decides: a hello opens a session, an error is reported with what the
/// agent said, and anything else that is understood is a violation.
pub proof fn law_refusals_are_reported(l: LinkView, m: MessageView)
    requires
        l.received() == Ok::<_, LinkError>(ReceivedView::Message(m)),
    ensures
        m matches MessageView::ServerHello(hello) ==> reply(l).1 == Ok::<_, ConnectErrorView>(
            Some(hello),
        ),
        m matches MessageView::Error(e) ==> reply(l).1 == Err::<Option<ServerHello>, _>(
            ConnectErrorView::Refused(refusal(e)),
        ),
        !(m is ServerHello) && !(m is Error) ==> reply(l).1 == Err::<Option<ServerHello>, _>(
            ConnectErrorView::Unexpected(unexpected(m.type_code())),
        ),
{
}

/// A feature is active only if both peers advertised it.
pub proof fn law_features_are_shared(l: LinkView, hello: ServerHello, bit: u64)
    requires
        SessionView::opened(l, hello).features & bit != 0,
    ensures
        hello.features & bit != 0,
        feature::SUPPORTED & bit != 0,
{
    let theirs = hello.features;
    let ours = feature::SUPPORTED;
    assert((theirs & ours) & bit != 0 ==> theirs & bit != 0 && ours & bit != 0) by (bit_vector);
}

/// The candidates for the offset estimate stay bounded, and keeping one never empties them.
pub proof fn law_candidates_are_bounded(recent: Seq<OffsetSample>, sample: OffsetSample)
    requires
        recent.len() <= OFFSET_CANDIDATES,
    ensures
        0 < with_candidate(recent, sample).len() <= OFFSET_CANDIDATES,
        with_candidate(recent, sample).last() == sample,
{
}

/// Nothing is claimed of the offset before the first pong.
pub proof fn law_nothing_is_claimed_before_a_pong(
    l: LinkView,
    hello: ServerHello,
    now_us: u64,
    best: Option<OffsetSample>,
)
    requires
        is_choice(SessionView::opened(l, hello).offsets, now_us, best),
    ensures
        best is None,
{
}

/// The candidate that is used is bounded no worse than any other, so a congested exchange does
/// not displace a good one and a stale one loses to a fresh one as soon as drift makes it worse.
pub proof fn law_the_tightest_bound_wins(
    recent: Seq<OffsetSample>,
    now_us: u64,
    best: Option<OffsetSample>,
    other: OffsetSample,
)
    requires
        is_choice(recent, now_us, best),
        recent.contains(other),
    ensures
        best is Some,
        best->0.error_bound(now_us) <= other.error_bound(now_us),
{
    let j = choose|j: int| 0 <= j < recent.len() && recent[j] == other;
    assert(recent[j].error_bound(now_us) == other.error_bound(now_us));
}

/// A sample's bound starts at half its round trip and only grows as it ages.
pub proof fn law_bounds_grow_with_age(sample: OffsetSample, earlier_us: u64, later_us: u64)
    requires
        earlier_us <= later_us,
    ensures
        sample.error_bound(sample.taken_at_us) == sample.rtt_us / 2,
        sample.error_bound(earlier_us) <= sample.error_bound(later_us),
{
}

/// The candidates held after some exchanges, one after the other.
pub open spec fn candidates_of(samples: Seq<OffsetSample>) -> Seq<OffsetSample>
    decreases samples.len(),
{
    if samples.len() == 0 {
        Seq::empty()
    } else {
        with_candidate(candidates_of(samples.drop_last()), samples.last())
    }
}

/// The last exchanges are the candidates, as many as are kept.
proof fn lemma_candidates(samples: Seq<OffsetSample>)
    ensures
        candidates_of(samples) == samples.skip(
            if samples.len() < OFFSET_CANDIDATES {
                0
            } else {
                samples.len() - OFFSET_CANDIDATES
            },
        ),
    decreases samples.len(),
{
    if samples.len() == 0 {
        assert(candidates_of(samples) =~= samples.skip(0));
    } else {
        lemma_candidates(samples.drop_last());
        assert(candidates_of(samples) =~= samples.skip(
            if samples.len() < OFFSET_CANDIDATES {
                0
            } else {
                samples.len() - OFFSET_CANDIDATES
            },
        ));
    }
}

/// Over all the exchanges there were, the estimate comes from one of the last
/// [`OFFSET_CANDIDATES`], and none of those has a smaller total error bound: neither the newest nor
/// the lowest round trip as such. There is none exactly when there was no exchange.
pub proof fn law_the_best_recent_exchange_is_used(
    samples: Seq<OffsetSample>,
    now_us: u64,
    best: Option<OffsetSample>,
)
    requires
        is_choice(candidates_of(samples), now_us, best),
    ensures
        best is None <==> samples.len() == 0,
        best matches Some(sample) ==> {
            let oldest = if samples.len() < OFFSET_CANDIDATES {
                0
            } else {
                samples.len() - OFFSET_CANDIDATES
            };
            &&& exists|i: int| oldest <= i < samples.len() && sample == #[trigger] samples[i]
            &&& forall|j: int|
                oldest <= j < samples.len() ==> sample.error_bound(now_us) <= (
                #[trigger] samples[j]).error_bound(now_us)
        },
{
    lemma_candidates(samples);
    let recent = candidates_of(samples);
    let oldest = if samples.len() < OFFSET_CANDIDATES {
        0
    } else {
        samples.len() - OFFSET_CANDIDATES
    };
    if let Some(sample) = best {
        let i = choose|i: int| #[trigger] is_best(recent, now_us, i) && sample == recent[i];
        assert(samples[oldest + i] == sample);
        assert forall|j: int| oldest <= j < samples.len() implies sample.error_bound(now_us) <= (
        #[trigger] samples[j]).error_bound(now_us) by {
            assert(recent[j - oldest].error_bound(now_us) == samples[j].error_bound(now_us));
        }
    }
}

/// An offset is out by at most half the round trip it came from and 100 millionths of its age. An
/// exchange that is yet to come has no age.
pub proof fn law_bounds_add_up(sample: &OffsetSample, now_us: u64, r: u64)
    requires
        call_ensures(OffsetSample::error_bound_us, (sample, now_us), r),
    ensures
        now_us <= sample.taken_at_us ==> r == sample.rtt_us / 2,
        now_us > sample.taken_at_us && (now_us - sample.taken_at_us) * 100 <= 0xffff_ffff_ffff_ffff
            ==> r == sample.rtt_us / 2 + (now_us - sample.taken_at_us) / 10_000,
        now_us > sample.taken_at_us && (now_us - sample.taken_at_us) * 100 > 0xffff_ffff_ffff_ffff
            ==> r == sample.rtt_us / 2 + 18_446_744_073_709,
{
}

/// The last 64 exchanges are the candidates, in the order they came in.
pub proof fn law_candidates_are_the_last(sample: OffsetSample)
    ensures
        forall|e: OffsetEstimate| #[trigger]
            call_ensures(OffsetEstimate::new, (), e) ==> e@.len() == 0,
        forall|p: &mut OffsetEstimate, len: usize|
            #![trigger call_ensures(OffsetEstimate::push, (p, sample), ()), call_ensures(OffsetEstimate::len, (&*final(p),), len)]
            call_ensures(OffsetEstimate::push, (p, sample), ()) && call_ensures(
                OffsetEstimate::len,
                (&*final(p),),
                len,
            ) ==> {
                &&& len == final(p)@.len()
                &&& (*p)@.len() < 64 ==> final(p)@ == (*p)@ + seq![sample]
                &&& (*p)@.len() == 64 ==> final(p)@ == (*p)@.skip(1) + seq![sample]
            },
{
    assert forall|p: &mut OffsetEstimate, len: usize|
        #![trigger call_ensures(OffsetEstimate::push, (p, sample), ()), call_ensures(OffsetEstimate::len, (&*final(p),), len)]
        call_ensures(OffsetEstimate::push, (p, sample), ()) && call_ensures(
            OffsetEstimate::len,
            (&*final(p),),
            len,
        ) implies {
        &&& len == final(p)@.len()
        &&& (*p)@.len() < 64 ==> final(p)@ == (*p)@ + seq![sample]
        &&& (*p)@.len() == 64 ==> final(p)@ == (*p)@.skip(1) + seq![sample]
    } by {
        let recent = (*p)@;
        assert(recent.push(sample) =~= recent + seq![sample]);
        assert(recent.len() > 0 ==> recent.drop_first().push(sample) =~= recent.skip(1)
            + seq![sample]);
    }
}

/// The candidate that is used is one of those held. None is bounded tighter, and none that came in
/// before it as tightly.
pub proof fn law_the_first_tightest_candidate_is_used(
    e: &OffsetEstimate,
    now_us: u64,
    best: Option<OffsetSample>,
    bound: u64,
    j: int,
    other: u64,
)
    requires
        call_ensures(OffsetEstimate::best, (e, now_us), best),
        best is Some ==> call_ensures(
            OffsetSample::error_bound_us,
            (&best->Some_0, now_us),
            bound,
        ),
        0 <= j < e@.len(),
        call_ensures(OffsetSample::error_bound_us, (&e@[j], now_us), other),
    ensures
        best is Some,
        e@.contains(best->0),
        bound <= other,
        exists|i: int| 0 <= i < e@.len() && e@[i] == best->0 && (j < i ==> bound < other),
{
    let i = choose|i: int| #[trigger] is_best(e@, now_us, i) && best->0 == e@[i];
    assert(is_best(e@, now_us, i));
    assert(e@[i].error_bound(now_us) <= e@[j].error_bound(now_us));
    assert(j < i ==> e@[i].error_bound(now_us) < e@[j].error_bound(now_us));
}

/// The session speaks of the exchange that [`OffsetEstimate::best`] picks.
pub proof fn law_offsets_come_from_the_best(
    s: &ClientSession,
    e: &OffsetEstimate,
    now_us: u64,
    best: Option<OffsetSample>,
    r: Option<OffsetSample>,
)
    requires
        e@ == s@.offsets,
        call_ensures(OffsetEstimate::best, (e, now_us), best),
        call_ensures(ClientSession::offset_at, (s, now_us), r),
    ensures
        r == best,
{
    if s@.offsets.len() > 0 {
        let i = choose|i: int| #[trigger] is_best(e@, now_us, i) && best->0 == e@[i];
        let j = choose|j: int| #[trigger] is_best(e@, now_us, j) && r->0 == e@[j];
        assert(is_best(e@, now_us, i) && is_best(e@, now_us, j));
        assert(e@[i].error_bound(now_us) <= e@[j].error_bound(now_us));
        assert(e@[j].error_bound(now_us) <= e@[i].error_bound(now_us));
        assert(i == j);
    }
}

/// A session is opened by a hello of version 1 with the configuration's token, name, codecs and
/// outputs, which asks for the cursor, acknowledgements, window requests, text and icons.
pub proof fn law_hellos_carry_the_configuration(
    config: &SessionConfig,
    r: EncodeResult<Link>,
    idle: Link,
    m: Message,
)
    requires
        call_ensures(ClientSession::greet, (config,), r),
        call_ensures(Link::new, (), idle),
        m matches Message::ClientHello(h) && h.version_min == 1 && h.version_max == 1 && h.features
            == 0x3b && h.auth_token@ == config.auth_token@ && h.client_name@ == config.client_name@
            && h.codecs@ == config.codecs@ && h.display.outputs@ == config.display.outputs@,
    ensures
        idle@.outbound.len() == 0 && idle@.inbound.len() == 0,
        forall|l: &mut Link, queued: EncodeResult<()>| #[trigger]
            call_ensures(Link::queue, (l, &m), queued) && (*l)@ == idle@ ==> {
                &&& r is Ok <==> queued is Ok
                &&& r matches Ok(link) ==> link@ == final(l)@
                &&& r matches Err(e) ==> queued == Err::<(), _>(e)
            },
{
    assert(1u64 | 2 | 8 | 0x10 | 0x20 == 0x3b) by (bit_vector);
    assert(m@ == MessageView::ClientHello(config.hello()));
}

/// A session is what the agent's hello says: its version, codec and id, and of its features those
/// that were asked for. Nothing has been pinged or measured.
pub proof fn law_sessions_open_as_agreed(
    link: Link,
    hello: ServerHello,
    clock: ClientClock,
    s: ClientSession,
    bit: u64,
    has: bool,
)
    requires
        call_ensures(ClientSession::open, (link, hello, clock), s),
        call_ensures(ClientSession::has_feature, (&s, bit), has),
    ensures
        s@.version == hello.version,
        s@.features == hello.features & 0x3b,
        s@.codec == hello.codec,
        s@.session_id == hello.session_id,
        has <==> hello.features & 0x3b & bit != 0,
        s@.link == link@,
        s@.ping_seq == 0,
        s@.offsets.len() == 0,
        s@.clock_sync.rtt.len() == 0,
        s@.clock_sync.window == 128,
        s@.clock_sync.offset is None,
        s.own_clock() == clock,
{
    assert(1u64 | 2 | 8 | 0x10 | 0x20 == 0x3b) by (bit_vector);
}

/// Pings are numbered one after the other, carry the time they are sent at, and are remembered.
pub proof fn law_pings_are_numbered(now_us: u64, m: Message)
    ensures
        forall|p: &mut ClientSession, l: &mut Link, queued: EncodeResult<()>|
            #![trigger call_ensures(ClientSession::ping_at, (p, now_us), ()), call_ensures(Link::queue, (l, &m), queued)]
            call_ensures(ClientSession::ping_at, (p, now_us), ()) && (*l)@ == (*p)@.link && (
            m matches Message::Ping(ping) && ping.seq == (*p)@.ping_seq && ping.sent_us == now_us)
                && call_ensures(Link::queue, (l, &m), queued) ==> {
                &&& final(p)@.link == final(l)@
                &&& (*p)@.ping_seq < 0xffff_ffff ==> final(p)@.ping_seq == (*p)@.ping_seq + 1
                &&& (*p)@.ping_seq == 0xffff_ffff ==> final(p)@.ping_seq == 0
                &&& final(p)@.clock_sync.pending == (*p)@.clock_sync.pending.insert(
                    (*p)@.ping_seq,
                    now_us,
                )
                &&& final(p)@.offsets == (*p)@.offsets
            },
{
}

/// A message that the agent sends of a window, a frame, the cursor, an error or the end surfaces as
/// the event of its name, with what it holds, and is consumed.
pub proof fn law_messages_surface_as_events(m: Message, now_us: u64)
    ensures
        forall|
            p: &mut ClientSession,
            l: &mut Link,
            r: Result<Option<ClientEvent>, LinkError>,
        |
            #![trigger call_ensures(ClientSession::next_event_at, (p, now_us), r), call_ensures(Link::next, (l,), Ok(Received::Message(m)))]
            call_ensures(ClientSession::next_event_at, (p, now_us), r) && call_ensures(
                Link::next,
                (l,),
                Ok(Received::Message(m)),
            ) && (*l)@ == (*p)@.link ==> {
                let event: Option<ClientEvent> = match r {
                    Ok(event) => event,
                    Err(_) => None,
                };
                &&& m matches Message::WindowOpened(x) ==> (
                event matches Some(ClientEvent::WindowOpened(y)) && y@ == x@)
                &&& m matches Message::WindowClosed(x) ==> (
                event matches Some(ClientEvent::WindowClosed(y)) && y == x)
                &&& m matches Message::WindowGeometry(x) ==> (
                event matches Some(ClientEvent::WindowGeometry(y)) && y == x)
                &&& m matches Message::WindowTitle(x) ==> (
                event matches Some(ClientEvent::WindowTitle(y)) && y@ == x@)
                &&& m matches Message::WindowState(x) ==> (
                event matches Some(ClientEvent::WindowState(y)) && y == x)
                &&& m matches Message::WindowZOrder(x) ==> (
                event matches Some(ClientEvent::WindowZOrder(y)) && y == x)
                &&& m matches Message::WindowIcon(x) ==> (
                event matches Some(ClientEvent::WindowIcon(y)) && y@ == x@)
                &&& m matches Message::FrameData(x) ==> (
                event matches Some(ClientEvent::Frame(y)) && y@ == x@)
                &&& m matches Message::CursorShape(x) ==> (
                event matches Some(ClientEvent::CursorShape(y)) && y@ == x@)
                &&& m matches Message::CursorPosition(x) ==> (
                event matches Some(ClientEvent::CursorPosition(y)) && y == x)
                &&& m matches Message::CursorVisibility(x) ==> (
                event matches Some(ClientEvent::CursorVisibility(y)) && y == x)
                &&& m matches Message::Error(x) ==> (
                event matches Some(ClientEvent::Error(y)) && y@ == x@)
                &&& m matches Message::Close(x) ==> (
                event matches Some(ClientEvent::Closed(y)) && y == x)
                &&& event_of(m@) is Some ==> final(p)@ == (SessionView {
                    link: final(l)@,
                    ..(*p)@
                })
            },
{
}

/// A ping is answered with a pong of its number and time, and what comes next comes as if it had not
/// been there.
pub proof fn law_pings_are_echoed(ping: Ping, pong: Message, now_us: u64)
    requires
        pong matches Message::Pong(x) && x.seq == ping.seq && x.sent_us == ping.sent_us
            && x.agent_us == 0,
    ensures
        forall|
            p: &mut ClientSession,
            q: &mut ClientSession,
            l: &mut Link,
            k: &mut Link,
            queued: EncodeResult<()>,
            r: Result<Option<ClientEvent>, LinkError>,
            s: Result<Option<ClientEvent>, LinkError>,
        |
            #![trigger call_ensures(ClientSession::next_event_at, (p, now_us), r), call_ensures(Link::next, (l,), Ok(Received::Message(Message::Ping(ping)))), call_ensures(Link::queue, (k, &pong), queued), call_ensures(ClientSession::next_event_at, (q, now_us), s)]
            call_ensures(ClientSession::next_event_at, (p, now_us), r) && call_ensures(
                Link::next,
                (l,),
                Ok(Received::Message(Message::Ping(ping))),
            ) && (*l)@ == (*p)@.link && call_ensures(Link::queue, (k, &pong), queued) && (*k)@
                == final(l)@ && call_ensures(ClientSession::next_event_at, (q, now_us), s)
                && (*q)@ == (SessionView { link: final(k)@, ..(*p)@ }) ==> final(p)@ == final(q)@
                && r is Ok == s is Ok,
{
    assert forall|
        p: &mut ClientSession,
        q: &mut ClientSession,
        l: &mut Link,
        k: &mut Link,
        queued: EncodeResult<()>,
        r: Result<Option<ClientEvent>, LinkError>,
        s: Result<Option<ClientEvent>, LinkError>,
    |
        #![trigger call_ensures(ClientSession::next_event_at, (p, now_us), r), call_ensures(Link::next, (l,), Ok(Received::Message(Message::Ping(ping)))), call_ensures(Link::queue, (k, &pong), queued), call_ensures(ClientSession::next_event_at, (q, now_us), s)]
        call_ensures(ClientSession::next_event_at, (p, now_us), r) && call_ensures(
            Link::next,
            (l,),
            Ok(Received::Message(Message::Ping(ping))),
        ) && (*l)@ == (*p)@.link && call_ensures(Link::queue, (k, &pong), queued) && (*k)@
            == final(l)@ && call_ensures(ClientSession::next_event_at, (q, now_us), s) && (*q)@
            == (SessionView { link: final(k)@, ..(*p)@ }) implies final(p)@ == final(q)@
        && r is Ok == s is Ok by {
        lemma_pongs_ahead((*p)@.advanced(), (*q)@);
        law_pings_are_answered(
            (*p)@,
            ping,
            Seq::new((*p)@.pongs_ahead(), |i: int| now_us),
        );
    }
}

/// The agent's answer to the hello opens the session, or is reported: a refusal in the agent's own
/// words, behind whether it was the token that it rejected.
pub proof fn law_answers_are_reported(m: Message)
    ensures
        forall|
            l: &mut Link,
            k: &mut Link,
            r: Result<Option<ServerHello>, ConnectError>,
        |
            #![trigger call_ensures(ClientSession::await_hello, (l,), r), call_ensures(Link::next, (k,), Ok(Received::Message(m)))]
            call_ensures(ClientSession::await_hello, (l,), r) && call_ensures(
                Link::next,
                (k,),
                Ok(Received::Message(m)),
            ) && (*k)@ == (*l)@ ==> {
                &&& final(l)@ == final(k)@
                &&& m matches Message::ServerHello(hello) ==> r == Ok::<_, ConnectError>(
                    Some(hello),
                )
                &&& m matches Message::Error(e) ==> (r matches Err(ConnectError::Refused(why))
                    && why@ == (if e.code == 2 {
                    "authentication rejected by the agent"@
                } else {
                    "agent refused the session"@
                }) + ": "@ + e.message@ + " (code "@ + text::decimal(e.code as nat) + ")"@)
                &&& !(m is ServerHello) && !(m is Error) ==> r matches Err(
                    ConnectError::Unexpected(_),
                )
            },
{
}

/// A message is sent as [`Link::queue`] queues it, and nothing else changes; what is left to send is
/// what the link has left, and the round trips are those of the clock.
pub proof fn law_messages_are_sent(m: &Message)
    ensures
        forall|p: &mut ClientSession, l: &mut Link, r: EncodeResult<()>, queued: EncodeResult<()>|
            #![trigger call_ensures(ClientSession::send, (p, m), r), call_ensures(Link::queue, (l, m), queued)]
            call_ensures(ClientSession::send, (p, m), r) && call_ensures(
                Link::queue,
                (l, m),
                queued,
            ) && (*l)@ == (*p)@.link ==> {
                &&& r is Ok <==> queued is Ok
                &&& final(p)@ == (SessionView { link: final(l)@, ..(*p)@ })
                &&& final(p).own_clock() == (*p).own_clock()
            },
        forall|p: &ClientSession, unsent: &[u8], rtt: &Samples, clock: ClientClock|
            #![trigger call_ensures(ClientSession::unsent, (p,), unsent), call_ensures(ClientSession::rtt_us, (p,), rtt), call_ensures(ClientSession::clock, (p,), clock)]
            call_ensures(ClientSession::unsent, (p,), unsent) && call_ensures(
                ClientSession::rtt_us,
                (p,),
                rtt,
            ) && call_ensures(ClientSession::clock, (p,), clock) ==> unsent@ == p@.link.outbound
                && rtt@ == p@.clock_sync.rtt && clock == p.own_clock(),
{
}

/// Connecting is awaiting the agent's hello and opening the session it describes; while there is none
/// the link comes back, with the error where there is one.
pub proof fn law_connecting_awaits_the_hello(
    link: Link,
    r: Result<ClientSession, (Link, Option<ConnectError>)>,
)
    requires
        call_ensures(ClientSession::connect, (link,), r),
    ensures
        forall|l: &mut Link, answer: Result<Option<ServerHello>, ConnectError>| #[trigger]
            call_ensures(ClientSession::await_hello, (l,), answer) && (*l)@ == link@ ==> match answer {
                Ok(Some(hello)) => r matches Ok(s) && s@.link == final(l)@ && s@.version
                    == hello.version && s@.codec == hello.codec && s@.session_id
                    == hello.session_id && s@.features == hello.features & 0x3b && s@.ping_seq
                    == 0,
                Ok(None) => r matches Err((rest, None)) && rest@ == final(l)@,
                Err(e) => r matches Err((rest, Some(f))) && f@ == e@ && rest@ == final(l)@,
            },
{
    assert(1u64 | 2 | 8 | 0x10 | 0x20 == 0x3b) by (bit_vector);
}

} // verus!
