//! A session without windows: events are printed, frames are decoded and acknowledged.
//!
//! It still decodes. It is the bring-up path for a machine with no display server, so it has to
//! exercise the decoder rather than route around it.

use std::collections::HashMap;

use vstd::prelude::*;

use crate::client::clock::ClientClock;
use crate::client::decode;
use crate::client::decode::{
    DecodeError, DecodeErrorView, StreamDecoder, StreamState, WindowDecoders,
};
use crate::client::describe;
use crate::client::describe::{describe_event, Line, LineView};
use crate::client::driver;
use crate::client::driver::frame_ack;
use crate::client::event::{ClientEvent, ClientEventView};
use crate::proto::message::{FrameDataView, Message};
use crate::text;

verus! {

/// What a [`HeadlessTask`] holds.
pub struct HeadlessView {
    /// The state of each window's decoder.
    pub streams: Map<u32, StreamState>,
    /// How many frames of each window were counted.
    pub counts: Map<u32, u64>,
}

/// What a decoder gave for a frame.
pub type Outcome = Result<Option<FrameDataView>, DecodeErrorView>;

/// What is printed when a frame could not be decoded.
pub open spec fn dropped_text(frame: FrameDataView, e: DecodeErrorView) -> Seq<char> {
    "oxclient: dropped frame "@ + text::decimal(frame.frame_id as nat) + " for window "@
        + text::decimal(frame.window_id as nat) + ": "@ + e.words()
}

/// What is printed of an event, given what a decoder made of its frame.
pub open spec fn lines_for(
    event: ClientEventView,
    counts: Map<u32, u64>,
    outcome: Outcome,
) -> Seq<LineView> {
    (match describe::line_for(event, counts) {
        None => Seq::empty(),
        Some(line) => seq![line],
    }) + (match (event, outcome) {
        (ClientEventView::Frame(frame), Err(e)) => seq![LineView::Stderr(dropped_text(frame, e))],
        _ => Seq::empty(),
    })
}

/// Whether an event may leave the decoders as `after`, with `outcome` for its frame.
pub open spec fn decodes(
    before: Map<u32, StreamState>,
    event: ClientEventView,
    outcome: Outcome,
    after: Map<u32, StreamState>,
) -> bool {
    match event {
        ClientEventView::Frame(frame) => decode::routes(before, frame, outcome, after),
        ClientEventView::WindowClosed(closed) => after == before.remove(closed.window_id),
        _ => after == before,
    }
}

/// What some lines hold.
pub open spec fn line_views(lines: Seq<Line>) -> Seq<LineView> {
    lines.map_values(|line: Line| line@)
}

/// Whether a message acknowledges an event's frame, if the event has one and that was agreed on.
pub open spec fn acknowledges(
    features: u64,
    event: ClientEventView,
    decoded_us: u64,
    presented_us: u64,
    message: Option<Message>,
) -> bool {
    driver::message_view(message) == match event {
        ClientEventView::Frame(frame) => driver::ack_for(
            features,
            frame.window_id,
            frame.frame_id,
            decoded_us,
            presented_us,
        ),
        _ => None,
    }
}

/// The state of a session without windows.
pub struct HeadlessTask {
    decoders: WindowDecoders,
    frame_counts: HashMap<u32, u64>,
}

impl View for HeadlessTask {
    type V = HeadlessView;

    closed spec fn view(&self) -> HeadlessView {
        HeadlessView { streams: self.decoders@, counts: self.frame_counts@ }
    }
}

impl HeadlessTask {
    /// A session that has seen nothing yet.
    pub fn new() -> (r: Self)
        ensures
            r@ == (HeadlessView { streams: Map::empty(), counts: Map::empty() }),
    {
        HeadlessTask { decoders: WindowDecoders::new(), frame_counts: HashMap::new() }
    }

    /// A window's decoder, if it has one.
    pub fn decoder(&self, window_id: u32) -> (r: Option<&StreamDecoder>)
        ensures
            match r {
                None => !self@.streams.contains_key(window_id),
                Some(decoder) => self@.streams.contains_key(window_id) && self@.streams[window_id]
                    == decoder.state(),
            },
    {
        self.decoders.get(window_id)
    }

    /// Takes in one event: gives what to print, in order, and what to tell the agent.
    ///
    /// A frame is acknowledged whether it yielded a picture or not. A frame swallowed silently
    /// would hold a slot in the agent's in-flight budget forever.
    pub fn step(&mut self, event: ClientEvent, features: u64, clock: ClientClock) -> (r: (
        Vec<Line>,
        Option<Message>,
    ))
        ensures
            final(self)@.counts == describe::counts_after(event@, old(self)@.counts),
            exists|outcome: Outcome|
                {
                    &&& #[trigger] decodes(old(self)@.streams, event@, outcome, final(self)@.streams)
                    &&& line_views(r.0@) == lines_for(event@, old(self)@.counts, outcome)
                },
            exists|decoded_us: u64, presented_us: u64|
                {
                    &&& #[trigger] acknowledges(features, event@, decoded_us, presented_us, r.1)
                    &&& event is Frame ==> clock.may_read(decoded_us) && clock.may_read(
                        presented_us,
                    )
                },
    {
        let ghost (before, counts, taken) = (self@.streams, self@.counts, event@);
        let mut lines: Vec<Line> = Vec::new();
        if let Some(line) = describe_event(&event, &mut self.frame_counts) {
            lines.push(line);
        }
        let ghost printed = line_views(lines@);
        assert(printed =~= match describe::line_for(taken, counts) {
            None => Seq::empty(),
            Some(line) => seq![line],
        });
        match event {
            ClientEvent::Frame(frame) => {
                let ghost wire = frame@;
                let (window_id, frame_id): (u32, u64) = (frame.window_id, frame.frame_id);
                let decoded = self.decoders.decode(frame);
                let ghost outcome = decode::decoded_view(decoded);
                if let Err(e) = decoded {
                    lines.push(Line::Stderr(dropped_line(window_id, frame_id, &e)));
                }
                proof {
                    assert(decodes(before, taken, outcome, self@.streams));
                    assert(line_views(lines@) =~= lines_for(taken, counts, outcome));
                }
                let decoded_us: u64 = clock.now_us();
                let presented_us: u64 = clock.now_us();
                let message = frame_ack(features, window_id, frame_id, decoded_us, presented_us);
                let r = (lines, message);
                assert(acknowledges(features, taken, decoded_us, presented_us, r.1));
                r
            },
            ClientEvent::WindowClosed(closed) => {
                self.decoders.forget(closed.window_id);
                proof {
                    let outcome: Outcome = Ok(None);
                    assert(decodes(before, taken, outcome, self@.streams));
                    assert(line_views(lines@) =~= lines_for(taken, counts, outcome));
                }
                let r: (Vec<Line>, Option<Message>) = (lines, None);
                assert(acknowledges(features, taken, 0, 0, r.1));
                r
            },
            _ => {
                proof {
                    let outcome: Outcome = Ok(None);
                    assert(decodes(before, taken, outcome, self@.streams));
                    assert(line_views(lines@) =~= lines_for(taken, counts, outcome));
                }
                let r: (Vec<Line>, Option<Message>) = (lines, None);
                assert(acknowledges(features, taken, 0, 0, r.1));
                r
            },
        }
    }
}

/// What is printed when a frame could not be decoded.
fn dropped_line(window_id: u32, frame_id: u64, e: &DecodeError) -> (r: String)
    ensures
        forall|frame: FrameDataView|
            frame.window_id == window_id && frame.frame_id == frame_id ==> r@
                == #[trigger] dropped_text(frame, e@),
{
    let mut out = "oxclient: dropped frame ".to_owned();
    text::push_decimal(&mut out, frame_id);
    text::push_str(&mut out, " for window ");
    text::push_decimal(&mut out, window_id as u64);
    text::push_str(&mut out, ": ");
    let message = e.message();
    text::push_str(&mut out, message.as_str());
    out
}

/// Every frame is acknowledged where that was agreed on, whatever the decoder made of it.
pub proof fn law_headless_acknowledges_every_frame(
    features: u64,
    frame: FrameDataView,
    decoded_us: u64,
    presented_us: u64,
    message: Option<Message>,
)
    requires
        features & crate::proto::message::feature::FRAME_ACK != 0,
        acknowledges(
            features,
            ClientEventView::Frame(frame),
            decoded_us,
            presented_us,
            message,
        ),
    ensures
        message matches Some(Message::FrameAck(ack)) && ack.window_id == frame.window_id
            && ack.frame_id == frame.frame_id,
{
}

/// A frame is acknowledged with its own ids and times of the client's clock, where that was agreed on;
/// nothing else is answered. A window that closes loses its decoder.
pub proof fn law_headless_sessions_answer_frames(
    event: ClientEvent,
    features: u64,
    clock: ClientClock,
)
    ensures
        forall|t: &mut HeadlessTask, r: (Vec<Line>, Option<Message>)| #[trigger]
            call_ensures(HeadlessTask::step, (t, event, features, clock), r) ==> {
                &&& match event {
                    ClientEvent::Frame(f) => if features & 2 == 0 {
                        r.1 is None
                    } else {
                        r.1 matches Some(Message::FrameAck(ack)) && ack.window_id == f.window_id
                            && ack.frame_id == f.frame_id && clock.may_read(ack.decoded_us)
                            && clock.may_read(ack.presented_us)
                    },
                    _ => r.1 is None,
                }
                &&& event matches ClientEvent::WindowClosed(c) ==> final(t)@.streams
                    == (*t)@.streams.remove(c.window_id)
                &&& !(event is Frame) && !(event is WindowClosed) ==> final(t)@.streams
                    == (*t)@.streams
            },
{
}

/// An event is printed as [`describe_event`] describes it, first and with the same counting.
pub proof fn law_headless_sessions_print_events(
    event: ClientEvent,
    features: u64,
    clock: ClientClock,
)
    ensures
        forall|
            t: &mut HeadlessTask,
            counts: &mut HashMap<u32, u64>,
            r: (Vec<Line>, Option<Message>),
            line: Option<Line>,
        |
            #![trigger call_ensures(HeadlessTask::step, (t, event, features, clock), r), call_ensures(describe_event, (&event, counts), line)]
            call_ensures(HeadlessTask::step, (t, event, features, clock), r) && call_ensures(
                describe_event,
                (&event, counts),
                line,
            ) && (*counts)@ == (*t)@.counts ==> {
                &&& final(t)@.counts == final(counts)@
                &&& line matches Some(l) ==> r.0@.len() > 0 && r.0@[0]@ == l@
                &&& !(event is Frame) ==> r.0@.len() == (if line is Some {
                    1int
                } else {
                    0
                })
            },
{
    assert forall|
        t: &mut HeadlessTask,
        counts: &mut HashMap<u32, u64>,
        r: (Vec<Line>, Option<Message>),
        line: Option<Line>,
    |
        #![trigger call_ensures(HeadlessTask::step, (t, event, features, clock), r), call_ensures(describe_event, (&event, counts), line)]
        call_ensures(HeadlessTask::step, (t, event, features, clock), r) && call_ensures(
            describe_event,
            (&event, counts),
            line,
        ) && (*counts)@ == (*t)@.counts implies {
        &&& final(t)@.counts == final(counts)@
        &&& line matches Some(l) ==> r.0@.len() > 0 && r.0@[0]@ == l@
        &&& !(event is Frame) ==> r.0@.len() == (if line is Some {
            1int
        } else {
            0
        })
    } by {
        let views = line_views(r.0@);
        assert(views.len() == r.0@.len());
        let outcome = choose|outcome: Outcome|
            {
                &&& #[trigger] decodes((*t)@.streams, event@, outcome, final(t)@.streams)
                &&& views == lines_for(event@, (*t)@.counts, outcome)
            };
        assert(views == lines_for(event@, (*t)@.counts, outcome));
        if views.len() > 0 {
            assert(views[0] == r.0@[0]@);
        }
    }
}

} // verus!
