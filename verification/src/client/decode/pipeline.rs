//! Decode off the session task: one worker per window.
//!
//! # Why this exists
//!
//! Decoding on the session task charges every frame's decode time to the input path: the task
//! that reads the network also writes pointer and key events, so a frame being decoded is a
//! frame's worth of added input latency. At 800x600 that is invisible. At 4K, or with several
//! windows, input latency starts tracking decode time, which defeats the purpose.
//!
//! # One worker per window, and why not a pool
//!
//! A pool cannot help. H.264 inter prediction makes the frames of one window strictly serial
//! (frame N+1 is decoded *from* frame N), so the only parallelism available is across windows,
//! which is exactly what a worker per window already extracts. What a pool would add is
//! reordering: two threads taking frames off one queue can finish out of order, and there is no
//! ordering problem here to solve, only one to create.
//!
//! **Ordering therefore needs no machinery.** One queue and one worker per window is FIFO, and
//! arrival order is `frame_id` order because there are no B-frames. Across windows there is no
//! ordering to preserve. What a [`Worker`] owes is one [`FrameReport`] for each frame it is
//! given, carrying that frame's own ids.
//!
//! # Backpressure
//!
//! The agent drops the oldest unacknowledged frame rather than queue, because queueing turns a
//! bandwidth dip into unbounded latency. **The agent can drop a frame and the client cannot.**
//! The agent drops before encoding, so it simply encodes newer content. A client that drops an
//! inter frame has corrupted every frame after it until the next IDR, and it has no way to ask
//! for one. So the client does not drop. Each worker's queue is bounded by [`QUEUE_DEPTH`], and
//! a caller that cannot place a frame stops reading the network instead.

use vstd::prelude::*;

use super::{new_decoder, DecodeError, DecodeErrorView, Decoder, StreamDecoder};
use crate::client::clock::ClientClock;
use crate::client::decode;
use crate::proto::message::{FrameData, FrameDataView};

verus! {

/// Frames a window's worker may hold before its producer must stop reading the network.
///
/// Deliberately larger than the agent's default in-flight budget of 2 so that flow control, not
/// this queue, is what limits the stream in normal operation, and small enough that a peer
/// ignoring flow control cannot convert its head start into latency.
pub const QUEUE_DEPTH: usize = 4;

/// A frame the decoder finished with that will never reach the display.
///
/// It still has to be acknowledged. The agent bounds its unacknowledged frames per window, and a
/// frame the client silently swallows would hold a slot in that budget forever.
#[derive(Debug, Clone, Copy, PartialEq, Eq)]
pub struct DroppedFrame {
    /// Window the frame belonged to.
    pub window_id: u32,
    /// Frame that will not be presented.
    pub frame_id: u64,
    /// When the decoder finished with it, on the client clock.
    pub finished_us: u64,
}

/// What the session is told about one frame.
#[derive(Debug, Clone, Copy, PartialEq, Eq)]
pub enum FrameReport {
    /// It was decoded, and goes to the display.
    Decoded {
        /// Window the frame belongs to.
        window_id: u32,
        /// Frame that was decoded.
        frame_id: u64,
        /// When the decoder finished with it, on the client clock.
        decoded_us: u64,
    },
    /// It will never be presented.
    Dropped(DroppedFrame),
}

/// Builds a decoder for one window's stream, given the window id and the codec on the wire.
///
/// Takes the window id because a decoder belongs to a window: it is built on the worker, so a
/// factory keyed only on the codec could not tell two windows apart in the order they happen to
/// start.
pub trait DecoderFactory {
    /// The decoders it builds.
    type Made: Decoder;

    /// Builds a decoder.
    ///
    /// # Errors
    ///
    /// Whatever kept the decoder from being built.
    fn make(&self, window_id: u32, codec: u8) -> Result<Self::Made, DecodeError>;
}

/// The factory that defers to [`new_decoder`].
#[derive(Debug, Clone, Copy)]
pub struct StreamDecoders;

impl DecoderFactory for StreamDecoders {
    type Made = StreamDecoder;

    fn make(&self, _window_id: u32, codec: u8) -> (r: Result<StreamDecoder, DecodeError>)
        ensures
            match r {
                Ok(decoder) => decode::codec_list(true).contains(codec) && decoder.state()
                    == decode::fresh(codec),
                Err(DecodeError::UnsupportedCodec(id)) => !decode::codec_list(true).contains(codec)
                    && id == codec,
                Err(e) => codec == crate::proto::message::codec::H264 && decode::is_init(e@),
            },
    {
        new_decoder(codec)
    }
}

/// One window's decode state.
pub struct Worker<D: Decoder> {
    window_id: u32,
    decoder: Option<D>,
}

/// Why a frame a worker was given will not be presented.
#[derive(Debug, Clone, PartialEq, Eq)]
pub enum DropReason {
    /// It needed a decoder that could not be built.
    NoDecoder(DecodeError),
    /// It could not be decoded.
    Failed(DecodeError),
    /// It was consumed without yielding a picture.
    NoPicture,
}

impl<D: Decoder> Worker<D> {
    /// The window this worker decodes.
    pub closed spec fn window(&self) -> u32 {
        self.window_id
    }

    /// The decoder in use, if there is one.
    pub closed spec fn held(&self) -> Option<D> {
        self.decoder
    }

    /// Whether a frame can go to the decoder in use.
    pub open spec fn ready_for(&self, codec: u8) -> bool {
        self.held() matches Some(decoder) && decoder.consumes() == codec
    }

    /// The decoder in use, if there is one.
    pub fn decoder(&self) -> (r: Option<&D>)
        ensures
            match r {
                None => self.held() is None,
                Some(decoder) => self.held() == Some(*decoder),
            },
    {
        self.decoder.as_ref()
    }

    /// A worker that has seen no frame.
    pub fn new(window_id: u32) -> (r: Self)
        ensures
            r.window() == window_id,
            r.held() is None,
    {
        Worker { window_id, decoder: None }
    }

    /// Takes a decoder for the stream that starts here: a codec change mid-stream is a fresh
    /// stream, and the old decoder's reference pictures mean nothing to it.
    fn start(&mut self, made: Result<D, DecodeError>) -> (r: Result<(), DecodeError>)
        ensures
            final(self).window() == old(self).window(),
            match made {
                Ok(decoder) => r is Ok && final(self).held() == Some(decoder),
                Err(e) => r == Err::<(), DecodeError>(e) && final(self).held() is None,
            },
    {
        match made {
            Ok(decoder) => {
                self.decoder = Some(decoder);
                Ok(())
            },
            Err(e) => {
                self.decoder = None;
                Err(e)
            },
        }
    }

    /// Decodes one frame with the decoder in use.
    fn decode(&mut self, frame: FrameData) -> (r: Result<FrameData, DropReason>)
        requires
            old(self).held() is Some,
        ensures
            final(self).window() == old(self).window(),
            final(self).held() is Some,
            final(self).held()->0.consumes() == old(self).held()->0.consumes(),
            decoded_by(old(self).held()->0, frame@, r, final(self).held()),
            old(self).ready_for(frame.codec) ==> (r matches Ok(out) ==> decode::presentable(
                frame@,
                out@,
            )),
    {
        match &mut self.decoder {
            None => {
                assert(false);
                Err(DropReason::NoPicture)
            },
            Some(decoder) => match decoder.decode(frame) {
                Ok(Some(out)) => Ok(out),
                Ok(None) => Err(DropReason::NoPicture),
                Err(e) => Err(DropReason::Failed(e)),
            },
        }
    }

    /// Decodes one frame, building a decoder first if the window has none for its codec.
    fn take<F: DecoderFactory<Made = D>>(&mut self, frame: FrameData, factory: &F) -> (r:
        Result<FrameData, DropReason>)
        ensures
            final(self).window() == old(self).window(),
            old(self).ready_for(frame.codec) ==> {
                &&& final(self).ready_for(frame.codec)
                &&& decoded_by(old(self).held()->0, frame@, r, final(self).held())
                &&& r matches Ok(out) ==> decode::presentable(frame@, out@)
            },
            !old(self).ready_for(frame.codec) ==> exists|made: Result<D, DecodeError>|
                #[trigger] started(factory, old(self).window(), frame, made, r, final(self).held()),
    {
        let ghost wire = frame;
        let stale = match &self.decoder {
            None => true,
            Some(decoder) => decoder.codec() != frame.codec,
        };
        assert(stale == !old(self).ready_for(frame.codec));
        if !stale {
            return self.decode(frame);
        }
        let made = factory.make(self.window_id, frame.codec);
        let ghost outcome = made;
        match self.start(made) {
            Err(e) => {
                let r = Err(DropReason::NoDecoder(e));
                assert(started(factory, self.window(), wire, outcome, r, self.held()));
                r
            },
            Ok(()) => {
                let r = self.decode(frame);
                assert(started(factory, self.window(), wire, outcome, r, self.held()));
                r
            },
        }
    }

    /// Decodes one frame and says what became of it.
    ///
    /// Frames arrive in `frame_id` order and leave in the same order, because each frame gets
    /// exactly one report, and it is the frame's own.
    pub fn handle<F: DecoderFactory<Made = D>>(
        &mut self,
        frame: FrameData,
        factory: &F,
        clock: ClientClock,
    ) -> (r: (Result<FrameData, DropReason>, FrameReport))
        ensures
            final(self).window() == old(self).window(),
            exists|finished_us: u64|
                r.1 == #[trigger] report_of(
                    old(self).window(),
                    frame.frame_id,
                    r.0 is Ok,
                    finished_us,
                ) && clock.may_read(finished_us),
            old(self).ready_for(frame.codec) ==> {
                &&& final(self).ready_for(frame.codec)
                &&& decoded_by(old(self).held()->0, frame@, r.0, final(self).held())
                &&& r.0 matches Ok(out) ==> decode::presentable(frame@, out@)
            },
            !old(self).ready_for(frame.codec) ==> exists|made: Result<D, DecodeError>|
                #[trigger] started(
                    factory,
                    old(self).window(),
                    frame,
                    made,
                    r.0,
                    final(self).held(),
                ),
    {
        let frame_id: u64 = frame.frame_id;
        let taken = self.take(frame, factory);
        let finished_us: u64 = clock.now_us();
        let said = report(self.window_id, frame_id, &taken, finished_us);
        assert(said == report_of(old(self).window(), frame_id, taken is Ok, finished_us));
        (taken, said)
    }
}

/// What the decoder gave for a frame a worker was given, if the frame reached one.
pub open spec fn outcome(r: Result<FrameData, DropReason>) -> Option<
    Result<Option<FrameDataView>, DecodeErrorView>,
> {
    match r {
        Ok(out) => Some(Ok(Some(out@))),
        Err(DropReason::NoPicture) => Some(Ok(None)),
        Err(DropReason::Failed(e)) => Some(Err(e@)),
        Err(DropReason::NoDecoder(_)) => None,
    }
}

/// Whether `decoder` may decode `frame` to `r`, and what it then is, is what is held: the next
/// frame is decoded from this one.
pub open spec fn decoded_by<D: Decoder>(
    decoder: D,
    frame: FrameDataView,
    r: Result<FrameData, DropReason>,
    held: Option<D>,
) -> bool {
    &&& held is Some
    &&& outcome(r) is Some
    &&& decoder.steps_to(frame, outcome(r)->0, &held->0)
}

/// Whether starting a stream with `made` and decoding its first frame may give `r` and leave
/// `held`.
pub open spec fn started<D: Decoder, F: DecoderFactory<Made = D>>(
    factory: &F,
    window_id: u32,
    frame: FrameData,
    made: Result<D, DecodeError>,
    r: Result<FrameData, DropReason>,
    held: Option<D>,
) -> bool {
    &&& call_ensures(F::make, (factory, window_id, frame.codec), made)
    &&& match made {
        Err(e) => r == Err::<FrameData, DropReason>(DropReason::NoDecoder(e)) && held is None,
        Ok(decoder) => {
            &&& held is Some
            &&& held->0.consumes() == decoder.consumes()
            &&& decoded_by(decoder, frame@, r, held)
            &&& decoder.consumes() == frame.codec ==> (r matches Ok(out) ==> decode::presentable(
                frame@,
                out@,
            ))
        },
    }
}

/// The report on a frame: decoded frames go on, and everything else is acknowledged as dropped.
pub open spec fn report_of(
    window_id: u32,
    frame_id: u64,
    decoded: bool,
    finished_us: u64,
) -> FrameReport {
    if decoded {
        FrameReport::Decoded { window_id, frame_id, decoded_us: finished_us }
    } else {
        FrameReport::Dropped(DroppedFrame { window_id, frame_id, finished_us })
    }
}

/// The report on a frame the decoder finished with at `finished_us`.
pub fn report(
    window_id: u32,
    frame_id: u64,
    taken: &Result<FrameData, DropReason>,
    finished_us: u64,
) -> (r: FrameReport)
    ensures
        r == report_of(window_id, frame_id, *taken is Ok, finished_us),
{
    match taken {
        Ok(_) => FrameReport::Decoded { window_id, frame_id, decoded_us: finished_us },
        Err(_) => FrameReport::Dropped(DroppedFrame { window_id, frame_id, finished_us }),
    }
}

/// A frame that was decoded is reported as decoded and any other as dropped, with its own ids and the
/// time the decoder was done with it.
pub proof fn law_frames_are_reported(
    window_id: u32,
    frame_id: u64,
    taken: &Result<FrameData, DropReason>,
    finished_us: u64,
    r: FrameReport,
)
    requires
        call_ensures(report, (window_id, frame_id, taken, finished_us), r),
    ensures
        *taken is Ok ==> (r matches FrameReport::Decoded {
            window_id: w,
            frame_id: f,
            decoded_us: t,
        } && w == window_id && f == frame_id && t == finished_us),
        *taken is Err ==> (r matches FrameReport::Dropped(d) && d.window_id == window_id
            && d.frame_id == frame_id && d.finished_us == finished_us),
{
}

/// A frame that a worker is given is reported with the worker's window and the frame's own id, as
/// decoded exactly where there is a picture of it.
pub proof fn law_workers_report_every_frame<D: Decoder, F: DecoderFactory<Made = D>>(
    frame: FrameData,
    factory: &F,
    clock: ClientClock,
)
    ensures
        forall|w: &mut Worker<D>, r: (Result<FrameData, DropReason>, FrameReport)| #[trigger]
            call_ensures(Worker::<D>::handle::<F>, (w, frame, factory, clock), r) ==> {
                &&& final(w).window() == (*w).window()
                &&& match r.1 {
                    FrameReport::Decoded { window_id, frame_id, decoded_us } => r.0 is Ok
                        && window_id == (*w).window() && frame_id == frame.frame_id
                        && clock.may_read(decoded_us),
                    FrameReport::Dropped(d) => r.0 is Err && d.window_id == (*w).window()
                        && d.frame_id == frame.frame_id && clock.may_read(d.finished_us),
                }
            },
{
}

} // verus!
