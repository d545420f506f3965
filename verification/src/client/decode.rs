//! Frame decode: turn a wire [`FrameData`] into pixels the presenter can blit.
//!
//! # Where this sits
//!
//! The presenter accepts exactly one thing: `RAW_BGRA`, tightly packed, top-down, which it copies
//! as it is. Decode therefore happens *here*, on the session side, and what reaches the display
//! layer is always already-presentable pixels. That keeps the display layer codec-agnostic.
//!
//! # The contract
//!
//! A [`Decoder`] consumes one wire frame and returns either a `RAW_BGRA` frame carrying the same
//! ids and timestamps, or `None` when the frame was legitimately consumed without producing a
//! picture: the mid-GOP case, where inter-coded frames arriving before the first keyframe are
//! dropped rather than decoded into garbage. Errors are per frame and never fatal: the caller
//! logs, acknowledges the frame so the agent's in-flight budget does not stall, and carries on.

pub mod annexb;
pub mod h264;
pub mod pipeline;
pub mod yuv;

use std::collections::HashMap;

use vstd::prelude::*;

use crate::client::decode::h264::{AnswerView, Gate, H264Decoder, NoteView};
use crate::proto::message::codec;
use crate::proto::message::{FrameData, FrameDataView};
use crate::text;

verus! {

/// Largest decoded picture the client will materialise, in pixels.
///
/// A frame header is untrusted input and a decoded frame costs 4 bytes per pixel, so an
/// out-of-range geometry has to be refused *before* the allocation, not after. 16 Mpx is 64 MiB
/// of BGRA: comfortably above a 4K window (8.3 Mpx) and far below what a corrupt or hostile
/// header could otherwise ask for.
pub const MAX_DECODED_PIXELS: usize = 16 * 1024 * 1024;

/// Why a frame could not be turned into pixels.
///
/// Every variant is per frame. None of them means the session is over.
#[derive(Debug, Clone, PartialEq, Eq)]
pub enum DecodeError {
    /// No decoder is compiled in for this codec id.
    UnsupportedCodec(u8),
    /// The decoder for this codec exists but could not be created.
    Init {
        /// Codec id that failed to initialise.
        codec: u8,
        /// Message from the codec implementation.
        detail: String,
    },
    /// Payload length does not match the frame's declared geometry.
    PayloadLength {
        /// Bytes the geometry implies.
        expected: usize,
        /// Bytes actually present.
        actual: usize,
    },
    /// Frame geometry is empty, or larger than [`MAX_DECODED_PIXELS`].
    Geometry {
        /// Declared width.
        width: usize,
        /// Declared height.
        height: usize,
    },
    /// The codec rejected this frame's bitstream. The stream resynchronises at the next keyframe.
    Bitstream(String),
}

/// What a [`DecodeError`] holds.
pub enum DecodeErrorView {
    /// See [`DecodeError::UnsupportedCodec`].
    UnsupportedCodec(u8),
    /// See [`DecodeError::Init`].
    Init {
        /// Codec id that failed to initialise.
        codec: u8,
        /// Message from the codec implementation.
        detail: Seq<char>,
    },
    /// See [`DecodeError::PayloadLength`].
    PayloadLength {
        /// Bytes the geometry implies.
        expected: usize,
        /// Bytes actually present.
        actual: usize,
    },
    /// See [`DecodeError::Geometry`].
    Geometry {
        /// Declared width.
        width: usize,
        /// Declared height.
        height: usize,
    },
    /// See [`DecodeError::Bitstream`].
    Bitstream(Seq<char>),
}

impl View for DecodeError {
    type V = DecodeErrorView;

    open spec fn view(&self) -> DecodeErrorView {
        match self {
            DecodeError::UnsupportedCodec(codec) => DecodeErrorView::UnsupportedCodec(*codec),
            DecodeError::Init { codec, detail } => DecodeErrorView::Init {
                codec: *codec,
                detail: detail@,
            },
            DecodeError::PayloadLength { expected, actual } => DecodeErrorView::PayloadLength {
                expected: *expected,
                actual: *actual,
            },
            DecodeError::Geometry { width, height } => DecodeErrorView::Geometry {
                width: *width,
                height: *height,
            },
            DecodeError::Bitstream(detail) => DecodeErrorView::Bitstream(detail@),
        }
    }
}

impl DecodeErrorView {
    /// The error in words.
    pub open spec fn words(self) -> Seq<char> {
        match self {
            DecodeErrorView::UnsupportedCodec(codec) => "no decoder for codec "@ + text::decimal(
                codec as nat,
            ),
            DecodeErrorView::Init { codec, detail } => "codec "@ + text::decimal(codec as nat)
                + " failed to initialise: "@ + detail,
            DecodeErrorView::PayloadLength { expected, actual } =>
                "frame payload does not match its geometry: expected "@ + text::decimal(
                expected as nat,
            ) + " bytes, got "@ + text::decimal(actual as nat),
            DecodeErrorView::Geometry { width, height } => "unusable frame geometry "@
                + text::decimal(width as nat) + "x"@ + text::decimal(height as nat),
            DecodeErrorView::Bitstream(detail) => "bitstream rejected: "@ + detail,
        }
    }
}

impl DecodeError {
    /// The error in words.
    pub fn message(&self) -> (r: String)
        ensures
            r@ == self@.words(),
    {
        match self {
            DecodeError::UnsupportedCodec(codec) => {
                let mut out = "no decoder for codec ".to_owned();
                text::push_decimal(&mut out, *codec as u64);
                out
            },
            DecodeError::Init { codec, detail } => {
                let mut out = "codec ".to_owned();
                text::push_decimal(&mut out, *codec as u64);
                text::push_str(&mut out, " failed to initialise: ");
                text::push_str(&mut out, detail.as_str());
                out
            },
            DecodeError::PayloadLength { expected, actual } => {
                let mut out = "frame payload does not match its geometry: expected ".to_owned();
                text::push_decimal(&mut out, *expected as u64);
                text::push_str(&mut out, " bytes, got ");
                text::push_decimal(&mut out, *actual as u64);
                out
            },
            DecodeError::Geometry { width, height } => {
                let mut out = "unusable frame geometry ".to_owned();
                text::push_decimal(&mut out, *width as u64);
                text::push_str(&mut out, "x");
                text::push_decimal(&mut out, *height as u64);
                out
            },
            DecodeError::Bitstream(detail) => {
                let mut out = "bitstream rejected: ".to_owned();
                text::push_str(&mut out, detail.as_str());
                out
            },
        }
    }
}

/// What decoding a frame gave.
pub type Decoded = Result<Option<FrameData>, DecodeError>;

/// What a [`Decoded`] holds.
pub open spec fn decoded_view(r: Decoded) -> Result<Option<FrameDataView>, DecodeErrorView> {
    match r {
        Ok(Some(frame)) => Ok(Some(frame@)),
        Ok(None) => Ok(None),
        Err(e) => Err(e@),
    }
}

/// Whether a picture of this size may be materialised.
pub open spec fn usable_geometry(width: int, height: int) -> bool {
    &&& 0 < width <= u16::MAX
    &&& 0 < height <= u16::MAX
    &&& width * height <= MAX_DECODED_PIXELS
}

/// Whether `out` is `frame` made presentable: the same ids, flags and timestamps around exactly
/// the pixels of a usable picture.
pub open spec fn presentable(frame: FrameDataView, out: FrameDataView) -> bool {
    &&& out.codec == codec::RAW_BGRA
    &&& out.window_id == frame.window_id
    &&& out.frame_id == frame.frame_id
    &&& out.flags == frame.flags
    &&& out.captured_us == frame.captured_us
    &&& out.encoded_us == frame.encoded_us
    &&& usable_geometry(out.width as int, out.height as int)
    &&& out.data.len() == out.width * out.height * 4
}

/// Turns wire frames of one codec into presentable `RAW_BGRA` frames.
///
/// Implementations are stateful and belong to a single window's stream: H.264 predicts from
/// previously decoded pictures, so feeding two windows through one decoder would be wrong.
/// [`WindowDecoders`] owns that fan-out.
pub trait Decoder: Send {
    /// Codec id this decoder consumes.
    spec fn consumes(&self) -> u8;

    /// Whether this decoder, as it is now, may give `r` for `frame` and be left as `after`.
    spec fn steps_to(
        &self,
        frame: FrameDataView,
        r: Result<Option<FrameDataView>, DecodeErrorView>,
        after: &Self,
    ) -> bool;

    /// Codec id this decoder consumes.
    fn codec(&self) -> (r: u8)
        ensures
            r == self.consumes(),
    ;

    /// Decode one wire frame.
    ///
    /// Returns the presentable frame, or `None` when the frame was consumed without producing a
    /// picture: dropped while waiting for a keyframe, or swallowed as parameter sets.
    ///
    /// # Errors
    ///
    /// Returns [`DecodeError`] if this frame could not be decoded. The decoder stays usable; a
    /// stream that errored resynchronises at the next keyframe.
    fn decode(&mut self, frame: FrameData) -> (r: Decoded)
        ensures
            final(self).consumes() == old(self).consumes(),
            old(self).steps_to(frame@, decoded_view(r), final(self)),
            frame.codec == old(self).consumes() ==> (r matches Ok(Some(out)) ==> presentable(
                frame@,
                out@,
            )),
    ;
}

/// What the `RAW_BGRA` decoder gives for a frame: the frame itself, if its payload is exactly the
/// pixels of a usable picture.
pub open spec fn passed_through(frame: FrameDataView) -> Result<
    Option<FrameDataView>,
    DecodeErrorView,
> {
    if !usable_geometry(frame.width as int, frame.height as int) {
        Err(
            DecodeErrorView::Geometry {
                width: frame.width as usize,
                height: frame.height as usize,
            },
        )
    } else if frame.data.len() != frame.width * frame.height * 4 {
        Err(
            DecodeErrorView::PayloadLength {
                expected: (frame.width * frame.height * 4) as usize,
                actual: frame.data.len() as usize,
            },
        )
    } else {
        Ok(Some(frame))
    }
}

/// The `RAW_BGRA` decoder: validation, then the frame itself.
///
/// This is the default and it must stay that way. `RAW_BGRA` is the only end-to-end path that
/// has been validated against a real guest, and it is the fallback when the agent has no
/// encoder. Passing the frame through by value keeps it a zero-copy path.
#[derive(Debug, Clone, Copy)]
pub struct PassthroughDecoder;

impl Default for PassthroughDecoder {
    fn default() -> (r: Self)
        ensures
            r.consumes() == codec::RAW_BGRA,
    {
        PassthroughDecoder
    }
}

impl PassthroughDecoder {
    /// Creates a passthrough decoder.
    pub fn new() -> (r: Self)
        ensures
            r.consumes() == codec::RAW_BGRA,
    {
        PassthroughDecoder
    }
}

impl Decoder for PassthroughDecoder {
    open spec fn consumes(&self) -> u8 {
        codec::RAW_BGRA
    }

    open spec fn steps_to(
        &self,
        frame: FrameDataView,
        r: Result<Option<FrameDataView>, DecodeErrorView>,
        after: &Self,
    ) -> bool {
        r == passed_through(frame) && after == self
    }

    fn codec(&self) -> u8 {
        codec::RAW_BGRA
    }

    fn decode(&mut self, frame: FrameData) -> (r: Decoded)
        ensures
            decoded_view(r) == passed_through(frame@),
    {
        let (width, height): (usize, usize) = match checked_geometry(
            frame.width as usize,
            frame.height as usize,
        ) {
            Ok(size) => size,
            Err(e) => {
                return Err(e);
            },
        };
        proof {
            lemma_payload_fits(frame.width as int, frame.height as int);
        }
        // Checked here rather than left to the presenter so that "what leaves the decoder is
        // presentable" holds for every codec, and so the headless path catches it too.
        let expected: usize = width * height * 4;
        if frame.data.len() != expected {
            return Err(DecodeError::PayloadLength { expected, actual: frame.data.len() });
        }
        Ok(Some(frame))
    }
}

/// The payload of a usable picture fits the address space.
pub proof fn lemma_payload_fits(width: int, height: int)
    requires
        usable_geometry(width, height),
    ensures
        0 <= width * height,
        width * height * 4 <= usize::MAX,
{
    assert(0 <= width * height) by (nonlinear_arith)
        requires
            0 < width,
            0 < height,
    ;
    assert(MAX_DECODED_PIXELS == 16777216);
}

/// Validates a decoded picture's geometry against [`MAX_DECODED_PIXELS`].
pub fn checked_geometry(width: usize, height: usize) -> (r: Result<(usize, usize), DecodeError>)
    ensures
        match r {
            Ok(size) => usable_geometry(width as int, height as int) && size == (width, height),
            Err(e) => !usable_geometry(width as int, height as int) && e@
                == (DecodeErrorView::Geometry { width, height }),
        },
{
    let too_big = match width.checked_mul(height) {
        None => true,
        Some(pixels) => pixels > MAX_DECODED_PIXELS,
    };
    if width == 0 || height == 0 || width > u16::MAX as usize || height > u16::MAX as usize
        || too_big {
        return Err(DecodeError::Geometry { width, height });
    }
    Ok((width, height))
}

/// The codec ids to advertise, in descending preference, with or without an H.264 decoder.
pub open spec fn codec_list(h264: bool) -> Seq<u8> {
    if h264 {
        seq![codec::H264, codec::RAW_BGRA]
    } else {
        seq![codec::RAW_BGRA]
    }
}

/// The codec ids to advertise, in descending preference, with or without an H.264 decoder.
///
/// H.264 leads where there is a decoder for it: `RAW_BGRA` costs ~470 Mbit/s for one 800x600
/// window and exists as a fallback, not a choice.
pub fn codecs_with(h264: bool) -> (r: Vec<u8>)
    ensures
        r@ == codec_list(h264),
{
    if h264 {
        vec![codec::H264, codec::RAW_BGRA]
    } else {
        vec![codec::RAW_BGRA]
    }
}

/// Codec ids the client can actually decode, in descending preference, for `ClientHello`.
pub fn preferred_codecs() -> (r: Vec<u8>)
    ensures
        r@ == codec_list(true),
{
    codecs_with(true)
}

/// Whether this build can decode `codec`.
///
/// The agent picks from what the client advertised, so a `ServerHello` naming anything else is a
/// negotiation violation the client should refuse loudly rather than render garbage for.
pub fn supports_codec(codec: u8) -> (r: bool)
    ensures
        r == codec_list(true).contains(codec),
{
    let r = codec == codec::H264 || codec == codec::RAW_BGRA;
    proof {
        assert(codec_list(true)[0] == codec::H264);
        assert(codec_list(true)[1] == codec::RAW_BGRA);
    }
    r
}

/// What one window's stream holds.
pub enum StreamState {
    /// `RAW_BGRA`: nothing, each frame stands alone.
    Raw,
    /// H.264: what the stream is waiting for, what the codec was handed so far, and what the last
    /// frame was worth saying.
    H264(Gate, Seq<Seq<u8>>, Seq<NoteView>),
}

/// The state of a stream that has seen no frame, for a codec there is a decoder for.
pub open spec fn fresh(codec: u8) -> StreamState {
    if codec == codec::RAW_BGRA {
        StreamState::Raw
    } else {
        StreamState::H264(h264::shut(), Seq::empty(), Seq::empty())
    }
}

impl StreamState {
    /// Codec id of the stream.
    pub open spec fn codec(self) -> u8 {
        match self {
            StreamState::Raw => codec::RAW_BGRA,
            StreamState::H264(..) => codec::H264,
        }
    }

    /// Whether a stream in this state may answer `frame` with `r` and be left as `after`.
    pub open spec fn steps(
        self,
        frame: FrameDataView,
        r: Result<Option<FrameDataView>, DecodeErrorView>,
        after: StreamState,
    ) -> bool {
        match self {
            StreamState::Raw => r == passed_through(frame) && after == StreamState::Raw,
            StreamState::H264(gate, fed, _) => if gate.admits(frame) {
                exists|answer: AnswerView|
                    {
                        &&& #[trigger] h264::may_answer(fed, frame.data, answer)
                        &&& r == h264::settled(frame, answer)
                        &&& after == StreamState::H264(
                            gate.admitted(frame).after(frame, answer),
                            fed.push(frame.data),
                            gate.notes_on(frame, r is Err),
                        )
                    }
            } else {
                &&& r == Ok::<Option<FrameDataView>, DecodeErrorView>(None)
                &&& after == StreamState::H264(gate.admitted(frame), fed, Seq::empty())
            },
        }
    }
}

/// The decoder of one window's stream, whichever codec it speaks.
pub enum StreamDecoder {
    /// `RAW_BGRA`.
    Passthrough(PassthroughDecoder),
    /// H.264.
    H264(H264Decoder),
}

impl StreamDecoder {
    /// What the stream holds.
    pub open spec fn state(&self) -> StreamState {
        match self {
            StreamDecoder::Passthrough(_) => StreamState::Raw,
            StreamDecoder::H264(decoder) => decoder.state(),
        }
    }
}

impl Decoder for StreamDecoder {
    open spec fn consumes(&self) -> u8 {
        self.state().codec()
    }

    open spec fn steps_to(
        &self,
        frame: FrameDataView,
        r: Result<Option<FrameDataView>, DecodeErrorView>,
        after: &Self,
    ) -> bool {
        self.state().steps(frame, r, after.state())
    }

    fn codec(&self) -> u8 {
        match self {
            StreamDecoder::Passthrough(decoder) => decoder.codec(),
            StreamDecoder::H264(decoder) => decoder.codec(),
        }
    }

    fn decode(&mut self, frame: FrameData) -> (r: Decoded)
        ensures
            old(self).state().steps(frame@, decoded_view(r), final(self).state()),
    {
        match self {
            StreamDecoder::Passthrough(decoder) => decoder.decode(frame),
            StreamDecoder::H264(decoder) => decoder.decode(frame),
        }
    }
}

/// Creates a decoder for `codec`.
///
/// # Errors
///
/// [`DecodeError::UnsupportedCodec`] if there is no decoder for the id, or [`DecodeError::Init`]
/// if the codec implementation refused to start.
pub fn new_decoder(codec: u8) -> (r: Result<StreamDecoder, DecodeError>)
    ensures
        match r {
            Ok(decoder) => codec_list(true).contains(codec) && decoder.state() == fresh(codec),
            Err(DecodeError::UnsupportedCodec(id)) => !codec_list(true).contains(codec) && id
                == codec,
            Err(e) => codec == codec::H264 && is_init(e@),
        },
{
    proof {
        assert(codec_list(true)[0] == codec::H264);
        assert(codec_list(true)[1] == codec::RAW_BGRA);
    }
    match codec {
        codec::RAW_BGRA => Ok(StreamDecoder::Passthrough(PassthroughDecoder::new())),
        codec::H264 => match H264Decoder::new() {
            Ok(decoder) => Ok(StreamDecoder::H264(decoder)),
            Err(e) => Err(e),
        },
        other => Err(DecodeError::UnsupportedCodec(other)),
    }
}

/// Whether an error says that the H.264 implementation refused to start.
pub open spec fn is_init(e: DecodeErrorView) -> bool {
    e matches DecodeErrorView::Init { codec, .. } && codec == codec::H264
}

/// Whether a frame needs a new decoder: its window has none, or one for another codec.
pub open spec fn is_stale(streams: Map<u32, StreamState>, frame: FrameDataView) -> bool {
    !streams.contains_key(frame.window_id) || streams[frame.window_id].codec() != frame.codec
}

/// Whether routing `frame` among `before` may give `r` and leave `after`.
pub open spec fn routes(
    before: Map<u32, StreamState>,
    frame: FrameDataView,
    r: Result<Option<FrameDataView>, DecodeErrorView>,
    after: Map<u32, StreamState>,
) -> bool {
    if !is_stale(before, frame) {
        routed(before, before[frame.window_id], frame, r, after)
    } else if !codec_list(true).contains(frame.codec) {
        r == Err::<Option<FrameDataView>, _>(DecodeErrorView::UnsupportedCodec(frame.codec))
            && after == before
    } else {
        ||| routed(before, fresh(frame.codec), frame, r, after)
        ||| frame.codec == codec::H264 && (r matches Err(e) && is_init(e)) && after == before
    }
}

/// Whether a stream in state `start` may answer `frame` with `r`, and is then kept in `after`.
pub open spec fn routed(
    before: Map<u32, StreamState>,
    start: StreamState,
    frame: FrameDataView,
    r: Result<Option<FrameDataView>, DecodeErrorView>,
    after: Map<u32, StreamState>,
) -> bool {
    exists|state: StreamState| #[trigger]
        start.steps(frame, r, state) && after == before.insert(frame.window_id, state)
}

/// One decoder per window, created on that window's first frame.
///
/// Each window is its own encoded stream on its own channel, so each needs its own decoder
/// state.
pub struct WindowDecoders {
    decoders: HashMap<u32, StreamDecoder>,
}

impl View for WindowDecoders {
    type V = Map<u32, StreamState>;

    closed spec fn view(&self) -> Map<u32, StreamState> {
        self.decoders@.map_values(|decoder: StreamDecoder| decoder.state())
    }
}

impl Default for WindowDecoders {
    fn default() -> (r: Self)
        ensures
            r@ == Map::<u32, StreamState>::empty(),
    {
        WindowDecoders::new()
    }
}

impl WindowDecoders {
    /// Creates an empty set.
    pub fn new() -> (r: Self)
        ensures
            r@ == Map::<u32, StreamState>::empty(),
    {
        broadcast use vstd::std_specs::hash::group_hash_axioms;

        let r = WindowDecoders { decoders: HashMap::new() };
        assert(r@ =~= Map::<u32, StreamState>::empty());
        r
    }

    /// Number of windows with a decoder.
    pub fn len(&self) -> (r: usize)
        ensures
            r == self@.len(),
    {
        broadcast use vstd::std_specs::hash::group_hash_axioms;

        assert(self@.dom() =~= self.decoders@.dom());
        self.decoders.len()
    }

    /// Whether no window has a decoder.
    pub fn is_empty(&self) -> (r: bool)
        ensures
            r == (self@.len() == 0),
    {
        self.len() == 0
    }

    /// Whether a window has a decoder.
    pub fn contains(&self, window_id: u32) -> (r: bool)
        ensures
            r == self@.contains_key(window_id),
    {
        broadcast use vstd::std_specs::hash::group_hash_axioms;

        self.decoders.contains_key(&window_id)
    }

    /// A window's decoder, if it has one.
    pub fn get(&self, window_id: u32) -> (r: Option<&StreamDecoder>)
        ensures
            match r {
                None => !self@.contains_key(window_id),
                Some(decoder) => self@.contains_key(window_id) && self@[window_id]
                    == decoder.state(),
            },
    {
        broadcast use vstd::std_specs::hash::group_hash_axioms;

        self.decoders.get(&window_id)
    }

    /// Routes one frame to its window's decoder, creating the decoder if this is the first frame
    /// or the codec changed mid-stream: that is a fresh stream, for which the old decoder's
    /// reference pictures are meaningless.
    ///
    /// # Errors
    ///
    /// Returns [`DecodeError`] if the frame could not be decoded. The decoder is kept, because a
    /// stream that produced one bad frame recovers at its next keyframe.
    pub fn decode(&mut self, frame: FrameData) -> (r: Decoded)
        ensures
            routes(old(self)@, frame@, decoded_view(r), final(self)@),
            r matches Ok(Some(out)) ==> presentable(frame@, out@),
    {
        broadcast use vstd::std_specs::hash::group_hash_axioms;

        let ghost wire = frame@;
        let window_id: u32 = frame.window_id;
        let wire_codec: u8 = frame.codec;
        let stale = match self.decoders.get(&window_id) {
            None => true,
            Some(decoder) => decoder.codec() != wire_codec,
        };
        assert(stale == is_stale(old(self)@, wire));
        if stale {
            let decoder = match new_decoder(wire_codec) {
                Ok(decoder) => decoder,
                Err(e) => {
                    return Err(e);
                },
            };
            self.decoders.insert(window_id, decoder);
        }
        let ghost start = self.decoders@[window_id].state();
        match self.decoders.remove(&window_id) {
            None => {
                assert(false);
                Ok(None)
            },
            Some(mut decoder) => {
                let r = decoder.decode(frame);
                let ghost state = decoder.state();
                self.decoders.insert(window_id, decoder);
                proof {
                    assert(start.steps(wire, decoded_view(r), state));
                    assert(self@ =~= old(self)@.insert(window_id, state));
                }
                r
            },
        }
    }

    /// Drops a window's decoder, freeing its reference pictures.
    pub fn forget(&mut self, window_id: u32)
        ensures
            final(self)@ == old(self)@.remove(window_id),
    {
        broadcast use vstd::std_specs::hash::group_hash_axioms;

        self.decoders.remove(&window_id);
        assert(self@ =~= old(self)@.remove(window_id));
    }
}

/// A frame disturbs no window but its own, whether it decodes or not.
pub proof fn law_windows_decode_apart(
    before: Map<u32, StreamState>,
    frame: FrameDataView,
    r: Result<Option<FrameDataView>, DecodeErrorView>,
    after: Map<u32, StreamState>,
    other: u32,
)
    requires
        routes(before, frame, r, after),
        other != frame.window_id,
    ensures
        after.contains_key(other) == before.contains_key(other),
        before.contains_key(other) ==> after[other] == before[other],
{
}

/// A window whose decoder was dropped starts its stream afresh: a frame that cannot start a stream
/// is consumed without a picture, or a decoder could not be started for it.
pub proof fn law_forgotten_windows_start_afresh(
    streams: Map<u32, StreamState>,
    frame: FrameDataView,
    r: Result<Option<FrameDataView>, DecodeErrorView>,
    after: Map<u32, StreamState>,
)
    requires
        frame.codec == codec::H264,
        !h264::can_start(frame),
        routes(streams.remove(frame.window_id), frame, r, after),
    ensures
        r == Ok::<Option<FrameDataView>, DecodeErrorView>(None) || (r matches Err(e) && is_init(e)),
{
    assert(codec_list(true)[0] == codec::H264);
}

/// The access units that a stream's codec was handed, in order.
pub open spec fn handed(state: StreamState) -> Seq<Seq<u8>> {
    match state {
        StreamState::Raw => Seq::empty(),
        StreamState::H264(_, fed, _) => fed,
    }
}

/// Whether a stream goes through `states` as it takes `frames` and answers with `outcomes`.
pub open spec fn is_run(
    states: Seq<StreamState>,
    frames: Seq<FrameDataView>,
    outcomes: Seq<Result<Option<FrameDataView>, DecodeErrorView>>,
) -> bool {
    &&& states.len() == frames.len() + 1
    &&& outcomes.len() == frames.len()
    &&& forall|i: int|
        0 <= i < frames.len() ==> states[i].steps(#[trigger] frames[i], outcomes[i], states[i + 1])
}

/// The frames of one H.264 stream are strictly serial: the codec keeps what it was handed, in
/// order, and a frame that shows a picture was decoded from exactly the ones before it.
pub proof fn law_frames_are_decoded_from_the_ones_before(
    states: Seq<StreamState>,
    frames: Seq<FrameDataView>,
    outcomes: Seq<Result<Option<FrameDataView>, DecodeErrorView>>,
    i: int,
    j: int,
)
    requires
        is_run(states, frames, outcomes),
        states[0] is H264,
        0 <= i < j <= frames.len(),
    ensures
        states[i] is H264,
        states[j] is H264,
        handed(states[i]).is_prefix_of(handed(states[j])),
        outcomes[i] matches Ok(Some(_)) ==> {
            &&& handed(states[i]).push(frames[i].data).is_prefix_of(handed(states[j]))
            &&& exists|answer: AnswerView| #[trigger]
                h264::may_answer(handed(states[i]), frames[i].data, answer) && outcomes[i]
                    == h264::settled(frames[i], answer)
        },
    decreases j,
{
    if j > i + 1 {
        law_frames_are_decoded_from_the_ones_before(states, frames, outcomes, i, j - 1);
    } else if i > 0 {
        law_frames_are_decoded_from_the_ones_before(states, frames, outcomes, i - 1, i);
    }
    assert(states[j - 1] is H264);
    assert(states[j - 1].steps(frames[j - 1], outcomes[j - 1], states[j]));
    assert(handed(states[j - 1]).is_prefix_of(handed(states[j])));
}

/// A window that switches to a codec without a decoder is refused, and nothing changes.
pub proof fn law_unsupported_codecs_are_refused(
    before: Map<u32, StreamState>,
    frame: FrameDataView,
    r: Result<Option<FrameDataView>, DecodeErrorView>,
    after: Map<u32, StreamState>,
)
    requires
        !codec_list(true).contains(frame.codec),
        routes(before, frame, r, after),
    ensures
        r == Err::<Option<FrameDataView>, _>(DecodeErrorView::UnsupportedCodec(frame.codec)),
        after == before,
{
    assert(codec_list(true)[0] == codec::H264);
    assert(codec_list(true)[1] == codec::RAW_BGRA);
}

/// A picture is usable from one pixel on, up to 65535 in each direction and 16 Mi pixels in all; it
/// comes back as it is, and any other is refused by its size.
pub proof fn law_geometries_are_bounded(
    width: usize,
    height: usize,
    r: Result<(usize, usize), DecodeError>,
)
    requires
        call_ensures(checked_geometry, (width, height), r),
    ensures
        r is Ok <==> 1 <= width <= 65535 && 1 <= height <= 65535 && width * height <= 16_777_216,
        r matches Ok(size) ==> size.0 == width && size.1 == height,
        r matches Err(e) ==> (e matches DecodeError::Geometry { width: w, height: h } && w == width
            && h == height),
{
    assert(MAX_DECODED_PIXELS == 16_777_216);
}

/// H.264 is preferred where there is a decoder for it, raw pixels always do, and nothing else can be
/// decoded.
pub proof fn law_codecs_are_preferred_in_order(
    with: Vec<u8>,
    without: Vec<u8>,
    preferred: Vec<u8>,
    codec: u8,
    supported: bool,
    made: Result<StreamDecoder, DecodeError>,
)
    requires
        call_ensures(codecs_with, (true,), with),
        call_ensures(codecs_with, (false,), without),
        call_ensures(preferred_codecs, (), preferred),
        call_ensures(supports_codec, (codec,), supported),
        call_ensures(new_decoder, (codec,), made),
    ensures
        with@ == seq![2u8, 1u8],
        without@ == seq![1u8],
        preferred@ == seq![2u8, 1u8],
        supported <==> codec == 1 || codec == 2,
        made matches Ok(decoder) ==> supported,
        made matches Ok(StreamDecoder::Passthrough(_)) ==> codec == 1,
        made matches Ok(StreamDecoder::H264(_)) ==> codec == 2,
        codec == 1 ==> made is Ok,
        !supported ==> made == Err::<StreamDecoder, _>(DecodeError::UnsupportedCodec(codec)),
{
    let list = codec_list(true);
    assert(list[0] == 2 && list[1] == 1);
    assert(list.contains(codec) <==> codec == 1 || codec == 2);
}

/// A raw frame passes as it is if its payload is four bytes for each of its pixels, and is refused
/// with both lengths if not.
pub proof fn law_raw_frames_pass_unchanged(frame: FrameData)
    ensures
        forall|d: &mut PassthroughDecoder, r: Decoded| #[trigger]
            call_ensures(PassthroughDecoder::decode, (d, frame), r) ==> {
                let pixels = frame.width * frame.height;
                let usable = frame.width > 0 && frame.height > 0 && pixels <= 16_777_216;
                &&& r is Ok <==> usable && frame.data@.len() == 4 * pixels
                &&& r is Ok ==> (r matches Ok(Some(out)) && out@ == frame@)
                &&& !usable ==> (r matches Err(DecodeError::Geometry { width, height }) && width
                    == frame.width && height == frame.height)
                &&& usable && r is Err ==> (r matches Err(
                    DecodeError::PayloadLength { expected, actual },
                ) && expected == 4 * pixels && actual == frame.data@.len())
            },
{
    assert(MAX_DECODED_PIXELS == 16_777_216);
    if usable_geometry(frame.width as int, frame.height as int) {
        lemma_payload_fits(frame.width as int, frame.height as int);
    }
    let n = frame.data.len();
    assert(frame.data@.len() <= usize::MAX);
    assert forall|d: &mut PassthroughDecoder, r: Decoded| #[trigger]
        call_ensures(PassthroughDecoder::decode, (d, frame), r) implies {
        let pixels = frame.width * frame.height;
        let usable = frame.width > 0 && frame.height > 0 && pixels <= 16_777_216;
        &&& r is Ok <==> usable && frame.data@.len() == 4 * pixels
        &&& r is Ok ==> (r matches Ok(Some(out)) && out@ == frame@)
        &&& !usable ==> (r matches Err(DecodeError::Geometry { width, height }) && width
            == frame.width && height == frame.height)
        &&& usable && r is Err ==> (r matches Err(DecodeError::PayloadLength { expected, actual })
            && expected == 4 * pixels && actual == frame.data@.len())
    } by {
        assert(decoded_view(r) == passed_through(frame@));
    }
}

/// What any decoder gives for a frame keeps the frame's window, id, flags and times, around raw pixels
/// of exactly its size.
pub proof fn law_decoded_frames_keep_their_identity(frame: FrameData)
    ensures
        forall|w: &mut WindowDecoders, r: Decoded| #[trigger]
            call_ensures(WindowDecoders::decode, (w, frame), r) ==> (r matches Ok(Some(out)) ==> {
                &&& out.codec == 1
                &&& out.window_id == frame.window_id
                &&& out.frame_id == frame.frame_id
                &&& out.flags == frame.flags
                &&& out.captured_us == frame.captured_us
                &&& out.encoded_us == frame.encoded_us
                &&& out.width > 0 && out.height > 0
                &&& out.width * out.height <= 16_777_216
                &&& out.data@.len() == out.width * out.height * 4
            }),
{
    assert(MAX_DECODED_PIXELS == 16_777_216);
}

/// A frame of a codec that cannot be decoded is refused by the codec's id and leaves every window's
/// decoder as it is; a raw frame gets its window a decoder, and what the raw decoder makes of it.
pub proof fn law_frames_reach_their_windows_decoder(frame: FrameData)
    ensures
        forall|w: &mut WindowDecoders, r: Decoded, had: bool, has: bool, other: u32|
            #![trigger call_ensures(WindowDecoders::decode, (w, frame), r), call_ensures(WindowDecoders::contains, (&*w, other), had), call_ensures(WindowDecoders::contains, (&*final(w), other), has)]
            call_ensures(WindowDecoders::decode, (w, frame), r) && call_ensures(
                WindowDecoders::contains,
                (&*w, other),
                had,
            ) && call_ensures(WindowDecoders::contains, (&*final(w), other), has) ==> {
                &&& other != frame.window_id ==> has == had
                &&& other == frame.window_id && frame.codec == 1 ==> has
                &&& frame.codec != 1 && frame.codec != 2 && !(*w)@.contains_key(frame.window_id) ==> {
                    &&& r == Err::<Option<FrameData>, _>(DecodeError::UnsupportedCodec(frame.codec))
                    &&& final(w)@ == (*w)@
                }
            },
        forall|
            w: &mut WindowDecoders,
            d: &mut PassthroughDecoder,
            r: Decoded,
            s: Decoded,
        |
            #![trigger call_ensures(WindowDecoders::decode, (w, frame), r), call_ensures(PassthroughDecoder::decode, (d, frame), s)]
            frame.codec == 1 && call_ensures(WindowDecoders::decode, (w, frame), r)
                && call_ensures(PassthroughDecoder::decode, (d, frame), s) ==> decoded_view(r)
                == decoded_view(s),
        forall|w: &mut WindowDecoders| #[trigger]
            call_ensures(WindowDecoders::forget, (w, frame.window_id), ()) ==> final(w)@
                == (*w)@.remove(frame.window_id),
{
    let list = codec_list(true);
    assert(list[0] == 2 && list[1] == 1);
    assert(list.contains(frame.codec) <==> frame.codec == 1 || frame.codec == 2);
    assert forall|w: &mut WindowDecoders, r: Decoded, had: bool, has: bool, other: u32|
        #![trigger call_ensures(WindowDecoders::decode, (w, frame), r), call_ensures(WindowDecoders::contains, (&*w, other), had), call_ensures(WindowDecoders::contains, (&*final(w), other), has)]
        call_ensures(WindowDecoders::decode, (w, frame), r) && call_ensures(
            WindowDecoders::contains,
            (&*w, other),
            had,
        ) && call_ensures(WindowDecoders::contains, (&*final(w), other), has) implies {
        &&& other != frame.window_id ==> has == had
        &&& other == frame.window_id && frame.codec == 1 ==> has
        &&& frame.codec != 1 && frame.codec != 2 && !(*w)@.contains_key(frame.window_id) ==> {
            &&& r == Err::<Option<FrameData>, _>(DecodeError::UnsupportedCodec(frame.codec))
            &&& final(w)@ == (*w)@
        }
    } by {
        assert(routes((*w)@, frame@, decoded_view(r), final(w)@));
        if frame.codec != 1 && frame.codec != 2 && !(*w)@.contains_key(frame.window_id) {
            assert(decoded_view(r) is Err);
            assert(decoded_view(r)->Err_0 == DecodeErrorView::UnsupportedCodec(frame.codec));
            assert(r->Err_0@ == DecodeErrorView::UnsupportedCodec(frame.codec));
        }
    }
}

/// Why a frame could not be decoded is said with the figures that show it.
pub proof fn law_decode_errors_are_worded(e: &DecodeError, r: String)
    requires
        call_ensures(DecodeError::message, (e,), r),
    ensures
        r@ == match e {
            DecodeError::UnsupportedCodec(codec) => "no decoder for codec "@ + text::decimal(
                *codec as nat,
            ),
            DecodeError::Init { codec, detail } => "codec "@ + text::decimal(*codec as nat)
                + " failed to initialise: "@ + detail@,
            DecodeError::PayloadLength { expected, actual } =>
                "frame payload does not match its geometry: expected "@ + text::decimal(
                *expected as nat,
            ) + " bytes, got "@ + text::decimal(*actual as nat),
            DecodeError::Geometry { width, height } => "unusable frame geometry "@ + text::decimal(
                *width as nat,
            ) + "x"@ + text::decimal(*height as nat),
            DecodeError::Bitstream(detail) => "bitstream rejected: "@ + detail@,
        },
{
}

} // verus!
