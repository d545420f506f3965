//! Software H.264 decode, via Cisco's `openh264`.
//!
//! This is the CPU fallback and the reference implementation: it runs everywhere, needs no
//! driver, and defines the behaviour a hardware decoder has to match. Hardware decode slots in
//! as another [`Decoder`], not as a special case inside this one.
//!
//! The payload format is Annex-B, one access unit per `FrameData`, parameter sets in-band on
//! every keyframe and only there, `KEYFRAME` meaning IDR, no reordering. Two of those are
//! load-bearing here rather than merely descriptive. Because a keyframe always carries its own
//! SPS and PPS, this decoder needs no out-of-band configuration and recovery is always just
//! "wait for the next keyframe". Because there are no B-frames, there is no reorder buffer: one
//! access unit in, at most one picture out, in `frame_id` order.
//!
//! # Streams that do not start at the beginning
//!
//! A client can attach to a window mid-GOP, and a frame can be dropped in flight. Both leave the
//! decoder holding no reference picture, and handing it inter-coded data in that state produces
//! either an error or a plausible-looking smear of whatever memory the codec had. So this
//! decoder is explicitly gated: it discards frames until an IDR arrives, both after construction
//! and after any bitstream error. The [`Gate`] is that state; [`Gate::pass`] and
//! [`Gate::settle`] are the decisions before and after the codec is asked.

use openh264::decoder::Decoder as OpenH264Decoder;
use openh264::formats::YUVSource;
use vstd::prelude::*;

use super::annexb;
use super::annexb::StreamProfile;
use super::yuv::{i420_to_bgra, I420Planes, PlanesView};
use super::{checked_geometry, DecodeError, DecodeErrorView, Decoded, Decoder, StreamState};
use crate::client::decode;
use crate::proto::message::codec;
use crate::proto::message::window::frame_flag;
use crate::proto::message::{FrameData, FrameDataView};

verus! {

/// Cisco's H.264 decoder, [`openh264::decoder::Decoder`]: a C decoder and the pictures it
/// predicts from.
#[verifier::external_type_specification]
#[verifier::external_body]
pub struct ExOpenH264Decoder(OpenH264Decoder);

/// A decoded I420 picture, copied out of the codec.
#[derive(Debug, Clone, PartialEq, Eq)]
pub struct Picture {
    /// Luma plane.
    pub y: Vec<u8>,
    /// Cb plane, half resolution in both axes.
    pub u: Vec<u8>,
    /// Cr plane, half resolution in both axes.
    pub v: Vec<u8>,
    /// Picture width in luma samples.
    pub width: usize,
    /// Picture height in luma samples.
    pub height: usize,
    /// Bytes per luma row, padding and all.
    pub y_stride: usize,
    /// Bytes per Cb row.
    pub u_stride: usize,
    /// Bytes per Cr row.
    pub v_stride: usize,
}

impl View for Picture {
    type V = PlanesView;

    open spec fn view(&self) -> PlanesView {
        PlanesView {
            y: self.y@,
            u: self.u@,
            v: self.v@,
            width: self.width,
            height: self.height,
            y_stride: self.y_stride,
            u_stride: self.u_stride,
            v_stride: self.v_stride,
        }
    }
}

/// What the codec answered an access unit: a picture, nothing to show yet, or why it was refused.
pub type Answer = Result<Option<Picture>, String>;

/// What an [`Answer`] holds.
pub type AnswerView = Result<Option<PlanesView>, Seq<char>>;

/// What an [`Answer`] holds.
pub open spec fn answer_view(answer: Answer) -> AnswerView {
    match answer {
        Ok(Some(picture)) => Ok(Some(picture@)),
        Ok(None) => Ok(None),
        Err(detail) => Err(detail@),
    }
}

/// The access units that a codec has been handed since it started, in order.
pub uninterp spec fn history(codec: OpenH264Decoder) -> Seq<Seq<u8>>;

/// Whether a codec that has been handed `fed` may answer `packet` with `answer`. Not a function of
/// the two: what comes out for a reference picture that is missing is up to the codec.
pub uninterp spec fn may_answer(fed: Seq<Seq<u8>>, packet: Seq<u8>, answer: AnswerView) -> bool;

/// Starts the codec: [`openh264::decoder::Decoder::new`], with the error as text.
///
/// Trusted: a codec that starts has been handed nothing yet. Whether the C library starts is up to
/// the machine, and nothing is claimed of that.
#[verifier::external_body]
fn open() -> (r: Result<OpenH264Decoder, String>)
    ensures
        r matches Ok(inner) ==> history(inner) == Seq::<Seq<u8>>::empty(),
{
    match OpenH264Decoder::new() {
        Ok(inner) => Ok(inner),
        Err(error) => Err(error.to_string()),
    }
}

/// Hands the codec one access unit: [`openh264::decoder::Decoder::decode`], with the planes of
/// the picture copied out and the error as text.
///
/// Trusted: the codec has then been handed exactly these bytes on top of what it was handed
/// before, and the answer is one that it may give to them. Nothing is claimed of which answers
/// those are.
#[verifier::external_body]
fn feed(inner: &mut OpenH264Decoder, packet: &[u8]) -> (r: Answer)
    ensures
        may_answer(history(*old(inner)), packet@, answer_view(r)),
        history(*final(inner)) == history(*old(inner)).push(packet@),
{
    match inner.decode(packet) {
        Ok(None) => Ok(None),
        Ok(Some(yuv)) => {
            let (width, height) = yuv.dimensions();
            let (y_stride, u_stride, v_stride) = yuv.strides();
            let (y, u, v) = (yuv.y().to_vec(), yuv.u().to_vec(), yuv.v().to_vec());
            Ok(Some(Picture { y, u, v, width, height, y_stride, u_stride, v_stride }))
        },
        Err(error) => Err(error.to_string()),
    }
}

/// Something about a stream that is worth a line in a log.
#[derive(Debug, Clone, PartialEq, Eq)]
pub enum Note {
    /// The stream is usable again. What a rejection costs is not one frame but every frame until
    /// the next keyframe, so the count says more than the rejection did.
    Resynchronised {
        /// Window the stream belongs to.
        window_id: u32,
        /// Frame the stream resumed at.
        frame_id: u64,
        /// Frames discarded since the last usable reference picture.
        discarded: u32,
    },
    /// The profile the stream is coded in, from its first parameter set. The codec implements
    /// Constrained Baseline; a stream above that can decode for a long time and then fail on
    /// whichever frame first uses a tool the codec does not have.
    Profile {
        /// Window the stream belongs to.
        window_id: u32,
        /// What the parameter set says.
        profile: StreamProfile,
    },
    /// An access unit was refused, and this is what it was made of.
    Rejected {
        /// Window the stream belongs to.
        window_id: u32,
        /// Frame that was refused.
        frame_id: u64,
        /// Length of the payload.
        bytes: usize,
        /// Whether the agent called it a keyframe.
        keyframe: bool,
        /// The NAL units in it, in order.
        contents: String,
    },
    /// A refused non-keyframe carries parameter sets, which only keyframes may. An encoder that
    /// does this keeps doing it, so it is said once per decoder.
    ParameterSets {
        /// Window the stream belongs to.
        window_id: u32,
        /// Frame that was refused.
        frame_id: u64,
        /// The NAL units in it, in order.
        contents: String,
    },
    /// Nothing refers to the refused picture: a coding-structure question (temporal layers, or a
    /// profile beyond what the codec implements) rather than a corrupt bitstream.
    NonReference {
        /// Window the stream belongs to.
        window_id: u32,
        /// Frame that was refused.
        frame_id: u64,
    },
}

/// What a [`Note`] holds.
pub enum NoteView {
    /// See [`Note::Resynchronised`].
    Resynchronised {
        /// Window the stream belongs to.
        window_id: u32,
        /// Frame the stream resumed at.
        frame_id: u64,
        /// Frames discarded since the last usable reference picture.
        discarded: u32,
    },
    /// See [`Note::Profile`].
    Profile {
        /// Window the stream belongs to.
        window_id: u32,
        /// What the parameter set says.
        profile: StreamProfile,
    },
    /// See [`Note::Rejected`].
    Rejected {
        /// Window the stream belongs to.
        window_id: u32,
        /// Frame that was refused.
        frame_id: u64,
        /// Length of the payload.
        bytes: nat,
        /// Whether the agent called it a keyframe.
        keyframe: bool,
        /// The NAL units in it, in order.
        contents: Seq<char>,
    },
    /// See [`Note::ParameterSets`].
    ParameterSets {
        /// Window the stream belongs to.
        window_id: u32,
        /// Frame that was refused.
        frame_id: u64,
        /// The NAL units in it, in order.
        contents: Seq<char>,
    },
    /// See [`Note::NonReference`].
    NonReference {
        /// Window the stream belongs to.
        window_id: u32,
        /// Frame that was refused.
        frame_id: u64,
    },
}

impl View for Note {
    type V = NoteView;

    open spec fn view(&self) -> NoteView {
        match self {
            Note::Resynchronised { window_id, frame_id, discarded } => NoteView::Resynchronised {
                window_id: *window_id,
                frame_id: *frame_id,
                discarded: *discarded,
            },
            Note::Profile { window_id, profile } => NoteView::Profile {
                window_id: *window_id,
                profile: *profile,
            },
            Note::Rejected { window_id, frame_id, bytes, keyframe, contents } => NoteView::Rejected {
                window_id: *window_id,
                frame_id: *frame_id,
                bytes: *bytes as nat,
                keyframe: *keyframe,
                contents: contents@,
            },
            Note::ParameterSets { window_id, frame_id, contents } => NoteView::ParameterSets {
                window_id: *window_id,
                frame_id: *frame_id,
                contents: contents@,
            },
            Note::NonReference { window_id, frame_id } => NoteView::NonReference {
                window_id: *window_id,
                frame_id: *frame_id,
            },
        }
    }
}

/// What some notes hold.
pub open spec fn note_views(notes: Seq<Note>) -> Seq<NoteView> {
    notes.map_values(|note: Note| note@)
}

/// Adding a note adds what it holds.
proof fn lemma_note_added(notes: Seq<Note>, note: Note)
    ensures
        note_views(notes.push(note)) == note_views(notes).push(note@),
{
    assert(note_views(notes.push(note)) =~= note_views(notes).push(note@));
}

/// Whether the agent flagged a frame as a keyframe.
pub open spec fn flagged_key(frame: FrameDataView) -> bool {
    frame.flags & frame_flag::KEYFRAME != 0
}

/// Whether a decoder that holds no reference picture may start at a frame.
///
/// `KEYFRAME` means IDR, not "any intra frame", and an IDR is the only thing safe to start from:
/// it carries its own parameter sets and nothing after it may depend on anything before it. The
/// flag is the agent's claim and the NAL headers are the bitstream's own answer; either is
/// enough, so a mislabelled keyframe does not strand the window, but neither is relaxed to
/// "intra".
pub open spec fn can_start(frame: FrameDataView) -> bool {
    flagged_key(frame) || annexb::has_idr(frame.data)
}

/// What a stream is waiting for and what has already been said about it.
#[derive(Debug, Clone, Copy, PartialEq, Eq)]
pub struct Gate {
    /// Set until a frame that can start a GOP arrives; frames are dropped while it holds.
    pub awaiting_keyframe: bool,
    /// Whether parameter sets on a non-keyframe have already been reported for this stream.
    pub warned_about_parameter_sets: bool,
    /// Frames discarded since this decoder last held a usable reference picture.
    pub dropped_while_resyncing: u32,
    /// Whether the stream's profile has already been reported.
    pub reported_profile: bool,
}

/// A gate at the start of a stream.
pub open spec fn shut() -> Gate {
    Gate {
        awaiting_keyframe: true,
        warned_about_parameter_sets: false,
        dropped_while_resyncing: 0,
        reported_profile: false,
    }
}

/// What is returned for a frame the codec gave this answer to.
pub open spec fn settled(frame: FrameDataView, answer: AnswerView) -> Result<
    Option<FrameDataView>,
    DecodeErrorView,
> {
    match answer {
        Err(detail) => Err(DecodeErrorView::Bitstream(detail)),
        Ok(None) => Ok(None),
        Ok(Some(picture)) => if !decode::usable_geometry(
            picture.width as int,
            picture.height as int,
        ) {
            Err(DecodeErrorView::Geometry { width: picture.width, height: picture.height })
        } else if !picture.addressable() {
            Err(
                DecodeErrorView::Bitstream("decoded picture is smaller than its declared geometry"@),
            )
        } else {
            Ok(
                Some(
                    FrameDataView {
                        window_id: frame.window_id,
                        frame_id: frame.frame_id,
                        codec: codec::RAW_BGRA,
                        flags: frame.flags,
                        width: picture.width as u16,
                        height: picture.height as u16,
                        captured_us: frame.captured_us,
                        encoded_us: frame.encoded_us,
                        data: picture.rows(picture.height as nat),
                    },
                ),
            )
        },
    }
}

impl Gate {
    /// Whether a frame may reach the codec.
    pub open spec fn admits(self, frame: FrameDataView) -> bool {
        !self.awaiting_keyframe || can_start(frame)
    }

    /// What is remembered once a frame has been held against it.
    pub open spec fn admitted(self, frame: FrameDataView) -> Gate {
        if self.admits(frame) {
            Gate {
                awaiting_keyframe: false,
                warned_about_parameter_sets: self.warned_about_parameter_sets,
                dropped_while_resyncing: if self.awaiting_keyframe {
                    0
                } else {
                    self.dropped_while_resyncing
                },
                reported_profile: self.reported_profile || annexb::profile_of(frame.data) is Some,
            }
        } else {
            Gate {
                dropped_while_resyncing: if self.dropped_while_resyncing == u32::MAX {
                    u32::MAX
                } else {
                    (self.dropped_while_resyncing + 1) as u32
                },
                ..self
            }
        }
    }

    /// What admitting a frame is worth saying.
    pub open spec fn admission_notes(self, frame: FrameDataView) -> Seq<NoteView> {
        let resynchronised = if self.awaiting_keyframe && self.dropped_while_resyncing > 0 {
            seq![
                NoteView::Resynchronised {
                    window_id: frame.window_id,
                    frame_id: frame.frame_id,
                    discarded: self.dropped_while_resyncing,
                },
            ]
        } else {
            Seq::empty()
        };
        let profile = match annexb::profile_of(frame.data) {
            Some(profile) if !self.reported_profile => seq![
                NoteView::Profile { window_id: frame.window_id, profile },
            ],
            _ => Seq::empty(),
        };
        if self.admits(frame) {
            resynchronised + profile
        } else {
            Seq::empty()
        }
    }

    /// Whether a rejected frame shows parameter sets out of place, and this is the first time.
    pub open spec fn must_warn(self, frame: FrameDataView) -> bool {
        !flagged_key(frame) && !self.warned_about_parameter_sets && annexb::parameter_sets(
            frame.data,
        )
    }

    /// What is remembered once the codec answered a frame. One bad frame is not a dead session: the
    /// reference chain is dropped and the next keyframe is waited for, rather than predicting
    /// from a picture that is not there.
    pub open spec fn after(self, frame: FrameDataView, answer: AnswerView) -> Gate {
        if settled(frame, answer) is Err {
            Gate {
                awaiting_keyframe: true,
                warned_about_parameter_sets: self.warned_about_parameter_sets || self.must_warn(
                    frame,
                ),
                ..self
            }
        } else {
            self
        }
    }

    /// What rejecting a frame is worth saying.
    pub open spec fn rejection_notes(self, frame: FrameDataView) -> Seq<NoteView> {
        let contents = annexb::summary(frame.data);
        let rejected = seq![
            NoteView::Rejected {
                window_id: frame.window_id,
                frame_id: frame.frame_id,
                bytes: frame.data.len(),
                keyframe: flagged_key(frame),
                contents,
            },
        ];
        let parameter_sets = if self.must_warn(frame) {
            seq![
                NoteView::ParameterSets {
                    window_id: frame.window_id,
                    frame_id: frame.frame_id,
                    contents,
                },
            ]
        } else {
            Seq::empty()
        };
        let non_reference = if annexb::has_slices(frame.data) && annexb::only_disposable(
            frame.data,
        ) {
            seq![
                NoteView::NonReference { window_id: frame.window_id, frame_id: frame.frame_id },
            ]
        } else {
            Seq::empty()
        };
        rejected + parameter_sets + non_reference
    }

    /// What a frame that reaches the codec is worth saying, given whether it was rejected.
    pub open spec fn notes_on(self, frame: FrameDataView, rejected: bool) -> Seq<NoteView> {
        self.admission_notes(frame) + if rejected {
            self.admitted(frame).rejection_notes(frame)
        } else {
            Seq::empty()
        }
    }

    /// A gate at the start of a stream.
    pub fn new() -> (r: Gate)
        ensures
            r == shut(),
    {
        Gate {
            awaiting_keyframe: true,
            warned_about_parameter_sets: false,
            dropped_while_resyncing: 0,
            reported_profile: false,
        }
    }

    /// Holds a frame against what is remembered. `false` means that it must not reach the codec.
    pub fn pass(&mut self, frame: &FrameData, notes: &mut Vec<Note>) -> (r: bool)
        ensures
            r == old(self).admits(frame@),
            *final(self) == old(self).admitted(frame@),
            note_views(final(notes)@) == note_views(old(notes)@) + old(self).admission_notes(
                frame@,
            ),
    {
        let ghost start = *self;
        let ghost before = note_views(notes@);
        if self.awaiting_keyframe {
            if !(frame.is_keyframe() || annexb::contains_idr(frame.data.as_slice())) {
                self.dropped_while_resyncing = self.dropped_while_resyncing.saturating_add(1);
                assert(note_views(notes@) =~= before + start.admission_notes(frame@));
                return false;
            }
            if self.dropped_while_resyncing > 0 {
                let note = Note::Resynchronised {
                    window_id: frame.window_id,
                    frame_id: frame.frame_id,
                    discarded: self.dropped_while_resyncing,
                };
                proof {
                    lemma_note_added(notes@, note);
                }
                notes.push(note);
                self.dropped_while_resyncing = 0;
            }
            self.awaiting_keyframe = false;
        }
        if !self.reported_profile {
            match annexb::stream_profile(frame.data.as_slice()) {
                None => {},
                Some(profile) => {
                    self.reported_profile = true;
                    let note = Note::Profile { window_id: frame.window_id, profile };
                    proof {
                        lemma_note_added(notes@, note);
                    }
                    notes.push(note);
                },
            }
        }
        assert(note_views(notes@) =~= before + start.admission_notes(frame@));
        true
    }

    /// Turns the codec's answer to an admitted frame into what the caller gets.
    pub fn settle(&mut self, frame: FrameData, answer: Answer, notes: &mut Vec<Note>) -> (r:
        Decoded)
        ensures
            decode::decoded_view(r) == settled(frame@, answer_view(answer)),
            *final(self) == old(self).after(frame@, answer_view(answer)),
            note_views(final(notes)@) == note_views(old(notes)@) + if r is Err {
                old(self).rejection_notes(frame@)
            } else {
                Seq::empty()
            },
            r matches Ok(Some(out)) ==> decode::presentable(frame@, out@),
    {
        let ghost view = answer_view(answer);
        let error = match answer {
            Err(detail) => DecodeError::Bitstream(detail),
            Ok(None) => {
                assert(note_views(notes@) =~= note_views(old(notes)@) + Seq::empty());
                return Ok(None);
            },
            Ok(Some(picture)) => match to_frame(&frame, &picture) {
                Ok(out) => {
                    assert(note_views(notes@) =~= note_views(old(notes)@) + Seq::empty());
                    return Ok(Some(out));
                },
                Err(error) => error,
            },
        };
        self.report_rejection(&frame, notes);
        self.awaiting_keyframe = true;
        Err(error)
    }

    /// Says what a rejected access unit actually contained.
    ///
    /// A codec error code says only that something was refused. What is needed to find the bug
    /// is the shape of the access unit that was refused (which NAL units, in what order, how
    /// big), because that is what shows whether the encoder sent something it may not.
    fn report_rejection(&mut self, frame: &FrameData, notes: &mut Vec<Note>)
        ensures
            *final(self) == (Gate {
                warned_about_parameter_sets: old(self).warned_about_parameter_sets || old(
                    self,
                ).must_warn(frame@),
                ..*old(self)
            }),
            note_views(final(notes)@) == note_views(old(notes)@) + old(self).rejection_notes(
                frame@,
            ),
    {
        let ghost start = *self;
        let ghost before = note_views(notes@);
        let rejected = Note::Rejected {
            window_id: frame.window_id,
            frame_id: frame.frame_id,
            bytes: frame.data.len(),
            keyframe: frame.is_keyframe(),
            contents: annexb::describe(frame.data.as_slice()),
        };
        proof {
            lemma_note_added(notes@, rejected);
        }
        notes.push(rejected);
        if !frame.is_keyframe() && !self.warned_about_parameter_sets
            && annexb::has_parameter_sets(frame.data.as_slice()) {
            self.warned_about_parameter_sets = true;
            let note = Note::ParameterSets {
                window_id: frame.window_id,
                frame_id: frame.frame_id,
                contents: annexb::describe(frame.data.as_slice()),
            };
            proof {
                lemma_note_added(notes@, note);
            }
            notes.push(note);
        }
        match annexb::slices_are_non_reference(frame.data.as_slice()) {
            Some(true) => {
                let note = Note::NonReference {
                    window_id: frame.window_id,
                    frame_id: frame.frame_id,
                };
                proof {
                    lemma_note_added(notes@, note);
                }
                notes.push(note);
            },
            _ => {},
        }
        assert(note_views(notes@) =~= before + start.rejection_notes(frame@));
    }
}

/// Labels a decoded picture with the identity of the frame it came from.
///
/// The size is that of the picture that actually came out, which is the only size the pixels can
/// be labelled with. That is also why there is no resolution-change machinery here: the size
/// changes only on a keyframe carrying fresh parameter sets, which is exactly when the codec
/// reconfigures itself, so following the picture follows the stream.
fn to_frame(frame: &FrameData, picture: &Picture) -> (r: Result<FrameData, DecodeError>)
    ensures
        match r {
            Ok(out) => settled(frame@, Ok(Some(picture@))) == Ok::<
                Option<FrameDataView>,
                DecodeErrorView,
            >(Some(out@)) && decode::presentable(frame@, out@),
            Err(e) => settled(frame@, Ok(Some(picture@))) == Err::<
                Option<FrameDataView>,
                DecodeErrorView,
            >(e@),
        },
{
    match checked_geometry(picture.width, picture.height) {
        Err(e) => {
            return Err(e);
        },
        Ok(_) => {},
    }
    proof {
        decode::lemma_payload_fits(picture.width as int, picture.height as int);
    }
    match i420_to_bgra(
        I420Planes {
            y: picture.y.as_slice(),
            u: picture.u.as_slice(),
            v: picture.v.as_slice(),
            width: picture.width,
            height: picture.height,
            y_stride: picture.y_stride,
            u_stride: picture.u_stride,
            v_stride: picture.v_stride,
        },
    ) {
        None => Err(
            DecodeError::Bitstream(
                "decoded picture is smaller than its declared geometry".to_owned(),
            ),
        ),
        Some(data) => Ok(
            FrameData {
                window_id: frame.window_id,
                frame_id: frame.frame_id,
                codec: codec::RAW_BGRA,
                flags: frame.flags,
                width: picture.width as u16,
                height: picture.height as u16,
                captured_us: frame.captured_us,
                encoded_us: frame.encoded_us,
                data,
            },
        ),
    }
}

/// Software H.264 decoder for one window's stream.
pub struct H264Decoder {
    inner: OpenH264Decoder,
    gate: Gate,
    notes: Vec<Note>,
}

impl H264Decoder {
    /// What the stream is waiting for and what has already been said about it.
    pub closed spec fn gate(&self) -> Gate {
        self.gate
    }

    /// The access units that the codec has been handed, in order.
    pub closed spec fn fed(&self) -> Seq<Seq<u8>> {
        history(self.inner)
    }

    /// What the last frame was worth saying.
    pub closed spec fn said(&self) -> Seq<NoteView> {
        note_views(self.notes@)
    }

    /// What the stream holds.
    pub open spec fn state(&self) -> StreamState {
        StreamState::H264(self.gate(), self.fed(), self.said())
    }

    /// Creates a decoder.
    ///
    /// # Errors
    ///
    /// [`DecodeError::Init`] if openh264 refuses to start.
    pub fn new() -> (r: Result<Self, DecodeError>)
        ensures
            match r {
                Ok(decoder) => decoder.gate() == shut() && decoder.fed() == Seq::<
                    Seq<u8>,
                >::empty() && decoder.said() == Seq::<NoteView>::empty(),
                Err(e) => e matches DecodeError::Init { codec, .. } && codec == codec::H264,
            },
    {
        match open() {
            Err(detail) => Err(DecodeError::Init { codec: codec::H264, detail }),
            Ok(inner) => {
                let notes: Vec<Note> = Vec::new();
                assert(note_views(notes@) =~= Seq::<NoteView>::empty());
                Ok(H264Decoder { inner, gate: Gate::new(), notes })
            },
        }
    }

    /// Whether the next inter-coded frame would be dropped for lack of a reference picture.
    pub fn awaiting_keyframe(&self) -> (r: bool)
        ensures
            r == self.gate().awaiting_keyframe,
    {
        self.gate.awaiting_keyframe
    }

    /// What the last frame was worth saying.
    pub fn notes(&self) -> (r: &[Note])
        ensures
            note_views(r@) == self.said(),
    {
        self.notes.as_slice()
    }
}

impl Decoder for H264Decoder {
    open spec fn consumes(&self) -> u8 {
        codec::H264
    }

    open spec fn steps_to(
        &self,
        frame: FrameDataView,
        r: Result<Option<FrameDataView>, DecodeErrorView>,
        after: &Self,
    ) -> bool {
        self.state().steps(frame, r, after.state())
    }

    fn codec(&self) -> u8 {
        codec::H264
    }

    fn decode(&mut self, frame: FrameData) -> (r: Decoded)
        ensures
            !old(self).gate().admits(frame@) ==> {
                &&& r == Ok::<Option<FrameData>, DecodeError>(None)
                &&& final(self).gate() == old(self).gate().admitted(frame@)
                &&& final(self).fed() == old(self).fed()
                &&& final(self).said() == Seq::<NoteView>::empty()
            },
            old(self).gate().admits(frame@) ==> exists|answer: AnswerView| {
                let gate = old(self).gate().admitted(frame@);
                &&& #[trigger] may_answer(old(self).fed(), frame@.data, answer)
                &&& decode::decoded_view(r) == settled(frame@, answer)
                &&& final(self).fed() == old(self).fed().push(frame@.data)
                &&& final(self).gate() == gate.after(frame@, answer)
                &&& final(self).said() == old(self).gate().notes_on(frame@, r is Err)
            },
    {
        let mut notes: Vec<Note> = Vec::new();
        assert(note_views(notes@) =~= Seq::<NoteView>::empty());
        let admitted = self.gate.pass(&frame, &mut notes);
        assert(note_views(notes@) =~= old(self).gate().admission_notes(frame@));
        if !admitted {
            self.notes = notes;
            return Ok(None);
        }
        let answer = feed(&mut self.inner, frame.data.as_slice());
        let ghost answered = answer_view(answer);
        let ghost wire = frame@;
        let r = self.gate.settle(frame, answer, &mut notes);
        self.notes = notes;
        proof {
            assert(may_answer(old(self).fed(), wire.data, answered));
            assert(self.said() =~= old(self).gate().notes_on(wire, r is Err));
        }
        r
    }
}

/// A decoder that holds no reference picture never shows a frame that cannot start one: the
/// frame is consumed without a picture, and the decoder keeps waiting.
pub proof fn law_waits_for_a_keyframe(
    decoder: H264Decoder,
    frame: FrameDataView,
    r: Result<Option<FrameDataView>, DecodeErrorView>,
    after: H264Decoder,
)
    requires
        decoder.gate().awaiting_keyframe,
        !can_start(frame),
        decoder.steps_to(frame, r, &after),
    ensures
        r == Ok::<Option<FrameDataView>, DecodeErrorView>(None),
        after.gate().awaiting_keyframe,
        after.fed() == decoder.fed(),
{
}

/// A rejected frame costs the reference chain: after it the decoder waits for a keyframe, and a
/// keyframe is always admitted.
pub proof fn law_errors_wait_for_the_next_keyframe(
    gate: Gate,
    frame: FrameDataView,
    answer: AnswerView,
    next: FrameDataView,
)
    requires
        settled(frame, answer) is Err,
        can_start(next),
    ensures
        gate.after(frame, answer).awaiting_keyframe,
        gate.after(frame, answer).admits(next),
        !gate.after(frame, answer).admitted(next).awaiting_keyframe,
{
}

/// A stream starts shut. While it waits, a frame passes only if the agent calls it a keyframe or it
/// holds an IDR slice; the others are counted, and the count is told once the stream resumes. A stream
/// that does not wait lets every frame pass.
pub proof fn law_streams_start_at_a_keyframe(frame: &FrameData, data: &[u8], idr: bool)
    requires
        data@ == frame.data@,
        call_ensures(annexb::contains_idr, (data,), idr),
    ensures
        forall|g: Gate| #[trigger]
            call_ensures(Gate::new, (), g) ==> g.awaiting_keyframe && g.dropped_while_resyncing
                == 0 && !g.reported_profile && !g.warned_about_parameter_sets,
        forall|g: &mut Gate, notes: &mut Vec<Note>, r: bool| #[trigger]
            call_ensures(Gate::pass, (g, frame, notes), r) ==> {
                let (before, after) = (*g, *final(g));
                let shut = before.awaiting_keyframe && frame.flags & 1 == 0 && !idr;
                &&& r == !shut
                &&& shut ==> {
                    &&& after.awaiting_keyframe
                    &&& before.dropped_while_resyncing < 0xffff_ffff ==> after.dropped_while_resyncing
                        == before.dropped_while_resyncing + 1
                    &&& final(notes)@.len() == (*notes)@.len()
                }
                &&& !shut ==> !after.awaiting_keyframe
                &&& !shut && before.awaiting_keyframe ==> after.dropped_while_resyncing == 0
                &&& !shut && before.awaiting_keyframe && before.dropped_while_resyncing > 0 ==> {
                    &&& final(notes)@.len() > (*notes)@.len()
                    &&& final(notes)@[(*notes)@.len() as int] matches Note::Resynchronised {
                        window_id,
                        frame_id,
                        discarded,
                    }
                    &&& window_id == frame.window_id
                    &&& frame_id == frame.frame_id
                    &&& discarded == before.dropped_while_resyncing
                }
            },
{
    assert forall|g: &mut Gate, notes: &mut Vec<Note>, r: bool| #[trigger]
        call_ensures(Gate::pass, (g, frame, notes), r) implies {
        let (before, after) = (*g, *final(g));
        let shut = before.awaiting_keyframe && frame.flags & 1 == 0 && !idr;
        &&& r == !shut
        &&& shut ==> {
            &&& after.awaiting_keyframe
            &&& before.dropped_while_resyncing < 0xffff_ffff ==> after.dropped_while_resyncing
                == before.dropped_while_resyncing + 1
            &&& final(notes)@.len() == (*notes)@.len()
        }
        &&& !shut ==> !after.awaiting_keyframe
        &&& !shut && before.awaiting_keyframe ==> after.dropped_while_resyncing == 0
        &&& !shut && before.awaiting_keyframe && before.dropped_while_resyncing > 0 ==> {
            &&& final(notes)@.len() > (*notes)@.len()
            &&& final(notes)@[(*notes)@.len() as int] matches Note::Resynchronised {
                window_id,
                frame_id,
                discarded,
            }
            &&& window_id == frame.window_id
            &&& frame_id == frame.frame_id
            &&& discarded == before.dropped_while_resyncing
        }
    } by {
        let said = (*g).admission_notes(frame@);
        let n = (*notes)@.len() as int;
        assert(note_views(final(notes)@).len() == n + said.len());
        if said.len() > 0 {
            assert(note_views(final(notes)@)[n] == said[0]);
            assert(final(notes)@[n]@ == said[0]);
        }
    }
}

/// The profile of a stream is told once, from its first parameter set.
pub proof fn law_profiles_are_told_once(
    frame: &FrameData,
    data: &[u8],
    profile: Option<StreamProfile>,
)
    requires
        data@ == frame.data@,
        call_ensures(annexb::stream_profile, (data,), profile),
    ensures
        forall|g: &mut Gate, notes: &mut Vec<Note>| #[trigger]
            call_ensures(Gate::pass, (g, frame, notes), true) ==> {
                &&& final(g).reported_profile == ((*g).reported_profile || profile is Some)
                &&& profile is Some && !(*g).reported_profile ==> final(notes)@.len() > 0 && (
                final(notes)@.last() matches Note::Profile { window_id, profile: p } && window_id
                    == frame.window_id && p == profile->0)
            },
{
    assert forall|g: &mut Gate, notes: &mut Vec<Note>| #[trigger]
        call_ensures(Gate::pass, (g, frame, notes), true) implies {
        &&& final(g).reported_profile == ((*g).reported_profile || profile is Some)
        &&& profile is Some && !(*g).reported_profile ==> final(notes)@.len() > 0 && (
        final(notes)@.last() matches Note::Profile { window_id, profile: p } && window_id
            == frame.window_id && p == profile->0)
    } by {
        let said = (*g).admission_notes(frame@);
        let n = (*notes)@.len() as int;
        assert(note_views(final(notes)@).len() == n + said.len());
        if said.len() > 0 {
            assert(note_views(final(notes)@)[n + said.len() - 1] == said.last());
            assert(final(notes)@[n + said.len() - 1]@ == said.last());
        }
    }
}

/// A refused access unit is an error, and so is a picture that is out of bounds or incomplete: after
/// it the stream waits for a keyframe again. Any other picture becomes the frame's pixels, and no
/// picture leaves everything as it is.
pub proof fn law_answers_become_frames(
    frame: FrameData,
    answer: Answer,
    planes: I420Planes<'_>,
    size: Result<(usize, usize), DecodeError>,
    pixels: Option<Vec<u8>>,
)
    requires
        answer matches Ok(Some(picture)) ==> {
            &&& planes@ == picture@
            &&& call_ensures(checked_geometry, (picture.width, picture.height), size)
            &&& call_ensures(i420_to_bgra, (planes,), pixels)
        },
    ensures
        forall|g: &mut Gate, notes: &mut Vec<Note>, r: Decoded| #[trigger]
            call_ensures(Gate::settle, (g, frame, answer, notes), r) ==> {
                &&& r is Err ==> final(g).awaiting_keyframe
                &&& r is Ok ==> *final(g) == *g && final(notes)@.len() == (*notes)@.len()
                &&& match answer {
                    Err(detail) => r matches Err(DecodeError::Bitstream(d)) && d@ == detail@,
                    Ok(None) => r matches Ok(None),
                    Ok(Some(picture)) => match (size, pixels) {
                        (Err(_), _) => r matches Err(DecodeError::Geometry { width, height })
                            && width == picture.width && height == picture.height,
                        (Ok(_), None) => r matches Err(DecodeError::Bitstream(_)),
                        (Ok(_), Some(bgra)) => {
                            &&& r matches Ok(Some(out))
                            &&& out.data@ == bgra@
                            &&& out.width == picture.width && out.height == picture.height
                            &&& out.codec == 1
                            &&& out.window_id == frame.window_id
                            &&& out.frame_id == frame.frame_id
                            &&& out.flags == frame.flags
                            &&& out.captured_us == frame.captured_us
                            &&& out.encoded_us == frame.encoded_us
                        },
                    },
                }
            },
{
    assert forall|g: &mut Gate, notes: &mut Vec<Note>, r: Decoded| #[trigger]
        call_ensures(Gate::settle, (g, frame, answer, notes), r) implies {
        &&& r is Err ==> final(g).awaiting_keyframe
        &&& r is Ok ==> *final(g) == *g && final(notes)@.len() == (*notes)@.len()
        &&& match answer {
            Err(detail) => r matches Err(DecodeError::Bitstream(d)) && d@ == detail@,
            Ok(None) => r matches Ok(None),
            Ok(Some(picture)) => match (size, pixels) {
                (Err(_), _) => r matches Err(DecodeError::Geometry { width, height }) && width
                    == picture.width && height == picture.height,
                (Ok(_), None) => r matches Err(DecodeError::Bitstream(_)),
                (Ok(_), Some(bgra)) => {
                    &&& r matches Ok(Some(out))
                    &&& out.data@ == bgra@
                    &&& out.width == picture.width && out.height == picture.height
                    &&& out.codec == 1
                    &&& out.window_id == frame.window_id
                    &&& out.frame_id == frame.frame_id
                    &&& out.flags == frame.flags
                    &&& out.captured_us == frame.captured_us
                    &&& out.encoded_us == frame.encoded_us
                },
            },
        }
    } by {
        assert(decode::decoded_view(r) == settled(frame@, answer_view(answer)));
        if r is Ok {
            assert(note_views(final(notes)@).len() == note_views((*notes)@).len());
        }
        if let Ok(Some(picture)) = answer {
            if size is Ok {
                decode::lemma_payload_fits(picture.width as int, picture.height as int);
            }
        }
    }
}

/// A refusal says which frame it was and what was in it. Parameter sets in a frame that is no keyframe
/// are told once a stream.
pub proof fn law_refusals_are_told(
    frame: FrameData,
    detail: String,
    data: &[u8],
    sets: bool,
    contents: String,
)
    requires
        data@ == frame.data@,
        call_ensures(annexb::has_parameter_sets, (data,), sets),
        call_ensures(annexb::describe, (data,), contents),
    ensures
        forall|g: &mut Gate, notes: &mut Vec<Note>, r: Decoded| #[trigger]
            call_ensures(Gate::settle, (g, frame, Err(detail), notes), r) ==> {
                let n = (*notes)@.len() as int;
                let first = sets && frame.flags & 1 == 0 && !(*g).warned_about_parameter_sets;
                &&& final(notes)@.len() > n
                &&& final(notes)@[n] matches Note::Rejected {
                    window_id,
                    frame_id,
                    bytes,
                    keyframe,
                    contents: c,
                }
                &&& window_id == frame.window_id && frame_id == frame.frame_id
                &&& bytes == frame.data@.len()
                &&& keyframe == (frame.flags & 1 != 0)
                &&& c@ == contents@
                &&& final(g).warned_about_parameter_sets == ((*g).warned_about_parameter_sets
                    || first)
                &&& first ==> final(notes)@.len() > n + 1 && (
                final(notes)@[n + 1] matches Note::ParameterSets {
                    window_id: w,
                    frame_id: f,
                    contents: d,
                } && w == frame.window_id && f == frame.frame_id && d@ == contents@)
            },
{
    assert forall|g: &mut Gate, notes: &mut Vec<Note>, r: Decoded| #[trigger]
        call_ensures(Gate::settle, (g, frame, Err(detail), notes), r) implies {
        let n = (*notes)@.len() as int;
        let first = sets && frame.flags & 1 == 0 && !(*g).warned_about_parameter_sets;
        &&& final(notes)@.len() > n
        &&& final(notes)@[n] matches Note::Rejected {
            window_id,
            frame_id,
            bytes,
            keyframe,
            contents: c,
        }
        &&& window_id == frame.window_id && frame_id == frame.frame_id
        &&& bytes == frame.data@.len()
        &&& keyframe == (frame.flags & 1 != 0)
        &&& c@ == contents@
        &&& final(g).warned_about_parameter_sets == ((*g).warned_about_parameter_sets || first)
        &&& first ==> final(notes)@.len() > n + 1 && (final(notes)@[n + 1] matches Note::ParameterSets {
            window_id: w,
            frame_id: f,
            contents: d,
        } && w == frame.window_id && f == frame.frame_id && d@ == contents@)
    } by {
        let said = (*g).rejection_notes(frame@);
        let n = (*notes)@.len() as int;
        assert(decode::decoded_view(r) is Err);
        assert(r is Err);
        assert(note_views(final(notes)@).len() == n + said.len());
        assert(note_views(final(notes)@)[n] == said[0]);
        assert(final(notes)@[n]@ == said[0]);
        if said.len() > 1 {
            assert(note_views(final(notes)@)[n + 1] == said[1]);
            assert(final(notes)@[n + 1]@ == said[1]);
        }
    }
}

/// A refused picture that nothing refers to is told as such, at the end of what is told.
pub proof fn law_disposable_refusals_are_told(
    frame: FrameData,
    detail: String,
    data: &[u8],
    disposable: Option<bool>,
)
    requires
        data@ == frame.data@,
        call_ensures(annexb::slices_are_non_reference, (data,), disposable),
    ensures
        forall|g: &mut Gate, notes: &mut Vec<Note>, r: Decoded| #[trigger]
            call_ensures(Gate::settle, (g, frame, Err(detail), notes), r) ==> {
                &&& final(notes)@.len() > 0
                &&& disposable == Some(true) <==> final(notes)@.last() is NonReference
                &&& final(notes)@.last() matches Note::NonReference { window_id, frame_id } ==> window_id
                    == frame.window_id && frame_id == frame.frame_id
            },
{
    assert forall|g: &mut Gate, notes: &mut Vec<Note>, r: Decoded| #[trigger]
        call_ensures(Gate::settle, (g, frame, Err(detail), notes), r) implies {
        &&& final(notes)@.len() > 0
        &&& disposable == Some(true) <==> final(notes)@.last() is NonReference
        &&& final(notes)@.last() matches Note::NonReference { window_id, frame_id } ==> window_id
            == frame.window_id && frame_id == frame.frame_id
    } by {
        let said = (*g).rejection_notes(frame@);
        let n = (*notes)@.len() as int;
        assert(decode::decoded_view(r) is Err);
        assert(r is Err);
        assert(note_views(final(notes)@).len() == n + said.len());
        assert(note_views(final(notes)@)[n + said.len() - 1] == said.last());
        assert(final(notes)@[n + said.len() - 1]@ == said.last());
    }
}

} // verus!
