//! What goes on a window's surface.
//!
//! The presenter accepts `RAW_BGRA` only: decoding happened on the session side. [`Surfaces`]
//! keeps what each window's surface shows and how large it is, [`blit`] writes a frame into a
//! surface, and whoever owns the native surfaces does the rest.

use std::collections::HashMap;

use vstd::prelude::*;

use crate::display::pixels;
use crate::display::pixels::frame_len;
use crate::proto::message::codec;
use crate::proto::message::{FrameData, FrameDataView};
use crate::text;

verus! {

/// Timing returned by a presenter after a frame is decoded and shown.
#[derive(Debug, Clone, Copy, PartialEq, Eq)]
pub struct PresentTimes {
    /// Decode completion timestamp in client monotonic microseconds.
    pub decoded_us: u64,
    /// Presentation completion timestamp in client monotonic microseconds.
    pub presented_us: u64,
}

/// Error returned by a presenter.
#[derive(Debug, Clone, PartialEq, Eq)]
pub enum PresentError {
    /// The target window was not attached.
    UnknownWindow(u32),
    /// Frame codec is not supported by this presenter.
    UnsupportedCodec(u8),
    /// The frame payload length or dimensions are invalid.
    DroppedFrame {
        /// Window id.
        window_id: u32,
        /// Expected payload length.
        expected: usize,
        /// Actual payload length.
        actual: usize,
    },
    /// The platform presenter failed.
    Platform(String),
}

/// What a [`PresentError`] holds.
pub enum PresentErrorView {
    /// See [`PresentError::UnknownWindow`].
    UnknownWindow(u32),
    /// See [`PresentError::UnsupportedCodec`].
    UnsupportedCodec(u8),
    /// See [`PresentError::DroppedFrame`].
    DroppedFrame {
        /// Window id.
        window_id: u32,
        /// Expected payload length.
        expected: usize,
        /// Actual payload length.
        actual: usize,
    },
    /// See [`PresentError::Platform`].
    Platform(Seq<char>),
}

impl View for PresentError {
    type V = PresentErrorView;

    open spec fn view(&self) -> PresentErrorView {
        match self {
            PresentError::UnknownWindow(id) => PresentErrorView::UnknownWindow(*id),
            PresentError::UnsupportedCodec(codec) => PresentErrorView::UnsupportedCodec(*codec),
            PresentError::DroppedFrame {
                window_id,
                expected,
                actual,
            } => PresentErrorView::DroppedFrame {
                window_id: *window_id,
                expected: *expected,
                actual: *actual,
            },
            PresentError::Platform(message) => PresentErrorView::Platform(message@),
        }
    }
}

impl PresentErrorView {
    /// The error in words.
    pub open spec fn words(self) -> Seq<char> {
        match self {
            PresentErrorView::UnknownWindow(id) => "unknown display window "@ + text::decimal(
                id as nat,
            ),
            PresentErrorView::UnsupportedCodec(codec) => "unsupported frame codec "@
                + text::decimal(codec as nat),
            PresentErrorView::DroppedFrame { window_id, expected, actual } =>
                "dropped malformed frame for window "@ + text::decimal(window_id as nat)
                + ": expected "@ + text::decimal(expected as nat) + " bytes, got "@
                + text::decimal(actual as nat),
            PresentErrorView::Platform(message) => message,
        }
    }
}

impl PresentError {
    /// The error in words.
    pub fn message(&self) -> (r: String)
        ensures
            r@ == self@.words(),
    {
        match self {
            PresentError::UnknownWindow(id) => {
                let mut out = "unknown display window ".to_owned();
                text::push_decimal(&mut out, *id as u64);
                out
            },
            PresentError::UnsupportedCodec(codec) => {
                let mut out = "unsupported frame codec ".to_owned();
                text::push_decimal(&mut out, *codec as u64);
                out
            },
            PresentError::DroppedFrame { window_id, expected, actual } => {
                let mut out = "dropped malformed frame for window ".to_owned();
                text::push_decimal(&mut out, *window_id as u64);
                text::push_str(&mut out, ": expected ");
                text::push_decimal(&mut out, *expected as u64);
                text::push_str(&mut out, " bytes, got ");
                text::push_decimal(&mut out, *actual as u64);
                out
            },
            PresentError::Platform(message) => message.clone(),
        }
    }
}

/// The four bytes of a frame's pixel in column `x` of row `y`, or black where the frame does not
/// reach.
pub open spec fn shown(frame: FrameDataView, x: int, y: int) -> Seq<u8> {
    if x < frame.width && y < frame.height {
        pixel_at(frame.data, frame.width as int, x, y)
    } else {
        seq![0u8, 0u8, 0u8, 0u8]
    }
}

/// The four bytes of the pixel in column `x` of row `y`, where a row is `width` pixels.
pub open spec fn pixel_at(bytes: Seq<u8>, width: int, x: int, y: int) -> Seq<u8> {
    bytes.subrange((y * width + x) * 4, (y * width + x) * 4 + 4)
}

/// Whether a surface of `width * height` pixels shows a frame.
pub open spec fn shows(surface: Seq<u8>, width: int, height: int, frame: FrameDataView) -> bool {
    forall|x: int, y: int|
        0 <= x < width && 0 <= y < height ==> pixel_at(surface, width, x, y) == #[trigger] shown(
            frame,
            x,
            y,
        )
}

/// A position in a picture lies within it.
proof fn lemma_within(x: int, y: int, width: int, height: int)
    requires
        0 <= x < width,
        0 <= y < height,
    ensures
        0 <= y * width + x < width * height,
{
    assert(0 <= y * width && y * width + width <= width * height) by (nonlinear_arith)
        requires
            0 <= y < height,
            0 < width,
    ;
}

/// Two positions in a picture with the same index are the same.
proof fn lemma_same_place(x: int, y: int, other_x: int, other_y: int, width: int)
    requires
        0 <= x < width,
        0 <= other_x < width,
        y * width + x == other_y * width + other_x,
    ensures
        x == other_x,
        y == other_y,
{
    if y < other_y {
        assert(y * width + width <= other_y * width) by (nonlinear_arith)
            requires
                y < other_y,
                0 < width,
        ;
    } else if other_y < y {
        assert(other_y * width + width <= y * width) by (nonlinear_arith)
            requires
                other_y < y,
                0 < width,
        ;
    }
}

/// Writing one pixel leaves the others as they are.
proof fn lemma_pixel_written(before: Seq<u8>, after: Seq<u8>, at: int, width: int, x: int, y: int)
    requires
        before.len() == after.len(),
        0 <= at,
        0 <= (y * width + x) * 4,
        (y * width + x) * 4 + 4 <= before.len(),
        (y * width + x) * 4 + 4 <= at || at + 4 <= (y * width + x) * 4,
        forall|i: int|
            0 <= i < before.len() && !(at <= i < at + 4) ==> #[trigger] after[i] == before[i],
    ensures
        pixel_at(after, width, x, y) == pixel_at(before, width, x, y),
{
    assert(pixel_at(after, width, x, y) =~= pixel_at(before, width, x, y));
}

/// Writes a frame into the memory of a surface of `width * height` pixels: row by row from the top
/// left, byte for byte as far as both reach, and black elsewhere.
pub fn blit(surface: &mut [u8], width: u32, height: u32, frame: &FrameData)
    requires
        old(surface)@.len() == width * height * 4,
        frame.data@.len() == pixels::payload_len(frame.width, frame.height),
    ensures
        final(surface)@.len() == old(surface)@.len(),
        shows(final(surface)@, width as int, height as int, frame@),
{
    let (w, h): (usize, usize) = (frame.width as usize, frame.height as usize);
    let len: usize = frame.data.len();
    let total: usize = surface.len();
    let mut at: usize = 0;
    let mut x: u32 = 0;
    let mut y: u32 = 0;
    assert(width * height >= 0) by (nonlinear_arith);
    while at < total
        invariant
            at <= total,
            total == surface@.len(),
            total == width * height * 4,
            len == frame.data@.len(),
            len == pixels::payload_len(frame.width, frame.height),
            w == frame.width,
            h == frame.height,
            at == (y * width + x) * 4,
            at < total ==> x < width && y < height,
            x <= width,
            forall|px: int, py: int|
                0 <= px < width && 0 <= py < height && (py * width + px) * 4 < at ==> pixel_at(
                    surface@,
                    width as int,
                    px,
                    py,
                ) == #[trigger] shown(frame@, px, py),
        decreases total - at,
    {
        let ghost before = surface@;
        proof {
            lemma_within(x as int, y as int, width as int, height as int);
        }
        if (x as usize) < w && (y as usize) < h {
            proof {
                lemma_within(x as int, y as int, w as int, h as int);
            }
            assert(y * w <= y * w + x);
            let from: usize = (y as usize * w + x as usize) * 4;
            surface[at] = frame.data[from];
            surface[at + 1] = frame.data[from + 1];
            surface[at + 2] = frame.data[from + 2];
            surface[at + 3] = frame.data[from + 3];
        } else {
            surface[at] = 0;
            surface[at + 1] = 0;
            surface[at + 2] = 0;
            surface[at + 3] = 0;
        }
        proof {
            assert(pixel_at(surface@, width as int, x as int, y as int) =~= shown(
                frame@,
                x as int,
                y as int,
            ));
            assert forall|px: int, py: int|
                0 <= px < width && 0 <= py < height && (py * width + px) * 4 < at
                    + 4 implies pixel_at(surface@, width as int, px, py) == #[trigger] shown(
                frame@,
                px,
                py,
            ) by {
                lemma_within(px, py, width as int, height as int);
                if (py * width + px) * 4 == at {
                    lemma_same_place(px, py, x as int, y as int, width as int);
                } else {
                    lemma_pixel_written(before, surface@, at as int, width as int, px, py);
                }
            }
        }
        at = at + 4;
        if x + 1 == width {
            proof {
                assert((y + 1) * width == y * width + width) by (nonlinear_arith);
                if at < total {
                    assert(y + 1 < height) by (nonlinear_arith)
                        requires
                            (y + 1) * width < width * height,
                            0 < width,
                    ;
                } else {
                    assert(y + 1 <= height) by (nonlinear_arith)
                        requires
                            (y + 1) * width <= width * height,
                            0 < width,
                    ;
                }
            }
            x = 0;
            y = y + 1;
        } else {
            x = x + 1;
        }
    }
    proof {
        assert forall|px: int, py: int| 0 <= px < width && 0 <= py < height implies pixel_at(
            surface@,
            width as int,
            px,
            py,
        ) == #[trigger] shown(frame@, px, py) by {
            lemma_within(px, py, width as int, height as int);
        }
    }
}

/// A surface dimension, which is at least one.
pub fn nonzero(value: u32) -> (r: u32)
    ensures
        r == (if value < 1 { 1 } else { value }),
{
    if value < 1 {
        1
    } else {
        value
    }
}

/// What is known of one window's surface.
pub struct SurfaceView {
    /// Width in pixels.
    pub width: u32,
    /// Height in pixels.
    pub height: u32,
    /// The frame it shows.
    pub last_frame: Option<FrameDataView>,
}

/// One window's surface.
#[derive(Debug)]
struct Surface {
    width: u32,
    height: u32,
    last_frame: Option<FrameData>,
}

impl View for Surface {
    type V = SurfaceView;

    closed spec fn view(&self) -> SurfaceView {
        SurfaceView {
            width: self.width,
            height: self.height,
            last_frame: match self.last_frame {
                None => None,
                Some(frame) => Some(frame@),
            },
        }
    }
}

/// A dimension as surfaces have it.
pub open spec fn dimension(value: u32) -> u32 {
    if value < 1 {
        1
    } else {
        value
    }
}

/// Why a frame may not go on a surface, if it may not.
pub open spec fn refused(surfaces: Map<u32, SurfaceView>, id: u32, frame: FrameDataView) -> Option<
    PresentErrorView,
> {
    let expected = pixels::payload_len(frame.width, frame.height);
    if frame.codec != codec::RAW_BGRA {
        Some(PresentErrorView::UnsupportedCodec(frame.codec))
    } else if frame.data.len() != expected {
        Some(
            PresentErrorView::DroppedFrame {
                window_id: frame.window_id,
                expected: if expected <= usize::MAX {
                    expected as usize
                } else {
                    usize::MAX
                },
                actual: frame.data.len() as usize,
            },
        )
    } else if !surfaces.contains_key(id) {
        Some(PresentErrorView::UnknownWindow(id))
    } else {
        None
    }
}

/// What each window's surface shows, and how large it is.
#[derive(Debug)]
pub struct Surfaces {
    windows: HashMap<u32, Surface>,
}

impl View for Surfaces {
    type V = Map<u32, SurfaceView>;

    closed spec fn view(&self) -> Map<u32, SurfaceView> {
        self.windows@.map_values(|surface: Surface| surface@)
    }
}

impl Default for Surfaces {
    fn default() -> (r: Self)
        ensures
            r@ == Map::<u32, SurfaceView>::empty(),
    {
        Surfaces::new()
    }
}

impl Surfaces {
    /// No surfaces.
    pub fn new() -> (r: Self)
        ensures
            r@ == Map::<u32, SurfaceView>::empty(),
    {
        broadcast use vstd::std_specs::hash::group_hash_axioms;

        let r = Surfaces { windows: HashMap::new() };
        assert(r@ =~= Map::<u32, SurfaceView>::empty());
        r
    }

    /// A surface of this size was attached to a window; it shows nothing yet.
    pub fn attach(&mut self, id: u32, width: u32, height: u32)
        ensures
            final(self)@ == old(self)@.insert(
                id,
                SurfaceView {
                    width: dimension(width),
                    height: dimension(height),
                    last_frame: None,
                },
            ),
    {
        broadcast use vstd::std_specs::hash::group_hash_axioms;

        let surface = Surface { width: nonzero(width), height: nonzero(height), last_frame: None };
        let ghost view = surface@;
        self.windows.insert(id, surface);
        assert(self@ =~= old(self)@.insert(id, view));
    }

    /// The native surface size changed.
    ///
    /// # Errors
    ///
    /// [`PresentError::UnknownWindow`] if the window has no surface.
    pub fn resize(&mut self, id: u32, width: u32, height: u32) -> (r: Result<(), PresentError>)
        ensures
            match r {
                Ok(()) => old(self)@.contains_key(id) && final(self)@ == old(self)@.insert(
                    id,
                    SurfaceView {
                        width: dimension(width),
                        height: dimension(height),
                        last_frame: old(self)@[id].last_frame,
                    },
                ),
                Err(e) => !old(self)@.contains_key(id) && final(self)@ == old(self)@ && e@
                    == PresentErrorView::UnknownWindow(id),
            },
    {
        broadcast use vstd::std_specs::hash::group_hash_axioms;

        match self.windows.remove(&id) {
            None => {
                assert(self@ =~= old(self)@);
                Err(PresentError::UnknownWindow(id))
            },
            Some(surface) => {
                let surface = Surface {
                    width: nonzero(width),
                    height: nonzero(height),
                    last_frame: surface.last_frame,
                };
                let ghost view = surface@;
                self.windows.insert(id, surface);
                assert(self@ =~= old(self)@.insert(id, view));
                Ok(())
            },
        }
    }

    /// The size of a window's surface.
    ///
    /// # Errors
    ///
    /// [`PresentError::UnknownWindow`] if the window has no surface.
    pub fn size(&self, id: u32) -> (r: Result<(u32, u32), PresentError>)
        ensures
            match r {
                Ok(size) => self@.contains_key(id) && size == (self@[id].width, self@[id].height),
                Err(e) => !self@.contains_key(id) && e@ == PresentErrorView::UnknownWindow(id),
            },
    {
        broadcast use vstd::std_specs::hash::group_hash_axioms;

        match self.windows.get(&id) {
            None => Err(PresentError::UnknownWindow(id)),
            Some(surface) => Ok((surface.width, surface.height)),
        }
    }

    /// Whether a frame may go on a window's surface, and the size of that surface.
    ///
    /// # Errors
    ///
    /// [`PresentError`] if the codec is not `RAW_BGRA`, the payload does not fit the geometry, or
    /// the window has no surface.
    pub fn check(&self, id: u32, frame: &FrameData) -> (r: Result<(u32, u32), PresentError>)
        ensures
            match r {
                Ok(size) => {
                    &&& refused(self@, id, frame@) is None
                    &&& size == (self@[id].width, self@[id].height)
                    &&& frame.data@.len() == pixels::payload_len(frame.width, frame.height)
                },
                Err(e) => refused(self@, id, frame@) == Some(e@),
            },
    {
        if frame.codec != codec::RAW_BGRA {
            return Err(PresentError::UnsupportedCodec(frame.codec));
        }
        let actual: usize = frame.data.len();
        let expected: usize = match frame_len(frame.width, frame.height) {
            None => {
                return Err(
                    PresentError::DroppedFrame {
                        window_id: frame.window_id,
                        expected: usize::MAX,
                        actual,
                    },
                );
            },
            Some(expected) => expected,
        };
        if actual != expected {
            return Err(
                PresentError::DroppedFrame { window_id: frame.window_id, expected, actual },
            );
        }
        self.size(id)
    }

    /// A frame was shown on a window's surface.
    pub fn on_presented(&mut self, id: u32, frame: FrameData)
        ensures
            final(self)@ == (if old(self)@.contains_key(id) {
                old(self)@.insert(
                    id,
                    SurfaceView { last_frame: Some(frame@), ..old(self)@[id] },
                )
            } else {
                old(self)@
            }),
    {
        broadcast use vstd::std_specs::hash::group_hash_axioms;

        match self.windows.remove(&id) {
            None => {
                assert(self@ =~= old(self)@);
            },
            Some(surface) => {
                let surface = Surface {
                    width: surface.width,
                    height: surface.height,
                    last_frame: Some(frame),
                };
                let ghost view = surface@;
                self.windows.insert(id, surface);
                assert(self@ =~= old(self)@.insert(id, view));
            },
        }
    }

    /// The most recent frame of a window, to be shown again on expose or redraw.
    ///
    /// # Errors
    ///
    /// [`PresentError::UnknownWindow`] if the window has no surface.
    pub fn last_frame(&self, id: u32) -> (r: Result<Option<&FrameData>, PresentError>)
        ensures
            match r {
                Ok(None) => self@.contains_key(id) && self@[id].last_frame is None,
                Ok(Some(frame)) => self@.contains_key(id) && self@[id].last_frame == Some(frame@),
                Err(e) => !self@.contains_key(id) && e@ == PresentErrorView::UnknownWindow(id),
            },
    {
        broadcast use vstd::std_specs::hash::group_hash_axioms;

        match self.windows.get(&id) {
            None => Err(PresentError::UnknownWindow(id)),
            Some(surface) => match &surface.last_frame {
                None => Ok(None),
                Some(frame) => Ok(Some(frame)),
            },
        }
    }

    /// A window's surface was dropped.
    pub fn detach(&mut self, id: u32)
        ensures
            final(self)@ == old(self)@.remove(id),
    {
        broadcast use vstd::std_specs::hash::group_hash_axioms;

        self.windows.remove(&id);
        assert(self@ =~= old(self)@.remove(id));
    }
}

/// A frame stands at the top left of its surface, byte for byte as far as both reach, and the rest of
/// the surface is black.
pub proof fn law_frames_stand_at_the_top_left(
    width: u32,
    height: u32,
    frame: &FrameData,
    x: int,
    y: int,
    b: int,
)
    requires
        frame.data@.len() == 4 * (frame.width * frame.height),
        0 <= x < width,
        0 <= y < height,
        0 <= b < 4,
    ensures
        forall|s: &mut [u8]| #[trigger]
            call_ensures(blit, (s, width, height, frame), ()) && (*s)@.len() == width * height * 4
                ==> final(s)@.len() == (*s)@.len() && final(s)@[4 * (y * width + x) + b] == (
            if x < frame.width && y < frame.height {
                frame.data@[4 * (y * frame.width + x) + b]
            } else {
                0
            }),
{
    assert forall|s: &mut [u8]| #[trigger]
        call_ensures(blit, (s, width, height, frame), ()) && (*s)@.len() == width * height
            * 4 implies final(s)@.len() == (*s)@.len() && final(s)@[4 * (y * width + x) + b] == (
    if x < frame.width && y < frame.height {
        frame.data@[4 * (y * frame.width + x) + b]
    } else {
        0
    }) by {
        lemma_within(x, y, width as int, height as int);
        assert(shows(final(s)@, width as int, height as int, frame@));
        assert(pixel_at(final(s)@, width as int, x, y) == shown(frame@, x, y));
        assert(pixel_at(final(s)@, width as int, x, y)[b] == final(s)@[(y * width + x) * 4 + b]);
        if x < frame.width && y < frame.height {
            lemma_within(x, y, frame.width as int, frame.height as int);
            assert(pixel_at(frame.data@, frame.width as int, x, y)[b] == frame.data@[(y
                * frame.width + x) * 4 + b]);
        }
    }
}

/// A frame goes on a surface if it is raw, has four bytes for each pixel and its window has a surface;
/// it is refused for the first of these that fails.
pub proof fn law_frames_are_checked(
    s: &Surfaces,
    id: u32,
    frame: &FrameData,
    r: Result<(u32, u32), PresentError>,
    size: Result<(u32, u32), PresentError>,
)
    requires
        call_ensures(Surfaces::check, (s, id, frame), r),
        call_ensures(Surfaces::size, (s, id), size),
    ensures
        r is Ok <==> frame.codec == 1 && frame.data@.len() == 4 * (frame.width * frame.height)
            && size is Ok,
        r is Ok ==> r == size,
        frame.codec != 1 ==> r == Err::<(u32, u32), _>(
            PresentError::UnsupportedCodec(frame.codec),
        ),
        frame.codec == 1 && frame.data@.len() != 4 * (frame.width * frame.height) ==> (
        r matches Err(PresentError::DroppedFrame { window_id, actual, .. }) && window_id
            == frame.window_id && actual == frame.data@.len()),
        frame.codec == 1 && frame.data@.len() == 4 * (frame.width * frame.height) && size is Err
            ==> r == Err::<(u32, u32), _>(PresentError::UnknownWindow(id)),
{
    let n = frame.data.len();
    if r is Err {
        assert(refused(s@, id, frame@) == Some(r->Err_0@));
    }
}

/// A surface has the size it was attached or resized with, but at least one pixel in each direction. A
/// new one shows nothing; one that is resized keeps what it shows, and one that is detached is gone.
pub proof fn law_surfaces_have_their_size(id: u32, width: u32, height: u32)
    ensures
        forall|
            s: &mut Surfaces,
            size: Result<(u32, u32), PresentError>,
            last: Result<Option<&FrameData>, PresentError>,
        |
            #![trigger call_ensures(Surfaces::attach, (s, id, width, height), ()), call_ensures(Surfaces::size, (&*final(s), id), size), call_ensures(Surfaces::last_frame, (&*final(s), id), last)]
            call_ensures(Surfaces::attach, (s, id, width, height), ()) && call_ensures(
                Surfaces::size,
                (&*final(s), id),
                size,
            ) && call_ensures(Surfaces::last_frame, (&*final(s), id), last) ==> {
                &&& size matches Ok(wh)
                &&& width > 0 ==> wh.0 == width
                &&& width == 0 ==> wh.0 == 1
                &&& height > 0 ==> wh.1 == height
                &&& height == 0 ==> wh.1 == 1
                &&& last matches Ok(None)
            },
        forall|
            s: &mut Surfaces,
            r: Result<(), PresentError>,
            before: Result<(u32, u32), PresentError>,
            size: Result<(u32, u32), PresentError>,
        |
            #![trigger call_ensures(Surfaces::resize, (s, id, width, height), r), call_ensures(Surfaces::size, (&*s, id), before), call_ensures(Surfaces::size, (&*final(s), id), size)]
            call_ensures(Surfaces::resize, (s, id, width, height), r) && call_ensures(
                Surfaces::size,
                (&*s, id),
                before,
            ) && call_ensures(Surfaces::size, (&*final(s), id), size) ==> {
                &&& r is Ok <==> before is Ok
                &&& r is Err ==> r == Err::<(), _>(PresentError::UnknownWindow(id)) && final(s)@
                    == (*s)@
                &&& r is Ok ==> {
                    &&& size matches Ok(wh)
                    &&& width > 0 ==> wh.0 == width
                    &&& width == 0 ==> wh.0 == 1
                    &&& height > 0 ==> wh.1 == height
                    &&& height == 0 ==> wh.1 == 1
                    &&& final(s)@[id].last_frame == (*s)@[id].last_frame
                }
            },
        forall|s: &mut Surfaces, size: Result<(u32, u32), PresentError>|
            #![trigger call_ensures(Surfaces::detach, (s, id), ()), call_ensures(Surfaces::size, (&*final(s), id), size)]
            call_ensures(Surfaces::detach, (s, id), ()) && call_ensures(
                Surfaces::size,
                (&*final(s), id),
                size,
            ) ==> size == Err::<(u32, u32), _>(PresentError::UnknownWindow(id)),
{
}

/// A window shows the frame that was presented on it last, at the size it has; no other window changes.
pub proof fn law_the_last_frame_is_shown(id: u32, frame: FrameData, other: u32)
    ensures
        forall|
            s: &mut Surfaces,
            before: Result<(u32, u32), PresentError>,
            size: Result<(u32, u32), PresentError>,
            last: Result<Option<&FrameData>, PresentError>,
        |
            #![trigger call_ensures(Surfaces::on_presented, (s, id, frame), ()), call_ensures(Surfaces::size, (&*s, id), before), call_ensures(Surfaces::size, (&*final(s), id), size), call_ensures(Surfaces::last_frame, (&*final(s), id), last)]
            call_ensures(Surfaces::on_presented, (s, id, frame), ()) && call_ensures(
                Surfaces::size,
                (&*s, id),
                before,
            ) && call_ensures(Surfaces::size, (&*final(s), id), size) && call_ensures(
                Surfaces::last_frame,
                (&*final(s), id),
                last,
            ) ==> {
                &&& before is Ok ==> size == before && (last matches Ok(Some(f)) && f@ == frame@)
                &&& before is Err ==> last is Err && final(s)@ == (*s)@
                &&& other != id ==> final(s)@.contains_key(other) == (*s)@.contains_key(other)
                    && final(s)@[other] == (*s)@[other]
            },
{
}

/// Why a frame was not shown is said with the figures that show it.
pub proof fn law_present_errors_are_worded(e: &PresentError, r: String)
    requires
        call_ensures(PresentError::message, (e,), r),
    ensures
        r@ == match e {
            PresentError::UnknownWindow(id) => "unknown display window "@ + text::decimal(
                *id as nat,
            ),
            PresentError::UnsupportedCodec(codec) => "unsupported frame codec "@ + text::decimal(
                *codec as nat,
            ),
            PresentError::DroppedFrame { window_id, expected, actual } =>
                "dropped malformed frame for window "@ + text::decimal(*window_id as nat)
                + ": expected "@ + text::decimal(*expected as nat) + " bytes, got "@
                + text::decimal(*actual as nat),
            PresentError::Platform(message) => message@,
        },
{
}

} // verus!
