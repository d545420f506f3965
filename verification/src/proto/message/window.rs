//! Window lifecycle and video messages.

pub mod window_flag;
pub mod window_show;
pub mod frame_flag;

use vstd::prelude::*;

use crate::proto::pdu;
use crate::proto::pdu::{
    Decode, DecodeResult, Encode, EncodeError, EncodeResult, ReadCursor, WriteCursor,
};
use crate::proto::wire;

verus! {

/// A window has been opened on the remote side.
#[derive(Debug, Clone, PartialEq, Eq)]
pub struct WindowOpened {
    /// Unique window identifier.
    pub window_id: u32,
    /// Video channel assigned to this window.
    pub video_channel: u16,
    /// Process ID owning the window.
    pub pid: u32,
    /// Application identifier.
    pub app_id: String,
    /// Window title.
    pub title: String,
    /// Left edge screen coordinate.
    pub x: i32,
    /// Top edge screen coordinate.
    pub y: i32,
    /// Window width in pixels.
    pub width: u16,
    /// Window height in pixels.
    pub height: u16,
    /// Dots per inch.
    pub dpi: u16,
    /// Bitmask of `window_flag` values.
    pub flags: u32,
    /// Owning window id (0 if none).
    pub owner_id: u32,
}

/// What a [`WindowOpened`] holds.
pub struct WindowOpenedView {
    /// See [`WindowOpened::window_id`].
    pub window_id: u32,
    /// See [`WindowOpened::video_channel`].
    pub video_channel: u16,
    /// See [`WindowOpened::pid`].
    pub pid: u32,
    /// See [`WindowOpened::app_id`].
    pub app_id: Seq<char>,
    /// See [`WindowOpened::title`].
    pub title: Seq<char>,
    /// See [`WindowOpened::x`].
    pub x: i32,
    /// See [`WindowOpened::y`].
    pub y: i32,
    /// See [`WindowOpened::width`].
    pub width: u16,
    /// See [`WindowOpened::height`].
    pub height: u16,
    /// See [`WindowOpened::dpi`].
    pub dpi: u16,
    /// See [`WindowOpened::flags`].
    pub flags: u32,
    /// See [`WindowOpened::owner_id`].
    pub owner_id: u32,
}

impl View for WindowOpened {
    type V = WindowOpenedView;

    open spec fn view(&self) -> WindowOpenedView {
        WindowOpenedView {
            window_id: self.window_id,
            video_channel: self.video_channel,
            pid: self.pid,
            app_id: self.app_id@,
            title: self.title@,
            x: self.x,
            y: self.y,
            width: self.width,
            height: self.height,
            dpi: self.dpi,
            flags: self.flags,
            owner_id: self.owner_id,
        }
    }
}

impl Encode for WindowOpened {
    open spec fn wire(v: WindowOpenedView) -> Seq<u8> {
        pdu::le32(v.window_id)
            + pdu::le16(v.video_channel)
            + pdu::le32(v.pid)
            + wire::string_wire(v.app_id)
            + wire::string_wire(v.title)
            + wire::i32_wire(v.x)
            + wire::i32_wire(v.y)
            + pdu::le16(v.width)
            + pdu::le16(v.height)
            + pdu::le16(v.dpi)
            + pdu::le32(v.flags)
            + pdu::le32(v.owner_id)
    }

    open spec fn encode_error(v: WindowOpenedView) -> Option<EncodeError> {
        match wire::string_error(v.app_id, "WindowOpened.app_id") {
            Some(e) => Some(e),
            None => wire::string_error(v.title, "WindowOpened.title"),
        }
    }

    fn size(&self) -> usize {
        broadcast use pdu::group_lens;

        4
            + 2
            + 4
            + wire::string_size(self.app_id.as_str())
            + wire::string_size(self.title.as_str())
            + 4
            + 4
            + 2
            + 2
            + 2
            + 4
            + 4
    }

    fn encode(&self, dst: &mut WriteCursor) -> EncodeResult<()> {
        dst.write_u32_le(self.window_id);
        dst.write_u16_le(self.video_channel);
        dst.write_u32_le(self.pid);
        wire::write_string(dst, self.app_id.as_str(), "WindowOpened.app_id")?;
        wire::write_string(dst, self.title.as_str(), "WindowOpened.title")?;
        wire::write_i32(dst, self.x, "WindowOpened.x")?;
        wire::write_i32(dst, self.y, "WindowOpened.y")?;
        dst.write_u16_le(self.width);
        dst.write_u16_le(self.height);
        dst.write_u16_le(self.dpi);
        dst.write_u32_le(self.flags);
        dst.write_u32_le(self.owner_id);
        assert(dst@ =~= old(dst)@ + Self::wire(self@));
        Ok(())
    }
}

impl Decode for WindowOpened {
    open spec fn restorable(v: WindowOpenedView) -> bool {
        true
    }

    open spec fn parse(b: Seq<u8>, p: int) -> DecodeResult<(WindowOpenedView, int)> {
        match pdu::take_u32(b, p, "WindowOpened.window_id") {
            Err(e) => Err(e),
            Ok((window_id, p)) => match pdu::take_u16(b, p, "WindowOpened.video_channel") {
                Err(e) => Err(e),
                Ok((video_channel, p)) => match pdu::take_u32(b, p, "WindowOpened.pid") {
                    Err(e) => Err(e),
                    Ok((pid, p)) => match wire::take_string(b, p, "WindowOpened.app_id") {
                        Err(e) => Err(e),
                        Ok((app_id, p)) => match wire::take_string(b, p, "WindowOpened.title") {
                            Err(e) => Err(e),
                            Ok((title, p)) => match wire::take_i32(b, p, "WindowOpened.x") {
                                Err(e) => Err(e),
                                Ok((x, p)) => match wire::take_i32(b, p, "WindowOpened.y") {
                                    Err(e) => Err(e),
                                    Ok((y, p)) => match pdu::take_u16(b, p, "WindowOpened.width") {
                                        Err(e) => Err(e),
                                        Ok((width, p)) => match pdu::take_u16(
                                            b,
                                            p,
                                            "WindowOpened.height",
                                        ) {
                                            Err(e) => Err(e),
                                            Ok((height, p)) => match pdu::take_u16(
                                                b,
                                                p,
                                                "WindowOpened.dpi",
                                            ) {
                                                Err(e) => Err(e),
                                                Ok((dpi, p)) => match pdu::take_u32(
                                                    b,
                                                    p,
                                                    "WindowOpened.flags",
                                                ) {
                                                    Err(e) => Err(e),
                                                    Ok((flags, p)) => match pdu::take_u32(
                                                        b,
                                                        p,
                                                        "WindowOpened.owner_id",
                                                    ) {
                                                        Err(e) => Err(e),
                                                        Ok((owner_id, p)) => Ok(
                                                            (
                                                                WindowOpenedView {
                                                                    window_id,
                                                                    video_channel,
                                                                    pid,
                                                                    app_id,
                                                                    title,
                                                                    x,
                                                                    y,
                                                                    width,
                                                                    height,
                                                                    dpi,
                                                                    flags,
                                                                    owner_id,
                                                                },
                                                                p,
                                                            ),
                                                        ),
                                                    },
                                                },
                                            },
                                        },
                                    },
                                },
                            },
                        },
                    },
                },
            },
        }
    }

    fn decode(src: &mut ReadCursor<'_>) -> DecodeResult<Self> {
        let window_id: u32 = src.read_u32_le("WindowOpened.window_id")?;
        let video_channel: u16 = src.read_u16_le("WindowOpened.video_channel")?;
        let pid: u32 = src.read_u32_le("WindowOpened.pid")?;
        let app_id = wire::read_string(src, "WindowOpened.app_id")?;
        let title = wire::read_string(src, "WindowOpened.title")?;
        let x: i32 = wire::read_i32(src, "WindowOpened.x")?;
        let y: i32 = wire::read_i32(src, "WindowOpened.y")?;
        let width: u16 = src.read_u16_le("WindowOpened.width")?;
        let height: u16 = src.read_u16_le("WindowOpened.height")?;
        let dpi: u16 = src.read_u16_le("WindowOpened.dpi")?;
        let flags: u32 = src.read_u32_le("WindowOpened.flags")?;
        let owner_id: u32 = src.read_u32_le("WindowOpened.owner_id")?;
        Ok(
            WindowOpened {
                window_id,
                video_channel,
                pid,
                app_id,
                title,
                x,
                y,
                width,
                height,
                dpi,
                flags,
                owner_id,
            },
        )
    }

    proof fn lemma_restores(v: WindowOpenedView, b: Seq<u8>, p: int) {
        broadcast use {pdu::group_fields, wire::group_wire};

        assert(Self::encode_error(v) is None);
    }

    proof fn lemma_extends(b: Seq<u8>, p: int, more: Seq<u8>) {
        broadcast use {pdu::group_fields, wire::group_wire};

    }
}

/// A window has been closed.
#[derive(Debug, Clone, Copy, PartialEq, Eq)]
pub struct WindowClosed {
    /// Unique window identifier.
    pub window_id: u32,
}

impl View for WindowClosed {
    type V = WindowClosed;

    open spec fn view(&self) -> WindowClosed {
        *self
    }
}

impl Encode for WindowClosed {
    open spec fn wire(v: WindowClosed) -> Seq<u8> {
        pdu::le32(v.window_id)
    }

    open spec fn encode_error(v: WindowClosed) -> Option<EncodeError> {
        None
    }

    fn size(&self) -> usize {
        broadcast use pdu::group_lens;

        4
    }

    fn encode(&self, dst: &mut WriteCursor) -> EncodeResult<()> {
        dst.write_u32_le(self.window_id);
        assert(dst@ =~= old(dst)@ + Self::wire(self@));
        Ok(())
    }
}

impl Decode for WindowClosed {
    open spec fn restorable(v: WindowClosed) -> bool {
        true
    }

    open spec fn parse(b: Seq<u8>, p: int) -> DecodeResult<(WindowClosed, int)> {
        match pdu::take_u32(b, p, "WindowClosed.window_id") {
            Err(e) => Err(e),
            Ok((window_id, p)) => Ok((WindowClosed { window_id }, p)),
        }
    }

    fn decode(src: &mut ReadCursor<'_>) -> DecodeResult<Self> {
        let window_id: u32 = src.read_u32_le("WindowClosed.window_id")?;
        Ok(WindowClosed { window_id })
    }

    proof fn lemma_restores(v: WindowClosed, b: Seq<u8>, p: int) {
        broadcast use {pdu::group_fields, wire::group_wire};

    }

    proof fn lemma_extends(b: Seq<u8>, p: int, more: Seq<u8>) {
        broadcast use {pdu::group_fields, wire::group_wire};

    }
}

/// Window geometry update.
#[derive(Debug, Clone, Copy, PartialEq, Eq)]
pub struct WindowGeometry {
    /// Unique window identifier.
    pub window_id: u32,
    /// Left edge screen coordinate.
    pub x: i32,
    /// Top edge screen coordinate.
    pub y: i32,
    /// Window width in pixels.
    pub width: u16,
    /// Window height in pixels.
    pub height: u16,
}

impl View for WindowGeometry {
    type V = WindowGeometry;

    open spec fn view(&self) -> WindowGeometry {
        *self
    }
}

impl Encode for WindowGeometry {
    open spec fn wire(v: WindowGeometry) -> Seq<u8> {
        pdu::le32(v.window_id)
            + wire::i32_wire(v.x)
            + wire::i32_wire(v.y)
            + pdu::le16(v.width)
            + pdu::le16(v.height)
    }

    open spec fn encode_error(v: WindowGeometry) -> Option<EncodeError> {
        None
    }

    fn size(&self) -> usize {
        broadcast use pdu::group_lens;

        4 + 4 + 4 + 2 + 2
    }

    fn encode(&self, dst: &mut WriteCursor) -> EncodeResult<()> {
        dst.write_u32_le(self.window_id);
        wire::write_i32(dst, self.x, "WindowGeometry.x")?;
        wire::write_i32(dst, self.y, "WindowGeometry.y")?;
        dst.write_u16_le(self.width);
        dst.write_u16_le(self.height);
        assert(dst@ =~= old(dst)@ + Self::wire(self@));
        Ok(())
    }
}

impl Decode for WindowGeometry {
    open spec fn restorable(v: WindowGeometry) -> bool {
        true
    }

    open spec fn parse(b: Seq<u8>, p: int) -> DecodeResult<(WindowGeometry, int)> {
        match pdu::take_u32(b, p, "WindowGeometry.window_id") {
            Err(e) => Err(e),
            Ok((window_id, p)) => match wire::take_i32(b, p, "WindowGeometry.x") {
                Err(e) => Err(e),
                Ok((x, p)) => match wire::take_i32(b, p, "WindowGeometry.y") {
                    Err(e) => Err(e),
                    Ok((y, p)) => match pdu::take_u16(b, p, "WindowGeometry.width") {
                        Err(e) => Err(e),
                        Ok((width, p)) => match pdu::take_u16(b, p, "WindowGeometry.height") {
                            Err(e) => Err(e),
                            Ok((height, p)) => Ok(
                                (
                                    WindowGeometry {
                                        window_id,
                                        x,
                                        y,
                                        width,
                                        height,
                                    },
                                    p,
                                ),
                            ),
                        },
                    },
                },
            },
        }
    }

    fn decode(src: &mut ReadCursor<'_>) -> DecodeResult<Self> {
        let window_id: u32 = src.read_u32_le("WindowGeometry.window_id")?;
        let x: i32 = wire::read_i32(src, "WindowGeometry.x")?;
        let y: i32 = wire::read_i32(src, "WindowGeometry.y")?;
        let width: u16 = src.read_u16_le("WindowGeometry.width")?;
        let height: u16 = src.read_u16_le("WindowGeometry.height")?;
        Ok(WindowGeometry { window_id, x, y, width, height })
    }

    proof fn lemma_restores(v: WindowGeometry, b: Seq<u8>, p: int) {
        broadcast use {pdu::group_fields, wire::group_wire};

    }

    proof fn lemma_extends(b: Seq<u8>, p: int, more: Seq<u8>) {
        broadcast use {pdu::group_fields, wire::group_wire};

    }
}

/// Window title update.
#[derive(Debug, Clone, PartialEq, Eq)]
pub struct WindowTitle {
    /// Unique window identifier.
    pub window_id: u32,
    /// New window title.
    pub title: String,
}

/// What a [`WindowTitle`] holds.
pub struct WindowTitleView {
    /// See [`WindowTitle::window_id`].
    pub window_id: u32,
    /// See [`WindowTitle::title`].
    pub title: Seq<char>,
}

impl View for WindowTitle {
    type V = WindowTitleView;

    open spec fn view(&self) -> WindowTitleView {
        WindowTitleView {
            window_id: self.window_id,
            title: self.title@,
        }
    }
}

impl Encode for WindowTitle {
    open spec fn wire(v: WindowTitleView) -> Seq<u8> {
        pdu::le32(v.window_id)
            + wire::string_wire(v.title)
    }

    open spec fn encode_error(v: WindowTitleView) -> Option<EncodeError> {
        wire::string_error(v.title, "WindowTitle.title")
    }

    fn size(&self) -> usize {
        broadcast use pdu::group_lens;

        4 + wire::string_size(self.title.as_str())
    }

    fn encode(&self, dst: &mut WriteCursor) -> EncodeResult<()> {
        dst.write_u32_le(self.window_id);
        wire::write_string(dst, self.title.as_str(), "WindowTitle.title")?;
        assert(dst@ =~= old(dst)@ + Self::wire(self@));
        Ok(())
    }
}

impl Decode for WindowTitle {
    open spec fn restorable(v: WindowTitleView) -> bool {
        true
    }

    open spec fn parse(b: Seq<u8>, p: int) -> DecodeResult<(WindowTitleView, int)> {
        match pdu::take_u32(b, p, "WindowTitle.window_id") {
            Err(e) => Err(e),
            Ok((window_id, p)) => match wire::take_string(b, p, "WindowTitle.title") {
                Err(e) => Err(e),
                Ok((title, p)) => Ok((WindowTitleView { window_id, title }, p)),
            },
        }
    }

    fn decode(src: &mut ReadCursor<'_>) -> DecodeResult<Self> {
        let window_id: u32 = src.read_u32_le("WindowTitle.window_id")?;
        let title = wire::read_string(src, "WindowTitle.title")?;
        Ok(WindowTitle { window_id, title })
    }

    proof fn lemma_restores(v: WindowTitleView, b: Seq<u8>, p: int) {
        broadcast use {pdu::group_fields, wire::group_wire};

        assert(Self::encode_error(v) is None);
    }

    proof fn lemma_extends(b: Seq<u8>, p: int, more: Seq<u8>) {
        broadcast use {pdu::group_fields, wire::group_wire};

    }
}

/// Window state update.
///
/// Sent whenever `state` or `flags` changes, not only on a show-state transition.
#[derive(Debug, Clone, Copy, PartialEq, Eq)]
pub struct WindowState {
    /// Unique window identifier.
    pub window_id: u32,
    /// Current show state (`window_show` value) — always the complete current state, never a
    /// delta.
    pub state: u8,
    /// Bitmask of `window_flag` values — the same meaning as `WindowOpened.flags`, and always
    /// the complete current bitmask, not a delta: a receiver replaces its stored flags with
    /// this value rather than merging it in.
    pub flags: u32,
}

impl View for WindowState {
    type V = WindowState;

    open spec fn view(&self) -> WindowState {
        *self
    }
}

impl Encode for WindowState {
    open spec fn wire(v: WindowState) -> Seq<u8> {
        pdu::le32(v.window_id)
            + seq![v.state]
            + pdu::le32(v.flags)
    }

    open spec fn encode_error(v: WindowState) -> Option<EncodeError> {
        None
    }

    fn size(&self) -> usize {
        broadcast use pdu::group_lens;

        4 + 1 + 4
    }

    fn encode(&self, dst: &mut WriteCursor) -> EncodeResult<()> {
        dst.write_u32_le(self.window_id);
        dst.write_u8(self.state);
        dst.write_u32_le(self.flags);
        assert(dst@ =~= old(dst)@ + Self::wire(self@));
        Ok(())
    }
}

impl Decode for WindowState {
    open spec fn restorable(v: WindowState) -> bool {
        true
    }

    open spec fn parse(b: Seq<u8>, p: int) -> DecodeResult<(WindowState, int)> {
        match pdu::take_u32(b, p, "WindowState.window_id") {
            Err(e) => Err(e),
            Ok((window_id, p)) => match pdu::take_u8(b, p, "WindowState.state") {
                Err(e) => Err(e),
                Ok((state, p)) => match pdu::take_u32(b, p, "WindowState.flags") {
                    Err(e) => Err(e),
                    Ok((flags, p)) => Ok((WindowState { window_id, state, flags }, p)),
                },
            },
        }
    }

    fn decode(src: &mut ReadCursor<'_>) -> DecodeResult<Self> {
        let window_id: u32 = src.read_u32_le("WindowState.window_id")?;
        let state: u8 = src.read_u8("WindowState.state")?;
        let flags: u32 = src.read_u32_le("WindowState.flags")?;
        Ok(WindowState { window_id, state, flags })
    }

    proof fn lemma_restores(v: WindowState, b: Seq<u8>, p: int) {
        broadcast use {pdu::group_fields, wire::group_wire};

    }

    proof fn lemma_extends(b: Seq<u8>, p: int, more: Seq<u8>) {
        broadcast use {pdu::group_fields, wire::group_wire};

    }
}

/// Window z-order update.
#[derive(Debug, Clone, Copy, PartialEq, Eq)]
pub struct WindowZOrder {
    /// Unique window identifier.
    pub window_id: u32,
    /// Window id this one sits above (0 = bottom).
    pub above_window_id: u32,
}

impl View for WindowZOrder {
    type V = WindowZOrder;

    open spec fn view(&self) -> WindowZOrder {
        *self
    }
}

impl Encode for WindowZOrder {
    open spec fn wire(v: WindowZOrder) -> Seq<u8> {
        pdu::le32(v.window_id)
            + pdu::le32(v.above_window_id)
    }

    open spec fn encode_error(v: WindowZOrder) -> Option<EncodeError> {
        None
    }

    fn size(&self) -> usize {
        broadcast use pdu::group_lens;

        4 + 4
    }

    fn encode(&self, dst: &mut WriteCursor) -> EncodeResult<()> {
        dst.write_u32_le(self.window_id);
        dst.write_u32_le(self.above_window_id);
        assert(dst@ =~= old(dst)@ + Self::wire(self@));
        Ok(())
    }
}

impl Decode for WindowZOrder {
    open spec fn restorable(v: WindowZOrder) -> bool {
        true
    }

    open spec fn parse(b: Seq<u8>, p: int) -> DecodeResult<(WindowZOrder, int)> {
        match pdu::take_u32(b, p, "WindowZOrder.window_id") {
            Err(e) => Err(e),
            Ok((window_id, p)) => match pdu::take_u32(b, p, "WindowZOrder.above_window_id") {
                Err(e) => Err(e),
                Ok((above_window_id, p)) => Ok((WindowZOrder { window_id, above_window_id }, p)),
            },
        }
    }

    fn decode(src: &mut ReadCursor<'_>) -> DecodeResult<Self> {
        let window_id: u32 = src.read_u32_le("WindowZOrder.window_id")?;
        let above_window_id: u32 = src.read_u32_le("WindowZOrder.above_window_id")?;
        Ok(WindowZOrder { window_id, above_window_id })
    }

    proof fn lemma_restores(v: WindowZOrder, b: Seq<u8>, p: int) {
        broadcast use {pdu::group_fields, wire::group_wire};

    }

    proof fn lemma_extends(b: Seq<u8>, p: int, more: Seq<u8>) {
        broadcast use {pdu::group_fields, wire::group_wire};

    }
}

/// Window icon update.
#[derive(Debug, Clone, PartialEq, Eq)]
pub struct WindowIcon {
    /// Unique window identifier.
    pub window_id: u32,
    /// Icon width in pixels.
    pub width: u16,
    /// Icon height in pixels.
    pub height: u16,
    /// Icon pixels, **BGRA8 in memory order** (byte 0 = blue), straight — *not*
    /// premultiplied — alpha, top-down, tightly packed at `width * 4` bytes per row.
    ///
    /// Named by memory order, like every other pixel payload in this protocol (`RAW_BGRA`,
    /// `CursorShape`'s `BGRA_PREMUL`): it is what `GetDIBits` hands back on Windows, so the agent
    /// copies it without reordering. Note the difference from `CursorShape`, whose alpha *is*
    /// premultiplied.
    pub bgra: Vec<u8>,
}

/// What a [`WindowIcon`] holds.
pub struct WindowIconView {
    /// See [`WindowIcon::window_id`].
    pub window_id: u32,
    /// See [`WindowIcon::width`].
    pub width: u16,
    /// See [`WindowIcon::height`].
    pub height: u16,
    /// See [`WindowIcon::bgra`].
    pub bgra: Seq<u8>,
}

impl View for WindowIcon {
    type V = WindowIconView;

    open spec fn view(&self) -> WindowIconView {
        WindowIconView {
            window_id: self.window_id,
            width: self.width,
            height: self.height,
            bgra: self.bgra@,
        }
    }
}

impl Encode for WindowIcon {
    open spec fn wire(v: WindowIconView) -> Seq<u8> {
        pdu::le32(v.window_id)
            + pdu::le16(v.width)
            + pdu::le16(v.height)
            + wire::blob_wire(v.bgra)
    }

    open spec fn encode_error(v: WindowIconView) -> Option<EncodeError> {
        wire::blob_error(v.bgra, "WindowIcon.bgra")
    }

    fn size(&self) -> usize {
        broadcast use pdu::group_lens;

        4 + 2 + 2 + 4 + self.bgra.len()
    }

    fn encode(&self, dst: &mut WriteCursor) -> EncodeResult<()> {
        dst.write_u32_le(self.window_id);
        dst.write_u16_le(self.width);
        dst.write_u16_le(self.height);
        wire::write_blob(dst, self.bgra.as_slice(), "WindowIcon.bgra")?;
        assert(dst@ =~= old(dst)@ + Self::wire(self@));
        Ok(())
    }
}

impl Decode for WindowIcon {
    open spec fn restorable(v: WindowIconView) -> bool {
        true
    }

    open spec fn parse(b: Seq<u8>, p: int) -> DecodeResult<(WindowIconView, int)> {
        match pdu::take_u32(b, p, "WindowIcon.window_id") {
            Err(e) => Err(e),
            Ok((window_id, p)) => match pdu::take_u16(b, p, "WindowIcon.width") {
                Err(e) => Err(e),
                Ok((width, p)) => match pdu::take_u16(b, p, "WindowIcon.height") {
                    Err(e) => Err(e),
                    Ok((height, p)) => match wire::take_blob(b, p, "WindowIcon.bgra") {
                        Err(e) => Err(e),
                        Ok((bgra, p)) => Ok(
                            (
                                WindowIconView {
                                    window_id,
                                    width,
                                    height,
                                    bgra,
                                },
                                p,
                            ),
                        ),
                    },
                },
            },
        }
    }

    fn decode(src: &mut ReadCursor<'_>) -> DecodeResult<Self> {
        let window_id: u32 = src.read_u32_le("WindowIcon.window_id")?;
        let width: u16 = src.read_u16_le("WindowIcon.width")?;
        let height: u16 = src.read_u16_le("WindowIcon.height")?;
        let bgra = wire::read_blob(src, "WindowIcon.bgra")?;
        Ok(WindowIcon { window_id, width, height, bgra })
    }

    proof fn lemma_restores(v: WindowIconView, b: Seq<u8>, p: int) {
        broadcast use {pdu::group_fields, wire::group_wire};

        assert(Self::encode_error(v) is None);
    }

    proof fn lemma_extends(b: Seq<u8>, p: int, more: Seq<u8>) {
        broadcast use {pdu::group_fields, wire::group_wire};

    }
}

/// Encoded video frame payload.
#[derive(Debug, Clone, PartialEq, Eq)]
pub struct FrameData {
    /// Unique window identifier.
    pub window_id: u32,
    /// Monotonic frame identifier.
    pub frame_id: u64,
    /// Codec identifier.
    pub codec: u8,
    /// Bitmask of `frame_flag` values.
    pub flags: u8,
    /// Frame width in pixels.
    pub width: u16,
    /// Frame height in pixels.
    pub height: u16,
    /// Capture timestamp in microseconds.
    pub captured_us: u64,
    /// Timestamp, in microseconds, when the compressed bitstream for this frame became
    /// available. For a real encoder this is `>= captured_us`.
    pub encoded_us: u64,
    /// Encoded bytes for exactly one access unit (one picture).
    pub data: Vec<u8>,
}

/// What a [`FrameData`] holds.
pub struct FrameDataView {
    /// See [`FrameData::window_id`].
    pub window_id: u32,
    /// See [`FrameData::frame_id`].
    pub frame_id: u64,
    /// See [`FrameData::codec`].
    pub codec: u8,
    /// See [`FrameData::flags`].
    pub flags: u8,
    /// See [`FrameData::width`].
    pub width: u16,
    /// See [`FrameData::height`].
    pub height: u16,
    /// See [`FrameData::captured_us`].
    pub captured_us: u64,
    /// See [`FrameData::encoded_us`].
    pub encoded_us: u64,
    /// See [`FrameData::data`].
    pub data: Seq<u8>,
}

impl View for FrameData {
    type V = FrameDataView;

    open spec fn view(&self) -> FrameDataView {
        FrameDataView {
            window_id: self.window_id,
            frame_id: self.frame_id,
            codec: self.codec,
            flags: self.flags,
            width: self.width,
            height: self.height,
            captured_us: self.captured_us,
            encoded_us: self.encoded_us,
            data: self.data@,
        }
    }
}

impl Encode for FrameData {
    open spec fn wire(v: FrameDataView) -> Seq<u8> {
        pdu::le32(v.window_id)
            + pdu::le64(v.frame_id)
            + seq![v.codec]
            + seq![v.flags]
            + pdu::le16(v.width)
            + pdu::le16(v.height)
            + pdu::le64(v.captured_us)
            + pdu::le64(v.encoded_us)
            + wire::blob_wire(v.data)
    }

    open spec fn encode_error(v: FrameDataView) -> Option<EncodeError> {
        wire::blob_error(v.data, "FrameData.data")
    }

    fn size(&self) -> usize {
        broadcast use pdu::group_lens;

        4 + 8 + 1 + 1 + 2 + 2 + 8 + 8 + 4 + self.data.len()
    }

    fn encode(&self, dst: &mut WriteCursor) -> EncodeResult<()> {
        dst.write_u32_le(self.window_id);
        wire::write_u64(dst, self.frame_id, "FrameData.frame_id")?;
        dst.write_u8(self.codec);
        dst.write_u8(self.flags);
        dst.write_u16_le(self.width);
        dst.write_u16_le(self.height);
        wire::write_u64(dst, self.captured_us, "FrameData.captured_us")?;
        wire::write_u64(dst, self.encoded_us, "FrameData.encoded_us")?;
        wire::write_blob(dst, self.data.as_slice(), "FrameData.data")?;
        assert(dst@ =~= old(dst)@ + Self::wire(self@));
        Ok(())
    }
}

impl Decode for FrameData {
    open spec fn restorable(v: FrameDataView) -> bool {
        true
    }

    open spec fn parse(b: Seq<u8>, p: int) -> DecodeResult<(FrameDataView, int)> {
        match pdu::take_u32(b, p, "FrameData.window_id") {
            Err(e) => Err(e),
            Ok((window_id, p)) => match wire::take_u64(b, p, "FrameData.frame_id") {
                Err(e) => Err(e),
                Ok((frame_id, p)) => match pdu::take_u8(b, p, "FrameData.codec") {
                    Err(e) => Err(e),
                    Ok((codec, p)) => match pdu::take_u8(b, p, "FrameData.flags") {
                        Err(e) => Err(e),
                        Ok((flags, p)) => match pdu::take_u16(b, p, "FrameData.width") {
                            Err(e) => Err(e),
                            Ok((width, p)) => match pdu::take_u16(b, p, "FrameData.height") {
                                Err(e) => Err(e),
                                Ok((height, p)) => match wire::take_u64(
                                    b,
                                    p,
                                    "FrameData.captured_us",
                                ) {
                                    Err(e) => Err(e),
                                    Ok((captured_us, p)) => match wire::take_u64(
                                        b,
                                        p,
                                        "FrameData.encoded_us",
                                    ) {
                                        Err(e) => Err(e),
                                        Ok((encoded_us, p)) => match wire::take_blob(
                                            b,
                                            p,
                                            "FrameData.data",
                                        ) {
                                            Err(e) => Err(e),
                                            Ok((data, p)) => Ok(
                                                (
                                                    FrameDataView {
                                                        window_id,
                                                        frame_id,
                                                        codec,
                                                        flags,
                                                        width,
                                                        height,
                                                        captured_us,
                                                        encoded_us,
                                                        data,
                                                    },
                                                    p,
                                                ),
                                            ),
                                        },
                                    },
                                },
                            },
                        },
                    },
                },
            },
        }
    }

    fn decode(src: &mut ReadCursor<'_>) -> DecodeResult<Self> {
        let window_id: u32 = src.read_u32_le("FrameData.window_id")?;
        let frame_id: u64 = wire::read_u64(src, "FrameData.frame_id")?;
        let codec: u8 = src.read_u8("FrameData.codec")?;
        let flags: u8 = src.read_u8("FrameData.flags")?;
        let width: u16 = src.read_u16_le("FrameData.width")?;
        let height: u16 = src.read_u16_le("FrameData.height")?;
        let captured_us: u64 = wire::read_u64(src, "FrameData.captured_us")?;
        let encoded_us: u64 = wire::read_u64(src, "FrameData.encoded_us")?;
        let data = wire::read_blob(src, "FrameData.data")?;
        Ok(
            FrameData {
                window_id,
                frame_id,
                codec,
                flags,
                width,
                height,
                captured_us,
                encoded_us,
                data,
            },
        )
    }

    proof fn lemma_restores(v: FrameDataView, b: Seq<u8>, p: int) {
        broadcast use {pdu::group_fields, wire::group_wire};

        assert(Self::encode_error(v) is None);
    }

    proof fn lemma_extends(b: Seq<u8>, p: int, more: Seq<u8>) {
        broadcast use {pdu::group_fields, wire::group_wire};

    }
}

impl FrameData {
    /// Whether this frame is a keyframe.
    pub fn is_keyframe(&self) -> (r: bool)
        ensures
            r == (self.flags & frame_flag::KEYFRAME != 0),
    {
        self.flags & frame_flag::KEYFRAME != 0
    }
}

/// Acknowledgement of a decoded and presented frame.
#[derive(Debug, Clone, Copy, PartialEq, Eq)]
pub struct FrameAck {
    /// Unique window identifier.
    pub window_id: u32,
    /// Frame identifier being acknowledged.
    pub frame_id: u64,
    /// Decode completion timestamp in microseconds.
    pub decoded_us: u64,
    /// Presentation timestamp in microseconds.
    pub presented_us: u64,
}

impl View for FrameAck {
    type V = FrameAck;

    open spec fn view(&self) -> FrameAck {
        *self
    }
}

impl Encode for FrameAck {
    open spec fn wire(v: FrameAck) -> Seq<u8> {
        pdu::le32(v.window_id)
            + pdu::le64(v.frame_id)
            + pdu::le64(v.decoded_us)
            + pdu::le64(v.presented_us)
    }

    open spec fn encode_error(v: FrameAck) -> Option<EncodeError> {
        None
    }

    fn size(&self) -> usize {
        broadcast use pdu::group_lens;

        4 + 8 + 8 + 8
    }

    fn encode(&self, dst: &mut WriteCursor) -> EncodeResult<()> {
        dst.write_u32_le(self.window_id);
        wire::write_u64(dst, self.frame_id, "FrameAck.frame_id")?;
        wire::write_u64(dst, self.decoded_us, "FrameAck.decoded_us")?;
        wire::write_u64(dst, self.presented_us, "FrameAck.presented_us")?;
        assert(dst@ =~= old(dst)@ + Self::wire(self@));
        Ok(())
    }
}

impl Decode for FrameAck {
    open spec fn restorable(v: FrameAck) -> bool {
        true
    }

    open spec fn parse(b: Seq<u8>, p: int) -> DecodeResult<(FrameAck, int)> {
        match pdu::take_u32(b, p, "FrameAck.window_id") {
            Err(e) => Err(e),
            Ok((window_id, p)) => match wire::take_u64(b, p, "FrameAck.frame_id") {
                Err(e) => Err(e),
                Ok((frame_id, p)) => match wire::take_u64(b, p, "FrameAck.decoded_us") {
                    Err(e) => Err(e),
                    Ok((decoded_us, p)) => match wire::take_u64(b, p, "FrameAck.presented_us") {
                        Err(e) => Err(e),
                        Ok((presented_us, p)) => Ok(
                            (
                                FrameAck {
                                    window_id,
                                    frame_id,
                                    decoded_us,
                                    presented_us,
                                },
                                p,
                            ),
                        ),
                    },
                },
            },
        }
    }

    fn decode(src: &mut ReadCursor<'_>) -> DecodeResult<Self> {
        let window_id: u32 = src.read_u32_le("FrameAck.window_id")?;
        let frame_id: u64 = wire::read_u64(src, "FrameAck.frame_id")?;
        let decoded_us: u64 = wire::read_u64(src, "FrameAck.decoded_us")?;
        let presented_us: u64 = wire::read_u64(src, "FrameAck.presented_us")?;
        Ok(FrameAck { window_id, frame_id, decoded_us, presented_us })
    }

    proof fn lemma_restores(v: FrameAck, b: Seq<u8>, p: int) {
        broadcast use {pdu::group_fields, wire::group_wire};

    }

    proof fn lemma_extends(b: Seq<u8>, p: int, more: Seq<u8>) {
        broadcast use {pdu::group_fields, wire::group_wire};

    }
}

} // verus!
