//! Input and cursor messages.

pub mod pointer_button;
pub mod key_flag;
pub mod modifier;
pub mod lock_state;
pub mod window_action;
pub mod cursor_format;

use vstd::prelude::*;

use crate::proto::pdu;
use crate::proto::pdu::{
    Decode, DecodeResult, Encode, EncodeError, EncodeResult, ReadCursor, WriteCursor,
};
use crate::proto::wire;

verus! {

/// Pointer motion, button, and wheel event.
#[derive(Debug, Clone, Copy, PartialEq, Eq)]
pub struct PointerEvent {
    /// Target window identifier.
    pub window_id: u32,
    /// Window-relative X coordinate.
    pub x: i32,
    /// Window-relative Y coordinate.
    pub y: i32,
    /// Bitmask of held pointer buttons.
    pub buttons: u8,
    /// Horizontal wheel delta in 1/120 of a notch.
    pub wheel_x: i16,
    /// Vertical wheel delta in 1/120 of a notch.
    pub wheel_y: i16,
    /// Event timestamp in microseconds.
    pub timestamp: u64,
}

impl View for PointerEvent {
    type V = PointerEvent;

    open spec fn view(&self) -> PointerEvent {
        *self
    }
}

impl Encode for PointerEvent {
    open spec fn wire(v: PointerEvent) -> Seq<u8> {
        pdu::le32(v.window_id)
            + wire::i32_wire(v.x)
            + wire::i32_wire(v.y)
            + seq![v.buttons]
            + wire::i16_wire(v.wheel_x)
            + wire::i16_wire(v.wheel_y)
            + pdu::le64(v.timestamp)
    }

    open spec fn encode_error(v: PointerEvent) -> Option<EncodeError> {
        None
    }

    fn size(&self) -> usize {
        broadcast use pdu::group_lens;

        4 + 4 + 4 + 1 + 2 + 2 + 8
    }

    fn encode(&self, dst: &mut WriteCursor) -> EncodeResult<()> {
        dst.write_u32_le(self.window_id);
        wire::write_i32(dst, self.x, "PointerEvent.x")?;
        wire::write_i32(dst, self.y, "PointerEvent.y")?;
        dst.write_u8(self.buttons);
        wire::write_i16(dst, self.wheel_x, "PointerEvent.wheel_x")?;
        wire::write_i16(dst, self.wheel_y, "PointerEvent.wheel_y")?;
        wire::write_u64(dst, self.timestamp, "PointerEvent.timestamp")?;
        assert(dst@ =~= old(dst)@ + Self::wire(self@));
        Ok(())
    }
}

impl Decode for PointerEvent {
    open spec fn restorable(v: PointerEvent) -> bool {
        true
    }

    open spec fn parse(b: Seq<u8>, p: int) -> DecodeResult<(PointerEvent, int)> {
        match pdu::take_u32(b, p, "PointerEvent.window_id") {
            Err(e) => Err(e),
            Ok((window_id, p)) => match wire::take_i32(b, p, "PointerEvent.x") {
                Err(e) => Err(e),
                Ok((x, p)) => match wire::take_i32(b, p, "PointerEvent.y") {
                    Err(e) => Err(e),
                    Ok((y, p)) => match pdu::take_u8(b, p, "PointerEvent.buttons") {
                        Err(e) => Err(e),
                        Ok((buttons, p)) => match wire::take_i16(b, p, "PointerEvent.wheel_x") {
                            Err(e) => Err(e),
                            Ok((wheel_x, p)) => match wire::take_i16(b, p, "PointerEvent.wheel_y") {
                                Err(e) => Err(e),
                                Ok((wheel_y, p)) => match wire::take_u64(
                                    b,
                                    p,
                                    "PointerEvent.timestamp",
                                ) {
                                    Err(e) => Err(e),
                                    Ok((timestamp, p)) => Ok(
                                        (
                                            PointerEvent {
                                                window_id,
                                                x,
                                                y,
                                                buttons,
                                                wheel_x,
                                                wheel_y,
                                                timestamp,
                                            },
                                            p,
                                        ),
                                    ),
                                },
                            },
                        },
                    },
                },
            },
        }
    }

    fn decode(src: &mut ReadCursor<'_>) -> DecodeResult<Self> {
        let window_id: u32 = src.read_u32_le("PointerEvent.window_id")?;
        let x: i32 = wire::read_i32(src, "PointerEvent.x")?;
        let y: i32 = wire::read_i32(src, "PointerEvent.y")?;
        let buttons: u8 = src.read_u8("PointerEvent.buttons")?;
        let wheel_x: i16 = wire::read_i16(src, "PointerEvent.wheel_x")?;
        let wheel_y: i16 = wire::read_i16(src, "PointerEvent.wheel_y")?;
        let timestamp: u64 = wire::read_u64(src, "PointerEvent.timestamp")?;
        Ok(PointerEvent { window_id, x, y, buttons, wheel_x, wheel_y, timestamp })
    }

    proof fn lemma_restores(v: PointerEvent, b: Seq<u8>, p: int) {
        broadcast use {pdu::group_fields, wire::group_wire};

    }

    proof fn lemma_extends(b: Seq<u8>, p: int, more: Seq<u8>) {
        broadcast use {pdu::group_fields, wire::group_wire};

    }
}

/// Keyboard key press or release.
#[derive(Debug, Clone, Copy, PartialEq, Eq)]
pub struct KeyEvent {
    /// PS/2 set 1 scancode.
    pub scancode: u16,
    /// Key event flags.
    pub flags: u8,
    /// Event timestamp in microseconds.
    pub timestamp: u64,
}

impl View for KeyEvent {
    type V = KeyEvent;

    open spec fn view(&self) -> KeyEvent {
        *self
    }
}

impl Encode for KeyEvent {
    open spec fn wire(v: KeyEvent) -> Seq<u8> {
        pdu::le16(v.scancode)
            + seq![v.flags]
            + pdu::le64(v.timestamp)
    }

    open spec fn encode_error(v: KeyEvent) -> Option<EncodeError> {
        None
    }

    fn size(&self) -> usize {
        broadcast use pdu::group_lens;

        2 + 1 + 8
    }

    fn encode(&self, dst: &mut WriteCursor) -> EncodeResult<()> {
        dst.write_u16_le(self.scancode);
        dst.write_u8(self.flags);
        wire::write_u64(dst, self.timestamp, "KeyEvent.timestamp")?;
        assert(dst@ =~= old(dst)@ + Self::wire(self@));
        Ok(())
    }
}

impl Decode for KeyEvent {
    open spec fn restorable(v: KeyEvent) -> bool {
        true
    }

    open spec fn parse(b: Seq<u8>, p: int) -> DecodeResult<(KeyEvent, int)> {
        match pdu::take_u16(b, p, "KeyEvent.scancode") {
            Err(e) => Err(e),
            Ok((scancode, p)) => match pdu::take_u8(b, p, "KeyEvent.flags") {
                Err(e) => Err(e),
                Ok((flags, p)) => match wire::take_u64(b, p, "KeyEvent.timestamp") {
                    Err(e) => Err(e),
                    Ok((timestamp, p)) => Ok((KeyEvent { scancode, flags, timestamp }, p)),
                },
            },
        }
    }

    fn decode(src: &mut ReadCursor<'_>) -> DecodeResult<Self> {
        let scancode: u16 = src.read_u16_le("KeyEvent.scancode")?;
        let flags: u8 = src.read_u8("KeyEvent.flags")?;
        let timestamp: u64 = wire::read_u64(src, "KeyEvent.timestamp")?;
        Ok(KeyEvent { scancode, flags, timestamp })
    }

    proof fn lemma_restores(v: KeyEvent, b: Seq<u8>, p: int) {
        broadcast use {pdu::group_fields, wire::group_wire};

    }

    proof fn lemma_extends(b: Seq<u8>, p: int, more: Seq<u8>) {
        broadcast use {pdu::group_fields, wire::group_wire};

    }
}

impl KeyEvent {
    /// Whether this event is a press (as opposed to a release).
    pub fn is_pressed(&self) -> (r: bool)
        ensures
            r == (self.flags & key_flag::PRESSED != 0),
    {
        self.flags & key_flag::PRESSED != 0
    }
}

/// UTF-8 text input from the client.
#[derive(Debug, Clone, PartialEq, Eq)]
pub struct TextInput {
    /// The text to insert.
    pub text: String,
}

/// What a [`TextInput`] holds.
pub struct TextInputView {
    /// See [`TextInput::text`].
    pub text: Seq<char>,
}

impl View for TextInput {
    type V = TextInputView;

    open spec fn view(&self) -> TextInputView {
        TextInputView {
            text: self.text@,
        }
    }
}

impl Encode for TextInput {
    open spec fn wire(v: TextInputView) -> Seq<u8> {
        wire::string_wire(v.text)
    }

    open spec fn encode_error(v: TextInputView) -> Option<EncodeError> {
        wire::string_error(v.text, "TextInput.text")
    }

    fn size(&self) -> usize {
        broadcast use pdu::group_lens;

        wire::string_size(self.text.as_str())
    }

    fn encode(&self, dst: &mut WriteCursor) -> EncodeResult<()> {
        wire::write_string(dst, self.text.as_str(), "TextInput.text")?;
        assert(dst@ =~= old(dst)@ + Self::wire(self@));
        Ok(())
    }
}

impl Decode for TextInput {
    open spec fn restorable(v: TextInputView) -> bool {
        true
    }

    open spec fn parse(b: Seq<u8>, p: int) -> DecodeResult<(TextInputView, int)> {
        match wire::take_string(b, p, "TextInput.text") {
            Err(e) => Err(e),
            Ok((text, p)) => Ok((TextInputView { text }, p)),
        }
    }

    fn decode(src: &mut ReadCursor<'_>) -> DecodeResult<Self> {
        let text = wire::read_string(src, "TextInput.text")?;
        Ok(TextInput { text })
    }

    proof fn lemma_restores(v: TextInputView, b: Seq<u8>, p: int) {
        broadcast use {pdu::group_fields, wire::group_wire};

        assert(Self::encode_error(v) is None);
    }

    proof fn lemma_extends(b: Seq<u8>, p: int, more: Seq<u8>) {
        broadcast use {pdu::group_fields, wire::group_wire};

    }
}

/// Synchronization of keyboard modifiers and lock states.
#[derive(Debug, Clone, Copy, PartialEq, Eq)]
pub struct ModifierSync {
    /// Bitmask of active modifiers.
    pub modifiers: u16,
    /// Bitmask of active lock states.
    pub locks: u8,
}

impl View for ModifierSync {
    type V = ModifierSync;

    open spec fn view(&self) -> ModifierSync {
        *self
    }
}

impl Encode for ModifierSync {
    open spec fn wire(v: ModifierSync) -> Seq<u8> {
        pdu::le16(v.modifiers)
            + seq![v.locks]
    }

    open spec fn encode_error(v: ModifierSync) -> Option<EncodeError> {
        None
    }

    fn size(&self) -> usize {
        broadcast use pdu::group_lens;

        2 + 1
    }

    fn encode(&self, dst: &mut WriteCursor) -> EncodeResult<()> {
        dst.write_u16_le(self.modifiers);
        dst.write_u8(self.locks);
        assert(dst@ =~= old(dst)@ + Self::wire(self@));
        Ok(())
    }
}

impl Decode for ModifierSync {
    open spec fn restorable(v: ModifierSync) -> bool {
        true
    }

    open spec fn parse(b: Seq<u8>, p: int) -> DecodeResult<(ModifierSync, int)> {
        match pdu::take_u16(b, p, "ModifierSync.modifiers") {
            Err(e) => Err(e),
            Ok((modifiers, p)) => match pdu::take_u8(b, p, "ModifierSync.locks") {
                Err(e) => Err(e),
                Ok((locks, p)) => Ok((ModifierSync { modifiers, locks }, p)),
            },
        }
    }

    fn decode(src: &mut ReadCursor<'_>) -> DecodeResult<Self> {
        let modifiers: u16 = src.read_u16_le("ModifierSync.modifiers")?;
        let locks: u8 = src.read_u8("ModifierSync.locks")?;
        Ok(ModifierSync { modifiers, locks })
    }

    proof fn lemma_restores(v: ModifierSync, b: Seq<u8>, p: int) {
        broadcast use {pdu::group_fields, wire::group_wire};

    }

    proof fn lemma_extends(b: Seq<u8>, p: int, more: Seq<u8>) {
        broadcast use {pdu::group_fields, wire::group_wire};

    }
}

/// Request to manipulate a remote window.
#[derive(Debug, Clone, Copy, PartialEq, Eq)]
pub struct WindowControl {
    /// Target window identifier.
    pub window_id: u32,
    /// Action to perform.
    pub action: u8,
    /// X coordinate for move actions.
    pub x: i32,
    /// Y coordinate for move actions.
    pub y: i32,
    /// Width for resize actions.
    pub width: u16,
    /// Height for resize actions.
    pub height: u16,
}

impl View for WindowControl {
    type V = WindowControl;

    open spec fn view(&self) -> WindowControl {
        *self
    }
}

impl Encode for WindowControl {
    open spec fn wire(v: WindowControl) -> Seq<u8> {
        pdu::le32(v.window_id)
            + seq![v.action]
            + wire::i32_wire(v.x)
            + wire::i32_wire(v.y)
            + pdu::le16(v.width)
            + pdu::le16(v.height)
    }

    open spec fn encode_error(v: WindowControl) -> Option<EncodeError> {
        None
    }

    fn size(&self) -> usize {
        broadcast use pdu::group_lens;

        4 + 1 + 4 + 4 + 2 + 2
    }

    fn encode(&self, dst: &mut WriteCursor) -> EncodeResult<()> {
        dst.write_u32_le(self.window_id);
        dst.write_u8(self.action);
        wire::write_i32(dst, self.x, "WindowControl.x")?;
        wire::write_i32(dst, self.y, "WindowControl.y")?;
        dst.write_u16_le(self.width);
        dst.write_u16_le(self.height);
        assert(dst@ =~= old(dst)@ + Self::wire(self@));
        Ok(())
    }
}

impl Decode for WindowControl {
    open spec fn restorable(v: WindowControl) -> bool {
        true
    }

    open spec fn parse(b: Seq<u8>, p: int) -> DecodeResult<(WindowControl, int)> {
        match pdu::take_u32(b, p, "WindowControl.window_id") {
            Err(e) => Err(e),
            Ok((window_id, p)) => match pdu::take_u8(b, p, "WindowControl.action") {
                Err(e) => Err(e),
                Ok((action, p)) => match wire::take_i32(b, p, "WindowControl.x") {
                    Err(e) => Err(e),
                    Ok((x, p)) => match wire::take_i32(b, p, "WindowControl.y") {
                        Err(e) => Err(e),
                        Ok((y, p)) => match pdu::take_u16(b, p, "WindowControl.width") {
                            Err(e) => Err(e),
                            Ok((width, p)) => match pdu::take_u16(b, p, "WindowControl.height") {
                                Err(e) => Err(e),
                                Ok((height, p)) => Ok(
                                    (
                                        WindowControl {
                                            window_id,
                                            action,
                                            x,
                                            y,
                                            width,
                                            height,
                                        },
                                        p,
                                    ),
                                ),
                            },
                        },
                    },
                },
            },
        }
    }

    fn decode(src: &mut ReadCursor<'_>) -> DecodeResult<Self> {
        let window_id: u32 = src.read_u32_le("WindowControl.window_id")?;
        let action: u8 = src.read_u8("WindowControl.action")?;
        let x: i32 = wire::read_i32(src, "WindowControl.x")?;
        let y: i32 = wire::read_i32(src, "WindowControl.y")?;
        let width: u16 = src.read_u16_le("WindowControl.width")?;
        let height: u16 = src.read_u16_le("WindowControl.height")?;
        Ok(WindowControl { window_id, action, x, y, width, height })
    }

    proof fn lemma_restores(v: WindowControl, b: Seq<u8>, p: int) {
        broadcast use {pdu::group_fields, wire::group_wire};

    }

    proof fn lemma_extends(b: Seq<u8>, p: int, more: Seq<u8>) {
        broadcast use {pdu::group_fields, wire::group_wire};

    }
}

/// Cursor shape definition sent to the client.
#[derive(Debug, Clone, PartialEq, Eq)]
pub struct CursorShape {
    /// Cursor identifier.
    pub cursor_id: u32,
    /// Cursor width in pixels.
    pub width: u16,
    /// Cursor height in pixels.
    pub height: u16,
    /// Hotspot X coordinate.
    pub hotspot_x: u16,
    /// Hotspot Y coordinate.
    pub hotspot_y: u16,
    /// Pixel format of `data`.
    pub format: u8,
    /// Raw pixel data.
    pub data: Vec<u8>,
}

/// What a [`CursorShape`] holds.
pub struct CursorShapeView {
    /// See [`CursorShape::cursor_id`].
    pub cursor_id: u32,
    /// See [`CursorShape::width`].
    pub width: u16,
    /// See [`CursorShape::height`].
    pub height: u16,
    /// See [`CursorShape::hotspot_x`].
    pub hotspot_x: u16,
    /// See [`CursorShape::hotspot_y`].
    pub hotspot_y: u16,
    /// See [`CursorShape::format`].
    pub format: u8,
    /// See [`CursorShape::data`].
    pub data: Seq<u8>,
}

impl View for CursorShape {
    type V = CursorShapeView;

    open spec fn view(&self) -> CursorShapeView {
        CursorShapeView {
            cursor_id: self.cursor_id,
            width: self.width,
            height: self.height,
            hotspot_x: self.hotspot_x,
            hotspot_y: self.hotspot_y,
            format: self.format,
            data: self.data@,
        }
    }
}

impl Encode for CursorShape {
    open spec fn wire(v: CursorShapeView) -> Seq<u8> {
        pdu::le32(v.cursor_id)
            + pdu::le16(v.width)
            + pdu::le16(v.height)
            + pdu::le16(v.hotspot_x)
            + pdu::le16(v.hotspot_y)
            + seq![v.format]
            + wire::blob_wire(v.data)
    }

    open spec fn encode_error(v: CursorShapeView) -> Option<EncodeError> {
        wire::blob_error(v.data, "CursorShape.data")
    }

    fn size(&self) -> usize {
        broadcast use pdu::group_lens;

        4 + 2 + 2 + 2 + 2 + 1 + 4 + self.data.len()
    }

    fn encode(&self, dst: &mut WriteCursor) -> EncodeResult<()> {
        dst.write_u32_le(self.cursor_id);
        dst.write_u16_le(self.width);
        dst.write_u16_le(self.height);
        dst.write_u16_le(self.hotspot_x);
        dst.write_u16_le(self.hotspot_y);
        dst.write_u8(self.format);
        wire::write_blob(dst, self.data.as_slice(), "CursorShape.data")?;
        assert(dst@ =~= old(dst)@ + Self::wire(self@));
        Ok(())
    }
}

impl Decode for CursorShape {
    open spec fn restorable(v: CursorShapeView) -> bool {
        true
    }

    open spec fn parse(b: Seq<u8>, p: int) -> DecodeResult<(CursorShapeView, int)> {
        match pdu::take_u32(b, p, "CursorShape.cursor_id") {
            Err(e) => Err(e),
            Ok((cursor_id, p)) => match pdu::take_u16(b, p, "CursorShape.width") {
                Err(e) => Err(e),
                Ok((width, p)) => match pdu::take_u16(b, p, "CursorShape.height") {
                    Err(e) => Err(e),
                    Ok((height, p)) => match pdu::take_u16(b, p, "CursorShape.hotspot_x") {
                        Err(e) => Err(e),
                        Ok((hotspot_x, p)) => match pdu::take_u16(b, p, "CursorShape.hotspot_y") {
                            Err(e) => Err(e),
                            Ok((hotspot_y, p)) => match pdu::take_u8(b, p, "CursorShape.format") {
                                Err(e) => Err(e),
                                Ok((format, p)) => match wire::take_blob(b, p, "CursorShape.data") {
                                    Err(e) => Err(e),
                                    Ok((data, p)) => Ok(
                                        (
                                            CursorShapeView {
                                                cursor_id,
                                                width,
                                                height,
                                                hotspot_x,
                                                hotspot_y,
                                                format,
                                                data,
                                            },
                                            p,
                                        ),
                                    ),
                                },
                            },
                        },
                    },
                },
            },
        }
    }

    fn decode(src: &mut ReadCursor<'_>) -> DecodeResult<Self> {
        let cursor_id: u32 = src.read_u32_le("CursorShape.cursor_id")?;
        let width: u16 = src.read_u16_le("CursorShape.width")?;
        let height: u16 = src.read_u16_le("CursorShape.height")?;
        let hotspot_x: u16 = src.read_u16_le("CursorShape.hotspot_x")?;
        let hotspot_y: u16 = src.read_u16_le("CursorShape.hotspot_y")?;
        let format: u8 = src.read_u8("CursorShape.format")?;
        let data = wire::read_blob(src, "CursorShape.data")?;
        Ok(CursorShape { cursor_id, width, height, hotspot_x, hotspot_y, format, data })
    }

    proof fn lemma_restores(v: CursorShapeView, b: Seq<u8>, p: int) {
        broadcast use {pdu::group_fields, wire::group_wire};

        assert(Self::encode_error(v) is None);
    }

    proof fn lemma_extends(b: Seq<u8>, p: int, more: Seq<u8>) {
        broadcast use {pdu::group_fields, wire::group_wire};

    }
}

/// Cursor position update.
#[derive(Debug, Clone, Copy, PartialEq, Eq)]
pub struct CursorPosition {
    /// Window identifier the position is relative to.
    pub window_id: u32,
    /// Window-relative X coordinate.
    pub x: i32,
    /// Window-relative Y coordinate.
    pub y: i32,
}

impl View for CursorPosition {
    type V = CursorPosition;

    open spec fn view(&self) -> CursorPosition {
        *self
    }
}

impl Encode for CursorPosition {
    open spec fn wire(v: CursorPosition) -> Seq<u8> {
        pdu::le32(v.window_id)
            + wire::i32_wire(v.x)
            + wire::i32_wire(v.y)
    }

    open spec fn encode_error(v: CursorPosition) -> Option<EncodeError> {
        None
    }

    fn size(&self) -> usize {
        broadcast use pdu::group_lens;

        4 + 4 + 4
    }

    fn encode(&self, dst: &mut WriteCursor) -> EncodeResult<()> {
        dst.write_u32_le(self.window_id);
        wire::write_i32(dst, self.x, "CursorPosition.x")?;
        wire::write_i32(dst, self.y, "CursorPosition.y")?;
        assert(dst@ =~= old(dst)@ + Self::wire(self@));
        Ok(())
    }
}

impl Decode for CursorPosition {
    open spec fn restorable(v: CursorPosition) -> bool {
        true
    }

    open spec fn parse(b: Seq<u8>, p: int) -> DecodeResult<(CursorPosition, int)> {
        match pdu::take_u32(b, p, "CursorPosition.window_id") {
            Err(e) => Err(e),
            Ok((window_id, p)) => match wire::take_i32(b, p, "CursorPosition.x") {
                Err(e) => Err(e),
                Ok((x, p)) => match wire::take_i32(b, p, "CursorPosition.y") {
                    Err(e) => Err(e),
                    Ok((y, p)) => Ok((CursorPosition { window_id, x, y }, p)),
                },
            },
        }
    }

    fn decode(src: &mut ReadCursor<'_>) -> DecodeResult<Self> {
        let window_id: u32 = src.read_u32_le("CursorPosition.window_id")?;
        let x: i32 = wire::read_i32(src, "CursorPosition.x")?;
        let y: i32 = wire::read_i32(src, "CursorPosition.y")?;
        Ok(CursorPosition { window_id, x, y })
    }

    proof fn lemma_restores(v: CursorPosition, b: Seq<u8>, p: int) {
        broadcast use {pdu::group_fields, wire::group_wire};

    }

    proof fn lemma_extends(b: Seq<u8>, p: int, more: Seq<u8>) {
        broadcast use {pdu::group_fields, wire::group_wire};

    }
}

/// Cursor visibility update.
#[derive(Debug, Clone, Copy, PartialEq, Eq)]
pub struct CursorVisibility {
    /// Whether the cursor is visible.
    pub visible: bool,
}

impl View for CursorVisibility {
    type V = CursorVisibility;

    open spec fn view(&self) -> CursorVisibility {
        *self
    }
}

impl Encode for CursorVisibility {
    open spec fn wire(v: CursorVisibility) -> Seq<u8> {
        wire::bool_wire(v.visible)
    }

    open spec fn encode_error(v: CursorVisibility) -> Option<EncodeError> {
        None
    }

    fn size(&self) -> usize {
        broadcast use pdu::group_lens;

        1
    }

    fn encode(&self, dst: &mut WriteCursor) -> EncodeResult<()> {
        wire::write_bool(dst, self.visible, "CursorVisibility.visible")?;
        assert(dst@ =~= old(dst)@ + Self::wire(self@));
        Ok(())
    }
}

impl Decode for CursorVisibility {
    open spec fn restorable(v: CursorVisibility) -> bool {
        true
    }

    open spec fn parse(b: Seq<u8>, p: int) -> DecodeResult<(CursorVisibility, int)> {
        match wire::take_bool(b, p, "CursorVisibility.visible") {
            Err(e) => Err(e),
            Ok((visible, p)) => Ok((CursorVisibility { visible }, p)),
        }
    }

    fn decode(src: &mut ReadCursor<'_>) -> DecodeResult<Self> {
        let visible = wire::read_bool(src, "CursorVisibility.visible")?;
        Ok(CursorVisibility { visible })
    }

    proof fn lemma_restores(v: CursorVisibility, b: Seq<u8>, p: int) {
        broadcast use {pdu::group_fields, wire::group_wire};

    }

    proof fn lemma_extends(b: Seq<u8>, p: int, more: Seq<u8>) {
        broadcast use {pdu::group_fields, wire::group_wire};

    }
}

} // verus!
