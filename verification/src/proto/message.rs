//! Message type registry and the [`Message`] dispatch enum.
//!
//! Bodies live in the submodules by area; this module owns the type-code registry and turns a
//! `(type, body bytes)` pair, which is what
//! [`Reassembler`](crate::proto::envelope::Reassembler) produces, into a typed [`Message`].

pub mod close_reason;
pub mod codec;
pub mod control;
pub mod error_code;
pub mod feature;
pub mod input;
pub mod layout;
pub mod msg_type;
pub mod window;

use vstd::prelude::*;

pub use control::{
    ClientHello, ClientHelloView, Close, DisplayLayout, Error, ErrorView, Output, Ping, Pong,
    QualityHint, ServerHello,
};
pub use input::{
    CursorPosition, CursorShape, CursorShapeView, CursorVisibility, KeyEvent, ModifierSync,
    PointerEvent, TextInput, TextInputView, WindowControl,
};
pub use window::{
    FrameAck, FrameData, FrameDataView, WindowClosed, WindowGeometry, WindowIcon, WindowIconView,
    WindowOpened, WindowOpenedView, WindowState, WindowTitle, WindowTitleView, WindowZOrder,
};

use crate::proto::channel;
use crate::proto::envelope;
use crate::proto::pdu;
use crate::proto::pdu::{
    decode, encode_vec, Decode, DecodeError, DecodeResult, Encode, EncodeError, EncodeResult,
};

verus! {

/// Protocol version this build implements.
pub const PROTOCOL_VERSION: u16 = 1;

/// Oldest protocol version this build still accepts.
pub const MIN_SUPPORTED_VERSION: u16 = 1;

/// A decoded protocol message.
#[derive(Debug, Clone, PartialEq, Eq)]
pub enum Message {
    /// Client handshake.
    ClientHello(ClientHello),
    /// Agent handshake reply.
    ServerHello(ServerHello),
    /// Protocol or runtime error.
    Error(Error),
    /// Orderly shutdown.
    Close(Close),
    /// Liveness probe.
    Ping(Ping),
    /// Liveness reply.
    Pong(Pong),
    /// Quality/latency preference.
    QualityHint(QualityHint),
    /// Client output topology.
    DisplayLayout(DisplayLayout),
    /// A window appeared.
    WindowOpened(WindowOpened),
    /// A window disappeared.
    WindowClosed(WindowClosed),
    /// A window moved or resized.
    WindowGeometry(WindowGeometry),
    /// A window's title changed.
    WindowTitle(WindowTitle),
    /// A window's show state changed.
    WindowState(WindowState),
    /// A window's stacking position changed.
    WindowZOrder(WindowZOrder),
    /// A window's icon.
    WindowIcon(WindowIcon),
    /// An encoded (or raw) frame.
    FrameData(FrameData),
    /// Acknowledgement of a presented frame.
    FrameAck(FrameAck),
    /// Pointer event.
    PointerEvent(PointerEvent),
    /// Key event.
    KeyEvent(KeyEvent),
    /// Unicode text.
    TextInput(TextInput),
    /// Modifier/lock state.
    ModifierSync(ModifierSync),
    /// Client-initiated window action.
    WindowControl(WindowControl),
    /// Cursor bitmap.
    CursorShape(CursorShape),
    /// Cursor position.
    CursorPosition(CursorPosition),
    /// Cursor visibility.
    CursorVisibility(CursorVisibility),
}

/// What a [`Message`] holds.
pub enum MessageView {
    /// See [`Message::ClientHello`].
    ClientHello(ClientHelloView),
    /// See [`Message::ServerHello`].
    ServerHello(ServerHello),
    /// See [`Message::Error`].
    Error(ErrorView),
    /// See [`Message::Close`].
    Close(Close),
    /// See [`Message::Ping`].
    Ping(Ping),
    /// See [`Message::Pong`].
    Pong(Pong),
    /// See [`Message::QualityHint`].
    QualityHint(QualityHint),
    /// See [`Message::DisplayLayout`].
    DisplayLayout(Seq<Output>),
    /// See [`Message::WindowOpened`].
    WindowOpened(WindowOpenedView),
    /// See [`Message::WindowClosed`].
    WindowClosed(WindowClosed),
    /// See [`Message::WindowGeometry`].
    WindowGeometry(WindowGeometry),
    /// See [`Message::WindowTitle`].
    WindowTitle(WindowTitleView),
    /// See [`Message::WindowState`].
    WindowState(WindowState),
    /// See [`Message::WindowZOrder`].
    WindowZOrder(WindowZOrder),
    /// See [`Message::WindowIcon`].
    WindowIcon(WindowIconView),
    /// See [`Message::FrameData`].
    FrameData(FrameDataView),
    /// See [`Message::FrameAck`].
    FrameAck(FrameAck),
    /// See [`Message::PointerEvent`].
    PointerEvent(PointerEvent),
    /// See [`Message::KeyEvent`].
    KeyEvent(KeyEvent),
    /// See [`Message::TextInput`].
    TextInput(TextInputView),
    /// See [`Message::ModifierSync`].
    ModifierSync(ModifierSync),
    /// See [`Message::WindowControl`].
    WindowControl(WindowControl),
    /// See [`Message::CursorShape`].
    CursorShape(CursorShapeView),
    /// See [`Message::CursorPosition`].
    CursorPosition(CursorPosition),
    /// See [`Message::CursorVisibility`].
    CursorVisibility(CursorVisibility),
}

impl View for Message {
    type V = MessageView;

    open spec fn view(&self) -> MessageView {
        match self {
            Message::ClientHello(m) => MessageView::ClientHello(m@),
            Message::ServerHello(m) => MessageView::ServerHello(m@),
            Message::Error(m) => MessageView::Error(m@),
            Message::Close(m) => MessageView::Close(m@),
            Message::Ping(m) => MessageView::Ping(m@),
            Message::Pong(m) => MessageView::Pong(m@),
            Message::QualityHint(m) => MessageView::QualityHint(m@),
            Message::DisplayLayout(m) => MessageView::DisplayLayout(m@),
            Message::WindowOpened(m) => MessageView::WindowOpened(m@),
            Message::WindowClosed(m) => MessageView::WindowClosed(m@),
            Message::WindowGeometry(m) => MessageView::WindowGeometry(m@),
            Message::WindowTitle(m) => MessageView::WindowTitle(m@),
            Message::WindowState(m) => MessageView::WindowState(m@),
            Message::WindowZOrder(m) => MessageView::WindowZOrder(m@),
            Message::WindowIcon(m) => MessageView::WindowIcon(m@),
            Message::FrameData(m) => MessageView::FrameData(m@),
            Message::FrameAck(m) => MessageView::FrameAck(m@),
            Message::PointerEvent(m) => MessageView::PointerEvent(m@),
            Message::KeyEvent(m) => MessageView::KeyEvent(m@),
            Message::TextInput(m) => MessageView::TextInput(m@),
            Message::ModifierSync(m) => MessageView::ModifierSync(m@),
            Message::WindowControl(m) => MessageView::WindowControl(m@),
            Message::CursorShape(m) => MessageView::CursorShape(m@),
            Message::CursorPosition(m) => MessageView::CursorPosition(m@),
            Message::CursorVisibility(m) => MessageView::CursorVisibility(m@),
        }
    }
}

impl MessageView {
    /// The wire type code of this message.
    pub open spec fn type_code(self) -> u8 {
        match self {
            MessageView::ClientHello(_) => msg_type::CLIENT_HELLO,
            MessageView::ServerHello(_) => msg_type::SERVER_HELLO,
            MessageView::Error(_) => msg_type::ERROR,
            MessageView::Close(_) => msg_type::CLOSE,
            MessageView::Ping(_) => msg_type::PING,
            MessageView::Pong(_) => msg_type::PONG,
            MessageView::QualityHint(_) => msg_type::QUALITY_HINT,
            MessageView::DisplayLayout(_) => msg_type::DISPLAY_LAYOUT,
            MessageView::WindowOpened(_) => msg_type::WINDOW_OPENED,
            MessageView::WindowClosed(_) => msg_type::WINDOW_CLOSED,
            MessageView::WindowGeometry(_) => msg_type::WINDOW_GEOMETRY,
            MessageView::WindowTitle(_) => msg_type::WINDOW_TITLE,
            MessageView::WindowState(_) => msg_type::WINDOW_STATE,
            MessageView::WindowZOrder(_) => msg_type::WINDOW_ZORDER,
            MessageView::WindowIcon(_) => msg_type::WINDOW_ICON,
            MessageView::FrameData(_) => msg_type::FRAME_DATA,
            MessageView::FrameAck(_) => msg_type::FRAME_ACK,
            MessageView::PointerEvent(_) => msg_type::POINTER_EVENT,
            MessageView::KeyEvent(_) => msg_type::KEY_EVENT,
            MessageView::TextInput(_) => msg_type::TEXT_INPUT,
            MessageView::ModifierSync(_) => msg_type::MODIFIER_SYNC,
            MessageView::WindowControl(_) => msg_type::WINDOW_CONTROL,
            MessageView::CursorShape(_) => msg_type::CURSOR_SHAPE,
            MessageView::CursorPosition(_) => msg_type::CURSOR_POSITION,
            MessageView::CursorVisibility(_) => msg_type::CURSOR_VISIBILITY,
        }
    }

    /// The channel this message belongs on, if video rides `video_channel`.
    pub open spec fn rides_on(self, video_channel: u16) -> u16 {
        match self {
            MessageView::FrameData(_) => video_channel,
            MessageView::PointerEvent(_)
            | MessageView::KeyEvent(_)
            | MessageView::TextInput(_)
            | MessageView::ModifierSync(_)
            | MessageView::WindowControl(_) => channel::INPUT,
            MessageView::CursorShape(_)
            | MessageView::CursorPosition(_)
            | MessageView::CursorVisibility(_) => channel::CURSOR,
            MessageView::WindowOpened(_)
            | MessageView::WindowClosed(_)
            | MessageView::WindowGeometry(_)
            | MessageView::WindowTitle(_)
            | MessageView::WindowState(_)
            | MessageView::WindowZOrder(_)
            | MessageView::WindowIcon(_) => channel::WINDOW,
            _ => channel::CONTROL,
        }
    }

    /// The bytes of the body.
    pub open spec fn body(self) -> Seq<u8> {
        match self {
            MessageView::ClientHello(m) => ClientHello::wire(m),
            MessageView::ServerHello(m) => ServerHello::wire(m),
            MessageView::Error(m) => Error::wire(m),
            MessageView::Close(m) => Close::wire(m),
            MessageView::Ping(m) => Ping::wire(m),
            MessageView::Pong(m) => Pong::wire(m),
            MessageView::QualityHint(m) => QualityHint::wire(m),
            MessageView::DisplayLayout(m) => DisplayLayout::wire(m),
            MessageView::WindowOpened(m) => WindowOpened::wire(m),
            MessageView::WindowClosed(m) => WindowClosed::wire(m),
            MessageView::WindowGeometry(m) => WindowGeometry::wire(m),
            MessageView::WindowTitle(m) => WindowTitle::wire(m),
            MessageView::WindowState(m) => WindowState::wire(m),
            MessageView::WindowZOrder(m) => WindowZOrder::wire(m),
            MessageView::WindowIcon(m) => WindowIcon::wire(m),
            MessageView::FrameData(m) => FrameData::wire(m),
            MessageView::FrameAck(m) => FrameAck::wire(m),
            MessageView::PointerEvent(m) => PointerEvent::wire(m),
            MessageView::KeyEvent(m) => KeyEvent::wire(m),
            MessageView::TextInput(m) => TextInput::wire(m),
            MessageView::ModifierSync(m) => ModifierSync::wire(m),
            MessageView::WindowControl(m) => WindowControl::wire(m),
            MessageView::CursorShape(m) => CursorShape::wire(m),
            MessageView::CursorPosition(m) => CursorPosition::wire(m),
            MessageView::CursorVisibility(m) => CursorVisibility::wire(m),
        }
    }

    /// The first field that has no encoding, if there is one.
    pub open spec fn body_error(self) -> Option<EncodeError> {
        match self {
            MessageView::ClientHello(m) => ClientHello::encode_error(m),
            MessageView::ServerHello(m) => ServerHello::encode_error(m),
            MessageView::Error(m) => Error::encode_error(m),
            MessageView::Close(m) => Close::encode_error(m),
            MessageView::Ping(m) => Ping::encode_error(m),
            MessageView::Pong(m) => Pong::encode_error(m),
            MessageView::QualityHint(m) => QualityHint::encode_error(m),
            MessageView::DisplayLayout(m) => DisplayLayout::encode_error(m),
            MessageView::WindowOpened(m) => WindowOpened::encode_error(m),
            MessageView::WindowClosed(m) => WindowClosed::encode_error(m),
            MessageView::WindowGeometry(m) => WindowGeometry::encode_error(m),
            MessageView::WindowTitle(m) => WindowTitle::encode_error(m),
            MessageView::WindowState(m) => WindowState::encode_error(m),
            MessageView::WindowZOrder(m) => WindowZOrder::encode_error(m),
            MessageView::WindowIcon(m) => WindowIcon::encode_error(m),
            MessageView::FrameData(m) => FrameData::encode_error(m),
            MessageView::FrameAck(m) => FrameAck::encode_error(m),
            MessageView::PointerEvent(m) => PointerEvent::encode_error(m),
            MessageView::KeyEvent(m) => KeyEvent::encode_error(m),
            MessageView::TextInput(m) => TextInput::encode_error(m),
            MessageView::ModifierSync(m) => ModifierSync::encode_error(m),
            MessageView::WindowControl(m) => WindowControl::encode_error(m),
            MessageView::CursorShape(m) => CursorShape::encode_error(m),
            MessageView::CursorPosition(m) => CursorPosition::encode_error(m),
            MessageView::CursorVisibility(m) => CursorVisibility::encode_error(m),
        }
    }

    /// Whether the body says all of the message.
    pub open spec fn restorable(self) -> bool {
        match self {
            MessageView::ClientHello(m) => ClientHello::restorable(m),
            MessageView::ServerHello(m) => ServerHello::restorable(m),
            MessageView::Error(m) => Error::restorable(m),
            MessageView::Close(m) => Close::restorable(m),
            MessageView::Ping(m) => Ping::restorable(m),
            MessageView::Pong(m) => Pong::restorable(m),
            MessageView::QualityHint(m) => QualityHint::restorable(m),
            MessageView::DisplayLayout(m) => DisplayLayout::restorable(m),
            MessageView::WindowOpened(m) => WindowOpened::restorable(m),
            MessageView::WindowClosed(m) => WindowClosed::restorable(m),
            MessageView::WindowGeometry(m) => WindowGeometry::restorable(m),
            MessageView::WindowTitle(m) => WindowTitle::restorable(m),
            MessageView::WindowState(m) => WindowState::restorable(m),
            MessageView::WindowZOrder(m) => WindowZOrder::restorable(m),
            MessageView::WindowIcon(m) => WindowIcon::restorable(m),
            MessageView::FrameData(m) => FrameData::restorable(m),
            MessageView::FrameAck(m) => FrameAck::restorable(m),
            MessageView::PointerEvent(m) => PointerEvent::restorable(m),
            MessageView::KeyEvent(m) => KeyEvent::restorable(m),
            MessageView::TextInput(m) => TextInput::restorable(m),
            MessageView::ModifierSync(m) => ModifierSync::restorable(m),
            MessageView::WindowControl(m) => WindowControl::restorable(m),
            MessageView::CursorShape(m) => CursorShape::restorable(m),
            MessageView::CursorPosition(m) => CursorPosition::restorable(m),
            MessageView::CursorVisibility(m) => CursorVisibility::restorable(m),
        }
    }
}

/// Whether this build implements the message type.
pub open spec fn is_known(msg_type: u8) -> bool {
    ||| msg_type == msg_type::CLIENT_HELLO
    ||| msg_type == msg_type::SERVER_HELLO
    ||| msg_type == msg_type::ERROR
    ||| msg_type == msg_type::CLOSE
    ||| msg_type == msg_type::PING
    ||| msg_type == msg_type::PONG
    ||| msg_type == msg_type::QUALITY_HINT
    ||| msg_type == msg_type::DISPLAY_LAYOUT
    ||| msg_type == msg_type::WINDOW_OPENED
    ||| msg_type == msg_type::WINDOW_CLOSED
    ||| msg_type == msg_type::WINDOW_GEOMETRY
    ||| msg_type == msg_type::WINDOW_TITLE
    ||| msg_type == msg_type::WINDOW_STATE
    ||| msg_type == msg_type::WINDOW_ZORDER
    ||| msg_type == msg_type::WINDOW_ICON
    ||| msg_type == msg_type::FRAME_DATA
    ||| msg_type == msg_type::FRAME_ACK
    ||| msg_type == msg_type::POINTER_EVENT
    ||| msg_type == msg_type::KEY_EVENT
    ||| msg_type == msg_type::TEXT_INPUT
    ||| msg_type == msg_type::MODIFIER_SYNC
    ||| msg_type == msg_type::WINDOW_CONTROL
    ||| msg_type == msg_type::CURSOR_SHAPE
    ||| msg_type == msg_type::CURSOR_POSITION
    ||| msg_type == msg_type::CURSOR_VISIBILITY
}

/// What a body of the given type holds: `None` for a type that this build does not implement.
pub open spec fn parse_body(msg_type: u8, b: Seq<u8>) -> DecodeResult<Option<MessageView>> {
    if msg_type == msg_type::CLIENT_HELLO {
        match ClientHello::parse(b, 0) {
            Ok((m, _)) => Ok(Some(MessageView::ClientHello(m))),
            Err(e) => Err(e),
        }
    } else if msg_type == msg_type::SERVER_HELLO {
        match ServerHello::parse(b, 0) {
            Ok((m, _)) => Ok(Some(MessageView::ServerHello(m))),
            Err(e) => Err(e),
        }
    } else if msg_type == msg_type::ERROR {
        match Error::parse(b, 0) {
            Ok((m, _)) => Ok(Some(MessageView::Error(m))),
            Err(e) => Err(e),
        }
    } else if msg_type == msg_type::CLOSE {
        match Close::parse(b, 0) {
            Ok((m, _)) => Ok(Some(MessageView::Close(m))),
            Err(e) => Err(e),
        }
    } else if msg_type == msg_type::PING {
        match Ping::parse(b, 0) {
            Ok((m, _)) => Ok(Some(MessageView::Ping(m))),
            Err(e) => Err(e),
        }
    } else if msg_type == msg_type::PONG {
        match Pong::parse(b, 0) {
            Ok((m, _)) => Ok(Some(MessageView::Pong(m))),
            Err(e) => Err(e),
        }
    } else if msg_type == msg_type::QUALITY_HINT {
        match QualityHint::parse(b, 0) {
            Ok((m, _)) => Ok(Some(MessageView::QualityHint(m))),
            Err(e) => Err(e),
        }
    } else if msg_type == msg_type::DISPLAY_LAYOUT {
        match DisplayLayout::parse(b, 0) {
            Ok((m, _)) => Ok(Some(MessageView::DisplayLayout(m))),
            Err(e) => Err(e),
        }
    } else if msg_type == msg_type::WINDOW_OPENED {
        match WindowOpened::parse(b, 0) {
            Ok((m, _)) => Ok(Some(MessageView::WindowOpened(m))),
            Err(e) => Err(e),
        }
    } else if msg_type == msg_type::WINDOW_CLOSED {
        match WindowClosed::parse(b, 0) {
            Ok((m, _)) => Ok(Some(MessageView::WindowClosed(m))),
            Err(e) => Err(e),
        }
    } else if msg_type == msg_type::WINDOW_GEOMETRY {
        match WindowGeometry::parse(b, 0) {
            Ok((m, _)) => Ok(Some(MessageView::WindowGeometry(m))),
            Err(e) => Err(e),
        }
    } else if msg_type == msg_type::WINDOW_TITLE {
        match WindowTitle::parse(b, 0) {
            Ok((m, _)) => Ok(Some(MessageView::WindowTitle(m))),
            Err(e) => Err(e),
        }
    } else if msg_type == msg_type::WINDOW_STATE {
        match WindowState::parse(b, 0) {
            Ok((m, _)) => Ok(Some(MessageView::WindowState(m))),
            Err(e) => Err(e),
        }
    } else if msg_type == msg_type::WINDOW_ZORDER {
        match WindowZOrder::parse(b, 0) {
            Ok((m, _)) => Ok(Some(MessageView::WindowZOrder(m))),
            Err(e) => Err(e),
        }
    } else if msg_type == msg_type::WINDOW_ICON {
        match WindowIcon::parse(b, 0) {
            Ok((m, _)) => Ok(Some(MessageView::WindowIcon(m))),
            Err(e) => Err(e),
        }
    } else if msg_type == msg_type::FRAME_DATA {
        match FrameData::parse(b, 0) {
            Ok((m, _)) => Ok(Some(MessageView::FrameData(m))),
            Err(e) => Err(e),
        }
    } else if msg_type == msg_type::FRAME_ACK {
        match FrameAck::parse(b, 0) {
            Ok((m, _)) => Ok(Some(MessageView::FrameAck(m))),
            Err(e) => Err(e),
        }
    } else if msg_type == msg_type::POINTER_EVENT {
        match PointerEvent::parse(b, 0) {
            Ok((m, _)) => Ok(Some(MessageView::PointerEvent(m))),
            Err(e) => Err(e),
        }
    } else if msg_type == msg_type::KEY_EVENT {
        match KeyEvent::parse(b, 0) {
            Ok((m, _)) => Ok(Some(MessageView::KeyEvent(m))),
            Err(e) => Err(e),
        }
    } else if msg_type == msg_type::TEXT_INPUT {
        match TextInput::parse(b, 0) {
            Ok((m, _)) => Ok(Some(MessageView::TextInput(m))),
            Err(e) => Err(e),
        }
    } else if msg_type == msg_type::MODIFIER_SYNC {
        match ModifierSync::parse(b, 0) {
            Ok((m, _)) => Ok(Some(MessageView::ModifierSync(m))),
            Err(e) => Err(e),
        }
    } else if msg_type == msg_type::WINDOW_CONTROL {
        match WindowControl::parse(b, 0) {
            Ok((m, _)) => Ok(Some(MessageView::WindowControl(m))),
            Err(e) => Err(e),
        }
    } else if msg_type == msg_type::CURSOR_SHAPE {
        match CursorShape::parse(b, 0) {
            Ok((m, _)) => Ok(Some(MessageView::CursorShape(m))),
            Err(e) => Err(e),
        }
    } else if msg_type == msg_type::CURSOR_POSITION {
        match CursorPosition::parse(b, 0) {
            Ok((m, _)) => Ok(Some(MessageView::CursorPosition(m))),
            Err(e) => Err(e),
        }
    } else if msg_type == msg_type::CURSOR_VISIBILITY {
        match CursorVisibility::parse(b, 0) {
            Ok((m, _)) => Ok(Some(MessageView::CursorVisibility(m))),
            Err(e) => Err(e),
        }
    } else {
        Ok(None)
    }
}

impl Message {
    /// The wire type code for this message.
    pub fn msg_type(&self) -> (r: u8)
        ensures
            r == self@.type_code(),
    {
        match self {
            Message::ClientHello(_) => msg_type::CLIENT_HELLO,
            Message::ServerHello(_) => msg_type::SERVER_HELLO,
            Message::Error(_) => msg_type::ERROR,
            Message::Close(_) => msg_type::CLOSE,
            Message::Ping(_) => msg_type::PING,
            Message::Pong(_) => msg_type::PONG,
            Message::QualityHint(_) => msg_type::QUALITY_HINT,
            Message::DisplayLayout(_) => msg_type::DISPLAY_LAYOUT,
            Message::WindowOpened(_) => msg_type::WINDOW_OPENED,
            Message::WindowClosed(_) => msg_type::WINDOW_CLOSED,
            Message::WindowGeometry(_) => msg_type::WINDOW_GEOMETRY,
            Message::WindowTitle(_) => msg_type::WINDOW_TITLE,
            Message::WindowState(_) => msg_type::WINDOW_STATE,
            Message::WindowZOrder(_) => msg_type::WINDOW_ZORDER,
            Message::WindowIcon(_) => msg_type::WINDOW_ICON,
            Message::FrameData(_) => msg_type::FRAME_DATA,
            Message::FrameAck(_) => msg_type::FRAME_ACK,
            Message::PointerEvent(_) => msg_type::POINTER_EVENT,
            Message::KeyEvent(_) => msg_type::KEY_EVENT,
            Message::TextInput(_) => msg_type::TEXT_INPUT,
            Message::ModifierSync(_) => msg_type::MODIFIER_SYNC,
            Message::WindowControl(_) => msg_type::WINDOW_CONTROL,
            Message::CursorShape(_) => msg_type::CURSOR_SHAPE,
            Message::CursorPosition(_) => msg_type::CURSOR_POSITION,
            Message::CursorVisibility(_) => msg_type::CURSOR_VISIBILITY,
        }
    }

    /// The channel this message belongs on.
    ///
    /// Video rides the per-window channel the agent assigned in [`WindowOpened`], which the
    /// sender supplies; everything else has a fixed channel.
    pub fn channel(&self, video_channel: u16) -> (r: u16)
        ensures
            r == self@.rides_on(video_channel),
    {
        match self {
            Message::FrameData(_) => video_channel,
            Message::PointerEvent(_)
            | Message::KeyEvent(_)
            | Message::TextInput(_)
            | Message::ModifierSync(_)
            | Message::WindowControl(_) => channel::INPUT,
            Message::CursorShape(_)
            | Message::CursorPosition(_)
            | Message::CursorVisibility(_) => channel::CURSOR,
            Message::WindowOpened(_)
            | Message::WindowClosed(_)
            | Message::WindowGeometry(_)
            | Message::WindowTitle(_)
            | Message::WindowState(_)
            | Message::WindowZOrder(_)
            | Message::WindowIcon(_) => channel::WINDOW,
            _ => channel::CONTROL,
        }
    }

    /// Encode just the body (no chunk header); [`crate::proto::envelope::fragment`] adds framing.
    pub fn encode_body(&self) -> (r: EncodeResult<Vec<u8>>)
        ensures
            match self@.body_error() {
                None => r matches Ok(bytes) && bytes@ == self@.body(),
                Some(e) => r matches Err(f) && f == e,
            },
    {
        match self {
            Message::ClientHello(m) => encode_vec(m),
            Message::ServerHello(m) => encode_vec(m),
            Message::Error(m) => encode_vec(m),
            Message::Close(m) => encode_vec(m),
            Message::Ping(m) => encode_vec(m),
            Message::Pong(m) => encode_vec(m),
            Message::QualityHint(m) => encode_vec(m),
            Message::DisplayLayout(m) => encode_vec(m),
            Message::WindowOpened(m) => encode_vec(m),
            Message::WindowClosed(m) => encode_vec(m),
            Message::WindowGeometry(m) => encode_vec(m),
            Message::WindowTitle(m) => encode_vec(m),
            Message::WindowState(m) => encode_vec(m),
            Message::WindowZOrder(m) => encode_vec(m),
            Message::WindowIcon(m) => encode_vec(m),
            Message::FrameData(m) => encode_vec(m),
            Message::FrameAck(m) => encode_vec(m),
            Message::PointerEvent(m) => encode_vec(m),
            Message::KeyEvent(m) => encode_vec(m),
            Message::TextInput(m) => encode_vec(m),
            Message::ModifierSync(m) => encode_vec(m),
            Message::WindowControl(m) => encode_vec(m),
            Message::CursorShape(m) => encode_vec(m),
            Message::CursorPosition(m) => encode_vec(m),
            Message::CursorVisibility(m) => encode_vec(m),
        }
    }

    /// Decode a reassembled `(type, body)` pair.
    ///
    /// A type this build does not know is **not** an error the caller must die on: see
    /// [`Message::decode_known`], which returns `None` so a receiver can skip it. This function
    /// is the strict form used where an unknown type really is a protocol violation.
    pub fn decode_body(msg_type: u8, body: &[u8]) -> (r: DecodeResult<Self>)
        ensures
            match parse_body(msg_type, body@) {
                Ok(Some(m)) => r matches Ok(x) && x@ == m,
                Ok(None) => r matches Err(f) && f == (DecodeError::InvalidField {
                    context: "oxproto message",
                    field: "type",
                    reason: "unknown message type",
                }),
                Err(e) => r matches Err(f) && f == e,
            },
    {
        match Message::decode_known(msg_type, body)? {
            Some(m) => Ok(m),
            None => Err(
                DecodeError::InvalidField {
                    context: "oxproto message",
                    field: "type",
                    reason: "unknown message type",
                },
            ),
        }
    }

    /// Decode a reassembled `(type, body)` pair, returning `Ok(None)` for a type this build
    /// does not implement. Forward compatibility depends on callers using this and skipping.
    pub fn decode_known(msg_type: u8, body: &[u8]) -> (r: DecodeResult<Option<Self>>)
        ensures
            match parse_body(msg_type, body@) {
                Ok(Some(m)) => r matches Ok(Some(x)) && x@ == m,
                Ok(None) => r matches Ok(None),
                Err(e) => r matches Err(f) && f == e,
            },
    {
        let msg = match msg_type {
            msg_type::CLIENT_HELLO => Message::ClientHello(decode(body)?),
            msg_type::SERVER_HELLO => Message::ServerHello(decode(body)?),
            msg_type::ERROR => Message::Error(decode(body)?),
            msg_type::CLOSE => Message::Close(decode(body)?),
            msg_type::PING => Message::Ping(decode(body)?),
            msg_type::PONG => Message::Pong(decode(body)?),
            msg_type::QUALITY_HINT => Message::QualityHint(decode(body)?),
            msg_type::DISPLAY_LAYOUT => Message::DisplayLayout(decode(body)?),
            msg_type::WINDOW_OPENED => Message::WindowOpened(decode(body)?),
            msg_type::WINDOW_CLOSED => Message::WindowClosed(decode(body)?),
            msg_type::WINDOW_GEOMETRY => Message::WindowGeometry(decode(body)?),
            msg_type::WINDOW_TITLE => Message::WindowTitle(decode(body)?),
            msg_type::WINDOW_STATE => Message::WindowState(decode(body)?),
            msg_type::WINDOW_ZORDER => Message::WindowZOrder(decode(body)?),
            msg_type::WINDOW_ICON => Message::WindowIcon(decode(body)?),
            msg_type::FRAME_DATA => Message::FrameData(decode(body)?),
            msg_type::FRAME_ACK => Message::FrameAck(decode(body)?),
            msg_type::POINTER_EVENT => Message::PointerEvent(decode(body)?),
            msg_type::KEY_EVENT => Message::KeyEvent(decode(body)?),
            msg_type::TEXT_INPUT => Message::TextInput(decode(body)?),
            msg_type::MODIFIER_SYNC => Message::ModifierSync(decode(body)?),
            msg_type::WINDOW_CONTROL => Message::WindowControl(decode(body)?),
            msg_type::CURSOR_SHAPE => Message::CursorShape(decode(body)?),
            msg_type::CURSOR_POSITION => Message::CursorPosition(decode(body)?),
            msg_type::CURSOR_VISIBILITY => Message::CursorVisibility(decode(body)?),
            _ => return Ok(None),
        };
        Ok(Some(msg))
    }

    /// Encode this message into ready-to-send wire chunks.
    pub fn to_chunks(&self, video_channel: u16) -> (r: EncodeResult<Vec<Vec<u8>>>)
        ensures
            match self@.body_error() {
                None => r matches Ok(chunks) && envelope::are_chunks(
                    chunks@,
                    self@.type_code(),
                    self@.rides_on(video_channel),
                    self@.body(),
                ),
                Some(e) => r matches Err(f) && f == e,
            },
    {
        let body = self.encode_body()?;
        envelope::fragment(self.msg_type(), self.channel(video_channel), body.as_slice())
    }
}

/// A message decodes from its own type code and body, whatever follows the body.
pub proof fn law_registry_round_trip(m: MessageView, rest: Seq<u8>)
    requires
        m.body_error() is None,
        m.restorable(),
    ensures
        parse_body(m.type_code(), m.body() + rest) == Ok::<Option<MessageView>, DecodeError>(
            Some(m),
        ),
{
    match m {
        MessageView::ClientHello(v) => pdu::law_decode_inverts_encode::<ClientHello>(v, rest),
        MessageView::ServerHello(v) => pdu::law_decode_inverts_encode::<ServerHello>(v, rest),
        MessageView::Error(v) => pdu::law_decode_inverts_encode::<Error>(v, rest),
        MessageView::Close(v) => pdu::law_decode_inverts_encode::<Close>(v, rest),
        MessageView::Ping(v) => pdu::law_decode_inverts_encode::<Ping>(v, rest),
        MessageView::Pong(v) => pdu::law_decode_inverts_encode::<Pong>(v, rest),
        MessageView::QualityHint(v) => pdu::law_decode_inverts_encode::<QualityHint>(v, rest),
        MessageView::DisplayLayout(v) => pdu::law_decode_inverts_encode::<DisplayLayout>(v, rest),
        MessageView::WindowOpened(v) => pdu::law_decode_inverts_encode::<WindowOpened>(v, rest),
        MessageView::WindowClosed(v) => pdu::law_decode_inverts_encode::<WindowClosed>(v, rest),
        MessageView::WindowGeometry(v) => pdu::law_decode_inverts_encode::<WindowGeometry>(v, rest),
        MessageView::WindowTitle(v) => pdu::law_decode_inverts_encode::<WindowTitle>(v, rest),
        MessageView::WindowState(v) => pdu::law_decode_inverts_encode::<WindowState>(v, rest),
        MessageView::WindowZOrder(v) => pdu::law_decode_inverts_encode::<WindowZOrder>(v, rest),
        MessageView::WindowIcon(v) => pdu::law_decode_inverts_encode::<WindowIcon>(v, rest),
        MessageView::FrameData(v) => pdu::law_decode_inverts_encode::<FrameData>(v, rest),
        MessageView::FrameAck(v) => pdu::law_decode_inverts_encode::<FrameAck>(v, rest),
        MessageView::PointerEvent(v) => pdu::law_decode_inverts_encode::<PointerEvent>(v, rest),
        MessageView::KeyEvent(v) => pdu::law_decode_inverts_encode::<KeyEvent>(v, rest),
        MessageView::TextInput(v) => pdu::law_decode_inverts_encode::<TextInput>(v, rest),
        MessageView::ModifierSync(v) => pdu::law_decode_inverts_encode::<ModifierSync>(v, rest),
        MessageView::WindowControl(v) => pdu::law_decode_inverts_encode::<WindowControl>(v, rest),
        MessageView::CursorShape(v) => pdu::law_decode_inverts_encode::<CursorShape>(v, rest),
        MessageView::CursorPosition(v) => pdu::law_decode_inverts_encode::<CursorPosition>(v, rest),
        MessageView::CursorVisibility(v) => pdu::law_decode_inverts_encode::<CursorVisibility>(v, rest),
    }
}

/// A body cut short is an error, wherever it was cut.
pub proof fn law_truncated_bodies_are_errors(m: MessageView, cut: int)
    requires
        m.body_error() is None,
        m.restorable(),
        0 <= cut < m.body().len(),
    ensures
        parse_body(m.type_code(), m.body().subrange(0, cut)) is Err,
{
    match m {
        MessageView::ClientHello(v) => pdu::law_truncation_is_an_error::<ClientHello>(v, cut),
        MessageView::ServerHello(v) => pdu::law_truncation_is_an_error::<ServerHello>(v, cut),
        MessageView::Error(v) => pdu::law_truncation_is_an_error::<Error>(v, cut),
        MessageView::Close(v) => pdu::law_truncation_is_an_error::<Close>(v, cut),
        MessageView::Ping(v) => pdu::law_truncation_is_an_error::<Ping>(v, cut),
        MessageView::Pong(v) => pdu::law_truncation_is_an_error::<Pong>(v, cut),
        MessageView::QualityHint(v) => pdu::law_truncation_is_an_error::<QualityHint>(v, cut),
        MessageView::DisplayLayout(v) => pdu::law_truncation_is_an_error::<DisplayLayout>(v, cut),
        MessageView::WindowOpened(v) => pdu::law_truncation_is_an_error::<WindowOpened>(v, cut),
        MessageView::WindowClosed(v) => pdu::law_truncation_is_an_error::<WindowClosed>(v, cut),
        MessageView::WindowGeometry(v) => pdu::law_truncation_is_an_error::<WindowGeometry>(v, cut),
        MessageView::WindowTitle(v) => pdu::law_truncation_is_an_error::<WindowTitle>(v, cut),
        MessageView::WindowState(v) => pdu::law_truncation_is_an_error::<WindowState>(v, cut),
        MessageView::WindowZOrder(v) => pdu::law_truncation_is_an_error::<WindowZOrder>(v, cut),
        MessageView::WindowIcon(v) => pdu::law_truncation_is_an_error::<WindowIcon>(v, cut),
        MessageView::FrameData(v) => pdu::law_truncation_is_an_error::<FrameData>(v, cut),
        MessageView::FrameAck(v) => pdu::law_truncation_is_an_error::<FrameAck>(v, cut),
        MessageView::PointerEvent(v) => pdu::law_truncation_is_an_error::<PointerEvent>(v, cut),
        MessageView::KeyEvent(v) => pdu::law_truncation_is_an_error::<KeyEvent>(v, cut),
        MessageView::TextInput(v) => pdu::law_truncation_is_an_error::<TextInput>(v, cut),
        MessageView::ModifierSync(v) => pdu::law_truncation_is_an_error::<ModifierSync>(v, cut),
        MessageView::WindowControl(v) => pdu::law_truncation_is_an_error::<WindowControl>(v, cut),
        MessageView::CursorShape(v) => pdu::law_truncation_is_an_error::<CursorShape>(v, cut),
        MessageView::CursorPosition(v) => pdu::law_truncation_is_an_error::<CursorPosition>(v, cut),
        MessageView::CursorVisibility(v) => pdu::law_truncation_is_an_error::<CursorVisibility>(v, cut),
    }
}

/// Messages of different kinds have different type codes, and every code is a known one.
pub proof fn law_type_codes_are_distinct(m: MessageView, n: MessageView)
    requires
        m.type_code() == n.type_code(),
    ensures
        is_known(m.type_code()),
        (m is ClientHello) == (n is ClientHello),
        (m is ServerHello) == (n is ServerHello),
        (m is Error) == (n is Error),
        (m is Close) == (n is Close),
        (m is Ping) == (n is Ping),
        (m is Pong) == (n is Pong),
        (m is QualityHint) == (n is QualityHint),
        (m is DisplayLayout) == (n is DisplayLayout),
        (m is WindowOpened) == (n is WindowOpened),
        (m is WindowClosed) == (n is WindowClosed),
        (m is WindowGeometry) == (n is WindowGeometry),
        (m is WindowTitle) == (n is WindowTitle),
        (m is WindowState) == (n is WindowState),
        (m is WindowZOrder) == (n is WindowZOrder),
        (m is WindowIcon) == (n is WindowIcon),
        (m is FrameData) == (n is FrameData),
        (m is FrameAck) == (n is FrameAck),
        (m is PointerEvent) == (n is PointerEvent),
        (m is KeyEvent) == (n is KeyEvent),
        (m is TextInput) == (n is TextInput),
        (m is ModifierSync) == (n is ModifierSync),
        (m is WindowControl) == (n is WindowControl),
        (m is CursorShape) == (n is CursorShape),
        (m is CursorPosition) == (n is CursorPosition),
        (m is CursorVisibility) == (n is CursorVisibility),
{
}

/// A type that this build does not know is skipped, whatever its body holds.
pub proof fn law_unknown_types_are_skipped(msg_type: u8, body: Seq<u8>)
    requires
        !is_known(msg_type),
    ensures
        parse_body(msg_type, body) == Ok::<Option<MessageView>, DecodeError>(None),
{
}

/// Every message has its own type code on the wire.
pub proof fn law_messages_have_their_codes(m: &Message, r: u8)
    requires
        call_ensures(Message::msg_type, (m,), r),
    ensures
        r == match m {
            Message::ClientHello(_) => 0x01u8,
            Message::ServerHello(_) => 0x02u8,
            Message::Error(_) => 0x03u8,
            Message::Close(_) => 0x04u8,
            Message::Ping(_) => 0x05u8,
            Message::Pong(_) => 0x06u8,
            Message::QualityHint(_) => 0x07u8,
            Message::DisplayLayout(_) => 0x08u8,
            Message::WindowOpened(_) => 0x10u8,
            Message::WindowClosed(_) => 0x11u8,
            Message::WindowGeometry(_) => 0x12u8,
            Message::WindowTitle(_) => 0x13u8,
            Message::WindowState(_) => 0x14u8,
            Message::WindowZOrder(_) => 0x15u8,
            Message::WindowIcon(_) => 0x16u8,
            Message::FrameData(_) => 0x20u8,
            Message::FrameAck(_) => 0x21u8,
            Message::PointerEvent(_) => 0x30u8,
            Message::KeyEvent(_) => 0x31u8,
            Message::TextInput(_) => 0x32u8,
            Message::ModifierSync(_) => 0x33u8,
            Message::WindowControl(_) => 0x38u8,
            Message::CursorShape(_) => 0x40u8,
            Message::CursorPosition(_) => 0x41u8,
            Message::CursorVisibility(_) => 0x42u8,
        },
{
}

/// Frames ride on the video channel of their window. Of the others, what the user does rides on
/// channel 1, the cursor on channel 2, what becomes of windows on channel 3, and the rest on channel
/// 0.
pub proof fn law_messages_have_their_channels(m: &Message, video_channel: u16, r: u16)
    requires
        call_ensures(Message::channel, (m, video_channel), r),
    ensures
        r == match m {
            Message::ClientHello(_) => 0u16,
            Message::ServerHello(_) => 0u16,
            Message::Error(_) => 0u16,
            Message::Close(_) => 0u16,
            Message::Ping(_) => 0u16,
            Message::Pong(_) => 0u16,
            Message::QualityHint(_) => 0u16,
            Message::DisplayLayout(_) => 0u16,
            Message::WindowOpened(_) => 3u16,
            Message::WindowClosed(_) => 3u16,
            Message::WindowGeometry(_) => 3u16,
            Message::WindowTitle(_) => 3u16,
            Message::WindowState(_) => 3u16,
            Message::WindowZOrder(_) => 3u16,
            Message::WindowIcon(_) => 3u16,
            Message::FrameData(_) => video_channel,
            Message::FrameAck(_) => 0u16,
            Message::PointerEvent(_) => 1u16,
            Message::KeyEvent(_) => 1u16,
            Message::TextInput(_) => 1u16,
            Message::ModifierSync(_) => 1u16,
            Message::WindowControl(_) => 1u16,
            Message::CursorShape(_) => 2u16,
            Message::CursorPosition(_) => 2u16,
            Message::CursorVisibility(_) => 2u16,
        },
{
}

/// A body is what its message looks like by itself.
pub proof fn law_bodies_are_the_messages(m: &Message, r: EncodeResult<Vec<u8>>)
    requires
        call_ensures(Message::encode_body, (m,), r),
    ensures
        forall|v: ClientHello, x: EncodeResult<Vec<u8>>|
            *m == Message::ClientHello(v) && #[trigger] call_ensures(encode_vec::<ClientHello>, (&v,), x)
                ==> same_bytes(r, x),
        forall|v: ServerHello, x: EncodeResult<Vec<u8>>|
            *m == Message::ServerHello(v) && #[trigger] call_ensures(encode_vec::<ServerHello>, (&v,), x)
                ==> same_bytes(r, x),
        forall|v: Error, x: EncodeResult<Vec<u8>>|
            *m == Message::Error(v) && #[trigger] call_ensures(encode_vec::<Error>, (&v,), x)
                ==> same_bytes(r, x),
        forall|v: Close, x: EncodeResult<Vec<u8>>|
            *m == Message::Close(v) && #[trigger] call_ensures(encode_vec::<Close>, (&v,), x)
                ==> same_bytes(r, x),
        forall|v: Ping, x: EncodeResult<Vec<u8>>|
            *m == Message::Ping(v) && #[trigger] call_ensures(encode_vec::<Ping>, (&v,), x)
                ==> same_bytes(r, x),
        forall|v: Pong, x: EncodeResult<Vec<u8>>|
            *m == Message::Pong(v) && #[trigger] call_ensures(encode_vec::<Pong>, (&v,), x)
                ==> same_bytes(r, x),
        forall|v: QualityHint, x: EncodeResult<Vec<u8>>|
            *m == Message::QualityHint(v) && #[trigger] call_ensures(encode_vec::<QualityHint>, (&v,), x)
                ==> same_bytes(r, x),
        forall|v: DisplayLayout, x: EncodeResult<Vec<u8>>|
            *m == Message::DisplayLayout(v) && #[trigger] call_ensures(encode_vec::<DisplayLayout>, (&v,), x)
                ==> same_bytes(r, x),
        forall|v: WindowOpened, x: EncodeResult<Vec<u8>>|
            *m == Message::WindowOpened(v) && #[trigger] call_ensures(encode_vec::<WindowOpened>, (&v,), x)
                ==> same_bytes(r, x),
        forall|v: WindowClosed, x: EncodeResult<Vec<u8>>|
            *m == Message::WindowClosed(v) && #[trigger] call_ensures(encode_vec::<WindowClosed>, (&v,), x)
                ==> same_bytes(r, x),
        forall|v: WindowGeometry, x: EncodeResult<Vec<u8>>|
            *m == Message::WindowGeometry(v) && #[trigger] call_ensures(encode_vec::<WindowGeometry>, (&v,), x)
                ==> same_bytes(r, x),
        forall|v: WindowTitle, x: EncodeResult<Vec<u8>>|
            *m == Message::WindowTitle(v) && #[trigger] call_ensures(encode_vec::<WindowTitle>, (&v,), x)
                ==> same_bytes(r, x),
        forall|v: WindowState, x: EncodeResult<Vec<u8>>|
            *m == Message::WindowState(v) && #[trigger] call_ensures(encode_vec::<WindowState>, (&v,), x)
                ==> same_bytes(r, x),
        forall|v: WindowZOrder, x: EncodeResult<Vec<u8>>|
            *m == Message::WindowZOrder(v) && #[trigger] call_ensures(encode_vec::<WindowZOrder>, (&v,), x)
                ==> same_bytes(r, x),
        forall|v: WindowIcon, x: EncodeResult<Vec<u8>>|
            *m == Message::WindowIcon(v) && #[trigger] call_ensures(encode_vec::<WindowIcon>, (&v,), x)
                ==> same_bytes(r, x),
        forall|v: FrameData, x: EncodeResult<Vec<u8>>|
            *m == Message::FrameData(v) && #[trigger] call_ensures(encode_vec::<FrameData>, (&v,), x)
                ==> same_bytes(r, x),
        forall|v: FrameAck, x: EncodeResult<Vec<u8>>|
            *m == Message::FrameAck(v) && #[trigger] call_ensures(encode_vec::<FrameAck>, (&v,), x)
                ==> same_bytes(r, x),
        forall|v: PointerEvent, x: EncodeResult<Vec<u8>>|
            *m == Message::PointerEvent(v) && #[trigger] call_ensures(encode_vec::<PointerEvent>, (&v,), x)
                ==> same_bytes(r, x),
        forall|v: KeyEvent, x: EncodeResult<Vec<u8>>|
            *m == Message::KeyEvent(v) && #[trigger] call_ensures(encode_vec::<KeyEvent>, (&v,), x)
                ==> same_bytes(r, x),
        forall|v: TextInput, x: EncodeResult<Vec<u8>>|
            *m == Message::TextInput(v) && #[trigger] call_ensures(encode_vec::<TextInput>, (&v,), x)
                ==> same_bytes(r, x),
        forall|v: ModifierSync, x: EncodeResult<Vec<u8>>|
            *m == Message::ModifierSync(v) && #[trigger] call_ensures(encode_vec::<ModifierSync>, (&v,), x)
                ==> same_bytes(r, x),
        forall|v: WindowControl, x: EncodeResult<Vec<u8>>|
            *m == Message::WindowControl(v) && #[trigger] call_ensures(encode_vec::<WindowControl>, (&v,), x)
                ==> same_bytes(r, x),
        forall|v: CursorShape, x: EncodeResult<Vec<u8>>|
            *m == Message::CursorShape(v) && #[trigger] call_ensures(encode_vec::<CursorShape>, (&v,), x)
                ==> same_bytes(r, x),
        forall|v: CursorPosition, x: EncodeResult<Vec<u8>>|
            *m == Message::CursorPosition(v) && #[trigger] call_ensures(encode_vec::<CursorPosition>, (&v,), x)
                ==> same_bytes(r, x),
        forall|v: CursorVisibility, x: EncodeResult<Vec<u8>>|
            *m == Message::CursorVisibility(v) && #[trigger] call_ensures(encode_vec::<CursorVisibility>, (&v,), x)
                ==> same_bytes(r, x),
{
}

/// Whether two encodings are the same bytes, or the same error.
pub open spec fn same_bytes(a: EncodeResult<Vec<u8>>, b: EncodeResult<Vec<u8>>) -> bool {
    match (a, b) {
        (Ok(a), Ok(b)) => a@ == b@,
        (Err(a), Err(b)) => a == b,
        _ => false,
    }
}

/// A body is read as the message that its type code says, and a type that is not implemented is
/// skipped.
pub proof fn law_bodies_are_read_by_their_codes(
    msg_type: u8,
    body: &[u8],
    r: DecodeResult<Option<Message>>,
)
    requires
        call_ensures(Message::decode_known, (msg_type, body), r),
    ensures
        forall|x: DecodeResult<ClientHello>|
            msg_type == 0x01 && #[trigger] call_ensures(decode::<ClientHello>, (body,), x) ==> match x {
                Ok(v) => r matches Ok(Some(Message::ClientHello(w))) && w@ == v@,
                Err(e) => r == Err::<Option<Message>, _>(e),
            },
        forall|x: DecodeResult<ServerHello>|
            msg_type == 0x02 && #[trigger] call_ensures(decode::<ServerHello>, (body,), x) ==> match x {
                Ok(v) => r matches Ok(Some(Message::ServerHello(w))) && w@ == v@,
                Err(e) => r == Err::<Option<Message>, _>(e),
            },
        forall|x: DecodeResult<Error>|
            msg_type == 0x03 && #[trigger] call_ensures(decode::<Error>, (body,), x) ==> match x {
                Ok(v) => r matches Ok(Some(Message::Error(w))) && w@ == v@,
                Err(e) => r == Err::<Option<Message>, _>(e),
            },
        forall|x: DecodeResult<Close>|
            msg_type == 0x04 && #[trigger] call_ensures(decode::<Close>, (body,), x) ==> match x {
                Ok(v) => r matches Ok(Some(Message::Close(w))) && w@ == v@,
                Err(e) => r == Err::<Option<Message>, _>(e),
            },
        forall|x: DecodeResult<Ping>|
            msg_type == 0x05 && #[trigger] call_ensures(decode::<Ping>, (body,), x) ==> match x {
                Ok(v) => r matches Ok(Some(Message::Ping(w))) && w@ == v@,
                Err(e) => r == Err::<Option<Message>, _>(e),
            },
        forall|x: DecodeResult<Pong>|
            msg_type == 0x06 && #[trigger] call_ensures(decode::<Pong>, (body,), x) ==> match x {
                Ok(v) => r matches Ok(Some(Message::Pong(w))) && w@ == v@,
                Err(e) => r == Err::<Option<Message>, _>(e),
            },
        forall|x: DecodeResult<QualityHint>|
            msg_type == 0x07 && #[trigger] call_ensures(decode::<QualityHint>, (body,), x) ==> match x {
                Ok(v) => r matches Ok(Some(Message::QualityHint(w))) && w@ == v@,
                Err(e) => r == Err::<Option<Message>, _>(e),
            },
        forall|x: DecodeResult<DisplayLayout>|
            msg_type == 0x08 && #[trigger] call_ensures(decode::<DisplayLayout>, (body,), x) ==> match x {
                Ok(v) => r matches Ok(Some(Message::DisplayLayout(w))) && w@ == v@,
                Err(e) => r == Err::<Option<Message>, _>(e),
            },
        forall|x: DecodeResult<WindowOpened>|
            msg_type == 0x10 && #[trigger] call_ensures(decode::<WindowOpened>, (body,), x) ==> match x {
                Ok(v) => r matches Ok(Some(Message::WindowOpened(w))) && w@ == v@,
                Err(e) => r == Err::<Option<Message>, _>(e),
            },
        forall|x: DecodeResult<WindowClosed>|
            msg_type == 0x11 && #[trigger] call_ensures(decode::<WindowClosed>, (body,), x) ==> match x {
                Ok(v) => r matches Ok(Some(Message::WindowClosed(w))) && w@ == v@,
                Err(e) => r == Err::<Option<Message>, _>(e),
            },
        forall|x: DecodeResult<WindowGeometry>|
            msg_type == 0x12 && #[trigger] call_ensures(decode::<WindowGeometry>, (body,), x) ==> match x {
                Ok(v) => r matches Ok(Some(Message::WindowGeometry(w))) && w@ == v@,
                Err(e) => r == Err::<Option<Message>, _>(e),
            },
        forall|x: DecodeResult<WindowTitle>|
            msg_type == 0x13 && #[trigger] call_ensures(decode::<WindowTitle>, (body,), x) ==> match x {
                Ok(v) => r matches Ok(Some(Message::WindowTitle(w))) && w@ == v@,
                Err(e) => r == Err::<Option<Message>, _>(e),
            },
        forall|x: DecodeResult<WindowState>|
            msg_type == 0x14 && #[trigger] call_ensures(decode::<WindowState>, (body,), x) ==> match x {
                Ok(v) => r matches Ok(Some(Message::WindowState(w))) && w@ == v@,
                Err(e) => r == Err::<Option<Message>, _>(e),
            },
        forall|x: DecodeResult<WindowZOrder>|
            msg_type == 0x15 && #[trigger] call_ensures(decode::<WindowZOrder>, (body,), x) ==> match x {
                Ok(v) => r matches Ok(Some(Message::WindowZOrder(w))) && w@ == v@,
                Err(e) => r == Err::<Option<Message>, _>(e),
            },
        forall|x: DecodeResult<WindowIcon>|
            msg_type == 0x16 && #[trigger] call_ensures(decode::<WindowIcon>, (body,), x) ==> match x {
                Ok(v) => r matches Ok(Some(Message::WindowIcon(w))) && w@ == v@,
                Err(e) => r == Err::<Option<Message>, _>(e),
            },
        forall|x: DecodeResult<FrameData>|
            msg_type == 0x20 && #[trigger] call_ensures(decode::<FrameData>, (body,), x) ==> match x {
                Ok(v) => r matches Ok(Some(Message::FrameData(w))) && w@ == v@,
                Err(e) => r == Err::<Option<Message>, _>(e),
            },
        forall|x: DecodeResult<FrameAck>|
            msg_type == 0x21 && #[trigger] call_ensures(decode::<FrameAck>, (body,), x) ==> match x {
                Ok(v) => r matches Ok(Some(Message::FrameAck(w))) && w@ == v@,
                Err(e) => r == Err::<Option<Message>, _>(e),
            },
        forall|x: DecodeResult<PointerEvent>|
            msg_type == 0x30 && #[trigger] call_ensures(decode::<PointerEvent>, (body,), x) ==> match x {
                Ok(v) => r matches Ok(Some(Message::PointerEvent(w))) && w@ == v@,
                Err(e) => r == Err::<Option<Message>, _>(e),
            },
        forall|x: DecodeResult<KeyEvent>|
            msg_type == 0x31 && #[trigger] call_ensures(decode::<KeyEvent>, (body,), x) ==> match x {
                Ok(v) => r matches Ok(Some(Message::KeyEvent(w))) && w@ == v@,
                Err(e) => r == Err::<Option<Message>, _>(e),
            },
        forall|x: DecodeResult<TextInput>|
            msg_type == 0x32 && #[trigger] call_ensures(decode::<TextInput>, (body,), x) ==> match x {
                Ok(v) => r matches Ok(Some(Message::TextInput(w))) && w@ == v@,
                Err(e) => r == Err::<Option<Message>, _>(e),
            },
        forall|x: DecodeResult<ModifierSync>|
            msg_type == 0x33 && #[trigger] call_ensures(decode::<ModifierSync>, (body,), x) ==> match x {
                Ok(v) => r matches Ok(Some(Message::ModifierSync(w))) && w@ == v@,
                Err(e) => r == Err::<Option<Message>, _>(e),
            },
        forall|x: DecodeResult<WindowControl>|
            msg_type == 0x38 && #[trigger] call_ensures(decode::<WindowControl>, (body,), x) ==> match x {
                Ok(v) => r matches Ok(Some(Message::WindowControl(w))) && w@ == v@,
                Err(e) => r == Err::<Option<Message>, _>(e),
            },
        forall|x: DecodeResult<CursorShape>|
            msg_type == 0x40 && #[trigger] call_ensures(decode::<CursorShape>, (body,), x) ==> match x {
                Ok(v) => r matches Ok(Some(Message::CursorShape(w))) && w@ == v@,
                Err(e) => r == Err::<Option<Message>, _>(e),
            },
        forall|x: DecodeResult<CursorPosition>|
            msg_type == 0x41 && #[trigger] call_ensures(decode::<CursorPosition>, (body,), x) ==> match x {
                Ok(v) => r matches Ok(Some(Message::CursorPosition(w))) && w@ == v@,
                Err(e) => r == Err::<Option<Message>, _>(e),
            },
        forall|x: DecodeResult<CursorVisibility>|
            msg_type == 0x42 && #[trigger] call_ensures(decode::<CursorVisibility>, (body,), x) ==> match x {
                Ok(v) => r matches Ok(Some(Message::CursorVisibility(w))) && w@ == v@,
                Err(e) => r == Err::<Option<Message>, _>(e),
            },
        msg_type == 0 || 0x08 < msg_type < 0x10 || 0x16 < msg_type < 0x20 || 0x21 < msg_type < 0x30
            || 0x33 < msg_type < 0x38 || 0x38 < msg_type < 0x40 || 0x42 < msg_type ==> r
            == Ok::<Option<Message>, DecodeError>(None),
{
}

/// Where an unknown type is not skipped, it is an error; a known one is read the same way.
pub proof fn law_unknown_bodies_are_errors(
    msg_type: u8,
    body: &[u8],
    known: DecodeResult<Option<Message>>,
    r: DecodeResult<Message>,
)
    requires
        call_ensures(Message::decode_known, (msg_type, body), known),
        call_ensures(Message::decode_body, (msg_type, body), r),
    ensures
        match known {
            Ok(Some(m)) => r matches Ok(x) && x@ == m@,
            Ok(None) => r matches Err(DecodeError::InvalidField { field, .. }) && field@ == "type"@,
            Err(e) => r == Err::<Message, _>(e),
        },
{
}

/// A message goes out as its body, cut into chunks of its type on its channel.
pub proof fn law_messages_are_cut_up(
    m: &Message,
    video_channel: u16,
    msg_type: u8,
    on: u16,
    body: &[u8],
    bytes: EncodeResult<Vec<u8>>,
    cut: EncodeResult<Vec<Vec<u8>>>,
    r: EncodeResult<Vec<Vec<u8>>>,
    i: int,
)
    requires
        call_ensures(Message::to_chunks, (m, video_channel), r),
        call_ensures(Message::msg_type, (m,), msg_type),
        call_ensures(Message::channel, (m, video_channel), on),
        call_ensures(Message::encode_body, (m,), bytes),
        bytes is Ok ==> body@ == bytes->Ok_0@,
        call_ensures(envelope::fragment, (msg_type, on, body), cut),
    ensures
        match bytes {
            Err(e) => r == Err::<Vec<Vec<u8>>, _>(e),
            Ok(_) => {
                &&& r is Ok && cut is Ok
                &&& r->Ok_0@.len() == cut->Ok_0@.len()
                &&& 0 <= i < cut->Ok_0@.len() ==> r->Ok_0@[i]@ == cut->Ok_0@[i]@
            },
        },
{
}

} // verus!
